//! The questions that an on-chain light client asks the chain it runs on,
//! and what it makes of the answers.

use crate::height::Height;
use crate::ibc_path::ClientConsensusStatePath;
use crate::lightclients::ethereum::BlsPublicKey;
use vstd::prelude::*;
use vstd::string::StringExecFns;

verus! {

/// Why a question to the chain failed.
#[derive(Debug, Clone, PartialEq, Eq)]
pub enum Error {
    /// The chain could not verify the aggregate signature; it said why.
    FastAggregateVerify(String),
    /// The chain could not aggregate the public keys; it said why.
    AggregatePublicKeys(String),
    /// What the chain returned as the aggregate is not a public key.
    InvalidAggregatePublicKey,
    /// The chain could not hand out the consensus state; it or the decoder
    /// said why.
    ConsensusState(String),
}

/// Where the store of the IBC module answers queries.
pub const IBC_STORE_PATH: &'static str = "store/ibc/key";

/// What precedes the reason when the querier itself failed.
pub const SYSTEM_ERROR_PREFIX: &'static str = "Querier system error: ";

/// What precedes the reason when the queried contract failed.
pub const CONTRACT_ERROR_PREFIX: &'static str = "Querier contract error: ";

/// A query to the store of a module of the chain.
#[derive(Debug, Clone, PartialEq, Eq)]
pub struct AbciQuery {
    pub data: Vec<u8>,
    pub path: String,
    pub height: i64,
    pub prove: bool,
}

/// What came back from the querier.
#[derive(Debug, Clone, PartialEq, Eq)]
pub enum QuerierOutcome {
    /// The querier itself failed, for this reason.
    SystemErr(String),
    /// The queried contract failed, for this reason.
    ContractErr(String),
    /// The answer.
    Answer(Vec<u8>),
}

/// The query for the consensus state that the light client `client_id` of
/// this chain holds for `height`, asked while the chain executes the block
/// `block_height`.
///
/// The state of the block being executed is not committed yet, so the query
/// goes to the block before it, and asks for no proof.
pub fn consensus_state_query(client_id: String, height: Height, block_height: u64) -> (r:
    AbciQuery)
    requires
        1 <= block_height <= i64::MAX + 1,
    ensures
        r.data@ == (ClientConsensusStatePath { client_id, height }).key(),
        r.path@ == IBC_STORE_PATH@,
        r.height == block_height - 1,
        !r.prove,
{
    let path = ClientConsensusStatePath { client_id, height };
    AbciQuery {
        data: path.to_bytes(),
        path: IBC_STORE_PATH.to_owned(),
        height: (block_height - 1) as i64,
        prove: false,
    }
}

/// What the outcome of a query for a consensus state amounts to: the bytes
/// of the answer, or the failure with its reason.
pub open spec fn outcome_data(outcome: QuerierOutcome) -> Result<Seq<u8>, Seq<char>> {
    match outcome {
        QuerierOutcome::SystemErr(reason) => Err(SYSTEM_ERROR_PREFIX@ + reason@),
        QuerierOutcome::ContractErr(reason) => Err(CONTRACT_ERROR_PREFIX@ + reason@),
        QuerierOutcome::Answer(value) => Ok(value@),
    }
}

/// Takes the answer out of what came back from the querier for a consensus
/// state, or says which side failed and why.
pub fn abci_response_data(outcome: QuerierOutcome) -> (r: Result<Vec<u8>, Error>)
    ensures
        match r {
            Ok(value) => outcome_data(outcome) == Ok::<_, Seq<char>>(value@),
            Err(Error::ConsensusState(message)) => outcome_data(outcome) == Err::<Seq<u8>, _>(
                message@,
            ),
            Err(_) => false,
        },
{
    match outcome {
        QuerierOutcome::SystemErr(reason) => Err(
            Error::ConsensusState(SYSTEM_ERROR_PREFIX.to_owned().concat(reason.as_str())),
        ),
        QuerierOutcome::ContractErr(reason) => Err(
            Error::ConsensusState(CONTRACT_ERROR_PREFIX.to_owned().concat(reason.as_str())),
        ),
        QuerierOutcome::Answer(value) => Ok(value),
    }
}

/// Reads the aggregate public key out of the chain's answer: the answer
/// must be exactly the 48 bytes of a key.
pub fn aggregate_public_key(response: &[u8]) -> (r: Result<BlsPublicKey, Error>)
    ensures
        match r {
            Ok(key) => response@.len() == 48 && key.bytes() == response@,
            Err(e) => response@.len() != 48 && e == Error::InvalidAggregatePublicKey,
        },
{
    match BlsPublicKey::try_from_bytes(response) {
        Ok(key) => Ok(key),
        Err(_) => Err(Error::InvalidAggregatePublicKey),
    }
}

} // verus!
