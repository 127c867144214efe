//! The light client that tracks a chain by the signatures of its validators.

use crate::commitment::{MerkleRoot, TryFromMerkleRootError};
use crate::errors::{InvalidLength, MissingField};
use crate::hash::{lemma_h256_round_trip, H256};
use crate::protos;
use crate::timestamp::{Timestamp, TryFromTimestampError};
use vstd::prelude::*;

verus! {

/// What the light client keeps of one height of the chain it tracks.
#[derive(Debug, Clone, Copy, PartialEq, Eq)]
pub struct ConsensusState {
    pub timestamp: Timestamp,
    pub root: MerkleRoot,
    pub next_validators_hash: H256,
}

/// Why a wire message is not a consensus state.
#[derive(Debug, Clone, PartialEq, Eq)]
pub enum TryFromConsensusStateError {
    /// The timestamp or the root is absent.
    MissingField(MissingField),
    /// The root is not a merkle root.
    Root(TryFromMerkleRootError),
    /// The hash of the next validators is not 32 bytes long.
    NextValidatorsHash(InvalidLength),
    /// The timestamp is out of bounds.
    Timestamp(TryFromTimestampError),
}

impl ConsensusState {
    /// The error, if any, that keeps a wire message from being a consensus
    /// state. The timestamp is looked at first, then the root, then the
    /// validators' hash.
    pub open spec fn defect(raw: protos::TendermintConsensusState) -> Option<
        TryFromConsensusStateError,
    > {
        match raw.timestamp {
            None => Some(TryFromConsensusStateError::MissingField(MissingField("timestamp"))),
            Some(timestamp) => match Timestamp::defect(timestamp) {
                Some(e) => Some(TryFromConsensusStateError::Timestamp(e)),
                None => match raw.root {
                    None => Some(TryFromConsensusStateError::MissingField(MissingField("root"))),
                    Some(root) => match MerkleRoot::parsed(root.hash@) {
                        Err(e) => Some(TryFromConsensusStateError::Root(e)),
                        Ok(_) => match H256::parse(raw.next_validators_hash@) {
                            Err(e) => Some(TryFromConsensusStateError::NextValidatorsHash(e)),
                            Ok(_) => None,
                        },
                    },
                },
            },
        }
    }

    /// Whether this consensus state holds what the wire message `raw` holds.
    pub open spec fn agrees(self, raw: protos::TendermintConsensusState) -> bool {
        &&& raw.timestamp matches Some(timestamp)
        &&& self.timestamp.seconds_of() == timestamp.seconds
        &&& self.timestamp.nanos_of() == timestamp.nanos
        &&& raw.root matches Some(root)
        &&& self.root.hash.bytes() == root.hash@
        &&& self.next_validators_hash.bytes() == raw.next_validators_hash@
    }

    /// Validates a wire message: the timestamp must be present and within
    /// bounds, the root present and 32 bytes long, and the hash of the next
    /// validators 32 bytes long.
    pub fn try_from(value: protos::TendermintConsensusState) -> (r: Result<
        ConsensusState,
        TryFromConsensusStateError,
    >)
        ensures
            match r {
                Ok(state) => Self::defect(value) is None && state.agrees(value),
                Err(e) => Self::defect(value) == Some(e),
            },
    {
        let timestamp = match value.timestamp {
            Some(timestamp) => timestamp,
            None => {
                return Err(TryFromConsensusStateError::MissingField(MissingField("timestamp")));
            },
        };
        let timestamp = match Timestamp::try_from(timestamp) {
            Ok(timestamp) => timestamp,
            Err(e) => {
                return Err(TryFromConsensusStateError::Timestamp(e));
            },
        };
        let root = match value.root {
            Some(root) => root,
            None => {
                return Err(TryFromConsensusStateError::MissingField(MissingField("root")));
            },
        };
        let ghost root_bytes = root.hash@;
        let root = match MerkleRoot::try_from(root) {
            Ok(root) => root,
            Err(e) => {
                return Err(TryFromConsensusStateError::Root(e));
            },
        };
        proof {
            lemma_h256_round_trip(root.hash, root_bytes);
            lemma_h256_round_trip(root.hash, value.next_validators_hash@);
        }
        match H256::try_from(value.next_validators_hash) {
            Ok(next_validators_hash) => Ok(ConsensusState { timestamp, root, next_validators_hash }),
            Err(e) => Err(TryFromConsensusStateError::NextValidatorsHash(e)),
        }
    }

    /// The wire message that stands for this consensus state. It passes
    /// validation.
    pub fn into_raw(self) -> (r: protos::TendermintConsensusState)
        ensures
            self.agrees(r),
            Self::defect(r) is None,
    {
        proof {
            lemma_h256_round_trip(self.root.hash, self.root.hash.bytes());
            lemma_h256_round_trip(self.next_validators_hash, self.next_validators_hash.bytes());
        }
        protos::TendermintConsensusState {
            timestamp: Some(self.timestamp.into_raw()),
            root: Some(self.root.into_raw()),
            next_validators_hash: self.next_validators_hash.into_bytes(),
        }
    }
}

/// A wire message stands for at most one consensus state.
pub proof fn lemma_consensus_state_unique(
    a: ConsensusState,
    b: ConsensusState,
    raw: protos::TendermintConsensusState,
)
    requires
        a.agrees(raw),
        b.agrees(raw),
    ensures
        a == b,
{
    crate::timestamp::lemma_timestamp_ext(a.timestamp, b.timestamp);
    assert(a.root.hash.0 =~= b.root.hash.0);
    assert(a.next_validators_hash.0 =~= b.next_validators_hash.0);
}

} // verus!
