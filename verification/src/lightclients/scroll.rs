//! The light client that tracks a rollup of the Scroll family.

use crate::errors::InvalidLength;
use crate::hash::{lemma_h256_round_trip, H256};
use crate::protos;
use vstd::prelude::*;

verus! {

/// What the light client keeps of one batch of the rollup it tracks.
#[derive(Debug, Clone, Copy, PartialEq, Eq)]
pub struct ConsensusState {
    pub batch_index: u64,
    pub ibc_storage_root: H256,
    pub timestamp: u64,
}

/// Why a wire message is not a consensus state.
#[derive(Debug, Clone, Copy, PartialEq, Eq, Structural)]
pub enum TryFromConsensusStateError {
    /// The storage root is not 32 bytes long.
    IbcStorageRoot(InvalidLength),
}

impl ConsensusState {
    /// The consensus state that a wire message stands for, or why it stands
    /// for none.
    pub open spec fn parsed(raw: protos::ScrollConsensusState) -> Result<
        ConsensusState,
        TryFromConsensusStateError,
    > {
        match H256::parse(raw.ibc_storage_root@) {
            Err(e) => Err(TryFromConsensusStateError::IbcStorageRoot(e)),
            Ok(ibc_storage_root) => Ok(
                ConsensusState {
                    batch_index: raw.batch_index,
                    ibc_storage_root,
                    timestamp: raw.timestamp,
                },
            ),
        }
    }

    /// Validates a wire message: the storage root must be 32 bytes long.
    pub fn try_from(value: protos::ScrollConsensusState) -> (r: Result<
        ConsensusState,
        TryFromConsensusStateError,
    >)
        ensures
            r == Self::parsed(value),
    {
        match H256::try_from(value.ibc_storage_root) {
            Ok(ibc_storage_root) => Ok(
                ConsensusState {
                    batch_index: value.batch_index,
                    ibc_storage_root,
                    timestamp: value.timestamp,
                },
            ),
            Err(e) => Err(TryFromConsensusStateError::IbcStorageRoot(e)),
        }
    }

    /// The wire message that stands for this consensus state. Validating it
    /// gives the consensus state back.
    pub fn into_raw(self) -> (r: protos::ScrollConsensusState)
        ensures
            r.batch_index == self.batch_index,
            r.ibc_storage_root@ == self.ibc_storage_root.bytes(),
            r.timestamp == self.timestamp,
            Self::parsed(r) == Ok::<_, TryFromConsensusStateError>(self),
    {
        proof {
            lemma_h256_round_trip(self.ibc_storage_root, self.ibc_storage_root.bytes());
        }
        protos::ScrollConsensusState {
            batch_index: self.batch_index,
            ibc_storage_root: self.ibc_storage_root.into_bytes(),
            timestamp: self.timestamp,
        }
    }
}

/// Nothing is lost between a wire message and the consensus state it stands
/// for: the message holds the batch index, the timestamp and the bytes of
/// the storage root of the consensus state.
pub proof fn lemma_consensus_state_lossless(raw: protos::ScrollConsensusState)
    ensures
        ConsensusState::parsed(raw) matches Ok(state) ==> {
            &&& raw.batch_index == state.batch_index
            &&& raw.timestamp == state.timestamp
            &&& raw.ibc_storage_root@ == state.ibc_storage_root.bytes()
        },
{
    crate::hash::lemma_h256_parse(raw.ibc_storage_root@);
}

} // verus!
