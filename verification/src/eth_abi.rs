//! The forms in which the light client's contract on an EVM chain takes and
//! hands out headers: as the wire messages, with every field present.

use vstd::prelude::*;

verus! {

/// A height.
#[derive(Debug, Clone, Copy, PartialEq, Eq, Structural)]
pub struct HeightData {
    pub revision_number: u64,
    pub revision_height: u64,
}

/// A point in time.
#[derive(Debug, Clone, Copy, PartialEq, Eq, Structural)]
pub struct TimestampData {
    pub secs: i64,
    pub nanos: i64,
}

/// The header of a part set.
#[derive(Debug, Clone, PartialEq, Eq)]
pub struct PartSetHeaderData {
    pub total: u32,
    pub hash: Vec<u8>,
}

/// A block id.
#[derive(Debug, Clone, PartialEq, Eq)]
pub struct BlockIdData {
    pub hash: Vec<u8>,
    pub part_set_header: PartSetHeaderData,
}

/// A commit signature.
#[derive(Debug, Clone, PartialEq, Eq)]
pub struct CommitSigData {
    pub block_id_flag: i32,
    pub validator_address: Vec<u8>,
    pub timestamp: TimestampData,
    pub signature: Vec<u8>,
}

/// A commit.
#[derive(Debug, Clone, PartialEq, Eq)]
pub struct CommitData {
    pub height: i64,
    pub round: i32,
    pub block_id: BlockIdData,
    pub signatures: Vec<CommitSigData>,
}

/// A block header, as far as the light clients read it.
#[derive(Debug, Clone, PartialEq, Eq)]
pub struct BlockHeaderData {
    pub chain_id: String,
    pub height: i64,
    pub time: TimestampData,
    pub validators_hash: Vec<u8>,
    pub next_validators_hash: Vec<u8>,
    pub app_hash: Vec<u8>,
}

/// A signed header.
#[derive(Debug, Clone, PartialEq, Eq)]
pub struct SignedHeaderData {
    pub header: BlockHeaderData,
    pub commit: CommitData,
}

/// What the light client is updated with.
#[derive(Debug, Clone, PartialEq, Eq)]
pub struct HeaderData {
    pub signed_header: SignedHeaderData,
    pub trusted_height: HeightData,
    pub zero_knowledge_proof: Vec<u8>,
}

} // verus!
