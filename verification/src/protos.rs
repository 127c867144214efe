//! The wire messages, as they come off the wire: every field is present or
//! absent, and every byte string has whatever length the sender gave it.

use vstd::prelude::*;

verus! {

/// `ibc.core.client.v1.Height`
#[derive(Debug, Clone, Copy, PartialEq, Eq, Structural)]
pub struct Height {
    pub revision_number: u64,
    pub revision_height: u64,
}

/// `ibc.core.commitment.v1.MerkleRoot`
#[derive(Debug, Clone, PartialEq, Eq)]
pub struct MerkleRoot {
    pub hash: Vec<u8>,
}

/// `ibc.core.commitment.v1.MerklePath`
#[derive(Debug, Clone, PartialEq, Eq)]
pub struct MerklePath {
    pub key_path: Vec<String>,
}

/// `google.protobuf.Timestamp`
#[derive(Debug, Clone, Copy, PartialEq, Eq, Structural)]
pub struct Timestamp {
    pub seconds: i64,
    pub nanos: i32,
}

/// `union.ibc.lightclients.cometbls.v1.ConsensusState`
#[derive(Debug, Clone, PartialEq, Eq)]
pub struct CometblsConsensusState {
    pub timestamp: u64,
    pub root: Option<MerkleRoot>,
    pub next_validators_hash: Vec<u8>,
}

/// `ibc.lightclients.tendermint.v1.ConsensusState`
#[derive(Debug, Clone, PartialEq, Eq)]
pub struct TendermintConsensusState {
    pub timestamp: Option<Timestamp>,
    pub root: Option<MerkleRoot>,
    pub next_validators_hash: Vec<u8>,
}

/// `union.ibc.lightclients.scroll.v1.ConsensusState`
#[derive(Debug, Clone, PartialEq, Eq)]
pub struct ScrollConsensusState {
    pub batch_index: u64,
    pub ibc_storage_root: Vec<u8>,
    pub timestamp: u64,
}

/// `union.galois.api.v2.ZeroKnowledgeProof`
#[derive(Debug, Clone, PartialEq, Eq)]
pub struct ZeroKnowledgeProof {
    pub content: Vec<u8>,
    pub compressed_content: Vec<u8>,
    pub evm_proof: Vec<u8>,
    pub public_inputs: Vec<u8>,
}

/// `union.galois.api.v2.ProveResponse`
#[derive(Debug, Clone, PartialEq, Eq)]
pub struct ProveResponse {
    pub proof: Option<ZeroKnowledgeProof>,
    pub trusted_validator_set_root: Vec<u8>,
}

/// `union.galois.api.v2.ProveRequestDone`
#[derive(Debug, Clone, PartialEq, Eq)]
pub struct ProveRequestDone {
    pub response: Option<ProveResponse>,
}

/// `union.galois.api.v2.ProveRequestFailed`
#[derive(Debug, Clone, PartialEq, Eq)]
pub struct ProveRequestFailed {
    pub message: String,
}

/// The cases of the `result` of a `union.galois.api.v2.PollResponse`.
#[derive(Debug, Clone, PartialEq, Eq)]
pub enum PollResult {
    Pending,
    Failed(ProveRequestFailed),
    Done(ProveRequestDone),
}

/// `union.galois.api.v2.PollResponse`
#[derive(Debug, Clone, PartialEq, Eq)]
pub struct PollResponse {
    pub result: Option<PollResult>,
}

/// `google.protobuf.Any`
#[derive(Debug, Clone, PartialEq, Eq)]
pub struct Any {
    pub type_url: String,
    pub value: Vec<u8>,
}

/// `cosmos.auth.v1beta1.BaseAccount`
#[derive(Debug, Clone, PartialEq, Eq)]
pub struct BaseAccount {
    pub address: String,
    pub pub_key: Option<Any>,
    pub account_number: u64,
    pub sequence: u64,
}

/// `union.ibc.lightclients.ethereum.v1.AccountProof`
#[derive(Debug, Clone, PartialEq, Eq)]
pub struct AccountProof {
    pub storage_root: Vec<u8>,
    pub proof: Vec<Vec<u8>>,
}

/// `union.ibc.lightclients.ethereum.v1.AccountUpdate`
#[derive(Debug, Clone, PartialEq, Eq)]
pub struct AccountUpdate {
    pub account_proof: Option<AccountProof>,
}

/// `union.ibc.lightclients.ethereum.v1.SyncCommittee`
#[derive(Debug, Clone, PartialEq, Eq)]
pub struct SyncCommittee {
    pub pubkeys: Vec<Vec<u8>>,
    pub aggregate_pubkey: Vec<u8>,
}

/// `union.ibc.lightclients.ethereum.v1.TrustedSyncCommittee`
#[derive(Debug, Clone, PartialEq, Eq)]
pub struct TrustedSyncCommittee {
    pub trusted_height: Option<Height>,
    pub current_sync_committee: Option<SyncCommittee>,
    pub next_sync_committee: Option<SyncCommittee>,
}

/// `tendermint.types.PartSetHeader`
#[derive(Debug, Clone, PartialEq, Eq)]
pub struct PartSetHeader {
    pub total: u32,
    pub hash: Vec<u8>,
}

/// `tendermint.types.BlockID`
#[derive(Debug, Clone, PartialEq, Eq)]
pub struct BlockId {
    pub hash: Vec<u8>,
    pub part_set_header: Option<PartSetHeader>,
}

/// `tendermint.types.CommitSig`
#[derive(Debug, Clone, PartialEq, Eq)]
pub struct CommitSig {
    pub block_id_flag: i32,
    pub validator_address: Vec<u8>,
    pub timestamp: Option<Timestamp>,
    pub signature: Vec<u8>,
}

/// `tendermint.types.Commit`
#[derive(Debug, Clone, PartialEq, Eq)]
pub struct Commit {
    pub height: i64,
    pub round: i32,
    pub block_id: Option<BlockId>,
    pub signatures: Vec<CommitSig>,
}

/// `tendermint.types.Header`, as far as the light clients read it.
#[derive(Debug, Clone, PartialEq, Eq)]
pub struct BlockHeader {
    pub chain_id: String,
    pub height: i64,
    pub time: Option<Timestamp>,
    pub validators_hash: Vec<u8>,
    pub next_validators_hash: Vec<u8>,
    pub app_hash: Vec<u8>,
}

/// `tendermint.types.SignedHeader`
#[derive(Debug, Clone, PartialEq, Eq)]
pub struct SignedHeader {
    pub header: Option<BlockHeader>,
    pub commit: Option<Commit>,
}

/// `union.ibc.lightclients.cometbls.v1.Header`
#[derive(Debug, Clone, PartialEq, Eq)]
pub struct CometblsHeader {
    pub signed_header: Option<SignedHeader>,
    pub trusted_height: Option<Height>,
    pub zero_knowledge_proof: Vec<u8>,
}

/// `cosmos.ics23.v1.InnerOp`, as far as proofs are carried.
#[derive(Debug, Clone, PartialEq, Eq)]
pub struct InnerOp {
    pub prefix: Vec<u8>,
    pub suffix: Vec<u8>,
}

/// `cosmos.ics23.v1.LeafOp`, as far as proofs are carried.
#[derive(Debug, Clone, PartialEq, Eq)]
pub struct LeafOp {
    pub length: i32,
    pub prefix: Vec<u8>,
}

/// `cosmos.ics23.v1.ExistenceProof`
#[derive(Debug, Clone, PartialEq, Eq)]
pub struct ExistenceProof {
    pub key: Vec<u8>,
    pub value: Vec<u8>,
    pub leaf: Option<LeafOp>,
    pub path: Vec<InnerOp>,
}

/// `cosmos.ics23.v1.NonExistenceProof`
#[derive(Debug, Clone, PartialEq, Eq)]
pub struct NonExistenceProof {
    pub key: Vec<u8>,
    pub left: Option<ExistenceProof>,
    pub right: Option<ExistenceProof>,
}

/// The cases of the `proof` of a `cosmos.ics23.v1.CommitmentProof`.
#[derive(Debug, Clone, PartialEq, Eq)]
pub enum Proof {
    Exist(ExistenceProof),
    Nonexist(NonExistenceProof),
    Batch,
    Compressed,
}

/// `cosmos.ics23.v1.CommitmentProof`
#[derive(Debug, Clone, PartialEq, Eq)]
pub struct CommitmentProof {
    pub proof: Option<Proof>,
}

/// `ibc.core.commitment.v1.MerkleProof`
#[derive(Debug, Clone, PartialEq, Eq)]
pub struct MerkleProof {
    pub proofs: Vec<CommitmentProof>,
}

} // verus!
