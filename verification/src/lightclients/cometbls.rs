//! The light client that tracks a chain by zero-knowledge proofs of its
//! validators' signatures.

use crate::commitment::{MerkleRoot, TryFromMerkleRootError};
use crate::errors::{InvalidLength, MissingField};
use crate::hash::{lemma_h256_round_trip, H256};
use crate::height::Height;
use crate::protos;
use crate::eth_abi::{HeaderData, HeightData};
use crate::tendermint::eth_abi::TryFromEthAbiSignedHeaderError;
use crate::tendermint::types::{SignedHeader, TryFromSignedHeaderError};
use vstd::prelude::*;

verus! {

/// What the light client keeps of one height of the chain it tracks.
#[derive(Debug, Clone, Copy, PartialEq, Eq)]
pub struct ConsensusState {
    pub timestamp: u64,
    pub app_hash: MerkleRoot,
    pub next_validators_hash: H256,
}

/// Why a wire message is not a consensus state.
#[derive(Debug, Clone, PartialEq, Eq)]
pub enum TryFromConsensusStateError {
    /// The root is absent.
    MissingField(MissingField),
    /// The root is not a merkle root.
    Root(TryFromMerkleRootError),
    /// The hash of the next validators is not 32 bytes long.
    NextValidatorsHash(InvalidLength),
}

/// The consensus state as the light client's contract on an EVM chain keeps
/// it: the same three fields, each of a fixed size.
#[derive(Debug, Clone, Copy, PartialEq, Eq)]
pub struct OptimizedConsensusState {
    pub timestamp: u64,
    pub app_hash: [u8; 32],
    pub next_validators_hash: [u8; 32],
}

impl ConsensusState {
    /// The consensus state that a wire message stands for, or why it stands
    /// for none. The root is looked at first, then the validators' hash.
    pub open spec fn parsed(raw: protos::CometblsConsensusState) -> Result<
        ConsensusState,
        TryFromConsensusStateError,
    > {
        match raw.root {
            None => Err(TryFromConsensusStateError::MissingField(MissingField("root"))),
            Some(root) => match MerkleRoot::parsed(root.hash@) {
                Err(e) => Err(TryFromConsensusStateError::Root(e)),
                Ok(app_hash) => match H256::parse(raw.next_validators_hash@) {
                    Err(e) => Err(TryFromConsensusStateError::NextValidatorsHash(e)),
                    Ok(next_validators_hash) => Ok(
                        ConsensusState { timestamp: raw.timestamp, app_hash, next_validators_hash },
                    ),
                },
            },
        }
    }

    /// Validates a wire message: the root must be present and 32 bytes long,
    /// and so must be the hash of the next validators.
    pub fn try_from(value: protos::CometblsConsensusState) -> (r: Result<
        ConsensusState,
        TryFromConsensusStateError,
    >)
        ensures
            r == Self::parsed(value),
    {
        let root = match value.root {
            Some(root) => root,
            None => {
                return Err(TryFromConsensusStateError::MissingField(MissingField("root")));
            },
        };
        let app_hash = match MerkleRoot::try_from(root) {
            Ok(app_hash) => app_hash,
            Err(e) => {
                return Err(TryFromConsensusStateError::Root(e));
            },
        };
        match H256::try_from(value.next_validators_hash) {
            Ok(next_validators_hash) => Ok(
                ConsensusState { timestamp: value.timestamp, app_hash, next_validators_hash },
            ),
            Err(e) => Err(TryFromConsensusStateError::NextValidatorsHash(e)),
        }
    }

    /// The wire message that stands for this consensus state. Validating it
    /// gives the consensus state back.
    pub fn into_raw(self) -> (r: protos::CometblsConsensusState)
        ensures
            r.timestamp == self.timestamp,
            r.root matches Some(root) && root.hash@ == self.app_hash.hash.bytes(),
            r.next_validators_hash@ == self.next_validators_hash.bytes(),
            Self::parsed(r) == Ok::<_, TryFromConsensusStateError>(self),
    {
        proof {
            lemma_h256_round_trip(self.next_validators_hash, self.app_hash.hash.bytes());
        }
        protos::CometblsConsensusState {
            timestamp: self.timestamp,
            root: Some(self.app_hash.into_raw()),
            next_validators_hash: self.next_validators_hash.into_bytes(),
        }
    }

    /// Takes the consensus state out of the form that the contract keeps.
    /// Every such value is a consensus state.
    pub fn from_optimized(value: OptimizedConsensusState) -> (r: Result<
        ConsensusState,
        TryFromConsensusStateError,
    >)
        ensures
            r == Ok::<_, TryFromConsensusStateError>(
                ConsensusState {
                    timestamp: value.timestamp,
                    app_hash: MerkleRoot { hash: H256(value.app_hash) },
                    next_validators_hash: H256(value.next_validators_hash),
                },
            ),
    {
        Ok(
            ConsensusState {
                timestamp: value.timestamp,
                app_hash: MerkleRoot { hash: H256(value.app_hash) },
                next_validators_hash: H256(value.next_validators_hash),
            },
        )
    }

    /// The form of this consensus state that the contract keeps.
    pub fn into_optimized(self) -> (r: OptimizedConsensusState)
        ensures
            r == (OptimizedConsensusState {
                timestamp: self.timestamp,
                app_hash: self.app_hash.hash.0,
                next_validators_hash: self.next_validators_hash.0,
            }),
    {
        OptimizedConsensusState {
            timestamp: self.timestamp,
            app_hash: self.app_hash.hash.0,
            next_validators_hash: self.next_validators_hash.0,
        }
    }
}

/// What the light client is updated with: a signed header, the height that
/// the client trusts already, and the proof that the header's signatures
/// are those of the validators trusted at that height.
#[derive(Debug, Clone, PartialEq, Eq)]
pub struct Header {
    pub signed_header: SignedHeader,
    pub trusted_height: Height,
    pub zero_knowledge_proof: Vec<u8>,
}

/// Why a wire message is not a header.
#[derive(Debug, Clone, PartialEq, Eq)]
pub enum TryFromHeaderError {
    /// The signed header or the trusted height is absent.
    MissingField(MissingField),
    /// The signed header is not a signed header.
    SignedHeader(TryFromSignedHeaderError),
}

impl Header {
    /// The error, if any, that keeps a wire message from being a header. The
    /// signed header is looked at first, then the trusted height.
    pub open spec fn defect(raw: protos::CometblsHeader) -> Option<TryFromHeaderError> {
        match raw.signed_header {
            None => Some(TryFromHeaderError::MissingField(MissingField("signed_header"))),
            Some(signed_header) => match SignedHeader::defect(signed_header) {
                Some(e) => Some(TryFromHeaderError::SignedHeader(e)),
                None => match raw.trusted_height {
                    None => Some(TryFromHeaderError::MissingField(MissingField("trusted_height"))),
                    Some(_) => None,
                },
            },
        }
    }

    /// Whether this header holds what the wire message `raw` holds.
    pub open spec fn agrees(self, raw: protos::CometblsHeader) -> bool {
        &&& raw.signed_header matches Some(signed_header)
        &&& self.signed_header.agrees(signed_header)
        &&& raw.trusted_height matches Some(height)
        &&& self.trusted_height.revision_number == height.revision_number
        &&& self.trusted_height.revision_height == height.revision_height
        &&& self.zero_knowledge_proof@ == raw.zero_knowledge_proof@
    }

    /// Validates a wire message: the signed header must be present and be a
    /// signed header, and the trusted height must be present.
    pub fn try_from(value: protos::CometblsHeader) -> (r: Result<Header, TryFromHeaderError>)
        ensures
            match r {
                Ok(header) => Self::defect(value) is None && header.agrees(value)
                    && header.signed_header.well_formed(),
                Err(e) => Self::defect(value) == Some(e),
            },
    {
        let signed_header = match value.signed_header {
            Some(signed_header) => signed_header,
            None => {
                return Err(TryFromHeaderError::MissingField(MissingField("signed_header")));
            },
        };
        let signed_header = match SignedHeader::try_from(signed_header) {
            Ok(signed_header) => signed_header,
            Err(e) => {
                return Err(TryFromHeaderError::SignedHeader(e));
            },
        };
        let trusted_height = match value.trusted_height {
            Some(height) => Height::from(height),
            None => {
                return Err(TryFromHeaderError::MissingField(MissingField("trusted_height")));
            },
        };
        Ok(
            Header {
                signed_header,
                trusted_height,
                zero_knowledge_proof: value.zero_knowledge_proof,
            },
        )
    }

    /// The wire message that stands for this header. It passes validation
    /// if the signed header is well formed.
    pub fn into_raw(self) -> (r: protos::CometblsHeader)
        ensures
            self.agrees(r),
            self.signed_header.well_formed() ==> Self::defect(r) is None,
    {
        protos::CometblsHeader {
            signed_header: Some(self.signed_header.into_raw()),
            trusted_height: Some(self.trusted_height.into_raw()),
            zero_knowledge_proof: self.zero_knowledge_proof,
        }
    }
}

/// Nothing is lost between a wire message and the consensus state it stands
/// for: the message holds the timestamp, the bytes of the root and the bytes
/// of the validators' hash of the consensus state.
pub proof fn lemma_consensus_state_lossless(raw: protos::CometblsConsensusState)
    ensures
        ConsensusState::parsed(raw) matches Ok(state) ==> {
            &&& raw.timestamp == state.timestamp
            &&& raw.root matches Some(root) && root.hash@ == state.app_hash.hash.bytes()
            &&& raw.next_validators_hash@ == state.next_validators_hash.bytes()
        },
{
    if let Some(root) = raw.root {
        crate::hash::lemma_h256_parse(root.hash@);
    }
    crate::hash::lemma_h256_parse(raw.next_validators_hash@);
}

/// Why a value of the contract is not a header.
#[derive(Debug, Clone, Copy, PartialEq, Eq, Structural)]
pub enum TryFromEthAbiHeaderError {
    /// The signed header is not a signed header.
    SignedHeader(TryFromEthAbiSignedHeaderError),
}

impl Header {
    /// The error, if any, that keeps a value of the contract from being a
    /// header.
    pub open spec fn abi_defect(raw: HeaderData) -> Option<TryFromEthAbiHeaderError> {
        match SignedHeader::abi_defect(raw.signed_header) {
            Some(e) => Some(TryFromEthAbiHeaderError::SignedHeader(e)),
            None => None,
        }
    }

    /// Whether this header holds what the value of the contract `raw` holds.
    pub open spec fn abi_agrees(self, raw: HeaderData) -> bool {
        &&& self.signed_header.abi_agrees(raw.signed_header)
        &&& self.trusted_height.revision_number == raw.trusted_height.revision_number
        &&& self.trusted_height.revision_height == raw.trusted_height.revision_height
        &&& self.zero_knowledge_proof@ == raw.zero_knowledge_proof@
    }

    /// Validates a value of the contract: the signed header must be a
    /// signed header.
    pub fn try_from_eth_abi(value: HeaderData) -> (r: Result<Header, TryFromEthAbiHeaderError>)
        ensures
            match r {
                Ok(header) => Self::abi_defect(value) is None && header.abi_agrees(value)
                    && header.signed_header.well_formed(),
                Err(e) => Self::abi_defect(value) == Some(e),
            },
    {
        match SignedHeader::try_from_eth_abi(value.signed_header) {
            Ok(signed_header) => Ok(
                Header {
                    signed_header,
                    trusted_height: Height {
                        revision_number: value.trusted_height.revision_number,
                        revision_height: value.trusted_height.revision_height,
                    },
                    zero_knowledge_proof: value.zero_knowledge_proof,
                },
            ),
            Err(e) => Err(TryFromEthAbiHeaderError::SignedHeader(e)),
        }
    }

    /// The value of the contract that stands for this header. It passes
    /// validation if the signed header is well formed.
    pub fn into_eth_abi(self) -> (r: HeaderData)
        ensures
            self.abi_agrees(r),
            self.signed_header.well_formed() ==> Self::abi_defect(r) is None,
    {
        HeaderData {
            signed_header: self.signed_header.into_eth_abi(),
            trusted_height: HeightData {
                revision_number: self.trusted_height.revision_number,
                revision_height: self.trusted_height.revision_height,
            },
            zero_knowledge_proof: self.zero_knowledge_proof,
        }
    }
}

} // verus!
