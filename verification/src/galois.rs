//! What the prover service answers.

use crate::errors::{InvalidLength, MissingField};
use crate::hash::{lemma_h256_round_trip, H256};
use crate::protos;
use vstd::prelude::*;

verus! {

/// A zero-knowledge proof, in the forms that the prover hands out.
#[derive(Debug, Clone, PartialEq, Eq)]
pub struct ZeroKnowledgeProof {
    pub content: Vec<u8>,
    pub compressed_content: Vec<u8>,
    pub evm_proof: Vec<u8>,
    pub public_inputs: Vec<u8>,
}

impl ZeroKnowledgeProof {
    /// The proof that a wire message stands for: every message is a proof.
    pub open spec fn of_raw(raw: protos::ZeroKnowledgeProof) -> ZeroKnowledgeProof {
        ZeroKnowledgeProof {
            content: raw.content,
            compressed_content: raw.compressed_content,
            evm_proof: raw.evm_proof,
            public_inputs: raw.public_inputs,
        }
    }

    /// The wire message that stands for a proof.
    pub open spec fn raw_of(self) -> protos::ZeroKnowledgeProof {
        protos::ZeroKnowledgeProof {
            content: self.content,
            compressed_content: self.compressed_content,
            evm_proof: self.evm_proof,
            public_inputs: self.public_inputs,
        }
    }

    /// Takes a wire message as it is.
    pub fn from(value: protos::ZeroKnowledgeProof) -> (r: ZeroKnowledgeProof)
        ensures
            r == Self::of_raw(value),
            r.raw_of() == value,
    {
        ZeroKnowledgeProof {
            content: value.content,
            compressed_content: value.compressed_content,
            evm_proof: value.evm_proof,
            public_inputs: value.public_inputs,
        }
    }

    /// The wire message that stands for this proof.
    pub fn into_raw(self) -> (r: protos::ZeroKnowledgeProof)
        ensures
            r == self.raw_of(),
            Self::of_raw(r) == self,
    {
        protos::ZeroKnowledgeProof {
            content: self.content,
            compressed_content: self.compressed_content,
            evm_proof: self.evm_proof,
            public_inputs: self.public_inputs,
        }
    }
}

/// A proof, and the root of the validator set it was made against.
#[derive(Debug, Clone, PartialEq, Eq)]
pub struct ProveResponse {
    pub proof: ZeroKnowledgeProof,
    pub trusted_validator_set_root: H256,
}

/// Why a wire message is not a prove response.
#[derive(Debug, Clone, PartialEq, Eq)]
pub enum TryFromProveResponseError {
    /// The proof is absent.
    MissingField(MissingField),
    /// The root of the validator set is not 32 bytes long.
    TrustedValidatorSetRoot(InvalidLength),
}

impl ProveResponse {
    /// The prove response that a wire message stands for, or why it stands
    /// for none.
    pub open spec fn parsed(raw: protos::ProveResponse) -> Result<
        ProveResponse,
        TryFromProveResponseError,
    > {
        match (raw.proof) {
            None => Err(TryFromProveResponseError::MissingField(MissingField("proof"))),
            Some(proof) => match H256::parse(raw.trusted_validator_set_root@) {
                Err(e) => Err(TryFromProveResponseError::TrustedValidatorSetRoot(e)),
                Ok(trusted_validator_set_root) => Ok(
                    ProveResponse {
                        proof: ZeroKnowledgeProof::of_raw(proof),
                        trusted_validator_set_root,
                    },
                ),
            },
        }
    }

    /// Validates a wire message: the proof must be present, and the root of
    /// the validator set 32 bytes long.
    pub fn try_from(value: protos::ProveResponse) -> (r: Result<
        ProveResponse,
        TryFromProveResponseError,
    >)
        ensures
            r == Self::parsed(value),
    {
        let raw_proof = value.proof;
        let zero_knowledge_proof = match raw_proof {
            Some(raw) => ZeroKnowledgeProof::from(raw),
            None => {
                return Err(TryFromProveResponseError::MissingField(MissingField("proof")));
            },
        };
        match H256::try_from(value.trusted_validator_set_root) {
            Ok(trusted_validator_set_root) => Ok(
                ProveResponse { proof: zero_knowledge_proof, trusted_validator_set_root },
            ),
            Err(e) => Err(TryFromProveResponseError::TrustedValidatorSetRoot(e)),
        }
    }

    /// The wire message that stands for this prove response. Validating it
    /// gives the prove response back.
    pub fn into_raw(self) -> (r: protos::ProveResponse)
        ensures
            r.proof == Some(self.proof.raw_of()),
            r.trusted_validator_set_root@ == self.trusted_validator_set_root.bytes(),
            Self::parsed(r) == Ok::<_, TryFromProveResponseError>(self),
    {
        proof {
            lemma_h256_round_trip(
                self.trusted_validator_set_root,
                self.trusted_validator_set_root.bytes(),
            );
        }
        protos::ProveResponse {
            proof: Some(self.proof.into_raw()),
            trusted_validator_set_root: self.trusted_validator_set_root.into_bytes(),
        }
    }
}

/// What the prover answers when asked how a request is coming along.
#[derive(Debug, Clone, PartialEq, Eq)]
pub enum PollResponse {
    /// The proof is still being made.
    Pending,
    /// The request failed.
    Failed(ProveRequestFailed),
    /// The proof is made.
    Done(ProveRequestDone),
}

/// The request failed, for this reason.
#[derive(Debug, Clone, PartialEq, Eq)]
pub struct ProveRequestFailed {
    pub message: String,
}

/// The proof is made, and this is it.
#[derive(Debug, Clone, PartialEq, Eq)]
pub struct ProveRequestDone {
    pub response: ProveResponse,
}

/// Why a wire message is not a poll response.
#[derive(Debug, Clone, PartialEq, Eq)]
pub enum TryFromPollResponseError {
    /// The result is absent, or it is done and the response is absent.
    MissingField(MissingField),
    /// The response is not a prove response.
    ProveResponse(TryFromProveResponseError),
}

impl PollResponse {
    /// The poll response that a wire message stands for, or why it stands
    /// for none.
    pub open spec fn parsed(raw: protos::PollResponse) -> Result<
        PollResponse,
        TryFromPollResponseError,
    > {
        match raw.result {
            None => Err(TryFromPollResponseError::MissingField(MissingField("result"))),
            Some(protos::PollResult::Pending) => Ok(PollResponse::Pending),
            Some(protos::PollResult::Failed(failed)) => Ok(
                PollResponse::Failed(ProveRequestFailed { message: failed.message }),
            ),
            Some(protos::PollResult::Done(done)) => match done.response {
                None => Err(TryFromPollResponseError::MissingField(MissingField("response"))),
                Some(response) => match ProveResponse::parsed(response) {
                    Err(e) => Err(TryFromPollResponseError::ProveResponse(e)),
                    Ok(response) => Ok(PollResponse::Done(ProveRequestDone { response })),
                },
            },
        }
    }

    /// Validates a wire message: the result must be present, and where it is
    /// done, the response must be present and a prove response.
    pub fn try_from(value: protos::PollResponse) -> (r: Result<
        PollResponse,
        TryFromPollResponseError,
    >)
        ensures
            r == Self::parsed(value),
    {
        let result = match value.result {
            Some(result) => result,
            None => {
                return Err(TryFromPollResponseError::MissingField(MissingField("result")));
            },
        };
        match result {
            protos::PollResult::Pending => Ok(PollResponse::Pending),
            protos::PollResult::Failed(failed) => Ok(
                PollResponse::Failed(ProveRequestFailed { message: failed.message }),
            ),
            protos::PollResult::Done(done) => {
                let response = match done.response {
                    Some(response) => response,
                    None => {
                        return Err(
                            TryFromPollResponseError::MissingField(MissingField("response")),
                        );
                    },
                };
                match ProveResponse::try_from(response) {
                    Ok(response) => Ok(PollResponse::Done(ProveRequestDone { response })),
                    Err(e) => Err(TryFromPollResponseError::ProveResponse(e)),
                }
            },
        }
    }

    /// What of this poll response shows in the wire message that stands for
    /// it: the case, the message of a failure, and the response where the
    /// proof is made.
    pub open spec fn agrees(self, raw: protos::PollResponse) -> bool {
        match self {
            PollResponse::Pending => raw.result == Some(protos::PollResult::Pending),
            PollResponse::Failed(failed) => raw.result == Some(
                protos::PollResult::Failed(protos::ProveRequestFailed { message: failed.message }),
            ),
            PollResponse::Done(done) => {
                &&& raw.result matches Some(protos::PollResult::Done(raw_done))
                &&& raw_done.response matches Some(response)
                &&& response.proof == Some(done.response.proof.raw_of())
                &&& response.trusted_validator_set_root@
                    == done.response.trusted_validator_set_root.bytes()
            },
        }
    }

    /// The wire message that stands for this poll response: its result is
    /// always present. Validating it gives the poll response back.
    pub fn into_raw(self) -> (r: protos::PollResponse)
        ensures
            self.agrees(r),
            Self::parsed(r) == Ok::<_, TryFromPollResponseError>(self),
    {
        protos::PollResponse {
            result: Some(
                match self {
                    PollResponse::Pending => protos::PollResult::Pending,
                    PollResponse::Failed(failed) => protos::PollResult::Failed(
                        protos::ProveRequestFailed { message: failed.message },
                    ),
                    PollResponse::Done(done) => protos::PollResult::Done(
                        protos::ProveRequestDone { response: Some(done.response.into_raw()) },
                    ),
                },
            ),
        }
    }
}

/// Nothing is lost between a wire message and the poll response it stands
/// for: the poll response agrees with the message.
pub proof fn lemma_poll_response_lossless(raw: protos::PollResponse)
    ensures
        PollResponse::parsed(raw) matches Ok(response) ==> response.agrees(raw),
{
    if let Some(protos::PollResult::Done(done)) = raw.result {
        if let Some(response) = done.response {
            crate::hash::lemma_h256_parse(response.trusted_validator_set_root@);
        }
    }
}

} // verus!
