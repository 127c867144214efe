//! Block ids, commits and signed headers.

use crate::errors::{ExpectedLength, InvalidLength, MissingField};
use crate::bytes::push_all;
use crate::hash::{array20, lemma_h256_parse, lemma_h256_round_trip, H160, H256};
use crate::protos;
use crate::timestamp::{
    bounded, check_bounds, BoundedIntError, Timestamp, TryFromTimestampError,
};
use vstd::prelude::*;

verus! {

/// The flag of a commit signature of a validator that did not vote.
pub const BLOCK_ID_FLAG_ABSENT: i32 = 1;

/// The flag of a commit signature of a validator that voted for the block.
pub const BLOCK_ID_FLAG_COMMIT: i32 = 2;

/// The flag of a commit signature of a validator that voted for no block.
pub const BLOCK_ID_FLAG_NIL: i32 = 3;

/// How many parts a block was split into, and the hash over them.
#[derive(Debug, Clone, Copy, PartialEq, Eq)]
pub struct PartSetHeader {
    pub total: u32,
    pub hash: H256,
}

/// What names a block.
#[derive(Debug, Clone, Copy, PartialEq, Eq)]
pub struct BlockId {
    pub hash: H256,
    pub part_set_header: PartSetHeader,
}

/// Why a wire message is not a block id.
#[derive(Debug, Clone, PartialEq, Eq)]
pub enum TryFromBlockIdError {
    /// The part set header is absent.
    MissingField(MissingField),
    /// The hash is not 32 bytes long.
    Hash(InvalidLength),
    /// The hash of the part set header is not 32 bytes long.
    PartSetHeader(InvalidLength),
}

/// The vote of one validator for a block, as a commit holds it.
#[derive(Debug, Clone, PartialEq, Eq)]
pub enum CommitSig {
    /// The validator did not vote.
    Absent,
    /// The validator voted for the block.
    Commit { validator_address: H160, timestamp: Timestamp, signature: Vec<u8> },
    /// The validator voted for no block.
    Nil { validator_address: H160, timestamp: Timestamp, signature: Vec<u8> },
}

/// Why a wire message is not a commit signature.
#[derive(Debug, Clone, PartialEq, Eq)]
pub enum TryFromCommitSigError {
    /// The flag is none of absent, commit and nil.
    UnknownBlockIdFlag(i32),
    /// The address of the validator is not 20 bytes long.
    ValidatorAddress(InvalidLength),
    /// The timestamp is absent.
    MissingField(MissingField),
    /// The timestamp is out of bounds.
    Timestamp(TryFromTimestampError),
}

/// The votes of the validators for one block.
#[derive(Debug, Clone, PartialEq, Eq)]
pub struct Commit {
    pub height: i64,
    pub round: i32,
    pub block_id: BlockId,
    pub signatures: Vec<CommitSig>,
}

/// Why a wire message is not a commit.
#[derive(Debug, Clone, PartialEq, Eq)]
pub enum TryFromCommitError {
    /// The height is negative.
    Height(BoundedIntError),
    /// The round is negative.
    Round(BoundedIntError),
    /// The block id is absent.
    MissingField(MissingField),
    /// The block id is not a block id.
    BlockId(TryFromBlockIdError),
    /// One of the signatures is not a commit signature.
    Signatures(TryFromCommitSigError),
}

impl BlockId {
    /// The block id that a wire message stands for, or why it stands for
    /// none. The hash is looked at first, then the part set header.
    pub open spec fn parsed(raw: protos::BlockId) -> Result<BlockId, TryFromBlockIdError> {
        match H256::parse(raw.hash@) {
            Err(e) => Err(TryFromBlockIdError::Hash(e)),
            Ok(hash) => match raw.part_set_header {
                None => Err(TryFromBlockIdError::MissingField(MissingField("part_set_header"))),
                Some(parts) => match H256::parse(parts.hash@) {
                    Err(e) => Err(TryFromBlockIdError::PartSetHeader(e)),
                    Ok(parts_hash) => Ok(
                        BlockId {
                            hash,
                            part_set_header: PartSetHeader { total: parts.total, hash: parts_hash },
                        },
                    ),
                },
            },
        }
    }

    /// Validates a wire message: both hashes must be 32 bytes long, and the
    /// part set header present.
    pub fn try_from(value: protos::BlockId) -> (r: Result<BlockId, TryFromBlockIdError>)
        ensures
            r == Self::parsed(value),
    {
        let hash = match H256::try_from(value.hash) {
            Ok(hash) => hash,
            Err(e) => {
                return Err(TryFromBlockIdError::Hash(e));
            },
        };
        let parts = match value.part_set_header {
            Some(parts) => parts,
            None => {
                return Err(TryFromBlockIdError::MissingField(MissingField("part_set_header")));
            },
        };
        match H256::try_from(parts.hash) {
            Ok(parts_hash) => Ok(
                BlockId { hash, part_set_header: PartSetHeader { total: parts.total, hash: parts_hash } },
            ),
            Err(e) => Err(TryFromBlockIdError::PartSetHeader(e)),
        }
    }

    /// The wire message that stands for this block id. Validating it gives
    /// the block id back.
    pub fn into_raw(self) -> (r: protos::BlockId)
        ensures
            Self::parsed(r) == Ok::<_, TryFromBlockIdError>(self),
    {
        proof {
            lemma_h256_round_trip(self.hash, self.hash.bytes());
            lemma_h256_round_trip(self.part_set_header.hash, self.part_set_header.hash.bytes());
        }
        protos::BlockId {
            hash: self.hash.into_bytes(),
            part_set_header: Some(
                protos::PartSetHeader {
                    total: self.part_set_header.total,
                    hash: self.part_set_header.hash.into_bytes(),
                },
            ),
        }
    }
}

impl CommitSig {
    /// The error, if any, that keeps a wire message from being a commit
    /// signature. An absent vote has no other field that matters. A vote
    /// has an address of 20 bytes and a timestamp within bounds.
    pub open spec fn defect(raw: protos::CommitSig) -> Option<TryFromCommitSigError> {
        if raw.block_id_flag == BLOCK_ID_FLAG_ABSENT {
            None
        } else if raw.block_id_flag != BLOCK_ID_FLAG_COMMIT && raw.block_id_flag
            != BLOCK_ID_FLAG_NIL {
            Some(TryFromCommitSigError::UnknownBlockIdFlag(raw.block_id_flag))
        } else if raw.validator_address@.len() != 20 {
            Some(
                TryFromCommitSigError::ValidatorAddress(
                    InvalidLength {
                        expected: ExpectedLength::Exact(20),
                        found: raw.validator_address@.len() as usize,
                    },
                ),
            )
        } else {
            match raw.timestamp {
                None => Some(TryFromCommitSigError::MissingField(MissingField("timestamp"))),
                Some(timestamp) => match Timestamp::defect(timestamp) {
                    Some(e) => Some(TryFromCommitSigError::Timestamp(e)),
                    None => None,
                },
            }
        }
    }

    /// The flag that tells the case of this commit signature.
    pub open spec fn flag(self) -> i32 {
        match self {
            CommitSig::Absent => BLOCK_ID_FLAG_ABSENT,
            CommitSig::Commit { .. } => BLOCK_ID_FLAG_COMMIT,
            CommitSig::Nil { .. } => BLOCK_ID_FLAG_NIL,
        }
    }

    /// Whether this commit signature holds what the wire message `raw` holds.
    pub open spec fn agrees(self, raw: protos::CommitSig) -> bool {
        &&& self.flag() == raw.block_id_flag
        &&& match self {
            CommitSig::Absent => true,
            CommitSig::Commit { validator_address, timestamp, signature }
            | CommitSig::Nil { validator_address, timestamp, signature } => {
                &&& validator_address.0@ == raw.validator_address@
                &&& raw.timestamp matches Some(t)
                &&& timestamp.seconds_of() == t.seconds
                &&& timestamp.nanos_of() == t.nanos
                &&& signature@ == raw.signature@
            },
        }
    }

    /// Validates a wire message: the flag must be known, and a vote must
    /// come with an address of 20 bytes and a timestamp within bounds.
    pub fn try_from(value: protos::CommitSig) -> (r: Result<CommitSig, TryFromCommitSigError>)
        ensures
            match r {
                Ok(sig) => Self::defect(value) is None && sig.agrees(value),
                Err(e) => Self::defect(value) == Some(e),
            },
    {
        if value.block_id_flag == BLOCK_ID_FLAG_ABSENT {
            return Ok(CommitSig::Absent);
        }
        if value.block_id_flag != BLOCK_ID_FLAG_COMMIT && value.block_id_flag
            != BLOCK_ID_FLAG_NIL {
            return Err(TryFromCommitSigError::UnknownBlockIdFlag(value.block_id_flag));
        }
        if value.validator_address.len() != 20 {
            return Err(
                TryFromCommitSigError::ValidatorAddress(
                    InvalidLength {
                        expected: ExpectedLength::Exact(20),
                        found: value.validator_address.len(),
                    },
                ),
            );
        }
        let validator_address = H160(array20(value.validator_address.as_slice(), 0));
        assert(validator_address.0@ =~= value.validator_address@);
        let timestamp = match value.timestamp {
            Some(timestamp) => timestamp,
            None => {
                return Err(TryFromCommitSigError::MissingField(MissingField("timestamp")));
            },
        };
        let timestamp = match Timestamp::try_from(timestamp) {
            Ok(timestamp) => timestamp,
            Err(e) => {
                return Err(TryFromCommitSigError::Timestamp(e));
            },
        };
        if value.block_id_flag == BLOCK_ID_FLAG_COMMIT {
            Ok(CommitSig::Commit { validator_address, timestamp, signature: value.signature })
        } else {
            Ok(CommitSig::Nil { validator_address, timestamp, signature: value.signature })
        }
    }

    /// The wire message that stands for this commit signature. It passes
    /// validation.
    pub fn into_raw(self) -> (r: protos::CommitSig)
        ensures
            self.agrees(r),
            Self::defect(r) is None,
    {
        match self {
            CommitSig::Absent => protos::CommitSig {
                block_id_flag: BLOCK_ID_FLAG_ABSENT,
                validator_address: Vec::new(),
                timestamp: None,
                signature: Vec::new(),
            },
            CommitSig::Commit { validator_address, timestamp, signature } => {
                let mut address: Vec<u8> = Vec::new();
                push_all(&mut address, validator_address.0.as_slice());
                protos::CommitSig {
                    block_id_flag: BLOCK_ID_FLAG_COMMIT,
                    validator_address: address,
                    timestamp: Some(timestamp.into_raw()),
                    signature,
                }
            },
            CommitSig::Nil { validator_address, timestamp, signature } => {
                let mut address: Vec<u8> = Vec::new();
                push_all(&mut address, validator_address.0.as_slice());
                protos::CommitSig {
                    block_id_flag: BLOCK_ID_FLAG_NIL,
                    validator_address: address,
                    timestamp: Some(timestamp.into_raw()),
                    signature,
                }
            },
        }
    }
}

/// The defect of the first of `sigs` that has one.
pub open spec fn first_signature_defect(sigs: Seq<protos::CommitSig>) -> Option<
    TryFromCommitSigError,
>
    decreases sigs.len(),
{
    if sigs.len() == 0 {
        None
    } else {
        match first_signature_defect(sigs.drop_last()) {
            Some(e) => Some(e),
            None => CommitSig::defect(sigs.last()),
        }
    }
}

/// Where `first_signature_defect` finds nothing, no signature has a defect.
pub proof fn lemma_no_signature_defect(sigs: Seq<protos::CommitSig>)
    requires
        first_signature_defect(sigs) is None,
    ensures
        forall|i: int| 0 <= i < sigs.len() ==> CommitSig::defect(#[trigger] sigs[i]) is None,
    decreases sigs.len(),
{
    if sigs.len() > 0 {
        let head = sigs.drop_last();
        lemma_no_signature_defect(head);
        assert forall|i: int| 0 <= i < sigs.len() implies CommitSig::defect(#[trigger] sigs[i])
            is None by {
            if i < head.len() {
                assert(head[i] == sigs[i]);
            }
        }
    }
}

/// Where no signature has a defect, `first_signature_defect` finds nothing.
pub proof fn lemma_signatures_without_defect(sigs: Seq<protos::CommitSig>)
    requires
        forall|i: int| 0 <= i < sigs.len() ==> CommitSig::defect(#[trigger] sigs[i]) is None,
    ensures
        first_signature_defect(sigs) is None,
    decreases sigs.len(),
{
    if sigs.len() > 0 {
        let head = sigs.drop_last();
        assert forall|i: int| 0 <= i < head.len() implies CommitSig::defect(#[trigger] head[i])
            is None by {
            assert(head[i] == sigs[i]);
        }
        lemma_signatures_without_defect(head);
    }
}

/// A defect found among the first signatures is the defect found among all.
proof fn lemma_signature_defect_extends(sigs: Seq<protos::CommitSig>, i: int)
    requires
        0 <= i <= sigs.len(),
        first_signature_defect(sigs.subrange(0, i)) is Some,
    ensures
        first_signature_defect(sigs) == first_signature_defect(sigs.subrange(0, i)),
    decreases sigs.len() - i,
{
    if i < sigs.len() {
        let next = sigs.subrange(0, i + 1);
        assert(next.drop_last() =~= sigs.subrange(0, i));
        lemma_signature_defect_extends(sigs, i + 1);
    } else {
        assert(sigs.subrange(0, i) =~= sigs);
    }
}

impl Commit {
    /// The error, if any, that keeps a wire message from being a commit. The
    /// height is looked at first, then the round, the block id, and the
    /// signatures in order.
    pub open spec fn defect(raw: protos::Commit) -> Option<TryFromCommitError> {
        match bounded(0, i64::MAX, raw.height) {
            Err(e) => Some(TryFromCommitError::Height(e)),
            Ok(_) => match bounded(0, i32::MAX as i64, raw.round as i64) {
                Err(e) => Some(TryFromCommitError::Round(e)),
                Ok(_) => match raw.block_id {
                    None => Some(TryFromCommitError::MissingField(MissingField("block_id"))),
                    Some(block_id) => match BlockId::parsed(block_id) {
                        Err(e) => Some(TryFromCommitError::BlockId(e)),
                        Ok(_) => match first_signature_defect(raw.signatures@) {
                            Some(e) => Some(TryFromCommitError::Signatures(e)),
                            None => None,
                        },
                    },
                },
            },
        }
    }

    /// Whether the height and the round are not negative.
    pub open spec fn well_formed(self) -> bool {
        self.height >= 0 && self.round >= 0
    }

    /// Whether this commit holds what the wire message `raw` holds.
    pub open spec fn agrees(self, raw: protos::Commit) -> bool {
        &&& self.height == raw.height
        &&& self.round == raw.round
        &&& raw.block_id matches Some(block_id)
        &&& BlockId::parsed(block_id) == Ok::<_, TryFromBlockIdError>(self.block_id)
        &&& self.signatures@.len() == raw.signatures@.len()
        &&& forall|i: int|
            0 <= i < self.signatures@.len() ==> (#[trigger] self.signatures@[i]).agrees(
                raw.signatures@[i],
            )
    }

    /// Validates a wire message: the height and the round must not be
    /// negative, the block id must be present and a block id, and every
    /// signature a commit signature.
    #[verifier::loop_isolation(false)]
    pub fn try_from(value: protos::Commit) -> (r: Result<Commit, TryFromCommitError>)
        ensures
            match r {
                Ok(commit) => Self::defect(value) is None && commit.agrees(value)
                    && commit.well_formed(),
                Err(e) => Self::defect(value) == Some(e),
            },
    {
        let height = match check_bounds(0, i64::MAX, value.height) {
            Ok(height) => height,
            Err(e) => {
                return Err(TryFromCommitError::Height(e));
            },
        };
        match check_bounds(0, i32::MAX as i64, value.round as i64) {
            Ok(_) => {},
            Err(e) => {
                return Err(TryFromCommitError::Round(e));
            },
        }
        let round = value.round;
        let block_id = match value.block_id {
            Some(block_id) => block_id,
            None => {
                return Err(TryFromCommitError::MissingField(MissingField("block_id")));
            },
        };
        let block_id = match BlockId::try_from(block_id) {
            Ok(block_id) => block_id,
            Err(e) => {
                return Err(TryFromCommitError::BlockId(e));
            },
        };
        let ghost raw_sigs = value.signatures@;
        let mut raw_signatures = value.signatures;
        let mut signatures: Vec<CommitSig> = Vec::new();
        let mut i: usize = 0;
        let total = raw_signatures.len();
        while i < total
            invariant
                i <= total,
                total == raw_sigs.len(),
                raw_signatures@.len() == total,
                forall|j: int| i <= j < total ==> raw_signatures@[j] == raw_sigs[j],
                signatures@.len() == i,
                first_signature_defect(raw_sigs.subrange(0, i as int)) is None,
                forall|j: int| 0 <= j < i ==> (#[trigger] signatures@[j]).agrees(raw_sigs[j]),
            decreases total - i,
        {
            proof {
                let upto = raw_sigs.subrange(0, i + 1);
                assert(upto.drop_last() =~= raw_sigs.subrange(0, i as int));
                assert(upto.last() == raw_sigs[i as int]);
            }
            let mut taken = protos::CommitSig {
                block_id_flag: BLOCK_ID_FLAG_ABSENT,
                validator_address: Vec::new(),
                timestamp: None,
                signature: Vec::new(),
            };
            core::mem::swap(&mut taken, &mut raw_signatures[i]);
            match CommitSig::try_from(taken) {
                Ok(sig) => signatures.push(sig),
                Err(e) => {
                    proof {
                        lemma_signature_defect_extends(raw_sigs, i + 1);
                    }
                    return Err(TryFromCommitError::Signatures(e));
                },
            }
            i = i + 1;
        }
        proof {
            assert(raw_sigs.subrange(0, i as int) =~= raw_sigs);
        }
        Ok(Commit { height, round, block_id, signatures })
    }
}

impl Commit {
    /// The wire message that stands for this commit. It passes validation
    /// if the height and the round of the commit are not negative.
    #[verifier::loop_isolation(false)]
    pub fn into_raw(self) -> (r: protos::Commit)
        ensures
            self.agrees(r),
            self.well_formed() ==> Self::defect(r) is None,
    {
        let ghost sigs = self.signatures@;
        let mut rest = self.signatures;
        let mut signatures: Vec<protos::CommitSig> = Vec::new();
        let mut i: usize = 0;
        let total = rest.len();
        while i < total
            invariant
                i <= total,
                total == sigs.len(),
                rest@.len() == total,
                forall|j: int| i <= j < total ==> rest@[j] == sigs[j],
                signatures@.len() == i,
                forall|j: int|
                    0 <= j < i ==> (#[trigger] sigs[j]).agrees(signatures@[j])
                        && CommitSig::defect(signatures@[j]) is None,
            decreases total - i,
        {
            let mut taken = CommitSig::Absent;
            core::mem::swap(&mut taken, &mut rest[i]);
            signatures.push(taken.into_raw());
            i = i + 1;
        }
        let r = protos::Commit {
            height: self.height,
            round: self.round,
            block_id: Some(self.block_id.into_raw()),
            signatures,
        };
        proof {
            assert forall|j: int| 0 <= j < r.signatures@.len() implies CommitSig::defect(
                #[trigger] r.signatures@[j],
            ) is None by {
                assert(sigs[j].agrees(r.signatures@[j]));
            }
            lemma_signatures_without_defect(r.signatures@);
        }
        r
    }
}

/// The header of a block, as far as the light clients read it.
#[derive(Debug, Clone, PartialEq, Eq)]
pub struct BlockHeader {
    pub chain_id: String,
    pub height: i64,
    pub time: Timestamp,
    pub validators_hash: H256,
    pub next_validators_hash: H256,
    pub app_hash: H256,
}

/// Why a wire message is not a block header.
#[derive(Debug, Clone, PartialEq, Eq)]
pub enum TryFromBlockHeaderError {
    /// The height is negative.
    Height(BoundedIntError),
    /// The time is absent.
    MissingField(MissingField),
    /// The time is out of bounds.
    Timestamp(TryFromTimestampError),
    /// The hash of the validators is not 32 bytes long.
    ValidatorsHash(InvalidLength),
    /// The hash of the next validators is not 32 bytes long.
    NextValidatorsHash(InvalidLength),
    /// The hash of the application state is not 32 bytes long.
    AppHash(InvalidLength),
}

impl BlockHeader {
    /// The error, if any, that keeps a wire message from being a block
    /// header. The fields are looked at in their order.
    pub open spec fn defect(raw: protos::BlockHeader) -> Option<TryFromBlockHeaderError> {
        match bounded(0, i64::MAX, raw.height) {
            Err(e) => Some(TryFromBlockHeaderError::Height(e)),
            Ok(_) => match raw.time {
                None => Some(TryFromBlockHeaderError::MissingField(MissingField("time"))),
                Some(time) => match Timestamp::defect(time) {
                    Some(e) => Some(TryFromBlockHeaderError::Timestamp(e)),
                    None => match H256::parse(raw.validators_hash@) {
                        Err(e) => Some(TryFromBlockHeaderError::ValidatorsHash(e)),
                        Ok(_) => match H256::parse(raw.next_validators_hash@) {
                            Err(e) => Some(TryFromBlockHeaderError::NextValidatorsHash(e)),
                            Ok(_) => match H256::parse(raw.app_hash@) {
                                Err(e) => Some(TryFromBlockHeaderError::AppHash(e)),
                                Ok(_) => None,
                            },
                        },
                    },
                },
            },
        }
    }

    /// Whether this header holds what the wire message `raw` holds.
    pub open spec fn agrees(self, raw: protos::BlockHeader) -> bool {
        &&& self.chain_id@ == raw.chain_id@
        &&& self.height == raw.height
        &&& raw.time matches Some(time)
        &&& self.time.seconds_of() == time.seconds
        &&& self.time.nanos_of() == time.nanos
        &&& self.validators_hash.bytes() == raw.validators_hash@
        &&& self.next_validators_hash.bytes() == raw.next_validators_hash@
        &&& self.app_hash.bytes() == raw.app_hash@
    }

    /// Validates a wire message: the height must not be negative, the time
    /// must be present and within bounds, and each hash 32 bytes long.
    pub fn try_from(value: protos::BlockHeader) -> (r: Result<
        BlockHeader,
        TryFromBlockHeaderError,
    >)
        ensures
            match r {
                Ok(header) => Self::defect(value) is None && header.agrees(value) && header.height
                    >= 0,
                Err(e) => Self::defect(value) == Some(e),
            },
    {
        let height = match check_bounds(0, i64::MAX, value.height) {
            Ok(height) => height,
            Err(e) => {
                return Err(TryFromBlockHeaderError::Height(e));
            },
        };
        let time = match value.time {
            Some(time) => time,
            None => {
                return Err(TryFromBlockHeaderError::MissingField(MissingField("time")));
            },
        };
        let time = match Timestamp::try_from(time) {
            Ok(time) => time,
            Err(e) => {
                return Err(TryFromBlockHeaderError::Timestamp(e));
            },
        };
        proof {
            lemma_h256_parse(value.validators_hash@);
            lemma_h256_parse(value.next_validators_hash@);
            lemma_h256_parse(value.app_hash@);
        }
        let validators_hash = match H256::try_from(value.validators_hash) {
            Ok(hash) => hash,
            Err(e) => {
                return Err(TryFromBlockHeaderError::ValidatorsHash(e));
            },
        };
        let next_validators_hash = match H256::try_from(value.next_validators_hash) {
            Ok(hash) => hash,
            Err(e) => {
                return Err(TryFromBlockHeaderError::NextValidatorsHash(e));
            },
        };
        let app_hash = match H256::try_from(value.app_hash) {
            Ok(hash) => hash,
            Err(e) => {
                return Err(TryFromBlockHeaderError::AppHash(e));
            },
        };
        Ok(
            BlockHeader {
                chain_id: value.chain_id,
                height,
                time,
                validators_hash,
                next_validators_hash,
                app_hash,
            },
        )
    }

    /// The wire message that stands for this header. It passes validation
    /// if the height of the header is not negative.
    pub fn into_raw(self) -> (r: protos::BlockHeader)
        ensures
            self.agrees(r),
            self.height >= 0 ==> Self::defect(r) is None,
    {
        proof {
            lemma_h256_round_trip(self.validators_hash, self.validators_hash.bytes());
            lemma_h256_round_trip(self.next_validators_hash, self.next_validators_hash.bytes());
            lemma_h256_round_trip(self.app_hash, self.app_hash.bytes());
        }
        protos::BlockHeader {
            chain_id: self.chain_id,
            height: self.height,
            time: Some(self.time.into_raw()),
            validators_hash: self.validators_hash.into_bytes(),
            next_validators_hash: self.next_validators_hash.into_bytes(),
            app_hash: self.app_hash.into_bytes(),
        }
    }
}

/// A block header with the commit that signs it.
#[derive(Debug, Clone, PartialEq, Eq)]
pub struct SignedHeader {
    pub header: BlockHeader,
    pub commit: Commit,
}

/// Why a wire message is not a signed header.
#[derive(Debug, Clone, PartialEq, Eq)]
pub enum TryFromSignedHeaderError {
    /// The header or the commit is absent.
    MissingField(MissingField),
    /// The header is not a block header.
    Header(TryFromBlockHeaderError),
    /// The commit is not a commit.
    Commit(TryFromCommitError),
}

impl SignedHeader {
    /// The error, if any, that keeps a wire message from being a signed
    /// header. The header is looked at first, then the commit.
    pub open spec fn defect(raw: protos::SignedHeader) -> Option<TryFromSignedHeaderError> {
        match raw.header {
            None => Some(TryFromSignedHeaderError::MissingField(MissingField("header"))),
            Some(header) => match BlockHeader::defect(header) {
                Some(e) => Some(TryFromSignedHeaderError::Header(e)),
                None => match raw.commit {
                    None => Some(TryFromSignedHeaderError::MissingField(MissingField("commit"))),
                    Some(commit) => match Commit::defect(commit) {
                        Some(e) => Some(TryFromSignedHeaderError::Commit(e)),
                        None => None,
                    },
                },
            },
        }
    }

    /// Whether the header and the commit can be written to the wire and
    /// read back.
    pub open spec fn well_formed(self) -> bool {
        self.header.height >= 0 && self.commit.well_formed()
    }

    /// Whether this signed header holds what the wire message `raw` holds.
    pub open spec fn agrees(self, raw: protos::SignedHeader) -> bool {
        &&& raw.header matches Some(header)
        &&& self.header.agrees(header)
        &&& raw.commit matches Some(commit)
        &&& self.commit.agrees(commit)
    }

    /// Validates a wire message: the header and the commit must be present
    /// and be what they stand for.
    pub fn try_from(value: protos::SignedHeader) -> (r: Result<
        SignedHeader,
        TryFromSignedHeaderError,
    >)
        ensures
            match r {
                Ok(signed) => Self::defect(value) is None && signed.agrees(value)
                    && signed.well_formed(),
                Err(e) => Self::defect(value) == Some(e),
            },
    {
        let header = match value.header {
            Some(header) => header,
            None => {
                return Err(TryFromSignedHeaderError::MissingField(MissingField("header")));
            },
        };
        let header = match BlockHeader::try_from(header) {
            Ok(header) => header,
            Err(e) => {
                return Err(TryFromSignedHeaderError::Header(e));
            },
        };
        let commit = match value.commit {
            Some(commit) => commit,
            None => {
                return Err(TryFromSignedHeaderError::MissingField(MissingField("commit")));
            },
        };
        match Commit::try_from(commit) {
            Ok(commit) => Ok(SignedHeader { header, commit }),
            Err(e) => Err(TryFromSignedHeaderError::Commit(e)),
        }
    }

    /// The wire message that stands for this signed header. It passes
    /// validation if the signed header is well formed.
    pub fn into_raw(self) -> (r: protos::SignedHeader)
        ensures
            self.agrees(r),
            self.well_formed() ==> Self::defect(r) is None,
    {
        protos::SignedHeader {
            header: Some(self.header.into_raw()),
            commit: Some(self.commit.into_raw()),
        }
    }
}

/// A wire message stands for at most one commit signature: the same case,
/// the same address and timestamp, and the same bytes of the signature.
pub proof fn lemma_commit_sig_unique(a: CommitSig, b: CommitSig, raw: protos::CommitSig)
    requires
        a.agrees(raw),
        b.agrees(raw),
    ensures
        a.flag() == b.flag(),
        match (a, b) {
            (
                CommitSig::Commit { validator_address: va, timestamp: ta, signature: sa },
                CommitSig::Commit { validator_address: vb, timestamp: tb, signature: sb },
            ) => va == vb && ta == tb && sa@ == sb@,
            (
                CommitSig::Nil { validator_address: va, timestamp: ta, signature: sa },
                CommitSig::Nil { validator_address: vb, timestamp: tb, signature: sb },
            ) => va == vb && ta == tb && sa@ == sb@,
            (CommitSig::Absent, CommitSig::Absent) => true,
            _ => false,
        },
{
    match (a, b) {
        (
            CommitSig::Commit { validator_address: va, timestamp: ta, signature: sa },
            CommitSig::Commit { validator_address: vb, timestamp: tb, signature: sb },
        ) => {
            assert(va.0 =~= vb.0);
            crate::timestamp::lemma_timestamp_ext(ta, tb);
        },
        (
            CommitSig::Nil { validator_address: va, timestamp: ta, signature: sa },
            CommitSig::Nil { validator_address: vb, timestamp: tb, signature: sb },
        ) => {
            assert(va.0 =~= vb.0);
            crate::timestamp::lemma_timestamp_ext(ta, tb);
        },
        _ => {},
    }
}

/// A wire message stands for at most one commit: the same height, round and
/// block id, and signature by signature the same case.
pub proof fn lemma_commit_unique(a: Commit, b: Commit, raw: protos::Commit)
    requires
        a.agrees(raw),
        b.agrees(raw),
    ensures
        a.height == b.height,
        a.round == b.round,
        a.block_id == b.block_id,
        a.signatures@.len() == b.signatures@.len(),
        forall|i: int|
            0 <= i < a.signatures@.len() ==> (#[trigger] a.signatures@[i]).flag()
                == b.signatures@[i].flag(),
{
    assert forall|i: int| 0 <= i < a.signatures@.len() implies (#[trigger] a.signatures@[i]).flag()
        == b.signatures@[i].flag() by {
        assert(a.signatures@[i].agrees(raw.signatures@[i]));
        assert(b.signatures@[i].agrees(raw.signatures@[i]));
    }
}

/// A wire message stands for at most one block header, up to the bytes of
/// the name of the chain.
pub proof fn lemma_block_header_unique(a: BlockHeader, b: BlockHeader, raw: protos::BlockHeader)
    requires
        a.agrees(raw),
        b.agrees(raw),
    ensures
        a.chain_id@ == b.chain_id@,
        a.height == b.height,
        a.time == b.time,
        a.validators_hash == b.validators_hash,
        a.next_validators_hash == b.next_validators_hash,
        a.app_hash == b.app_hash,
{
    crate::timestamp::lemma_timestamp_ext(a.time, b.time);
    assert(a.validators_hash.0 =~= b.validators_hash.0);
    assert(a.next_validators_hash.0 =~= b.next_validators_hash.0);
    assert(a.app_hash.0 =~= b.app_hash.0);
}

} // verus!
