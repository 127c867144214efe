//! Block ids, commits and signed headers in the forms of the EVM contract.

use crate::bytes::push_all;
use crate::errors::{ExpectedLength, InvalidLength};
use crate::eth_abi::{
    BlockHeaderData, BlockIdData, CommitData, CommitSigData, PartSetHeaderData, SignedHeaderData,
    TimestampData,
};
use crate::hash::{array20, lemma_h256_parse, lemma_h256_round_trip, H160, H256};
use crate::tendermint::types::{
    BlockHeader, BlockId, Commit, CommitSig, PartSetHeader, SignedHeader, BLOCK_ID_FLAG_ABSENT,
    BLOCK_ID_FLAG_COMMIT, BLOCK_ID_FLAG_NIL,
};
use crate::timestamp::{
    bounded, check_bounds, BoundedIntError, Timestamp, TryFromTimestampError,
};
use vstd::prelude::*;

verus! {

/// Why a value of the contract is not a block id.
#[derive(Debug, Clone, Copy, PartialEq, Eq, Structural)]
pub enum TryFromEthAbiBlockIdError {
    /// The hash is not 32 bytes long.
    Hash(InvalidLength),
    /// The hash of the part set header is not 32 bytes long.
    PartSetHeader(InvalidLength),
}

/// Why a value of the contract is not a commit signature.
#[derive(Debug, Clone, Copy, PartialEq, Eq, Structural)]
pub enum TryFromEthAbiCommitSigError {
    /// The flag is none of absent, commit and nil.
    UnknownBlockIdFlag(i32),
    /// The address of the validator is not 20 bytes long.
    ValidatorAddress(InvalidLength),
    /// The timestamp is out of bounds.
    Timestamp(TryFromTimestampError),
}

/// Why a value of the contract is not a commit.
#[derive(Debug, Clone, Copy, PartialEq, Eq, Structural)]
pub enum TryFromEthAbiCommitError {
    /// The height is negative.
    Height(BoundedIntError),
    /// The round is negative.
    Round(BoundedIntError),
    /// The block id is not a block id.
    BlockId(TryFromEthAbiBlockIdError),
    /// One of the signatures is not a commit signature.
    Signatures(TryFromEthAbiCommitSigError),
}

/// Why a value of the contract is not a block header.
#[derive(Debug, Clone, Copy, PartialEq, Eq, Structural)]
pub enum TryFromEthAbiBlockHeaderError {
    /// The height is negative.
    Height(BoundedIntError),
    /// The time is out of bounds.
    Timestamp(TryFromTimestampError),
    /// The hash of the validators is not 32 bytes long.
    ValidatorsHash(InvalidLength),
    /// The hash of the next validators is not 32 bytes long.
    NextValidatorsHash(InvalidLength),
    /// The hash of the application state is not 32 bytes long.
    AppHash(InvalidLength),
}

/// Why a value of the contract is not a signed header.
#[derive(Debug, Clone, Copy, PartialEq, Eq, Structural)]
pub enum TryFromEthAbiSignedHeaderError {
    /// The header is not a block header.
    Header(TryFromEthAbiBlockHeaderError),
    /// The commit is not a commit.
    Commit(TryFromEthAbiCommitError),
}

/// The error, if any, that keeps a timestamp of the contract from being a
/// timestamp: the seconds are looked at first.
pub open spec fn timestamp_defect(raw: TimestampData) -> Option<TryFromTimestampError> {
    match bounded(
        crate::timestamp::TIMESTAMP_SECONDS_MIN,
        crate::timestamp::TIMESTAMP_SECONDS_MAX,
        raw.secs,
    ) {
        Err(e) => Some(TryFromTimestampError::Seconds(e)),
        Ok(_) => match bounded(0, crate::timestamp::NANOS_MAX as i64, raw.nanos) {
            Err(e) => Some(TryFromTimestampError::Nanos(e)),
            Ok(_) => None,
        },
    }
}

/// Whether `timestamp` holds what the timestamp of the contract `raw` holds.
pub open spec fn timestamp_agrees(timestamp: Timestamp, raw: TimestampData) -> bool {
    timestamp.seconds_of() == raw.secs && timestamp.nanos_of() == raw.nanos
}

/// Validates a timestamp of the contract.
pub fn timestamp_from_eth_abi(value: TimestampData) -> (r: Result<
    Timestamp,
    TryFromTimestampError,
>)
    ensures
        match r {
            Ok(t) => timestamp_defect(value) is None && timestamp_agrees(t, value),
            Err(e) => timestamp_defect(value) == Some(e),
        },
{
    match check_bounds(
        crate::timestamp::TIMESTAMP_SECONDS_MIN,
        crate::timestamp::TIMESTAMP_SECONDS_MAX,
        value.secs,
    ) {
        Ok(_) => {},
        Err(e) => {
            return Err(TryFromTimestampError::Seconds(e));
        },
    }
    match check_bounds(0, crate::timestamp::NANOS_MAX as i64, value.nanos) {
        Ok(_) => {},
        Err(e) => {
            return Err(TryFromTimestampError::Nanos(e));
        },
    }
    match Timestamp::try_from(
        crate::protos::Timestamp { seconds: value.secs, nanos: value.nanos as i32 },
    ) {
        Ok(t) => Ok(t),
        Err(_) => unreached(),
    }
}

/// The timestamp of the contract that stands for `timestamp`.
pub fn timestamp_into_eth_abi(timestamp: Timestamp) -> (r: TimestampData)
    ensures
        timestamp_agrees(timestamp, r),
        timestamp_defect(r) is None,
{
    let raw = timestamp.into_raw();
    TimestampData { secs: raw.seconds, nanos: raw.nanos as i64 }
}

impl BlockId {
    /// The block id that a value of the contract stands for, or why it
    /// stands for none. The hash is looked at first.
    pub open spec fn abi_parsed(raw: BlockIdData) -> Result<BlockId, TryFromEthAbiBlockIdError> {
        match H256::parse(raw.hash@) {
            Err(e) => Err(TryFromEthAbiBlockIdError::Hash(e)),
            Ok(hash) => match H256::parse(raw.part_set_header.hash@) {
                Err(e) => Err(TryFromEthAbiBlockIdError::PartSetHeader(e)),
                Ok(parts_hash) => Ok(
                    BlockId {
                        hash,
                        part_set_header: PartSetHeader {
                            total: raw.part_set_header.total,
                            hash: parts_hash,
                        },
                    },
                ),
            },
        }
    }

    /// Validates a value of the contract: both hashes must be 32 bytes long.
    pub fn try_from_eth_abi(value: BlockIdData) -> (r: Result<BlockId, TryFromEthAbiBlockIdError>)
        ensures
            r == Self::abi_parsed(value),
    {
        let hash = match H256::try_from(value.hash) {
            Ok(hash) => hash,
            Err(e) => {
                return Err(TryFromEthAbiBlockIdError::Hash(e));
            },
        };
        match H256::try_from(value.part_set_header.hash) {
            Ok(parts_hash) => Ok(
                BlockId {
                    hash,
                    part_set_header: PartSetHeader {
                        total: value.part_set_header.total,
                        hash: parts_hash,
                    },
                },
            ),
            Err(e) => Err(TryFromEthAbiBlockIdError::PartSetHeader(e)),
        }
    }

    /// The value of the contract that stands for this block id. Validating
    /// it gives the block id back.
    pub fn into_eth_abi(self) -> (r: BlockIdData)
        ensures
            Self::abi_parsed(r) == Ok::<_, TryFromEthAbiBlockIdError>(self),
    {
        proof {
            lemma_h256_round_trip(self.hash, self.hash.bytes());
            lemma_h256_round_trip(self.part_set_header.hash, self.part_set_header.hash.bytes());
        }
        BlockIdData {
            hash: self.hash.into_bytes(),
            part_set_header: PartSetHeaderData {
                total: self.part_set_header.total,
                hash: self.part_set_header.hash.into_bytes(),
            },
        }
    }
}

impl CommitSig {
    /// The error, if any, that keeps a value of the contract from being a
    /// commit signature. An absent vote has no other field that matters.
    pub open spec fn abi_defect(raw: CommitSigData) -> Option<TryFromEthAbiCommitSigError> {
        if raw.block_id_flag == BLOCK_ID_FLAG_ABSENT {
            None
        } else if raw.block_id_flag != BLOCK_ID_FLAG_COMMIT && raw.block_id_flag
            != BLOCK_ID_FLAG_NIL {
            Some(TryFromEthAbiCommitSigError::UnknownBlockIdFlag(raw.block_id_flag))
        } else if raw.validator_address@.len() != 20 {
            Some(
                TryFromEthAbiCommitSigError::ValidatorAddress(
                    InvalidLength {
                        expected: ExpectedLength::Exact(20),
                        found: raw.validator_address@.len() as usize,
                    },
                ),
            )
        } else {
            match timestamp_defect(raw.timestamp) {
                Some(e) => Some(TryFromEthAbiCommitSigError::Timestamp(e)),
                None => None,
            }
        }
    }

    /// Whether this commit signature holds what the value of the contract
    /// `raw` holds.
    pub open spec fn abi_agrees(self, raw: CommitSigData) -> bool {
        &&& self.flag() == raw.block_id_flag
        &&& match self {
            CommitSig::Absent => true,
            CommitSig::Commit { validator_address, timestamp, signature }
            | CommitSig::Nil { validator_address, timestamp, signature } => {
                &&& validator_address.0@ == raw.validator_address@
                &&& timestamp_agrees(timestamp, raw.timestamp)
                &&& signature@ == raw.signature@
            },
        }
    }

    /// Validates a value of the contract: the flag must be known, and a
    /// vote must come with an address of 20 bytes and a timestamp within
    /// bounds.
    pub fn try_from_eth_abi(value: CommitSigData) -> (r: Result<
        CommitSig,
        TryFromEthAbiCommitSigError,
    >)
        ensures
            match r {
                Ok(sig) => Self::abi_defect(value) is None && sig.abi_agrees(value),
                Err(e) => Self::abi_defect(value) == Some(e),
            },
    {
        if value.block_id_flag == BLOCK_ID_FLAG_ABSENT {
            return Ok(CommitSig::Absent);
        }
        if value.block_id_flag != BLOCK_ID_FLAG_COMMIT && value.block_id_flag
            != BLOCK_ID_FLAG_NIL {
            return Err(TryFromEthAbiCommitSigError::UnknownBlockIdFlag(value.block_id_flag));
        }
        if value.validator_address.len() != 20 {
            return Err(
                TryFromEthAbiCommitSigError::ValidatorAddress(
                    InvalidLength {
                        expected: ExpectedLength::Exact(20),
                        found: value.validator_address.len(),
                    },
                ),
            );
        }
        let validator_address = H160(array20(value.validator_address.as_slice(), 0));
        assert(validator_address.0@ =~= value.validator_address@);
        let timestamp = match timestamp_from_eth_abi(value.timestamp) {
            Ok(timestamp) => timestamp,
            Err(e) => {
                return Err(TryFromEthAbiCommitSigError::Timestamp(e));
            },
        };
        if value.block_id_flag == BLOCK_ID_FLAG_COMMIT {
            Ok(CommitSig::Commit { validator_address, timestamp, signature: value.signature })
        } else {
            Ok(CommitSig::Nil { validator_address, timestamp, signature: value.signature })
        }
    }

    /// The value of the contract that stands for this commit signature. It
    /// passes validation. An absent vote has an empty address and signature
    /// and the timestamp of the epoch.
    pub fn into_eth_abi(self) -> (r: CommitSigData)
        ensures
            self.abi_agrees(r),
            Self::abi_defect(r) is None,
    {
        match self {
            CommitSig::Absent => CommitSigData {
                block_id_flag: BLOCK_ID_FLAG_ABSENT,
                validator_address: Vec::new(),
                timestamp: TimestampData { secs: 0, nanos: 0 },
                signature: Vec::new(),
            },
            CommitSig::Commit { validator_address, timestamp, signature } => {
                let mut address: Vec<u8> = Vec::new();
                push_all(&mut address, validator_address.0.as_slice());
                CommitSigData {
                    block_id_flag: BLOCK_ID_FLAG_COMMIT,
                    validator_address: address,
                    timestamp: timestamp_into_eth_abi(timestamp),
                    signature,
                }
            },
            CommitSig::Nil { validator_address, timestamp, signature } => {
                let mut address: Vec<u8> = Vec::new();
                push_all(&mut address, validator_address.0.as_slice());
                CommitSigData {
                    block_id_flag: BLOCK_ID_FLAG_NIL,
                    validator_address: address,
                    timestamp: timestamp_into_eth_abi(timestamp),
                    signature,
                }
            },
        }
    }
}

/// The defect of the first of `sigs` that has one.
pub open spec fn first_abi_signature_defect(sigs: Seq<CommitSigData>) -> Option<
    TryFromEthAbiCommitSigError,
>
    decreases sigs.len(),
{
    if sigs.len() == 0 {
        None
    } else {
        match first_abi_signature_defect(sigs.drop_last()) {
            Some(e) => Some(e),
            None => CommitSig::abi_defect(sigs.last()),
        }
    }
}

/// Where no signature has a defect, `first_abi_signature_defect` finds nothing.
proof fn lemma_abi_signatures_without_defect(sigs: Seq<CommitSigData>)
    requires
        forall|i: int| 0 <= i < sigs.len() ==> CommitSig::abi_defect(#[trigger] sigs[i]) is None,
    ensures
        first_abi_signature_defect(sigs) is None,
    decreases sigs.len(),
{
    if sigs.len() > 0 {
        let head = sigs.drop_last();
        assert forall|i: int| 0 <= i < head.len() implies CommitSig::abi_defect(
            #[trigger] head[i],
        ) is None by {
            assert(head[i] == sigs[i]);
        }
        lemma_abi_signatures_without_defect(head);
    }
}

/// A defect found among the first signatures is the defect found among all.
proof fn lemma_abi_signature_defect_extends(sigs: Seq<CommitSigData>, i: int)
    requires
        0 <= i <= sigs.len(),
        first_abi_signature_defect(sigs.subrange(0, i)) is Some,
    ensures
        first_abi_signature_defect(sigs) == first_abi_signature_defect(sigs.subrange(0, i)),
    decreases sigs.len() - i,
{
    if i < sigs.len() {
        let next = sigs.subrange(0, i + 1);
        assert(next.drop_last() =~= sigs.subrange(0, i));
        lemma_abi_signature_defect_extends(sigs, i + 1);
    } else {
        assert(sigs.subrange(0, i) =~= sigs);
    }
}

impl Commit {
    /// The error, if any, that keeps a value of the contract from being a
    /// commit. The height is looked at first, then the round, the block id,
    /// and the signatures in order.
    pub open spec fn abi_defect(raw: CommitData) -> Option<TryFromEthAbiCommitError> {
        match bounded(0, i64::MAX, raw.height) {
            Err(e) => Some(TryFromEthAbiCommitError::Height(e)),
            Ok(_) => match bounded(0, i32::MAX as i64, raw.round as i64) {
                Err(e) => Some(TryFromEthAbiCommitError::Round(e)),
                Ok(_) => match BlockId::abi_parsed(raw.block_id) {
                    Err(e) => Some(TryFromEthAbiCommitError::BlockId(e)),
                    Ok(_) => match first_abi_signature_defect(raw.signatures@) {
                        Some(e) => Some(TryFromEthAbiCommitError::Signatures(e)),
                        None => None,
                    },
                },
            },
        }
    }

    /// Whether this commit holds what the value of the contract `raw` holds.
    pub open spec fn abi_agrees(self, raw: CommitData) -> bool {
        &&& self.height == raw.height
        &&& self.round == raw.round
        &&& BlockId::abi_parsed(raw.block_id) == Ok::<_, TryFromEthAbiBlockIdError>(self.block_id)
        &&& self.signatures@.len() == raw.signatures@.len()
        &&& forall|i: int|
            0 <= i < self.signatures@.len() ==> (#[trigger] self.signatures@[i]).abi_agrees(
                raw.signatures@[i],
            )
    }

    /// Validates a value of the contract: the height and the round must not
    /// be negative, the block id must be a block id, and every signature a
    /// commit signature.
    #[verifier::loop_isolation(false)]
    pub fn try_from_eth_abi(value: CommitData) -> (r: Result<Commit, TryFromEthAbiCommitError>)
        ensures
            match r {
                Ok(commit) => Self::abi_defect(value) is None && commit.abi_agrees(value)
                    && commit.well_formed(),
                Err(e) => Self::abi_defect(value) == Some(e),
            },
    {
        let height = match check_bounds(0, i64::MAX, value.height) {
            Ok(height) => height,
            Err(e) => {
                return Err(TryFromEthAbiCommitError::Height(e));
            },
        };
        match check_bounds(0, i32::MAX as i64, value.round as i64) {
            Ok(_) => {},
            Err(e) => {
                return Err(TryFromEthAbiCommitError::Round(e));
            },
        }
        let round = value.round;
        let block_id = match BlockId::try_from_eth_abi(value.block_id) {
            Ok(block_id) => block_id,
            Err(e) => {
                return Err(TryFromEthAbiCommitError::BlockId(e));
            },
        };
        let ghost raw_sigs = value.signatures@;
        let mut raw_signatures = value.signatures;
        let mut signatures: Vec<CommitSig> = Vec::new();
        let mut i: usize = 0;
        let total = raw_signatures.len();
        while i < total
            invariant
                i <= total,
                total == raw_sigs.len(),
                raw_signatures@.len() == total,
                forall|j: int| i <= j < total ==> raw_signatures@[j] == raw_sigs[j],
                signatures@.len() == i,
                first_abi_signature_defect(raw_sigs.subrange(0, i as int)) is None,
                forall|j: int| 0 <= j < i ==> (#[trigger] signatures@[j]).abi_agrees(raw_sigs[j]),
            decreases total - i,
        {
            proof {
                let upto = raw_sigs.subrange(0, i + 1);
                assert(upto.drop_last() =~= raw_sigs.subrange(0, i as int));
                assert(upto.last() == raw_sigs[i as int]);
            }
            let mut taken = CommitSigData {
                block_id_flag: BLOCK_ID_FLAG_ABSENT,
                validator_address: Vec::new(),
                timestamp: TimestampData { secs: 0, nanos: 0 },
                signature: Vec::new(),
            };
            core::mem::swap(&mut taken, &mut raw_signatures[i]);
            match CommitSig::try_from_eth_abi(taken) {
                Ok(sig) => signatures.push(sig),
                Err(e) => {
                    proof {
                        lemma_abi_signature_defect_extends(raw_sigs, i + 1);
                    }
                    return Err(TryFromEthAbiCommitError::Signatures(e));
                },
            }
            i = i + 1;
        }
        proof {
            assert(raw_sigs.subrange(0, i as int) =~= raw_sigs);
        }
        Ok(Commit { height, round, block_id, signatures })
    }

    /// The value of the contract that stands for this commit. It passes
    /// validation if the height and the round of the commit are not negative.
    #[verifier::loop_isolation(false)]
    pub fn into_eth_abi(self) -> (r: CommitData)
        ensures
            self.abi_agrees(r),
            self.well_formed() ==> Self::abi_defect(r) is None,
    {
        let ghost sigs = self.signatures@;
        let mut rest = self.signatures;
        let mut signatures: Vec<CommitSigData> = Vec::new();
        let mut i: usize = 0;
        let total = rest.len();
        while i < total
            invariant
                i <= total,
                total == sigs.len(),
                rest@.len() == total,
                forall|j: int| i <= j < total ==> rest@[j] == sigs[j],
                signatures@.len() == i,
                forall|j: int|
                    0 <= j < i ==> (#[trigger] sigs[j]).abi_agrees(signatures@[j])
                        && CommitSig::abi_defect(signatures@[j]) is None,
            decreases total - i,
        {
            let mut taken = CommitSig::Absent;
            core::mem::swap(&mut taken, &mut rest[i]);
            signatures.push(taken.into_eth_abi());
            i = i + 1;
        }
        let r = CommitData {
            height: self.height,
            round: self.round,
            block_id: self.block_id.into_eth_abi(),
            signatures,
        };
        proof {
            assert forall|j: int| 0 <= j < r.signatures@.len() implies CommitSig::abi_defect(
                #[trigger] r.signatures@[j],
            ) is None by {
                assert(sigs[j].abi_agrees(r.signatures@[j]));
            }
            lemma_abi_signatures_without_defect(r.signatures@);
        }
        r
    }
}

impl BlockHeader {
    /// The error, if any, that keeps a value of the contract from being a
    /// block header. The fields are looked at in their order.
    pub open spec fn abi_defect(raw: BlockHeaderData) -> Option<TryFromEthAbiBlockHeaderError> {
        match bounded(0, i64::MAX, raw.height) {
            Err(e) => Some(TryFromEthAbiBlockHeaderError::Height(e)),
            Ok(_) => match timestamp_defect(raw.time) {
                Some(e) => Some(TryFromEthAbiBlockHeaderError::Timestamp(e)),
                None => match H256::parse(raw.validators_hash@) {
                    Err(e) => Some(TryFromEthAbiBlockHeaderError::ValidatorsHash(e)),
                    Ok(_) => match H256::parse(raw.next_validators_hash@) {
                        Err(e) => Some(TryFromEthAbiBlockHeaderError::NextValidatorsHash(e)),
                        Ok(_) => match H256::parse(raw.app_hash@) {
                            Err(e) => Some(TryFromEthAbiBlockHeaderError::AppHash(e)),
                            Ok(_) => None,
                        },
                    },
                },
            },
        }
    }

    /// Whether this header holds what the value of the contract `raw` holds.
    pub open spec fn abi_agrees(self, raw: BlockHeaderData) -> bool {
        &&& self.chain_id@ == raw.chain_id@
        &&& self.height == raw.height
        &&& timestamp_agrees(self.time, raw.time)
        &&& self.validators_hash.bytes() == raw.validators_hash@
        &&& self.next_validators_hash.bytes() == raw.next_validators_hash@
        &&& self.app_hash.bytes() == raw.app_hash@
    }

    /// Validates a value of the contract: the height must not be negative,
    /// the time must be within bounds, and each hash 32 bytes long.
    pub fn try_from_eth_abi(value: BlockHeaderData) -> (r: Result<
        BlockHeader,
        TryFromEthAbiBlockHeaderError,
    >)
        ensures
            match r {
                Ok(header) => Self::abi_defect(value) is None && header.abi_agrees(value)
                    && header.height >= 0,
                Err(e) => Self::abi_defect(value) == Some(e),
            },
    {
        let height = match check_bounds(0, i64::MAX, value.height) {
            Ok(height) => height,
            Err(e) => {
                return Err(TryFromEthAbiBlockHeaderError::Height(e));
            },
        };
        let time = match timestamp_from_eth_abi(value.time) {
            Ok(time) => time,
            Err(e) => {
                return Err(TryFromEthAbiBlockHeaderError::Timestamp(e));
            },
        };
        proof {
            lemma_h256_parse(value.validators_hash@);
            lemma_h256_parse(value.next_validators_hash@);
            lemma_h256_parse(value.app_hash@);
        }
        let validators_hash = match H256::try_from(value.validators_hash) {
            Ok(hash) => hash,
            Err(e) => {
                return Err(TryFromEthAbiBlockHeaderError::ValidatorsHash(e));
            },
        };
        let next_validators_hash = match H256::try_from(value.next_validators_hash) {
            Ok(hash) => hash,
            Err(e) => {
                return Err(TryFromEthAbiBlockHeaderError::NextValidatorsHash(e));
            },
        };
        let app_hash = match H256::try_from(value.app_hash) {
            Ok(hash) => hash,
            Err(e) => {
                return Err(TryFromEthAbiBlockHeaderError::AppHash(e));
            },
        };
        Ok(
            BlockHeader {
                chain_id: value.chain_id,
                height,
                time,
                validators_hash,
                next_validators_hash,
                app_hash,
            },
        )
    }

    /// The value of the contract that stands for this header. It passes
    /// validation if the height of the header is not negative.
    pub fn into_eth_abi(self) -> (r: BlockHeaderData)
        ensures
            self.abi_agrees(r),
            self.height >= 0 ==> Self::abi_defect(r) is None,
    {
        proof {
            lemma_h256_round_trip(self.validators_hash, self.validators_hash.bytes());
            lemma_h256_round_trip(self.next_validators_hash, self.next_validators_hash.bytes());
            lemma_h256_round_trip(self.app_hash, self.app_hash.bytes());
        }
        BlockHeaderData {
            chain_id: self.chain_id,
            height: self.height,
            time: timestamp_into_eth_abi(self.time),
            validators_hash: self.validators_hash.into_bytes(),
            next_validators_hash: self.next_validators_hash.into_bytes(),
            app_hash: self.app_hash.into_bytes(),
        }
    }
}

impl SignedHeader {
    /// The error, if any, that keeps a value of the contract from being a
    /// signed header. The header is looked at first, then the commit.
    pub open spec fn abi_defect(raw: SignedHeaderData) -> Option<TryFromEthAbiSignedHeaderError> {
        match BlockHeader::abi_defect(raw.header) {
            Some(e) => Some(TryFromEthAbiSignedHeaderError::Header(e)),
            None => match Commit::abi_defect(raw.commit) {
                Some(e) => Some(TryFromEthAbiSignedHeaderError::Commit(e)),
                None => None,
            },
        }
    }

    /// Whether this signed header holds what the value of the contract
    /// `raw` holds.
    pub open spec fn abi_agrees(self, raw: SignedHeaderData) -> bool {
        self.header.abi_agrees(raw.header) && self.commit.abi_agrees(raw.commit)
    }

    /// Validates a value of the contract: the header and the commit must be
    /// what they stand for.
    pub fn try_from_eth_abi(value: SignedHeaderData) -> (r: Result<
        SignedHeader,
        TryFromEthAbiSignedHeaderError,
    >)
        ensures
            match r {
                Ok(signed) => Self::abi_defect(value) is None && signed.abi_agrees(value)
                    && signed.well_formed(),
                Err(e) => Self::abi_defect(value) == Some(e),
            },
    {
        let header = match BlockHeader::try_from_eth_abi(value.header) {
            Ok(header) => header,
            Err(e) => {
                return Err(TryFromEthAbiSignedHeaderError::Header(e));
            },
        };
        match Commit::try_from_eth_abi(value.commit) {
            Ok(commit) => Ok(SignedHeader { header, commit }),
            Err(e) => Err(TryFromEthAbiSignedHeaderError::Commit(e)),
        }
    }

    /// The value of the contract that stands for this signed header. It
    /// passes validation if the signed header is well formed.
    pub fn into_eth_abi(self) -> (r: SignedHeaderData)
        ensures
            self.abi_agrees(r),
            self.well_formed() ==> Self::abi_defect(r) is None,
    {
        SignedHeaderData {
            header: self.header.into_eth_abi(),
            commit: self.commit.into_eth_abi(),
        }
    }
}

} // verus!
