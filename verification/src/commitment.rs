//! Commitments: the roots that a chain commits its state under, and the
//! paths and proofs that lead to them.

use crate::errors::{InvalidLength, MissingField};
use crate::ics23::length_op::LengthOp;
use crate::hash::{lemma_h256_parse, lemma_h256_round_trip, H256};
use crate::protos;
use vstd::prelude::*;

verus! {

/// The root of a chain's state commitment.
#[derive(Debug, Clone, Copy, PartialEq, Eq)]
pub struct MerkleRoot {
    pub hash: H256,
}

/// Why a wire message is not a merkle root.
#[derive(Debug, Clone, Copy, PartialEq, Eq, Structural)]
pub enum TryFromMerkleRootError {
    /// The hash is not 32 bytes long.
    Hash(InvalidLength),
}

impl MerkleRoot {
    /// The root that a wire message with the hash `hash` stands for.
    pub open spec fn parsed(hash: Seq<u8>) -> Result<MerkleRoot, TryFromMerkleRootError> {
        match H256::parse(hash) {
            Ok(hash) => Ok(MerkleRoot { hash }),
            Err(e) => Err(TryFromMerkleRootError::Hash(e)),
        }
    }

    /// Validates a wire message: its hash must be 32 bytes long.
    pub fn try_from(value: protos::MerkleRoot) -> (r: Result<MerkleRoot, TryFromMerkleRootError>)
        ensures
            r == Self::parsed(value.hash@),
    {
        match H256::try_from(value.hash) {
            Ok(hash) => Ok(MerkleRoot { hash }),
            Err(e) => Err(TryFromMerkleRootError::Hash(e)),
        }
    }

    /// The wire message that stands for this root.
    pub fn into_raw(self) -> (r: protos::MerkleRoot)
        ensures
            r.hash@ == self.hash.bytes(),
            Self::parsed(r.hash@) == Ok::<_, TryFromMerkleRootError>(self),
    {
        proof {
            lemma_h256_round_trip(self.hash, self.hash.bytes());
        }
        protos::MerkleRoot { hash: self.hash.into_bytes() }
    }
}

/// Nothing is lost between a merkle root and its wire message: a message
/// that is a root holds the bytes of that root, and the bytes of a root are
/// a message that is that root.
pub proof fn lemma_merkle_root_lossless(root: MerkleRoot, hash: Seq<u8>)
    ensures
        MerkleRoot::parsed(hash) matches Ok(r) ==> r.hash.bytes() == hash,
        MerkleRoot::parsed(root.hash.bytes()) == Ok::<_, TryFromMerkleRootError>(root),
{
    lemma_h256_parse(hash);
    lemma_h256_round_trip(root.hash, hash);
}

/// The path of a key below the root of a chain's state commitment.
#[derive(Debug, Clone, PartialEq, Eq)]
pub struct MerklePath {
    pub key_path: Vec<String>,
}

impl MerklePath {
    /// Takes a wire message as it is: every path is accepted.
    pub fn from(value: protos::MerklePath) -> (r: MerklePath)
        ensures
            r.key_path == value.key_path,
    {
        MerklePath { key_path: value.key_path }
    }

    /// The wire message that stands for this path.
    pub fn into_raw(self) -> (r: protos::MerklePath)
        ensures
            r.key_path == self.key_path,
    {
        protos::MerklePath { key_path: self.key_path }
    }
}

/// How the leaf of a proof is hashed: how the lengths are marked, and what
/// stands in front.
#[derive(Debug, Clone, PartialEq, Eq)]
pub struct LeafOp {
    pub length: LengthOp,
    pub prefix: Vec<u8>,
}

/// The proof that a key holds a value.
#[derive(Debug, Clone, PartialEq, Eq)]
pub struct ExistenceProof {
    pub key: Vec<u8>,
    pub value: Vec<u8>,
    pub leaf: LeafOp,
    pub path: Vec<protos::InnerOp>,
}

/// Why a wire message is not an existence proof.
#[derive(Debug, Clone, PartialEq, Eq)]
pub enum TryFromExistenceProofError {
    /// The leaf is absent.
    MissingField(MissingField),
    /// The leaf names a length operation that does not exist.
    UnknownLengthOp(i32),
}

/// The proof that a key holds no value: its neighbours, as far as it has any.
#[derive(Debug, Clone, PartialEq, Eq)]
pub struct NonExistenceProof {
    pub key: Vec<u8>,
    pub left: Option<ExistenceProof>,
    pub right: Option<ExistenceProof>,
}

/// One step of a merkle proof.
#[derive(Debug, Clone, PartialEq, Eq)]
pub enum CommitmentProof {
    Exist(ExistenceProof),
    NonExist(NonExistenceProof),
}

/// Why a wire message is not a commitment proof.
#[derive(Debug, Clone, PartialEq, Eq)]
pub enum TryFromCommitmentProofError {
    /// The proof is absent.
    MissingField(MissingField),
    /// The proof is an existence proof with a defect.
    Exist(TryFromExistenceProofError),
    /// The proof is a non-existence proof, and its left neighbour has a defect.
    Left(TryFromExistenceProofError),
    /// The proof is a non-existence proof, and its right neighbour has a defect.
    Right(TryFromExistenceProofError),
    /// The proof is batched or compressed, which is not supported.
    Unsupported,
}

/// A merkle proof: one commitment proof for each store on the way to the root.
#[derive(Debug, Clone, PartialEq, Eq)]
pub struct MerkleProof {
    pub proofs: Vec<CommitmentProof>,
}

/// Why a wire message is not a merkle proof.
#[derive(Debug, Clone, PartialEq, Eq)]
pub enum TryFromMerkleProofError {
    /// One of the proofs is not a commitment proof.
    Proofs(TryFromCommitmentProofError),
}

impl ExistenceProof {
    /// The existence proof that a wire message stands for, or why it stands
    /// for none.
    pub open spec fn parsed(raw: protos::ExistenceProof) -> Result<
        ExistenceProof,
        TryFromExistenceProofError,
    > {
        match raw.leaf {
            None => Err(TryFromExistenceProofError::MissingField(MissingField("leaf"))),
            Some(leaf) => match LengthOp::of_number(leaf.length) {
                None => Err(TryFromExistenceProofError::UnknownLengthOp(leaf.length)),
                Some(length) => Ok(
                    ExistenceProof {
                        key: raw.key,
                        value: raw.value,
                        leaf: LeafOp { length, prefix: leaf.prefix },
                        path: raw.path,
                    },
                ),
            },
        }
    }

    /// The wire message that stands for an existence proof.
    pub open spec fn raw_of(self) -> protos::ExistenceProof {
        protos::ExistenceProof {
            key: self.key,
            value: self.value,
            leaf: Some(protos::LeafOp { length: self.leaf.length.number(), prefix: self.leaf.prefix }),
            path: self.path,
        }
    }

    /// Validates a wire message: the leaf must be present and name a length
    /// operation that exists.
    pub fn try_from(value: protos::ExistenceProof) -> (r: Result<
        ExistenceProof,
        TryFromExistenceProofError,
    >)
        ensures
            r == Self::parsed(value),
    {
        let leaf = match value.leaf {
            Some(leaf) => leaf,
            None => {
                return Err(TryFromExistenceProofError::MissingField(MissingField("leaf")));
            },
        };
        match LengthOp::from_i32(leaf.length) {
            Some(length) => Ok(
                ExistenceProof {
                    key: value.key,
                    value: value.value,
                    leaf: LeafOp { length, prefix: leaf.prefix },
                    path: value.path,
                },
            ),
            None => Err(TryFromExistenceProofError::UnknownLengthOp(leaf.length)),
        }
    }

    /// The wire message that stands for this existence proof. Validating it
    /// gives the existence proof back.
    pub fn into_raw(self) -> (r: protos::ExistenceProof)
        ensures
            r == self.raw_of(),
            Self::parsed(r) == Ok::<_, TryFromExistenceProofError>(self),
    {
        protos::ExistenceProof {
            key: self.key,
            value: self.value,
            leaf: Some(protos::LeafOp { length: self.leaf.length.to_i32(), prefix: self.leaf.prefix }),
            path: self.path,
        }
    }
}

/// What validation makes of a neighbour that may be absent.
pub open spec fn parsed_neighbour(raw: Option<protos::ExistenceProof>) -> Result<
    Option<ExistenceProof>,
    TryFromExistenceProofError,
> {
    match raw {
        None => Ok(None),
        Some(raw) => match ExistenceProof::parsed(raw) {
            Ok(p) => Ok(Some(p)),
            Err(e) => Err(e),
        },
    }
}

/// Validates a neighbour that may be absent.
fn try_neighbour(raw: Option<protos::ExistenceProof>) -> (r: Result<
    Option<ExistenceProof>,
    TryFromExistenceProofError,
>)
    ensures
        r == parsed_neighbour(raw),
{
    match raw {
        None => Ok(None),
        Some(raw) => match ExistenceProof::try_from(raw) {
            Ok(p) => Ok(Some(p)),
            Err(e) => Err(e),
        },
    }
}

impl CommitmentProof {
    /// The commitment proof that a wire message stands for, or why it stands
    /// for none.
    pub open spec fn parsed(raw: protos::CommitmentProof) -> Result<
        CommitmentProof,
        TryFromCommitmentProofError,
    > {
        match (raw.proof) {
            None => Err(TryFromCommitmentProofError::MissingField(MissingField("proof"))),
            Some(protos::Proof::Exist(exist)) => match ExistenceProof::parsed(exist) {
                Ok(p) => Ok(CommitmentProof::Exist(p)),
                Err(e) => Err(TryFromCommitmentProofError::Exist(e)),
            },
            Some(protos::Proof::Nonexist(nonexist)) => match parsed_neighbour(nonexist.left) {
                Err(e) => Err(TryFromCommitmentProofError::Left(e)),
                Ok(left) => match parsed_neighbour(nonexist.right) {
                    Err(e) => Err(TryFromCommitmentProofError::Right(e)),
                    Ok(right) => Ok(
                        CommitmentProof::NonExist(
                            NonExistenceProof { key: nonexist.key, left, right },
                        ),
                    ),
                },
            },
            Some(_) => Err(TryFromCommitmentProofError::Unsupported),
        }
    }

    /// Validates a wire message: the proof must be present, be an existence
    /// or a non-existence proof, and hold only existence proofs without a
    /// defect.
    pub fn try_from(value: protos::CommitmentProof) -> (r: Result<
        CommitmentProof,
        TryFromCommitmentProofError,
    >)
        ensures
            r == Self::parsed(value),
    {
        let raw = value.proof;
        match raw {
            None => Err(TryFromCommitmentProofError::MissingField(MissingField("proof"))),
            Some(protos::Proof::Exist(exist)) => match ExistenceProof::try_from(exist) {
                Ok(p) => Ok(CommitmentProof::Exist(p)),
                Err(e) => Err(TryFromCommitmentProofError::Exist(e)),
            },
            Some(protos::Proof::Nonexist(nonexist)) => {
                let left = match try_neighbour(nonexist.left) {
                    Ok(left) => left,
                    Err(e) => {
                        return Err(TryFromCommitmentProofError::Left(e));
                    },
                };
                match try_neighbour(nonexist.right) {
                    Ok(right) => Ok(
                        CommitmentProof::NonExist(
                            NonExistenceProof { key: nonexist.key, left, right },
                        ),
                    ),
                    Err(e) => Err(TryFromCommitmentProofError::Right(e)),
                }
            },
            Some(protos::Proof::Batch) => Err(TryFromCommitmentProofError::Unsupported),
            Some(protos::Proof::Compressed) => Err(TryFromCommitmentProofError::Unsupported),
        }
    }

    /// The wire message that stands for this commitment proof. Validating it
    /// gives the commitment proof back.
    pub fn into_raw(self) -> (r: protos::CommitmentProof)
        ensures
            Self::parsed(r) == Ok::<_, TryFromCommitmentProofError>(self),
    {
        match self {
            CommitmentProof::Exist(exist) => protos::CommitmentProof {
                proof: Some(protos::Proof::Exist(exist.into_raw())),
            },
            CommitmentProof::NonExist(nonexist) => {
                let left = match nonexist.left {
                    None => None,
                    Some(p) => Some(p.into_raw()),
                };
                let right = match nonexist.right {
                    None => None,
                    Some(p) => Some(p.into_raw()),
                };
                protos::CommitmentProof {
                    proof: Some(
                        protos::Proof::Nonexist(
                            protos::NonExistenceProof { key: nonexist.key, left, right },
                        ),
                    ),
                }
            },
        }
    }
}

/// The commitment proofs that `raws` stand for, in order, or the defect of
/// the first of them that has one.
pub open spec fn parsed_proofs(raws: Seq<protos::CommitmentProof>) -> Result<
    Seq<CommitmentProof>,
    TryFromCommitmentProofError,
>
    decreases raws.len(),
{
    if raws.len() == 0 {
        Ok(Seq::empty())
    } else {
        match parsed_proofs(raws.drop_last()) {
            Err(e) => Err(e),
            Ok(head) => match CommitmentProof::parsed(raws.last()) {
                Err(e) => Err(e),
                Ok(p) => Ok(head.push(p)),
            },
        }
    }
}

/// A defect found among the first proofs is the defect found among all.
proof fn lemma_proof_defect_extends(raws: Seq<protos::CommitmentProof>, i: int)
    requires
        0 <= i <= raws.len(),
        parsed_proofs(raws.subrange(0, i)) is Err,
    ensures
        parsed_proofs(raws) == parsed_proofs(raws.subrange(0, i)),
    decreases raws.len() - i,
{
    if i < raws.len() {
        let next = raws.subrange(0, i + 1);
        assert(next.drop_last() =~= raws.subrange(0, i));
        lemma_proof_defect_extends(raws, i + 1);
    } else {
        assert(raws.subrange(0, i) =~= raws);
    }
}

impl MerkleProof {
    /// Validates a wire message: every proof must be a commitment proof. The
    /// first that is not decides the error.
    #[verifier::loop_isolation(false)]
    pub fn try_from(value: protos::MerkleProof) -> (r: Result<MerkleProof, TryFromMerkleProofError>)
        ensures
            match r {
                Ok(merkle_proof) => parsed_proofs(value.proofs@) == Ok::<
                    _,
                    TryFromCommitmentProofError,
                >(merkle_proof.proofs@),
                Err(TryFromMerkleProofError::Proofs(e)) => parsed_proofs(value.proofs@) == Err::<
                    Seq<CommitmentProof>,
                    _,
                >(e),
            },
    {
        let ghost raws = value.proofs@;
        let mut rest = value.proofs;
        let mut proofs: Vec<CommitmentProof> = Vec::new();
        let mut i: usize = 0;
        let total = rest.len();
        assert(raws.subrange(0, 0) =~= Seq::<protos::CommitmentProof>::empty());
        while i < total
            invariant
                i <= total,
                total == raws.len(),
                rest@.len() == total,
                forall|j: int| i <= j < total ==> rest@[j] == raws[j],
                parsed_proofs(raws.subrange(0, i as int)) == Ok::<_, TryFromCommitmentProofError>(
                    proofs@,
                ),
            decreases total - i,
        {
            proof {
                let upto = raws.subrange(0, i + 1);
                assert(upto.drop_last() =~= raws.subrange(0, i as int));
                assert(upto.last() == raws[i as int]);
            }
            let mut taken = protos::CommitmentProof { proof: None };
            core::mem::swap(&mut taken, &mut rest[i]);
            match CommitmentProof::try_from(taken) {
                Ok(p) => proofs.push(p),
                Err(e) => {
                    proof {
                        lemma_proof_defect_extends(raws, i + 1);
                    }
                    return Err(TryFromMerkleProofError::Proofs(e));
                },
            }
            i = i + 1;
        }
        proof {
            assert(raws.subrange(0, i as int) =~= raws);
        }
        Ok(MerkleProof { proofs })
    }

    /// The wire message that stands for this merkle proof. Validating it
    /// gives the proofs back.
    #[verifier::loop_isolation(false)]
    pub fn into_raw(self) -> (r: protos::MerkleProof)
        ensures
            parsed_proofs(r.proofs@) == Ok::<_, TryFromCommitmentProofError>(self.proofs@),
    {
        let ghost all = self.proofs@;
        let mut rest = self.proofs;
        let mut proofs: Vec<protos::CommitmentProof> = Vec::new();
        let mut i: usize = 0;
        let total = rest.len();
        assert(all.subrange(0, 0) =~= Seq::<CommitmentProof>::empty());
        while i < total
            invariant
                i <= total,
                total == all.len(),
                rest@.len() == total,
                forall|j: int| i <= j < total ==> rest@[j] == all[j],
                proofs@.len() == i,
                parsed_proofs(proofs@) == Ok::<_, TryFromCommitmentProofError>(
                    all.subrange(0, i as int),
                ),
            decreases total - i,
        {
            let ghost before = proofs@;
            let mut taken = CommitmentProof::NonExist(
                NonExistenceProof { key: Vec::new(), left: None, right: None },
            );
            core::mem::swap(&mut taken, &mut rest[i]);
            proofs.push(taken.into_raw());
            i = i + 1;
            proof {
                assert(proofs@.drop_last() =~= before);
                assert(all.subrange(0, i as int) =~= all.subrange(0, i - 1).push(all[i - 1]));
            }
        }
        proof {
            assert(all.subrange(0, i as int) =~= all);
        }
        protos::MerkleProof { proofs }
    }
}

} // verus!
