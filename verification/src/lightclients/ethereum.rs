//! The light client that tracks a beacon chain by the signatures of its
//! sync committees.

use crate::errors::{ExpectedLength, InvalidLength, MissingField};
use crate::bytes::push_all;
use crate::hash::{lemma_h256_round_trip, H256};
use crate::height::Height;
use crate::protos;
use vstd::prelude::*;

verus! {

/// The number of bytes of a BLS public key.
pub const BLS_PUBLIC_KEY_LENGTH: usize = 48;

/// A BLS public key.
#[derive(Debug, Clone, Copy, PartialEq, Eq)]
pub struct BlsPublicKey(pub [u8; 48]);

/// The proof that an account of the tracked chain has a given storage root.
#[derive(Debug, Clone, PartialEq, Eq)]
pub struct AccountProof {
    pub storage_root: H256,
    pub proof: Vec<Vec<u8>>,
}

/// Why a wire message is not an account proof.
#[derive(Debug, Clone, Copy, PartialEq, Eq, Structural)]
pub enum TryFromAccountProofError {
    /// The storage root is not 32 bytes long.
    StorageRoot(InvalidLength),
}

/// An update of what the light client knows of the account it reads.
#[derive(Debug, Clone, PartialEq, Eq)]
pub struct AccountUpdate {
    pub account_proof: AccountProof,
}

/// Why a wire message is not an account update.
#[derive(Debug, Clone, PartialEq, Eq)]
pub enum TryFromAccountUpdateError {
    /// The account proof is absent.
    MissingField(MissingField),
    /// The account proof is not an account proof.
    AccountProof(TryFromAccountProofError),
}

/// A sync committee of `N` members.
#[derive(Debug, Clone, PartialEq, Eq)]
pub struct SyncCommittee<const N: usize> {
    pub pubkeys: Vec<BlsPublicKey>,
    pub aggregate_pubkey: BlsPublicKey,
}

/// Why a wire message is not a sync committee.
#[derive(Debug, Clone, Copy, PartialEq, Eq, Structural)]
pub enum TryFromSyncCommitteeError {
    /// A member's key is not 48 bytes long.
    PubKey(InvalidLength),
    /// The committee does not have the number of members it must have.
    PubKeys(InvalidLength),
    /// The aggregate key is not 48 bytes long.
    AggregatePubKey(InvalidLength),
}

/// The sync committee that is to verify an update: the current one, or the
/// one that follows it.
#[derive(Debug, Clone, PartialEq, Eq)]
pub enum ActiveSyncCommittee<const N: usize> {
    Current(SyncCommittee<N>),
    Next(SyncCommittee<N>),
}

/// A sync committee together with the height at which it is trusted.
#[derive(Debug, Clone, PartialEq, Eq)]
pub struct TrustedSyncCommittee<const N: usize> {
    pub trusted_height: Height,
    pub sync_committee: ActiveSyncCommittee<N>,
}

/// Why a wire message is not a trusted sync committee.
#[derive(Debug, Clone, PartialEq, Eq)]
pub enum TryFromTrustedSyncCommitteeError {
    /// The trusted height is absent, or both committees are.
    MissingField(MissingField),
    /// The committee that was chosen is not a sync committee.
    SyncCommittee(TryFromSyncCommitteeError),
}

/// The index of the first byte string of `keys` that is not as long as a key.
pub open spec fn first_bad_key(keys: Seq<Vec<u8>>) -> Option<int>
    decreases keys.len(),
{
    if keys.len() == 0 {
        None
    } else {
        match first_bad_key(keys.drop_last()) {
            Some(i) => Some(i),
            None => if keys.last()@.len() != 48 {
                Some(keys.len() - 1)
            } else {
                None
            },
        }
    }
}

/// `first_bad_key` finds the least index of a byte string of another length
/// than 48, and finds none only where every byte string has that length.
pub proof fn lemma_first_bad_key(keys: Seq<Vec<u8>>)
    ensures
        match first_bad_key(keys) {
            Some(i) => {
                &&& 0 <= i < keys.len()
                &&& keys[i]@.len() != 48
                &&& forall|j: int| 0 <= j < i ==> (#[trigger] keys[j])@.len() == 48
            },
            None => forall|j: int| 0 <= j < keys.len() ==> (#[trigger] keys[j])@.len() == 48,
        },
    decreases keys.len(),
{
    if keys.len() > 0 {
        let head = keys.drop_last();
        lemma_first_bad_key(head);
        assert forall|j: int| 0 <= j < head.len() implies head[j] == keys[j] by {}
        match first_bad_key(head) {
            Some(i) => {
                assert forall|j: int| 0 <= j < i implies (#[trigger] keys[j])@.len() == 48 by {
                    assert(head[j] == keys[j]);
                }
            },
            None => {
                assert forall|j: int| 0 <= j < keys.len() - 1 implies (#[trigger] keys[j])@.len()
                    == 48 by {
                    assert(head[j] == keys[j]);
                }
            },
        }
    }
}

/// What `BlsPublicKey::try_from_bytes` says of a byte string of this length.
pub open spec fn key_length_error(len: nat) -> InvalidLength {
    InvalidLength { expected: ExpectedLength::Exact(48), found: len as usize }
}

impl BlsPublicKey {
    /// The 48 bytes of the key.
    pub open spec fn bytes(self) -> Seq<u8> {
        self.0@
    }

    /// Validates a byte string: a key is 48 bytes long.
    pub fn try_from_bytes(bz: &[u8]) -> (r: Result<BlsPublicKey, InvalidLength>)
        ensures
            match r {
                Ok(key) => bz@.len() == 48 && key.bytes() == bz@,
                Err(e) => bz@.len() != 48 && e == key_length_error(bz@.len()),
            },
    {
        if bz.len() != BLS_PUBLIC_KEY_LENGTH {
            return Err(
                InvalidLength {
                    expected: ExpectedLength::Exact(BLS_PUBLIC_KEY_LENGTH),
                    found: bz.len(),
                },
            );
        }
        let mut key = [0u8;48];
        let mut i: usize = 0;
        while i < 48
            invariant
                i <= 48,
                bz@.len() == 48,
                forall|j: int| 0 <= j < i ==> key@[j] == bz@[j],
            decreases 48 - i,
        {
            key[i] = bz[i];
            i = i + 1;
        }
        assert(key@ =~= bz@);
        Ok(BlsPublicKey(key))
    }

    /// The key as an owned byte string.
    pub fn into_bytes(self) -> (r: Vec<u8>)
        ensures
            r@ == self.bytes(),
    {
        let mut r: Vec<u8> = Vec::new();
        push_all(&mut r, self.0.as_slice());
        r
    }
}

impl AccountProof {
    /// The account proof that a wire message stands for, or why it stands
    /// for none.
    pub open spec fn parsed(raw: protos::AccountProof) -> Result<
        AccountProof,
        TryFromAccountProofError,
    > {
        match H256::parse(raw.storage_root@) {
            Err(e) => Err(TryFromAccountProofError::StorageRoot(e)),
            Ok(storage_root) => Ok(AccountProof { storage_root, proof: raw.proof }),
        }
    }

    /// Validates a wire message: the storage root must be 32 bytes long.
    pub fn try_from(value: protos::AccountProof) -> (r: Result<
        AccountProof,
        TryFromAccountProofError,
    >)
        ensures
            r == Self::parsed(value),
    {
        match H256::try_from(value.storage_root) {
            Ok(storage_root) => Ok(AccountProof { storage_root, proof: value.proof }),
            Err(e) => Err(TryFromAccountProofError::StorageRoot(e)),
        }
    }

    /// The wire message that stands for this account proof. Validating it
    /// gives the account proof back.
    pub fn into_raw(self) -> (r: protos::AccountProof)
        ensures
            r.storage_root@ == self.storage_root.bytes(),
            r.proof == self.proof,
            Self::parsed(r) == Ok::<_, TryFromAccountProofError>(self),
    {
        proof {
            lemma_h256_round_trip(self.storage_root, self.storage_root.bytes());
        }
        protos::AccountProof { storage_root: self.storage_root.into_bytes(), proof: self.proof }
    }
}

impl AccountUpdate {
    /// The account update that a wire message stands for, or why it stands
    /// for none.
    pub open spec fn parsed(raw: protos::AccountUpdate) -> Result<
        AccountUpdate,
        TryFromAccountUpdateError,
    > {
        match raw.account_proof {
            None => Err(TryFromAccountUpdateError::MissingField(MissingField("account_proof"))),
            Some(account_proof) => match AccountProof::parsed(account_proof) {
                Err(e) => Err(TryFromAccountUpdateError::AccountProof(e)),
                Ok(account_proof) => Ok(AccountUpdate { account_proof }),
            },
        }
    }

    /// Validates a wire message: the account proof must be present and be
    /// an account proof.
    pub fn try_from(value: protos::AccountUpdate) -> (r: Result<
        AccountUpdate,
        TryFromAccountUpdateError,
    >)
        ensures
            r == Self::parsed(value),
    {
        let account_proof = match value.account_proof {
            Some(account_proof) => account_proof,
            None => {
                return Err(
                    TryFromAccountUpdateError::MissingField(MissingField("account_proof")),
                );
            },
        };
        match AccountProof::try_from(account_proof) {
            Ok(account_proof) => Ok(AccountUpdate { account_proof }),
            Err(e) => Err(TryFromAccountUpdateError::AccountProof(e)),
        }
    }

    /// The wire message that stands for this account update. Validating it
    /// gives the account update back.
    pub fn into_raw(self) -> (r: protos::AccountUpdate)
        ensures
            r.account_proof matches Some(account_proof) && account_proof.storage_root@
                == self.account_proof.storage_root.bytes() && account_proof.proof
                == self.account_proof.proof,
            Self::parsed(r) == Ok::<_, TryFromAccountUpdateError>(self),
    {
        protos::AccountUpdate { account_proof: Some(self.account_proof.into_raw()) }
    }
}

impl<const N: usize> SyncCommittee<N> {
    /// Whether the committee has as many members as it must have.
    pub open spec fn well_formed(self) -> bool {
        self.pubkeys@.len() == N
    }

    /// The error, if any, that keeps a wire message from being a sync
    /// committee of `N` members. The members' keys are looked at first, in
    /// order, then their number, then the aggregate key.
    pub open spec fn defect(raw: protos::SyncCommittee) -> Option<TryFromSyncCommitteeError> {
        match first_bad_key(raw.pubkeys@) {
            Some(i) => Some(
                TryFromSyncCommitteeError::PubKey(key_length_error(raw.pubkeys@[i]@.len())),
            ),
            None => if raw.pubkeys@.len() != N {
                Some(
                    TryFromSyncCommitteeError::PubKeys(
                        InvalidLength {
                            expected: ExpectedLength::Exact(N),
                            found: raw.pubkeys@.len() as usize,
                        },
                    ),
                )
            } else if raw.aggregate_pubkey@.len() != 48 {
                Some(
                    TryFromSyncCommitteeError::AggregatePubKey(
                        key_length_error(raw.aggregate_pubkey@.len()),
                    ),
                )
            } else {
                None
            },
        }
    }

    /// Whether this committee holds what the wire message `raw` holds.
    pub open spec fn agrees(self, raw: protos::SyncCommittee) -> bool {
        &&& self.pubkeys@.len() == raw.pubkeys@.len()
        &&& forall|i: int|
            0 <= i < self.pubkeys@.len() ==> (#[trigger] self.pubkeys@[i]).bytes()
                == raw.pubkeys@[i]@
        &&& self.aggregate_pubkey.bytes() == raw.aggregate_pubkey@
    }

    /// Validates a wire message: every key must be 48 bytes long, and there
    /// must be `N` members.
    pub fn try_from(value: protos::SyncCommittee) -> (r: Result<
        SyncCommittee<N>,
        TryFromSyncCommitteeError,
    >)
        ensures
            match r {
                Ok(committee) => Self::defect(value) is None && committee.agrees(value)
                    && committee.well_formed(),
                Err(e) => Self::defect(value) == Some(e),
            },
    {
        let mut pubkeys: Vec<BlsPublicKey> = Vec::new();
        let mut i: usize = 0;
        while i < value.pubkeys.len()
            invariant
                i <= value.pubkeys@.len(),
                pubkeys@.len() == i,
                first_bad_key(value.pubkeys@.subrange(0, i as int)) is None,
                forall|j: int|
                    0 <= j < i ==> (#[trigger] pubkeys@[j]).bytes() == value.pubkeys@[j]@,
            decreases value.pubkeys@.len() - i,
        {
            proof {
                let upto = value.pubkeys@.subrange(0, i + 1);
                assert(upto.drop_last() =~= value.pubkeys@.subrange(0, i as int));
                assert(upto.last() == value.pubkeys@[i as int]);
                lemma_first_bad_key_prefix(value.pubkeys@, i as int);
            }
            match BlsPublicKey::try_from_bytes(value.pubkeys[i].as_slice()) {
                Ok(key) => pubkeys.push(key),
                Err(e) => {
                    return Err(TryFromSyncCommitteeError::PubKey(e));
                },
            }
            i = i + 1;
        }
        proof {
            assert(value.pubkeys@.subrange(0, i as int) =~= value.pubkeys@);
        }
        if pubkeys.len() != N {
            return Err(
                TryFromSyncCommitteeError::PubKeys(
                    InvalidLength { expected: ExpectedLength::Exact(N), found: pubkeys.len() },
                ),
            );
        }
        match BlsPublicKey::try_from_bytes(value.aggregate_pubkey.as_slice()) {
            Ok(aggregate_pubkey) => Ok(SyncCommittee { pubkeys, aggregate_pubkey }),
            Err(e) => Err(TryFromSyncCommitteeError::AggregatePubKey(e)),
        }
    }

    /// The wire message that stands for this committee. It passes validation
    /// if the committee has as many members as it must have.
    pub fn into_raw(self) -> (r: protos::SyncCommittee)
        ensures
            self.agrees(r),
            self.well_formed() ==> Self::defect(r) is None,
    {
        let mut pubkeys: Vec<Vec<u8>> = Vec::new();
        let mut i: usize = 0;
        while i < self.pubkeys.len()
            invariant
                i <= self.pubkeys@.len(),
                pubkeys@.len() == i,
                forall|j: int|
                    0 <= j < i ==> (#[trigger] self.pubkeys@[j]).bytes() == pubkeys@[j]@,
            decreases self.pubkeys@.len() - i,
        {
            pubkeys.push(self.pubkeys[i].into_bytes());
            i = i + 1;
        }
        let r = protos::SyncCommittee {
            pubkeys,
            aggregate_pubkey: self.aggregate_pubkey.into_bytes(),
        };
        proof {
            lemma_first_bad_key(r.pubkeys@);
            if let Some(k) = first_bad_key(r.pubkeys@) {
                assert(self.pubkeys@[k].bytes() == r.pubkeys@[k]@);
            }
        }
        r
    }
}

/// Where no byte string before `i` is of a wrong length, the first `i + 1`
/// hold a wrong one exactly if the one at `i` is wrong, and where the one at
/// `i` is wrong it is the first of them all.
proof fn lemma_first_bad_key_prefix(keys: Seq<Vec<u8>>, i: int)
    requires
        0 <= i < keys.len(),
        first_bad_key(keys.subrange(0, i)) is None,
    ensures
        keys[i]@.len() == 48 ==> first_bad_key(keys.subrange(0, i + 1)) is None,
        keys[i]@.len() != 48 ==> first_bad_key(keys) == Some(i),
{
    let upto = keys.subrange(0, i + 1);
    assert(upto.drop_last() =~= keys.subrange(0, i));
    assert(upto.last() == keys[i]);
    lemma_first_bad_key(keys.subrange(0, i));
    lemma_first_bad_key(keys);
    if keys[i]@.len() != 48 {
        match first_bad_key(keys) {
            Some(k) => {
                if k < i {
                    assert(keys.subrange(0, i)[k] == keys[k]);
                }
            },
            None => {},
        }
    }
}

impl<const N: usize> ActiveSyncCommittee<N> {
    /// The committee, whichever of the two it is.
    pub open spec fn committee(self) -> SyncCommittee<N> {
        match self {
            ActiveSyncCommittee::Current(committee) => committee,
            ActiveSyncCommittee::Next(committee) => committee,
        }
    }

    /// This value with `committee` in the place of its committee.
    pub open spec fn with_committee(self, committee: SyncCommittee<N>) -> ActiveSyncCommittee<N> {
        match self {
            ActiveSyncCommittee::Current(_) => ActiveSyncCommittee::Current(committee),
            ActiveSyncCommittee::Next(_) => ActiveSyncCommittee::Next(committee),
        }
    }

    /// The committee, whichever of the two it is.
    #[must_use]
    pub fn get(&self) -> (r: &SyncCommittee<N>)
        ensures
            *r == self.committee(),
    {
        match self {
            ActiveSyncCommittee::Current(committee) => committee,
            ActiveSyncCommittee::Next(committee) => committee,
        }
    }

    /// The committee, to be changed in place: what is written to it becomes
    /// the committee of this value, which stays the current or the next.
    #[must_use]
    pub fn get_mut(&mut self) -> (r: &mut SyncCommittee<N>)
        ensures
            *r == old(self).committee(),
            *final(self) == old(self).with_committee(*final(r)),
    {
        match self {
            ActiveSyncCommittee::Current(committee) => committee,
            ActiveSyncCommittee::Next(committee) => committee,
        }
    }
}

impl<const N: usize> TrustedSyncCommittee<N> {
    /// The committee of a wire message that validation looks at: the current
    /// one if it is present, else the next.
    pub open spec fn chosen(raw: protos::TrustedSyncCommittee) -> Option<protos::SyncCommittee> {
        match raw.current_sync_committee {
            Some(current) => Some(current),
            None => raw.next_sync_committee,
        }
    }

    /// The error, if any, that keeps a wire message from being a trusted
    /// sync committee. The height is looked at first, then the committees.
    pub open spec fn defect(raw: protos::TrustedSyncCommittee) -> Option<
        TryFromTrustedSyncCommitteeError,
    > {
        if raw.trusted_height is None {
            Some(TryFromTrustedSyncCommitteeError::MissingField(MissingField("trusted_height")))
        } else {
            match Self::chosen(raw) {
                None => Some(
                    TryFromTrustedSyncCommitteeError::MissingField(
                        MissingField("no current nor next sync committee"),
                    ),
                ),
                Some(committee) => match SyncCommittee::<N>::defect(committee) {
                    Some(e) => Some(TryFromTrustedSyncCommitteeError::SyncCommittee(e)),
                    None => None,
                },
            }
        }
    }

    /// Whether this value holds what the wire message `raw` holds: its
    /// height, and as the current committee the current one of the message
    /// if that is present, else as the next committee the next one.
    pub open spec fn agrees(self, raw: protos::TrustedSyncCommittee) -> bool {
        &&& raw.trusted_height matches Some(height)
        &&& self.trusted_height.revision_number == height.revision_number
        &&& self.trusted_height.revision_height == height.revision_height
        &&& Self::chosen(raw) matches Some(committee)
        &&& self.sync_committee.committee().agrees(committee)
        &&& self.sync_committee is Current <==> raw.current_sync_committee is Some
    }

    /// Validates a wire message: the trusted height must be present, and one
    /// of the two committees. Where both are, the current one is taken.
    pub fn try_from(value: protos::TrustedSyncCommittee) -> (r: Result<
        TrustedSyncCommittee<N>,
        TryFromTrustedSyncCommitteeError,
    >)
        ensures
            match r {
                Ok(trusted) => Self::defect(value) is None && trusted.agrees(value)
                    && trusted.sync_committee.committee().well_formed(),
                Err(e) => Self::defect(value) == Some(e),
            },
    {
        let trusted_height = match value.trusted_height {
            Some(height) => Height::from(height),
            None => {
                return Err(
                    TryFromTrustedSyncCommitteeError::MissingField(MissingField("trusted_height")),
                );
            },
        };
        let sync_committee = match (value.current_sync_committee, value.next_sync_committee) {
            (None, None) => {
                return Err(
                    TryFromTrustedSyncCommitteeError::MissingField(
                        MissingField("no current nor next sync committee"),
                    ),
                );
            },
            (None, Some(next_committee)) => match SyncCommittee::try_from(next_committee) {
                Ok(committee) => ActiveSyncCommittee::Next(committee),
                Err(e) => {
                    return Err(TryFromTrustedSyncCommitteeError::SyncCommittee(e));
                },
            },
            (Some(current_committee), _) => match SyncCommittee::try_from(current_committee) {
                Ok(committee) => ActiveSyncCommittee::Current(committee),
                Err(e) => {
                    return Err(TryFromTrustedSyncCommitteeError::SyncCommittee(e));
                },
            },
        };
        Ok(TrustedSyncCommittee { trusted_height, sync_committee })
    }

    /// The wire message that stands for this value: it holds the height and
    /// exactly one committee, the current or the next. It passes validation
    /// if the committee has as many members as it must have.
    pub fn into_raw(self) -> (r: protos::TrustedSyncCommittee)
        ensures
            self.agrees(r),
            r.current_sync_committee is None || r.next_sync_committee is None,
            self.sync_committee.committee().well_formed() ==> Self::defect(r) is None,
    {
        match self.sync_committee {
            ActiveSyncCommittee::Current(committee) => protos::TrustedSyncCommittee {
                trusted_height: Some(self.trusted_height.into_raw()),
                current_sync_committee: Some(committee.into_raw()),
                next_sync_committee: None,
            },
            ActiveSyncCommittee::Next(committee) => protos::TrustedSyncCommittee {
                trusted_height: Some(self.trusted_height.into_raw()),
                current_sync_committee: None,
                next_sync_committee: Some(committee.into_raw()),
            },
        }
    }
}

/// Nothing is lost between a wire message and the account update it stands
/// for: the message holds the bytes of the storage root and the proof of the
/// account update.
pub proof fn lemma_account_update_lossless(raw: protos::AccountUpdate)
    ensures
        AccountUpdate::parsed(raw) matches Ok(update) ==> {
            &&& raw.account_proof matches Some(account_proof)
            &&& account_proof.storage_root@ == update.account_proof.storage_root.bytes()
            &&& account_proof.proof == update.account_proof.proof
        },
{
    if let Some(account_proof) = raw.account_proof {
        crate::hash::lemma_h256_parse(account_proof.storage_root@);
    }
}

/// A wire message stands for at most one sync committee, member by member.
pub proof fn lemma_sync_committee_unique<const N: usize>(
    a: SyncCommittee<N>,
    b: SyncCommittee<N>,
    raw: protos::SyncCommittee,
)
    requires
        a.agrees(raw),
        b.agrees(raw),
    ensures
        a.pubkeys@ == b.pubkeys@,
        a.aggregate_pubkey == b.aggregate_pubkey,
{
    assert(a.aggregate_pubkey.0 =~= b.aggregate_pubkey.0);
    assert forall|i: int| 0 <= i < a.pubkeys@.len() implies a.pubkeys@[i] == b.pubkeys@[i] by {
        assert(a.pubkeys@[i].bytes() == raw.pubkeys@[i]@);
        assert(b.pubkeys@[i].bytes() == raw.pubkeys@[i]@);
        assert(a.pubkeys@[i].0 =~= b.pubkeys@[i].0);
    }
    assert(a.pubkeys@ =~= b.pubkeys@);
}

/// A sync committee is stood for by at most one wire message, byte by byte.
pub proof fn lemma_sync_committee_raw_unique<const N: usize>(
    committee: SyncCommittee<N>,
    a: protos::SyncCommittee,
    b: protos::SyncCommittee,
)
    requires
        committee.agrees(a),
        committee.agrees(b),
    ensures
        a.pubkeys@.len() == b.pubkeys@.len(),
        forall|i: int| 0 <= i < a.pubkeys@.len() ==> (#[trigger] a.pubkeys@[i])@ == b.pubkeys@[i]@,
        a.aggregate_pubkey@ == b.aggregate_pubkey@,
{
    assert forall|i: int| 0 <= i < a.pubkeys@.len() implies (#[trigger] a.pubkeys@[i])@
        == b.pubkeys@[i]@ by {
        assert(committee.pubkeys@[i].bytes() == a.pubkeys@[i]@);
        assert(committee.pubkeys@[i].bytes() == b.pubkeys@[i]@);
    }
}

/// A wire message stands for at most one trusted sync committee: the same
/// height, the same choice between current and next, and the same members.
pub proof fn lemma_trusted_sync_committee_unique<const N: usize>(
    a: TrustedSyncCommittee<N>,
    b: TrustedSyncCommittee<N>,
    raw: protos::TrustedSyncCommittee,
)
    requires
        a.agrees(raw),
        b.agrees(raw),
    ensures
        a.trusted_height == b.trusted_height,
        a.sync_committee is Current <==> b.sync_committee is Current,
        a.sync_committee.committee().pubkeys@ == b.sync_committee.committee().pubkeys@,
        a.sync_committee.committee().aggregate_pubkey
            == b.sync_committee.committee().aggregate_pubkey,
{
    let chosen = TrustedSyncCommittee::<N>::chosen(raw)->Some_0;
    lemma_sync_committee_unique(
        a.sync_committee.committee(),
        b.sync_committee.committee(),
        chosen,
    );
}

} // verus!
