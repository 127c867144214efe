//! Accounts of chains built with the Cosmos SDK.

use crate::errors::MissingField;
use crate::protos;
use vstd::prelude::*;

verus! {

/// The type of a BN254 public key, as wire messages name it.
pub const BN254_TYPE_URL: &'static str = "/cosmos.crypto.bn254.PubKey";

/// The type of an Ed25519 public key, as wire messages name it.
pub const ED25519_TYPE_URL: &'static str = "/cosmos.crypto.ed25519.PubKey";

/// The type of a secp256k1 public key, as wire messages name it.
pub const SECP256K1_TYPE_URL: &'static str = "/cosmos.crypto.secp256k1.PubKey";

/// A public key of one of the schemes that accounts use, with the encoded
/// key as the wire message holds it.
#[derive(Debug, Clone, PartialEq, Eq)]
pub enum AnyPubKey {
    Bn254(Vec<u8>),
    Ed25519(Vec<u8>),
    Secp256k1(Vec<u8>),
}

/// Why a wire message is not a public key.
#[derive(Debug, Clone, PartialEq, Eq)]
pub enum TryFromAnyPubKeyError {
    /// The message names a type that is not a key of a known scheme.
    UnknownTypeUrl(String),
}

impl AnyPubKey {
    /// The public key that a wire message stands for, or why it stands for
    /// none: the type it names decides.
    pub open spec fn parsed(raw: protos::Any) -> Result<AnyPubKey, TryFromAnyPubKeyError> {
        if raw.type_url@ == BN254_TYPE_URL@ {
            Ok(AnyPubKey::Bn254(raw.value))
        } else if raw.type_url@ == ED25519_TYPE_URL@ {
            Ok(AnyPubKey::Ed25519(raw.value))
        } else if raw.type_url@ == SECP256K1_TYPE_URL@ {
            Ok(AnyPubKey::Secp256k1(raw.value))
        } else {
            Err(TryFromAnyPubKeyError::UnknownTypeUrl(raw.type_url))
        }
    }

    /// The name of the type of this key.
    pub open spec fn type_url_of(self) -> Seq<char> {
        match self {
            AnyPubKey::Bn254(_) => BN254_TYPE_URL@,
            AnyPubKey::Ed25519(_) => ED25519_TYPE_URL@,
            AnyPubKey::Secp256k1(_) => SECP256K1_TYPE_URL@,
        }
    }

    /// The encoded key.
    pub open spec fn value_of(self) -> Vec<u8> {
        match self {
            AnyPubKey::Bn254(value) => value,
            AnyPubKey::Ed25519(value) => value,
            AnyPubKey::Secp256k1(value) => value,
        }
    }

    /// Validates a wire message: it must name the type of a key of a known
    /// scheme.
    pub fn try_from(value: protos::Any) -> (r: Result<AnyPubKey, TryFromAnyPubKeyError>)
        ensures
            r == Self::parsed(value),
    {
        if value.type_url == BN254_TYPE_URL.to_owned() {
            Ok(AnyPubKey::Bn254(value.value))
        } else if value.type_url == ED25519_TYPE_URL.to_owned() {
            Ok(AnyPubKey::Ed25519(value.value))
        } else if value.type_url == SECP256K1_TYPE_URL.to_owned() {
            Ok(AnyPubKey::Secp256k1(value.value))
        } else {
            Err(TryFromAnyPubKeyError::UnknownTypeUrl(value.type_url))
        }
    }

    /// The wire message that stands for this key: the name of its type and
    /// the encoded key. Validating it gives the key back.
    pub fn into_raw(self) -> (r: protos::Any)
        ensures
            r.type_url@ == self.type_url_of(),
            r.value == self.value_of(),
            Self::parsed(r) == Ok::<_, TryFromAnyPubKeyError>(self),
    {
        proof {
            lemma_type_urls_differ();
        }
        match self {
            AnyPubKey::Bn254(value) => protos::Any { type_url: BN254_TYPE_URL.to_owned(), value },
            AnyPubKey::Ed25519(value) => protos::Any {
                type_url: ED25519_TYPE_URL.to_owned(),
                value,
            },
            AnyPubKey::Secp256k1(value) => protos::Any {
                type_url: SECP256K1_TYPE_URL.to_owned(),
                value,
            },
        }
    }
}

/// The names of the types of the three schemes are three different names.
pub proof fn lemma_type_urls_differ()
    ensures
        BN254_TYPE_URL@ != ED25519_TYPE_URL@,
        BN254_TYPE_URL@ != SECP256K1_TYPE_URL@,
        ED25519_TYPE_URL@ != SECP256K1_TYPE_URL@,
{
    reveal_strlit("/cosmos.crypto.bn254.PubKey");
    reveal_strlit("/cosmos.crypto.ed25519.PubKey");
    reveal_strlit("/cosmos.crypto.secp256k1.PubKey");
    assert(BN254_TYPE_URL@.len() == 27);
    assert(ED25519_TYPE_URL@.len() == 29);
    assert(SECP256K1_TYPE_URL@.len() == 31);
}

/// An account: an address, the key that signs for it once it has sent a
/// transaction, and its place among the accounts and among its own
/// transactions.
#[derive(Debug, Clone, PartialEq, Eq)]
pub struct BaseAccount {
    pub address: String,
    pub pub_key: Option<AnyPubKey>,
    pub account_number: u64,
    pub sequence: u64,
}

/// Why a wire message is not an account.
#[derive(Debug, Clone, PartialEq, Eq)]
pub enum TryFromBaseAccountError {
    /// A required field is absent.
    MissingField(MissingField),
    /// The public key is present and is not a public key.
    PubKey(TryFromAnyPubKeyError),
}

impl BaseAccount {
    /// The account that a wire message stands for, or why it stands for none.
    pub open spec fn parsed(raw: protos::BaseAccount) -> Result<
        BaseAccount,
        TryFromBaseAccountError,
    > {
        match raw.pub_key {
            None => Ok(
                BaseAccount {
                    address: raw.address,
                    pub_key: None,
                    account_number: raw.account_number,
                    sequence: raw.sequence,
                },
            ),
            Some(pk) => match AnyPubKey::parsed(pk) {
                Err(e) => Err(TryFromBaseAccountError::PubKey(e)),
                Ok(pk) => Ok(
                    BaseAccount {
                        address: raw.address,
                        pub_key: Some(pk),
                        account_number: raw.account_number,
                        sequence: raw.sequence,
                    },
                ),
            },
        }
    }

    /// Validates a wire message: the public key may be absent, and where it
    /// is present it must be a public key.
    pub fn try_from(value: protos::BaseAccount) -> (r: Result<
        BaseAccount,
        TryFromBaseAccountError,
    >)
        ensures
            r == Self::parsed(value),
    {
        let pub_key = match value.pub_key {
            None => None,
            Some(pk) => match AnyPubKey::try_from(pk) {
                Ok(pk) => Some(pk),
                Err(e) => {
                    return Err(TryFromBaseAccountError::PubKey(e));
                },
            },
        };
        Ok(
            BaseAccount {
                address: value.address,
                pub_key,
                account_number: value.account_number,
                sequence: value.sequence,
            },
        )
    }

    /// The wire message that stands for this account. Validating it gives
    /// the account back.
    pub fn into_raw(self) -> (r: protos::BaseAccount)
        ensures
            r.address == self.address,
            r.account_number == self.account_number,
            r.sequence == self.sequence,
            match self.pub_key {
                None => r.pub_key is None,
                Some(pk) => r.pub_key matches Some(raw) && raw.type_url@ == pk.type_url_of()
                    && raw.value == pk.value_of(),
            },
            Self::parsed(r) == Ok::<_, TryFromBaseAccountError>(self),
    {
        protos::BaseAccount {
            address: self.address,
            pub_key: match self.pub_key {
                None => None,
                Some(pk) => Some(pk.into_raw()),
            },
            account_number: self.account_number,
            sequence: self.sequence,
        }
    }
}

} // verus!
