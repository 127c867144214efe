//! Keccak-256, computed by the `sha3` crate.

use crate::hash::H256;
use vstd::prelude::*;

verus! {

/// A running Keccak-256 computation: bytes go in piece by piece, and the
/// digest of all of them comes out at the end.
///
/// The hasher of `sha3` stays opaque. All that is known of it is what
/// `absorbed` names: the bytes it has been fed.
#[verifier::external_body]
pub struct Keccak256 {
    inner: sha3::Keccak256,
}

/// The bytes that have been fed to `hasher` so far, in the order they came.
pub uninterp spec fn absorbed(hasher: Keccak256) -> Seq<u8>;

/// The Keccak-256 digest of `data`: 32 bytes.
pub uninterp spec fn keccak256(data: Seq<u8>) -> Seq<u8>;

/// Starts a computation.
///
/// Calls `sha3::Digest::new` for `sha3::Keccak256`, which creates a hasher
/// that has processed no data.
#[verifier::external_body]
fn fresh() -> (hasher: Keccak256)
    ensures
        absorbed(hasher) == Seq::<u8>::empty(),
{
    Keccak256 { inner: sha3::Digest::new() }
}

/// Feeds `data` to the computation.
///
/// Calls `sha3::Digest::update`, which processes the data after what was
/// processed before.
#[verifier::external_body]
fn absorb(hasher: &mut Keccak256, data: &[u8])
    ensures
        absorbed(*final(hasher)) == absorbed(*old(hasher)) + data@,
{
    sha3::Digest::update(&mut hasher.inner, data);
}

/// Ends the computation.
///
/// Calls `sha3::Digest::finalize`, which returns the 32-byte digest of all
/// the data processed.
#[verifier::external_body]
fn squeeze(hasher: Keccak256) -> (digest: [u8; 32])
    ensures
        digest@ == keccak256(absorbed(hasher)),
{
    sha3::Digest::finalize(hasher.inner).into()
}

impl Keccak256 {
    /// The bytes fed so far.
    pub open spec fn input(self) -> Seq<u8> {
        absorbed(self)
    }

    /// A computation that has been fed nothing yet.
    pub fn new() -> (hasher: Keccak256)
        ensures
            hasher.input() == Seq::<u8>::empty(),
    {
        fresh()
    }

    /// Feeds `data` after what was fed before.
    pub fn update(&mut self, data: &[u8])
        ensures
            final(self).input() == old(self).input() + data@,
    {
        absorb(self, data)
    }

    /// The digest of everything that was fed.
    pub fn finalize(self) -> (digest: H256)
        ensures
            digest.bytes() == keccak256(self.input()),
    {
        H256(squeeze(self))
    }
}

} // verus!
