//! Fixed-size hashes and addresses.

use crate::bytes::push_all;
use crate::errors::{ExpectedLength, InvalidLength};
use vstd::prelude::*;

verus! {

/// A 32-byte hash.
#[derive(Debug, Clone, Copy, PartialEq, Eq, Hash)]
pub struct H256(pub [u8; 32]);

/// A 20-byte address.
#[derive(Debug, Clone, Copy, PartialEq, Eq, Hash)]
pub struct H160(pub [u8; 20]);

/// The array that holds the first 32 bytes of `bz`.
pub open spec fn array32_of(bz: Seq<u8>) -> [u8; 32] {
    [
        bz[0], bz[1], bz[2], bz[3], bz[4], bz[5], bz[6], bz[7],
        bz[8], bz[9], bz[10], bz[11], bz[12], bz[13], bz[14], bz[15],
        bz[16], bz[17], bz[18], bz[19], bz[20], bz[21], bz[22], bz[23],
        bz[24], bz[25], bz[26], bz[27], bz[28], bz[29], bz[30], bz[31],
    ]
}

/// Copies the 32 bytes at `at` out of `bz`.
pub fn array32(bz: &[u8], at: usize) -> (r: [u8; 32])
    requires
        at + 32 <= bz@.len(),
    ensures
        r@ == bz@.subrange(at as int, at + 32),
{
    let len = bz.len();
    let mut r = [0u8;32];
    let mut i: usize = 0;
    while i < 32
        invariant
            i <= 32,
            len == bz@.len(),
            at + 32 <= len,
            forall|j: int| 0 <= j < i ==> r@[j] == bz@[at + j],
        decreases 32 - i,
    {
        r[i] = bz[at + i];
        i = i + 1;
    }
    assert(r@ =~= bz@.subrange(at as int, at + 32));
    r
}

/// Copies the 20 bytes at `at` out of `bz`.
pub fn array20(bz: &[u8], at: usize) -> (r: [u8; 20])
    requires
        at + 20 <= bz@.len(),
    ensures
        r@ == bz@.subrange(at as int, at + 20),
{
    let len = bz.len();
    let mut r = [0u8;20];
    let mut i: usize = 0;
    while i < 20
        invariant
            i <= 20,
            len == bz@.len(),
            at + 20 <= len,
            forall|j: int| 0 <= j < i ==> r@[j] == bz@[at + j],
        decreases 20 - i,
    {
        r[i] = bz[at + i];
        i = i + 1;
    }
    assert(r@ =~= bz@.subrange(at as int, at + 20));
    r
}

impl H256 {
    /// The 32 bytes of the hash, in order.
    pub open spec fn bytes(self) -> Seq<u8> {
        self.0@
    }

    /// What `try_from` returns for a byte string: the hash that holds exactly
    /// these bytes, or the length found when there are not 32 of them.
    pub open spec fn parse(bz: Seq<u8>) -> Result<H256, InvalidLength> {
        if bz.len() == 32 {
            Ok(H256(array32_of(bz)))
        } else {
            Err(InvalidLength { expected: ExpectedLength::Exact(32), found: bz.len() as usize })
        }
    }

    /// The hash as an owned byte string.
    pub fn into_bytes(self) -> (r: Vec<u8>)
        ensures
            r@ == self.bytes(),
    {
        let mut r: Vec<u8> = Vec::new();
        push_all(&mut r, self.0.as_slice());
        r
    }
}

impl TryFrom<Vec<u8>> for H256 {
    type Error = InvalidLength;

    fn try_from(value: Vec<u8>) -> (r: Result<H256, InvalidLength>)
    {
        if value.len() == 32 {
            let a = array32(value.as_slice(), 0);
            proof {
                assert(value@.subrange(0, 32) =~= value@);
                assert(array32_of(value@) =~= a);
            }
            Ok(H256(a))
        } else {
            Err(InvalidLength { expected: ExpectedLength::Exact(32), found: value.len() })
        }
    }
}

impl vstd::std_specs::convert::TryFromSpecImpl<Vec<u8>> for H256 {
    open spec fn obeys_try_from_spec() -> bool {
        true
    }

    open spec fn try_from_spec(value: Vec<u8>) -> Result<H256, InvalidLength> {
        H256::parse(value@)
    }
}

/// A hash read from a byte string holds exactly those bytes, and reading the
/// bytes of a hash gives the hash back.
pub proof fn lemma_h256_round_trip(h: H256, bz: Seq<u8>)
    ensures
        H256::parse(h.bytes()) == Ok::<H256, InvalidLength>(h),
        H256::parse(bz) matches Ok(p) ==> p.bytes() == bz,
        H256::parse(bz) is Ok <==> bz.len() == 32,
{
    assert(array32_of(h.0@) =~= h.0);
    if bz.len() == 32 {
        assert(array32_of(bz)@ =~= bz);
    }
}

/// A byte string is a hash exactly if it is 32 bytes long, and the hash read
/// from it holds exactly its bytes.
pub proof fn lemma_h256_parse(bz: Seq<u8>)
    ensures
        H256::parse(bz) matches Ok(p) ==> p.bytes() == bz,
        H256::parse(bz) is Ok <==> bz.len() == 32,
{
    if bz.len() == 32 {
        assert(array32_of(bz)@ =~= bz);
    }
}

} // verus!
