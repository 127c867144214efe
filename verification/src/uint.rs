//! 256-bit unsigned integers, kept as their 32 big-endian bytes.

use crate::bytes::be_value;
use crate::hash::array32_of;
use vstd::prelude::*;

verus! {

/// A 256-bit unsigned integer.
#[derive(Debug, Clone, Copy, PartialEq, Eq, Hash)]
pub struct U256 {
    be: [u8; 32],
}

impl U256 {
    /// The 32 bytes of the number, most significant first.
    pub closed spec fn be_bytes(self) -> Seq<u8> {
        self.be@
    }

    /// The number itself.
    pub open spec fn value(self) -> nat {
        be_value(self.be_bytes())
    }

    /// The number whose big-endian bytes are the first 32 bytes of `bz`.
    pub closed spec fn of_bytes(bz: Seq<u8>) -> U256 {
        U256 { be: array32_of(bz) }
    }

    /// The number whose big-endian bytes are `bz`.
    pub fn from_be_bytes(bz: [u8; 32]) -> (r: U256)
        ensures
            r == U256::of_bytes(bz@),
            r.be_bytes() == bz@,
    {
        assert(array32_of(bz@) =~= bz);
        U256 { be: bz }
    }

    /// The big-endian bytes of the number.
    pub fn to_be_bytes(&self) -> (r: [u8; 32])
        ensures
            r@ == self.be_bytes(),
    {
        self.be
    }
}

/// A number made of 32 bytes has these bytes, and a number is made of its bytes.
pub proof fn lemma_u256_of_bytes(a: U256, bz: Seq<u8>)
    ensures
        U256::of_bytes(a.be_bytes()) == a,
        bz.len() == 32 ==> U256::of_bytes(bz).be_bytes() == bz,
{
    assert(array32_of(a.be@) =~= a.be);
    if bz.len() == 32 {
        assert(array32_of(bz)@ =~= bz);
    }
}

/// The bytes of a number are always 32.
pub proof fn lemma_u256_len(a: U256)
    ensures
        a.be_bytes().len() == 32,
{
}

} // verus!
