//! Length operations: how a proof step marks the length of a key or value
//! before it is hashed.

use crate::bytes::{le_bytes, push_all, push_le};
use vstd::prelude::*;

verus! {

/// How the length of some data is marked in front of it.
#[derive(Debug, Clone, Copy, PartialEq, Eq, Structural)]
pub enum LengthOp {
    /// No mark at all.
    NoPrefix,
    /// The length as a protobuf varint.
    VarProto,
    /// The length as an RLP integer.
    VarRlp,
    /// The length on four bytes, big-endian.
    Fixed32Big,
    /// The length on four bytes, little-endian.
    Fixed32Little,
    /// The length on eight bytes, big-endian.
    Fixed64Big,
    /// The length on eight bytes, little-endian.
    Fixed64Little,
    /// No mark; the data must be 32 bytes long.
    Require32Bytes,
    /// No mark; the data must be 64 bytes long.
    Require64Bytes,
}

impl LengthOp {
    /// The length operation that the number `n` names on the wire.
    pub open spec fn of_number(n: i32) -> Option<LengthOp> {
        if n == 0 {
            Some(LengthOp::NoPrefix)
        } else if n == 1 {
            Some(LengthOp::VarProto)
        } else if n == 2 {
            Some(LengthOp::VarRlp)
        } else if n == 3 {
            Some(LengthOp::Fixed32Big)
        } else if n == 4 {
            Some(LengthOp::Fixed32Little)
        } else if n == 5 {
            Some(LengthOp::Fixed64Big)
        } else if n == 6 {
            Some(LengthOp::Fixed64Little)
        } else if n == 7 {
            Some(LengthOp::Require32Bytes)
        } else if n == 8 {
            Some(LengthOp::Require64Bytes)
        } else {
            None
        }
    }

    /// The number that names this length operation on the wire.
    pub open spec fn number(self) -> i32 {
        match self {
            LengthOp::NoPrefix => 0,
            LengthOp::VarProto => 1,
            LengthOp::VarRlp => 2,
            LengthOp::Fixed32Big => 3,
            LengthOp::Fixed32Little => 4,
            LengthOp::Fixed64Big => 5,
            LengthOp::Fixed64Little => 6,
            LengthOp::Require32Bytes => 7,
            LengthOp::Require64Bytes => 8,
        }
    }

    /// Reads a length operation from the number that names it: 0 to 8.
    pub fn from_i32(n: i32) -> (r: Option<LengthOp>)
        ensures
            r == Self::of_number(n),
            r matches Some(op) ==> op.number() == n,
    {
        if n == 0 {
            Some(LengthOp::NoPrefix)
        } else if n == 1 {
            Some(LengthOp::VarProto)
        } else if n == 2 {
            Some(LengthOp::VarRlp)
        } else if n == 3 {
            Some(LengthOp::Fixed32Big)
        } else if n == 4 {
            Some(LengthOp::Fixed32Little)
        } else if n == 5 {
            Some(LengthOp::Fixed64Big)
        } else if n == 6 {
            Some(LengthOp::Fixed64Little)
        } else if n == 7 {
            Some(LengthOp::Require32Bytes)
        } else if n == 8 {
            Some(LengthOp::Require64Bytes)
        } else {
            None
        }
    }

    /// The number that names this length operation on the wire. Reading it
    /// gives the length operation back.
    pub fn to_i32(self) -> (r: i32)
        ensures
            r == self.number(),
            Self::of_number(r) == Some(self),
    {
        match self {
            LengthOp::NoPrefix => 0,
            LengthOp::VarProto => 1,
            LengthOp::VarRlp => 2,
            LengthOp::Fixed32Big => 3,
            LengthOp::Fixed32Little => 4,
            LengthOp::Fixed64Big => 5,
            LengthOp::Fixed64Little => 6,
            LengthOp::Require32Bytes => 7,
            LengthOp::Require64Bytes => 8,
        }
    }
}

/// Why a length operation could not be applied.
#[derive(Debug, Clone, Copy, PartialEq, Eq, Structural)]
pub enum ApplyError {
    /// The data had to be 32 bytes long and was this long.
    Required32Bytes(usize),
    /// The data had to be 64 bytes long and was this long.
    Required64Bytes(usize),
    /// The operation is not supported.
    UnsupportedOp(LengthOp),
}

/// The LEB128 encoding of `value`: seven bits to a byte, low bits first, the
/// high bit of a byte set where another byte follows.
pub open spec fn varint(value: nat) -> Seq<u8>
    decreases value,
{
    if value < 0x80 {
        seq![value as u8]
    } else {
        seq![(value % 0x80 + 0x80) as u8] + varint(value / 0x80)
    }
}

/// What applying `op` to `data` gives.
pub open spec fn applied(op: LengthOp, data: Seq<u8>) -> Result<Seq<u8>, ApplyError> {
    match op {
        LengthOp::NoPrefix => Ok(data),
        LengthOp::VarProto => Ok(varint(data.len()) + data),
        LengthOp::Require32Bytes => if data.len() == 32 {
            Ok(data)
        } else {
            Err(ApplyError::Required32Bytes(data.len() as usize))
        },
        LengthOp::Require64Bytes => if data.len() == 64 {
            Ok(data)
        } else {
            Err(ApplyError::Required64Bytes(data.len() as usize))
        },
        LengthOp::Fixed32Little => Ok(le_bytes(data.len() % 0x1_0000_0000, 4) + data),
        _ => Err(ApplyError::UnsupportedOp(op)),
    }
}

/// Appends the varint of `value` to `buf`.
///
/// Calls `prost::encoding::encode_varint`, which writes `value` in LEB128:
/// while the value is `0x80` or more, a byte of its low seven bits with the
/// high bit set, then the value shifted right by seven; at last the value
/// itself as one byte. The contract states exactly these bytes.
#[verifier::external_body]
fn encode_varint(value: u64, buf: &mut Vec<u8>)
    ensures
        final(buf)@ == old(buf)@ + varint(value as nat),
{
    prost::encoding::encode_varint(value, buf);
}

/// Applies the length operation `length_op` to `data`.
///
/// `NoPrefix` hands the data back. `VarProto` puts the length in front of it
/// as a varint, `Fixed32Little` as four little-endian bytes that hold the
/// length modulo 2^32. `Require32Bytes` and `Require64Bytes` hand the data
/// back if it has that length and fail with the length found if not. Every
/// other operation is unsupported.
pub fn apply(length_op: &LengthOp, data: Vec<u8>) -> (r: Result<Vec<u8>, ApplyError>)
    ensures
        match r {
            Ok(out) => applied(*length_op, data@) == Ok::<_, ApplyError>(out@),
            Err(e) => applied(*length_op, data@) == Err::<Seq<u8>, _>(e),
        },
{
    match length_op {
        LengthOp::NoPrefix => Ok(data),
        LengthOp::VarProto => {
            let mut len: Vec<u8> = Vec::new();
            encode_varint(data.len() as u64, &mut len);
            push_all(&mut len, data.as_slice());
            assert(len@ =~= varint(data@.len()) + data@);
            Ok(len)
        },
        LengthOp::Require32Bytes => {
            if data.len() != 32 {
                return Err(ApplyError::Required32Bytes(data.len()));
            }
            Ok(data)
        },
        LengthOp::Require64Bytes => {
            if data.len() != 64 {
                return Err(ApplyError::Required64Bytes(data.len()));
            }
            Ok(data)
        },
        LengthOp::Fixed32Little => {
            let mut d: Vec<u8> = Vec::new();
            push_le(&mut d, data.len() as u64 % 0x1_0000_0000, 4);
            push_all(&mut d, data.as_slice());
            assert(d@ =~= le_bytes(data@.len() % 0x1_0000_0000, 4) + data@);
            Ok(d)
        },
        op => Err(ApplyError::UnsupportedOp(*op)),
    }
}

} // verus!
