//! Fixed-width integers as byte strings, most significant byte first or last.

use vstd::prelude::*;

verus! {

/// The number that `s` denotes when its first byte is the most significant.
pub open spec fn be_value(s: Seq<u8>) -> nat
    decreases s.len(),
{
    if s.len() == 0 {
        0
    } else {
        be_value(s.drop_last()) * 256 + s.last() as nat
    }
}

/// The `len` low-order base-256 digits of `n`, most significant first.
pub open spec fn be_bytes(n: nat, len: nat) -> Seq<u8>
    decreases len,
{
    if len == 0 {
        Seq::empty()
    } else {
        be_bytes(n / 256, (len - 1) as nat).push((n % 256) as u8)
    }
}

/// The `len` low-order base-256 digits of `n`, least significant first.
pub open spec fn le_bytes(n: nat, len: nat) -> Seq<u8>
    decreases len,
{
    if len == 0 {
        Seq::empty()
    } else {
        seq![(n % 256) as u8] + le_bytes(n / 256, (len - 1) as nat)
    }
}

/// 256 to the power `len`: one more than the largest number on `len` bytes.
pub open spec fn capacity(len: nat) -> nat
    decreases len,
{
    if len == 0 {
        1
    } else {
        256 * capacity((len - 1) as nat)
    }
}

/// `be_bytes` always yields exactly `len` bytes.
pub proof fn lemma_be_bytes_len(n: nat, len: nat)
    ensures
        be_bytes(n, len).len() == len,
    decreases len,
{
    if len > 0 {
        lemma_be_bytes_len(n / 256, (len - 1) as nat);
    }
}

/// `le_bytes` always yields exactly `len` bytes.
pub proof fn lemma_le_bytes_len(n: nat, len: nat)
    ensures
        le_bytes(n, len).len() == len,
    decreases len,
{
    if len > 0 {
        lemma_le_bytes_len(n / 256, (len - 1) as nat);
    }
}

/// A byte string of length `len` denotes a number below `capacity(len)`.
pub proof fn lemma_be_value_bound(s: Seq<u8>)
    ensures
        be_value(s) < capacity(s.len()),
    decreases s.len(),
{
    if s.len() > 0 {
        lemma_be_value_bound(s.drop_last());
    }
}

/// Writing out the number that a byte string denotes gives the string back.
pub proof fn lemma_be_bytes_of_value(s: Seq<u8>)
    ensures
        be_bytes(be_value(s), s.len()) == s,
    decreases s.len(),
{
    if s.len() > 0 {
        let head = s.drop_last();
        lemma_be_bytes_of_value(head);
        let v = be_value(s);
        assert(v / 256 == be_value(head) && v % 256 == s.last() as nat) by {
            let h = be_value(head) as int;
            let l = s.last() as int;
            assert((h * 256 + l) / 256 == h && (h * 256 + l) % 256 == l) by (nonlinear_arith)
                requires
                    0 <= l < 256,
                    0 <= h,
            ;
        }
        assert(be_bytes(v, s.len()) =~= s);
    }
}

/// Reading back the `len` bytes written for a number that fits gives the number.
pub proof fn lemma_be_value_of_bytes(n: nat, len: nat)
    requires
        n < capacity(len),
    ensures
        be_value(be_bytes(n, len)) == n,
    decreases len,
{
    if len > 0 {
        let rest = (len - 1) as nat;
        assert(n / 256 < capacity(rest)) by (nonlinear_arith)
            requires
                n < 256 * capacity(rest),
        ;
        lemma_be_value_of_bytes(n / 256, rest);
        let s = be_bytes(n, len);
        assert(s.drop_last() =~= be_bytes(n / 256, rest));
        assert((n / 256) * 256 + n % 256 == n) by (nonlinear_arith);
    }
}

/// Reads the two bytes at `at` as a big-endian number.
pub fn read_u16_be(bz: &[u8], at: usize) -> (r: u16)
    requires
        at + 2 <= bz@.len(),
    ensures
        r == be_value(bz@.subrange(at as int, at + 2)),
{
    let ghost s = bz@.subrange(at as int, at + 2);
    proof {
        reveal_with_fuel(be_value, 3);
        assert(s.drop_last().drop_last().len() == 0);
    }
    let hi: u16 = bz[at] as u16;
    let lo: u16 = bz[at + 1] as u16;
    hi * 256 + lo
}

/// Reads the four bytes at `at` as a big-endian number.
pub fn read_u32_be(bz: &[u8], at: usize) -> (r: u32)
    requires
        at + 4 <= bz@.len(),
    ensures
        r == be_value(bz@.subrange(at as int, at + 4)),
{
    let len = bz.len();
    let mut acc: u32 = 0;
    let mut i: usize = 0;
    proof {
        assert(bz@.subrange(at as int, at as int).len() == 0);
    }
    while i < 4
        invariant
            i <= 4,
            len == bz@.len(),
            at + 4 <= len,
            acc == be_value(bz@.subrange(at as int, at + i)),
            acc < capacity(i as nat),
        decreases 4 - i,
    {
        let ghost before = bz@.subrange(at as int, at + i);
        let ghost after = bz@.subrange(at as int, at + i + 1);
        proof {
            assert(after.drop_last() =~= before);
            lemma_capacity_values();
            assert(capacity(i as nat) <= 0x100_0000) by {
                lemma_capacity_monotone(i as nat, 3);
            }
        }
        acc = acc * 256 + bz[at + i] as u32;
        i = i + 1;
    }
    acc
}

/// Reads the eight bytes at `at` as a big-endian number.
pub fn read_u64_be(bz: &[u8], at: usize) -> (r: u64)
    requires
        at + 8 <= bz@.len(),
    ensures
        r == be_value(bz@.subrange(at as int, at + 8)),
{
    let len = bz.len();
    let mut acc: u64 = 0;
    let mut i: usize = 0;
    proof {
        assert(bz@.subrange(at as int, at as int).len() == 0);
    }
    while i < 8
        invariant
            i <= 8,
            len == bz@.len(),
            at + 8 <= len,
            acc == be_value(bz@.subrange(at as int, at + i)),
            acc < capacity(i as nat),
        decreases 8 - i,
    {
        let ghost before = bz@.subrange(at as int, at + i);
        let ghost after = bz@.subrange(at as int, at + i + 1);
        proof {
            assert(after.drop_last() =~= before);
            lemma_capacity_values();
            assert(capacity(i as nat) <= 0x100_0000_0000_0000) by {
                lemma_capacity_monotone(i as nat, 7);
            }
        }
        acc = acc * 256 + bz[at + i] as u64;
        i = i + 1;
    }
    acc
}

/// Appends every byte of `bz` to `out`.
pub fn push_all(out: &mut Vec<u8>, bz: &[u8])
    ensures
        final(out)@ == old(out)@ + bz@,
{
    let ghost start = out@;
    let len = bz.len();
    let mut i: usize = 0;
    while i < len
        invariant
            i <= len,
            len == bz@.len(),
            out@ == start + bz@.subrange(0, i as int),
        decreases len - i,
    {
        out.push(bz[i]);
        i = i + 1;
        assert(out@ =~= start + bz@.subrange(0, i as int));
    }
    assert(bz@.subrange(0, len as int) =~= bz@);
}

/// Appends the `width` low-order bytes of `x` to `out`, most significant first.
pub fn push_be(out: &mut Vec<u8>, x: u64, width: usize)
    requires
        width <= 8,
    ensures
        final(out)@ == old(out)@ + be_bytes(x as nat, width as nat),
{
    let ghost start = out@;
    let mut i: usize = 0;
    proof {
        lemma_capacity_positive(width as nat);
        let top: nat = (x as nat) / capacity(width as nat);
        assert(be_bytes(top, 0) =~= Seq::<u8>::empty());
        assert(out@ =~= start + be_bytes(top, 0));
    }
    while i < width
        invariant
            i <= width <= 8,
            out@ == start + be_bytes((x as nat) / capacity((width - i) as nat), i as nat),
        decreases width - i,
    {
        let shift: usize = width - i - 1;
        let digit = digit_at(x, shift);
        proof {
            lemma_capacity_positive((width - i) as nat);
            lemma_capacity_positive(shift as nat);
            let hi: nat = (x as nat) / capacity((width - i) as nat);
            let cur: nat = (x as nat) / capacity(shift as nat);
            assert(cur / 256 == hi) by {
                lemma_div_capacity_step(x as nat, shift as nat);
            }
            assert(digit == (cur % 256) as u8);
            assert(((i + 1) as nat - 1) as nat == i as nat);
            assert(be_bytes(cur, (i + 1) as nat) == be_bytes(cur / 256, i as nat).push(
                (cur % 256) as u8,
            ));
        }
        out.push(digit);
        i = i + 1;
        proof {
            assert(out@ =~= start + be_bytes(
                (x as nat) / capacity((width - i) as nat),
                i as nat,
            ));
        }
    }
    proof {
        assert(capacity(0) == 1);
        assert((x as nat) / 1 == x as nat);
    }
}

/// Appends the `width` low-order bytes of `x` to `out`, least significant first.
pub fn push_le(out: &mut Vec<u8>, x: u64, width: usize)
    requires
        width <= 8,
    ensures
        final(out)@ == old(out)@ + le_bytes(x as nat, width as nat),
{
    let ghost start = out@;
    let ghost done = Seq::<u8>::empty();
    let mut v: u64 = x;
    let mut i: usize = 0;
    proof {
        assert(out@ =~= start + done);
        assert(le_bytes(x as nat, width as nat) =~= done + le_bytes(v as nat, width as nat));
    }
    while i < width
        invariant
            i <= width <= 8,
            out@ == start + done,
            le_bytes(x as nat, width as nat) == done + le_bytes(v as nat, (width - i) as nat),
        decreases width - i,
    {
        let digit = (v % 256) as u8;
        proof {
            let left = (width - i) as nat;
            assert(le_bytes(v as nat, left) == seq![digit] + le_bytes(
                (v as nat) / 256,
                (left - 1) as nat,
            ));
            assert(done + (seq![digit] + le_bytes((v as nat) / 256, (left - 1) as nat))
                =~= done.push(digit) + le_bytes((v as nat) / 256, (left - 1) as nat));
            done = done.push(digit);
        }
        out.push(digit);
        v = v / 256;
        i = i + 1;
        proof {
            assert(out@ =~= start + done);
        }
    }
    proof {
        assert(le_bytes(v as nat, 0) =~= Seq::<u8>::empty());
        assert(done + Seq::<u8>::empty() =~= done);
    }
}

/// The decimal digits of `n` in ASCII, without leading zeros.
pub open spec fn decimal(n: nat) -> Seq<u8>
    decreases n,
{
    if n < 10 {
        seq![(48 + n) as u8]
    } else {
        decimal(n / 10).push((48 + n % 10) as u8)
    }
}

/// Appends the decimal digits of `n` in ASCII to `out`.
pub fn push_decimal(out: &mut Vec<u8>, n: u64)
    ensures
        final(out)@ == old(out)@ + decimal(n as nat),
    decreases n,
{
    let ghost start = out@;
    if n >= 10 {
        push_decimal(out, n / 10);
    }
    out.push(48 + (n % 10) as u8);
    assert(out@ =~= start + decimal(n as nat));
}

/// The base-256 digit of `x` at position `shift`, counted from the low end.
fn digit_at(x: u64, shift: usize) -> (d: u8)
    requires
        shift < 8,
    ensures
        d as nat == ((x as nat) / capacity(shift as nat)) % 256,
{
    let mut v: u64 = x;
    let mut k: usize = 0;
    proof {
        assert(capacity(0) == 1);
        assert((x as nat) / 1 == x as nat);
    }
    while k < shift
        invariant
            k <= shift < 8,
            v as nat == (x as nat) / capacity(k as nat),
        decreases shift - k,
    {
        proof {
            lemma_div_capacity_step(x as nat, k as nat);
        }
        v = v / 256;
        k = k + 1;
    }
    (v % 256) as u8
}

/// Dividing by one more factor of 256 is dividing the quotient by 256.
proof fn lemma_div_capacity_step(x: nat, k: nat)
    ensures
        (x / capacity(k)) / 256 == x / capacity(k + 1),
{
    let c = capacity(k) as int;
    lemma_capacity_positive(k);
    assert(capacity(k + 1) == 256 * capacity(k));
    vstd::arithmetic::div_mod::lemma_div_denominator(x as int, c, 256);
    assert(c * 256 == 256 * c) by (nonlinear_arith);
}

/// Every capacity is at least one.
pub proof fn lemma_capacity_positive(len: nat)
    ensures
        capacity(len) >= 1,
    decreases len,
{
    if len > 0 {
        lemma_capacity_positive((len - 1) as nat);
    }
}

/// More bytes hold more numbers.
pub proof fn lemma_capacity_monotone(a: nat, b: nat)
    requires
        a <= b,
    ensures
        capacity(a) <= capacity(b),
    decreases b,
{
    if a < b {
        lemma_capacity_monotone(a, (b - 1) as nat);
        lemma_capacity_positive((b - 1) as nat);
    }
}

/// The capacities of the widths that the codecs use.
pub proof fn lemma_capacity_values()
    ensures
        capacity(0) == 1,
        capacity(1) == 0x100,
        capacity(2) == 0x1_0000,
        capacity(3) == 0x100_0000,
        capacity(4) == 0x1_0000_0000,
        capacity(7) == 0x100_0000_0000_0000,
        capacity(8) == 0x1_0000_0000_0000_0000,
{
    reveal_with_fuel(capacity, 9);
}

} // verus!
