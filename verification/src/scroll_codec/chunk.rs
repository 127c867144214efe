//! Chunks: a run of block contexts, in the first version followed by the
//! transactions of the blocks.
//!
//! ```text
//!   field            bytes    index
//!   numBlocks        1        0
//!   block[i]         60       60*i + 1
//!   l2Transactions   dynamic  60*n + 1     (first version only)
//! ```
//!
//! The transactions are framed one after the other, each as its length on
//! four big-endian bytes followed by that many bytes, up to the end of input.

use crate::bytes::{
    be_bytes, be_value, lemma_be_bytes_len, lemma_be_bytes_of_value, lemma_be_value_bound,
    lemma_be_value_of_bytes, lemma_capacity_values, push_all, push_be, read_u16_be, read_u32_be,
    read_u64_be,
};
use crate::errors::{ExpectedLength, InvalidLength};
use crate::hash::array32;
use crate::keccak::Keccak256;
use crate::uint::{lemma_u256_len, lemma_u256_of_bytes, U256};
use vstd::prelude::*;
use vstd::slice::slice_to_vec;

verus! {

/// The number of bytes of an encoded block context.
pub const BLOCK_CONTEXT_LENGTH: usize = 60;

/// What a chunk says of one block.
///
/// ```text
///   field            bytes  type     index
///   blockNumber      8      uint64   0
///   timestamp        8      uint64   8
///   baseFee          32     uint256  16
///   gasLimit         8      uint64   48
///   numTransactions  2      uint16   56
///   numL1Messages    2      uint16   58
/// ```
#[derive(Debug, Clone, Copy, PartialEq, Eq)]
pub struct BlockContext {
    pub block_number: u64,
    pub timestamp: u64,
    pub base_fee: U256,
    pub gas_limit: u64,
    pub num_transactions: u16,
    pub num_l1_messages: u16,
}

/// A chunk of the first version.
#[derive(Debug, Clone, PartialEq, Eq)]
pub struct ChunkV0 {
    pub blocks: Vec<BlockContext>,
    pub l2_transactions: Vec<Vec<u8>>,
}

/// A chunk of the first version as a mathematical value.
pub ghost struct ChunkV0View {
    pub blocks: Seq<BlockContext>,
    pub l2_transactions: Seq<Seq<u8>>,
}

/// Why bytes are not a chunk of the first version.
#[derive(Debug, Clone, PartialEq, Eq)]
pub enum ChunkV0DecodeError {
    /// The input is empty.
    EmptyBytes,
    /// The input is too short for the blocks it announces.
    IncorrectChunkLength(InvalidLength),
    /// A transaction is announced as longer than what is left of the input.
    IncorrectL2TransactionLength,
    /// Fewer than four bytes are left where a transaction's length is due.
    NotEnoughL2TransactionLengthBytes,
}

/// A chunk of the second version: as the first, without the transactions.
#[derive(Debug, Clone, PartialEq, Eq)]
pub struct ChunkV1 {
    pub blocks: Vec<BlockContext>,
}

/// Why bytes are not a chunk of the second version.
#[derive(Debug, Clone, PartialEq, Eq)]
pub enum ChunkV1DecodeError {
    /// The input is empty.
    EmptyBytes,
    /// The input is not exactly as long as the blocks it announces.
    IncorrectChunkLength(InvalidLength),
}

/// The encodings of `blocks`, one after the other.
pub open spec fn encode_blocks(blocks: Seq<BlockContext>) -> Seq<u8>
    decreases blocks.len(),
{
    if blocks.len() == 0 {
        Seq::empty()
    } else {
        encode_blocks(blocks.drop_last()) + blocks.last().encoding()
    }
}

/// The framing of `txs`: each as its length on four bytes, then its bytes.
pub open spec fn encode_transactions(txs: Seq<Seq<u8>>) -> Seq<u8>
    decreases txs.len(),
{
    if txs.len() == 0 {
        Seq::empty()
    } else {
        be_bytes(txs[0].len(), 4) + txs[0] + encode_transactions(txs.drop_first())
    }
}

/// The `n` block contexts that `bz` holds from its second byte on.
pub open spec fn blocks_at(bz: Seq<u8>, n: nat) -> Seq<BlockContext> {
    Seq::new(n, |i: int| BlockContext::decoded(bz.subrange(1 + 60 * i, 61 + 60 * i)))
}

/// The transactions that `s` frames, or why it frames none.
pub open spec fn parse_transactions(s: Seq<u8>) -> Result<Seq<Seq<u8>>, ChunkV0DecodeError>
    decreases s.len(),
{
    if s.len() == 0 {
        Ok(Seq::empty())
    } else if s.len() < 4 {
        Err(ChunkV0DecodeError::NotEnoughL2TransactionLengthBytes)
    } else {
        let n = be_value(s.subrange(0, 4)) as int;
        if s.len() - 4 < n {
            Err(ChunkV0DecodeError::IncorrectL2TransactionLength)
        } else {
            match parse_transactions(s.subrange(4 + n, s.len() as int)) {
                Ok(rest) => Ok(seq![s.subrange(4, 4 + n)] + rest),
                Err(e) => Err(e),
            }
        }
    }
}

/// `r` with the transactions `done` put in front of those it holds.
pub open spec fn after(done: Seq<Seq<u8>>, r: Result<Seq<Seq<u8>>, ChunkV0DecodeError>) -> Result<
    Seq<Seq<u8>>,
    ChunkV0DecodeError,
> {
    match r {
        Ok(rest) => Ok(done + rest),
        Err(e) => Err(e),
    }
}

impl BlockContext {
    /// The 60 bytes that stand for this block context.
    pub open spec fn encoding(self) -> Seq<u8> {
        be_bytes(self.block_number as nat, 8) + be_bytes(self.timestamp as nat, 8)
            + self.base_fee.be_bytes() + be_bytes(self.gas_limit as nat, 8) + be_bytes(
            self.num_transactions as nat,
            2,
        ) + be_bytes(self.num_l1_messages as nat, 2)
    }

    /// The block context that the first 60 bytes of `bz` stand for.
    pub open spec fn decoded(bz: Seq<u8>) -> BlockContext {
        BlockContext {
            block_number: be_value(bz.subrange(0, 8)) as u64,
            timestamp: be_value(bz.subrange(8, 16)) as u64,
            base_fee: U256::of_bytes(bz.subrange(16, 48)),
            gas_limit: be_value(bz.subrange(48, 56)) as u64,
            num_transactions: be_value(bz.subrange(56, 58)) as u16,
            num_l1_messages: be_value(bz.subrange(58, 60)) as u16,
        }
    }

    /// Reads a block context from its 60 bytes.
    #[must_use]
    pub fn decode(bz: [u8; 60]) -> (r: Self)
        ensures
            r == Self::decoded(bz@),
            r.encoding() == bz@,
    {
        let s = bz.as_slice();
        proof {
            lemma_block_context_round_trip(bz@);
        }
        BlockContext {
            block_number: read_u64_be(s, 0),
            timestamp: read_u64_be(s, 8),
            base_fee: U256::from_be_bytes(array32(s, 16)),
            gas_limit: read_u64_be(s, 48),
            num_transactions: read_u16_be(s, 56),
            num_l1_messages: read_u16_be(s, 58),
        }
    }

    /// What of this block context enters the hash of a chunk: its encoding
    /// without the number of L1 messages.
    pub open spec fn hashed_bytes(self) -> Seq<u8> {
        be_bytes(self.block_number as nat, 8) + be_bytes(self.timestamp as nat, 8)
            + self.base_fee.be_bytes() + be_bytes(self.gas_limit as nat, 8) + be_bytes(
            self.num_transactions as nat,
            2,
        )
    }

    /// Feeds to `hasher` what of this block context enters the hash of a
    /// chunk: the first 58 bytes of its encoding. The number of L1 messages
    /// stays out.
    pub fn copy_block_context(&self, hasher: &mut Keccak256)
        ensures
            final(hasher).input() == old(hasher).input() + self.hashed_bytes(),
            self.hashed_bytes() == self.encoding().subrange(0, 58),
    {
        let mut bz: Vec<u8> = Vec::new();
        push_be(&mut bz, self.block_number, 8);
        hasher.update(bz.as_slice());
        let mut bz: Vec<u8> = Vec::new();
        push_be(&mut bz, self.timestamp, 8);
        hasher.update(bz.as_slice());
        let fee = self.base_fee.to_be_bytes();
        hasher.update(fee.as_slice());
        let mut bz: Vec<u8> = Vec::new();
        push_be(&mut bz, self.gas_limit, 8);
        hasher.update(bz.as_slice());
        let mut bz: Vec<u8> = Vec::new();
        push_be(&mut bz, self.num_transactions as u64, 2);
        hasher.update(bz.as_slice());
        proof {
            lemma_u256_len(self.base_fee);
            lemma_be_bytes_len(self.block_number as nat, 8);
            lemma_be_bytes_len(self.timestamp as nat, 8);
            lemma_be_bytes_len(self.gas_limit as nat, 8);
            lemma_be_bytes_len(self.num_transactions as nat, 2);
            assert(hasher.input() =~= old(hasher).input() + self.hashed_bytes());
            assert(self.hashed_bytes() =~= self.encoding().subrange(0, 58));
        }
    }

    /// Appends the 60 bytes that stand for this block context to `out`.
    pub fn encode(&self, out: &mut Vec<u8>)
        ensures
            final(out)@ == old(out)@ + self.encoding(),
    {
        let ghost start = out@;
        push_be(out, self.block_number, 8);
        push_be(out, self.timestamp, 8);
        let fee = self.base_fee.to_be_bytes();
        push_all(out, fee.as_slice());
        push_be(out, self.gas_limit, 8);
        push_be(out, self.num_transactions as u64, 2);
        push_be(out, self.num_l1_messages as u64, 2);
        assert(out@ =~= start + self.encoding());
    }
}

/// Sixty bytes are the encoding of the block context they decode to, and the
/// integers of that block context are the numbers that the bytes denote.
pub proof fn lemma_block_context_round_trip(bz: Seq<u8>)
    requires
        bz.len() == 60,
    ensures
        BlockContext::decoded(bz).encoding() == bz,
        BlockContext::decoded(bz).block_number == be_value(bz.subrange(0, 8)),
        BlockContext::decoded(bz).timestamp == be_value(bz.subrange(8, 16)),
        BlockContext::decoded(bz).base_fee.be_bytes() == bz.subrange(16, 48),
        BlockContext::decoded(bz).gas_limit == be_value(bz.subrange(48, 56)),
        BlockContext::decoded(bz).num_transactions == be_value(bz.subrange(56, 58)),
        BlockContext::decoded(bz).num_l1_messages == be_value(bz.subrange(58, 60)),
{
    let c = BlockContext::decoded(bz);
    lemma_capacity_values();
    lemma_be_value_bound(bz.subrange(0, 8));
    lemma_be_value_bound(bz.subrange(8, 16));
    lemma_be_value_bound(bz.subrange(48, 56));
    lemma_be_value_bound(bz.subrange(56, 58));
    lemma_be_value_bound(bz.subrange(58, 60));
    lemma_be_bytes_of_value(bz.subrange(0, 8));
    lemma_be_bytes_of_value(bz.subrange(8, 16));
    lemma_be_bytes_of_value(bz.subrange(48, 56));
    lemma_be_bytes_of_value(bz.subrange(56, 58));
    lemma_be_bytes_of_value(bz.subrange(58, 60));
    lemma_u256_of_bytes(c.base_fee, bz.subrange(16, 48));
    assert(c.encoding() =~= bz);
}

/// A block context is what its encoding decodes to, and its encoding has 60 bytes.
pub proof fn lemma_block_context_decode_encode(c: BlockContext)
    ensures
        c.encoding().len() == 60,
        BlockContext::decoded(c.encoding()) == c,
{
    let e = c.encoding();
    lemma_capacity_values();
    lemma_u256_len(c.base_fee);
    lemma_be_bytes_len(c.block_number as nat, 8);
    lemma_be_bytes_len(c.timestamp as nat, 8);
    lemma_be_bytes_len(c.gas_limit as nat, 8);
    lemma_be_bytes_len(c.num_transactions as nat, 2);
    lemma_be_bytes_len(c.num_l1_messages as nat, 2);
    assert(e.subrange(0, 8) =~= be_bytes(c.block_number as nat, 8));
    assert(e.subrange(8, 16) =~= be_bytes(c.timestamp as nat, 8));
    assert(e.subrange(16, 48) =~= c.base_fee.be_bytes());
    assert(e.subrange(48, 56) =~= be_bytes(c.gas_limit as nat, 8));
    assert(e.subrange(56, 58) =~= be_bytes(c.num_transactions as nat, 2));
    assert(e.subrange(58, 60) =~= be_bytes(c.num_l1_messages as nat, 2));
    lemma_be_value_of_bytes(c.block_number as nat, 8);
    lemma_be_value_of_bytes(c.timestamp as nat, 8);
    lemma_be_value_of_bytes(c.gas_limit as nat, 8);
    lemma_be_value_of_bytes(c.num_transactions as nat, 2);
    lemma_be_value_of_bytes(c.num_l1_messages as nat, 2);
    lemma_u256_of_bytes(c.base_fee, e);
    let d = BlockContext::decoded(e);
    assert(d.base_fee == c.base_fee);
}

/// Copies the 60 bytes at `at` out of `bz`.
fn array60(bz: &[u8], at: usize) -> (r: [u8; 60])
    requires
        at + 60 <= bz@.len(),
    ensures
        r@ == bz@.subrange(at as int, at + 60),
{
    let len = bz.len();
    let mut r = [0u8;60];
    let mut i: usize = 0;
    while i < 60
        invariant
            i <= 60,
            len == bz@.len(),
            at + 60 <= len,
            forall|j: int| 0 <= j < i ==> r@[j] == bz@[at + j],
        decreases 60 - i,
    {
        r[i] = bz[at + i];
        i = i + 1;
    }
    assert(r@ =~= bz@.subrange(at as int, at + 60));
    r
}

/// Reads the `n` block contexts that `bz` holds from its second byte on.
fn decode_blocks(bz: &[u8], n: usize) -> (blocks: Vec<BlockContext>)
    requires
        60 * n + 1 <= bz@.len(),
    ensures
        blocks@ == blocks_at(bz@, n as nat),
{
    let len = bz.len();
    let mut blocks: Vec<BlockContext> = Vec::new();
    let mut i: usize = 0;
    assert(blocks@ =~= blocks_at(bz@, 0));
    while i < n
        invariant
            i <= n,
            len == bz@.len(),
            60 * n + 1 <= len,
            blocks@ == blocks_at(bz@, i as nat),
        decreases n - i,
    {
        let context = BlockContext::decode(array60(bz, 1 + BLOCK_CONTEXT_LENGTH * i));
        blocks.push(context);
        i = i + 1;
        assert(blocks@ =~= blocks_at(bz@, i as nat));
    }
    blocks
}

/// Appends the encodings of `blocks`, one after the other, to `out`.
fn encode_blocks_into(blocks: &Vec<BlockContext>, out: &mut Vec<u8>)
    ensures
        final(out)@ == old(out)@ + encode_blocks(blocks@),
{
    let ghost start = out@;
    let mut i: usize = 0;
    assert(out@ =~= start + encode_blocks(blocks@.subrange(0, 0)));
    while i < blocks.len()
        invariant
            i <= blocks@.len(),
            out@ == start + encode_blocks(blocks@.subrange(0, i as int)),
        decreases blocks@.len() - i,
    {
        blocks[i].encode(out);
        i = i + 1;
        proof {
            let upto = blocks@.subrange(0, i as int);
            assert(upto.drop_last() =~= blocks@.subrange(0, i - 1));
            assert(out@ =~= start + encode_blocks(upto));
        }
    }
    assert(blocks@.subrange(0, blocks@.len() as int) =~= blocks@);
}

/// The encodings of `n` blocks fill `60 * n` bytes, and the encoding of each
/// block stands at its place among them.
pub proof fn lemma_encode_blocks_layout(blocks: Seq<BlockContext>)
    ensures
        encode_blocks(blocks).len() == 60 * blocks.len(),
        forall|i: int|
            0 <= i < blocks.len() ==> #[trigger] encode_blocks(blocks).subrange(60 * i, 60 * i + 60)
                == blocks[i].encoding(),
    decreases blocks.len(),
{
    if blocks.len() > 0 {
        let head = blocks.drop_last();
        lemma_encode_blocks_layout(head);
        lemma_block_context_decode_encode(blocks.last());
        let all = encode_blocks(blocks);
        assert forall|i: int| 0 <= i < blocks.len() implies #[trigger] all.subrange(
            60 * i,
            60 * i + 60,
        ) == blocks[i].encoding() by {
            if i < head.len() {
                assert(all.subrange(60 * i, 60 * i + 60) =~= encode_blocks(head).subrange(
                    60 * i,
                    60 * i + 60,
                ));
                assert(head[i] == blocks[i]);
            } else {
                assert(all.subrange(60 * i, 60 * i + 60) =~= blocks.last().encoding());
            }
        }
    }
}

/// The block contexts read from `bz` encode to the bytes they were read from.
pub proof fn lemma_blocks_round_trip(bz: Seq<u8>, n: nat)
    requires
        60 * n + 1 <= bz.len(),
    ensures
        encode_blocks(blocks_at(bz, n)) == bz.subrange(1, 60 * n + 1 as int),
    decreases n,
{
    if n == 0 {
        assert(bz.subrange(1, 1) =~= Seq::<u8>::empty());
    } else {
        let m = (n - 1) as nat;
        lemma_blocks_round_trip(bz, m);
        assert(blocks_at(bz, n).drop_last() =~= blocks_at(bz, m));
        lemma_block_context_round_trip(bz.subrange(1 + 60 * m as int, 61 + 60 * m as int));
        assert(bz.subrange(1, 60 * m + 1 as int) + bz.subrange(1 + 60 * m as int, 61 + 60 * m as int) =~= bz.subrange(
            1,
            60 * n + 1 as int,
        ));
    }
}

/// Reading `blocks.len()` block contexts from bytes that hold the encodings
/// of `blocks` from the second byte on gives `blocks` back.
pub proof fn lemma_blocks_decode_encode(bz: Seq<u8>, blocks: Seq<BlockContext>)
    requires
        60 * blocks.len() + 1 <= bz.len(),
        bz.subrange(1, 60 * blocks.len() + 1 as int) == encode_blocks(blocks),
    ensures
        blocks_at(bz, blocks.len()) == blocks,
{
    lemma_encode_blocks_layout(blocks);
    let e = encode_blocks(blocks);
    assert forall|i: int| 0 <= i < blocks.len() implies blocks_at(bz, blocks.len())[i]
        == blocks[i] by {
        assert(bz.subrange(1 + 60 * i, 61 + 60 * i) =~= e.subrange(60 * i, 60 * i + 60));
        lemma_block_context_decode_encode(blocks[i]);
    }
    assert(blocks_at(bz, blocks.len()) =~= blocks);
}

impl ChunkV1 {
    /// The bytes that stand for a chunk of these blocks.
    pub open spec fn encoding(blocks: Seq<BlockContext>) -> Seq<u8> {
        seq![blocks.len() as u8] + encode_blocks(blocks)
    }

    /// The blocks of the chunk that `bz` stands for, or why it stands for none.
    ///
    /// The length error reports the length that the number of blocks asks
    /// for, `60 * numBlocks + 1`, and the length of the input.
    pub open spec fn decoded(bz: Seq<u8>) -> Result<Seq<BlockContext>, ChunkV1DecodeError> {
        if bz.len() == 0 {
            Err(ChunkV1DecodeError::EmptyBytes)
        } else if bz.len() != 60 * (bz[0] as nat) + 1 {
            Err(
                ChunkV1DecodeError::IncorrectChunkLength(
                    InvalidLength {
                        expected: ExpectedLength::Exact((60 * (bz[0] as nat) + 1) as usize),
                        found: bz.len() as usize,
                    },
                ),
            )
        } else {
            Ok(blocks_at(bz, bz[0] as nat))
        }
    }

    /// Decodes a chunk of the second version.
    ///
    /// The input must be exactly one byte that gives the number of blocks,
    /// and 60 bytes for each block. What is decoded encodes to the input.
    pub fn decode(bz: &[u8]) -> (r: Result<Self, ChunkV1DecodeError>)
        ensures
            match r {
                Ok(chunk) => Self::decoded(bz@) == Ok::<_, ChunkV1DecodeError>(chunk.blocks@),
                Err(e) => Self::decoded(bz@) == Err::<Seq<BlockContext>, _>(e),
            },
            r matches Ok(chunk) ==> Self::encoding(chunk.blocks@) == bz@,
            r is Ok <==> bz@.len() > 0 && bz@.len() == 60 * bz@[0] + 1,
    {
        let bz_len = bz.len();
        if bz_len == 0 {
            return Err(ChunkV1DecodeError::EmptyBytes);
        }
        let len: usize = bz[0] as usize;
        let expected_len = len * BLOCK_CONTEXT_LENGTH + 1;
        if bz_len != expected_len {
            return Err(
                ChunkV1DecodeError::IncorrectChunkLength(
                    InvalidLength { expected: ExpectedLength::Exact(expected_len), found: bz_len },
                ),
            );
        }
        let blocks = decode_blocks(bz, len);
        proof {
            lemma_chunk_v1_round_trip(bz@);
        }
        Ok(ChunkV1 { blocks })
    }

    /// Encodes the chunk, if it has no more blocks than one byte can count.
    pub fn encode(&self) -> (r: Option<Vec<u8>>)
        ensures
            r is Some <==> self.blocks@.len() <= 255,
            r matches Some(bz) ==> bz@ == Self::encoding(self.blocks@),
    {
        if self.blocks.len() > 255 {
            return None;
        }
        let mut out: Vec<u8> = Vec::new();
        out.push(self.blocks.len() as u8);
        encode_blocks_into(&self.blocks, &mut out);
        assert(out@ =~= Self::encoding(self.blocks@));
        Some(out)
    }
}

/// Every input that decodes as a chunk of the second version is the
/// encoding of what it decodes to.
pub proof fn lemma_chunk_v1_round_trip(bz: Seq<u8>)
    ensures
        ChunkV1::decoded(bz) matches Ok(blocks) ==> ChunkV1::encoding(blocks) == bz,
{
    if let Ok(blocks) = ChunkV1::decoded(bz) {
        let n = bz[0] as nat;
        lemma_blocks_round_trip(bz, n);
        assert(seq![bz[0]] + bz.subrange(1, 60 * n + 1 as int) =~= bz);
    }
}

/// Every chunk of the second version with at most 255 blocks is what its
/// encoding decodes to.
pub proof fn lemma_chunk_v1_decode_encode(blocks: Seq<BlockContext>)
    requires
        blocks.len() <= 255,
    ensures
        ChunkV1::decoded(ChunkV1::encoding(blocks)) == Ok::<_, ChunkV1DecodeError>(blocks),
{
    let bz = ChunkV1::encoding(blocks);
    lemma_encode_blocks_layout(blocks);
    assert(bz[0] == blocks.len() as u8);
    assert(bz.subrange(1, 60 * blocks.len() + 1 as int) =~= encode_blocks(blocks));
    lemma_blocks_decode_encode(bz, blocks);
}

/// Whether four bytes can hold the length of each of `txs`.
pub open spec fn framable(txs: Seq<Seq<u8>>) -> bool {
    forall|i: int| 0 <= i < txs.len() ==> (#[trigger] txs[i]).len() <= u32::MAX
}

/// The contents of a list of byte strings.
pub open spec fn byte_strings(v: Seq<Vec<u8>>) -> Seq<Seq<u8>> {
    Seq::new(v.len(), |i: int| v[i]@)
}

impl View for ChunkV0 {
    type V = ChunkV0View;

    open spec fn view(&self) -> ChunkV0View {
        ChunkV0View {
            blocks: self.blocks@,
            l2_transactions: byte_strings(self.l2_transactions@),
        }
    }
}

impl ChunkV0View {
    /// The bytes that stand for this chunk.
    pub open spec fn encoding(self) -> Seq<u8> {
        seq![self.blocks.len() as u8] + encode_blocks(self.blocks) + encode_transactions(
            self.l2_transactions,
        )
    }

    /// Whether the chunk can be encoded: one byte counts its blocks, and
    /// four bytes the length of each transaction.
    pub open spec fn encodable(self) -> bool {
        &&& self.blocks.len() <= 255
        &&& framable(self.l2_transactions)
    }
}

/// Appends the framing of `txs[from..]` to `out`, or reports the first
/// transaction that is too long to be framed.
fn encode_transactions_into(txs: &Vec<Vec<u8>>, out: &mut Vec<u8>) -> (ok: bool)
    ensures
        ok <==> forall|i: int| 0 <= i < txs@.len() ==> txs@[i]@.len() <= u32::MAX,
        ok ==> final(out)@ == old(out)@ + encode_transactions(byte_strings(txs@)),
{
    let ghost start = out@;
    let ghost all = byte_strings(txs@);
    let mut i: usize = 0;
    proof {
        assert(all.subrange(0, 0) =~= Seq::<Seq<u8>>::empty());
        assert(out@ =~= start + encode_transactions(all.subrange(0, 0)));
    }
    while i < txs.len()
        invariant
            i <= txs@.len(),
            all == byte_strings(txs@),
            forall|j: int| 0 <= j < i ==> txs@[j]@.len() <= u32::MAX,
            out@ == start + encode_transactions(all.subrange(0, i as int)),
        decreases txs@.len() - i,
    {
        let tx = &txs[i];
        if tx.len() > u32::MAX as usize {
            return false;
        }
        push_be(out, tx.len() as u64, 4);
        push_all(out, tx.as_slice());
        proof {
            lemma_encode_transactions_push(all.subrange(0, i as int), tx@);
            assert(all.subrange(0, i as int).push(tx@) =~= all.subrange(0, i + 1));
            assert(out@ =~= start + encode_transactions(all.subrange(0, i + 1)));
        }
        i = i + 1;
    }
    assert(all.subrange(0, txs@.len() as int) =~= all);
    true
}

/// Framing one more transaction appends its frame.
proof fn lemma_encode_transactions_push(txs: Seq<Seq<u8>>, tx: Seq<u8>)
    ensures
        encode_transactions(txs.push(tx)) == encode_transactions(txs) + be_bytes(tx.len(), 4) + tx,
    decreases txs.len(),
{
    if txs.len() == 0 {
        assert(txs.push(tx).drop_first() =~= Seq::<Seq<u8>>::empty());
        assert(encode_transactions(txs.push(tx).drop_first()) =~= Seq::<u8>::empty());
        assert(txs.push(tx)[0] == tx);
        assert(encode_transactions(txs.push(tx)) =~= encode_transactions(txs) + be_bytes(
            tx.len(),
            4,
        ) + tx);
    } else {
        lemma_encode_transactions_push(txs.drop_first(), tx);
        assert(txs.push(tx).drop_first() =~= txs.drop_first().push(tx));
        assert(encode_transactions(txs.push(tx)) =~= encode_transactions(txs) + be_bytes(
            tx.len(),
            4,
        ) + tx);
    }
}

/// The transactions parsed from `s` frame to `s`, and each of them is short
/// enough to be framed.
pub proof fn lemma_transactions_round_trip(s: Seq<u8>)
    ensures
        parse_transactions(s) matches Ok(txs) ==> encode_transactions(txs) == s
            && framable(txs),
    decreases s.len(),
{
    if s.len() >= 4 {
        let len_bytes = s.subrange(0, 4);
        let n = be_value(len_bytes) as int;
        if s.len() - 4 >= n {
            let tail = s.subrange(4 + n, s.len() as int);
            lemma_transactions_round_trip(tail);
            if let Ok(rest) = parse_transactions(tail) {
                let first = s.subrange(4, 4 + n);
                let txs = seq![first] + rest;
                assert(parse_transactions(s) == Ok::<_, ChunkV0DecodeError>(txs));
                lemma_be_bytes_of_value(len_bytes);
                lemma_be_value_bound(len_bytes);
                lemma_capacity_values();
                assert(txs[0] == first);
                assert(txs.drop_first() =~= rest);
                assert(encode_transactions(txs) == be_bytes(first.len(), 4) + first
                    + encode_transactions(rest));
                assert(len_bytes + first + tail =~= s);
                assert forall|i: int| 0 <= i < txs.len() implies (#[trigger] txs[i]).len()
                    <= u32::MAX by {
                    if i > 0 {
                        assert(txs[i] == rest[i - 1]);
                    }
                }
            }
        }
    }
}

/// Where the parts of a framed transaction stand in front of `tail`.
proof fn lemma_frame_layout(first: Seq<u8>, tail: Seq<u8>)
    requires
        first.len() <= u32::MAX,
    ensures
        ({
            let s = be_bytes(first.len(), 4) + first + tail;
            &&& s.len() == 4 + first.len() + tail.len()
            &&& be_value(s.subrange(0, 4)) == first.len()
            &&& s.subrange(4, 4 + first.len() as int) == first
            &&& s.subrange(4 + first.len() as int, s.len() as int) == tail
        }),
{
    let n = first.len();
    let frame = be_bytes(n, 4);
    let s = frame + first + tail;
    lemma_be_bytes_len(n, 4);
    lemma_capacity_values();
    lemma_be_value_of_bytes(n, 4);
    assert(s.subrange(0, 4) =~= frame);
    assert(s.subrange(4, 4 + n as int) =~= first);
    assert(s.subrange(4 + n as int, s.len() as int) =~= tail);
}

/// The tail of transactions that can be framed can be framed.
proof fn lemma_framable_tail(txs: Seq<Seq<u8>>)
    requires
        framable(txs),
        txs.len() > 0,
    ensures
        framable(txs.drop_first()),
        txs[0].len() <= u32::MAX,
{
    let rest = txs.drop_first();
    assert forall|i: int| 0 <= i < rest.len() implies (#[trigger] rest[i]).len() <= u32::MAX by {
        assert(rest[i] == txs[i + 1]);
    }
}

/// Transactions that can be framed are what their framing parses to.
pub proof fn lemma_transactions_decode_encode(txs: Seq<Seq<u8>>)
    requires
        framable(txs),
    ensures
        parse_transactions(encode_transactions(txs)) == Ok::<_, ChunkV0DecodeError>(txs),
    decreases txs.len(),
{
    if txs.len() == 0 {
        assert(txs =~= Seq::<Seq<u8>>::empty());
    } else {
        let rest = txs.drop_first();
        let first = txs[0];
        let tail = encode_transactions(rest);
        let s = encode_transactions(txs);
        lemma_framable_tail(txs);
        lemma_transactions_decode_encode(rest);
        lemma_frame_layout(first, tail);
        assert(s == be_bytes(first.len(), 4) + first + tail);
        assert(seq![first] + rest =~= txs);
    }
}

impl ChunkV0 {
    /// The chunk that `bz` stands for, or why it stands for none.
    pub open spec fn decoded(bz: Seq<u8>) -> Result<ChunkV0View, ChunkV0DecodeError> {
        if bz.len() == 0 {
            Err(ChunkV0DecodeError::EmptyBytes)
        } else if bz.len() < 60 * (bz[0] as nat) + 1 {
            Err(
                ChunkV0DecodeError::IncorrectChunkLength(
                    InvalidLength {
                        expected: ExpectedLength::Gte((60 * (bz[0] as nat) + 1) as usize),
                        found: bz.len() as usize,
                    },
                ),
            )
        } else {
            match parse_transactions(bz.subrange(60 * (bz[0] as int) + 1, bz.len() as int)) {
                Ok(txs) => Ok(ChunkV0View { blocks: blocks_at(bz, bz[0] as nat), l2_transactions: txs }),
                Err(e) => Err(e),
            }
        }
    }

    /// Decodes a chunk of the first version.
    ///
    /// The first byte gives the number of blocks, 60 bytes follow for each
    /// block, and the rest frames the transactions; that rest may be empty.
    /// What is decoded encodes to the input.
    pub fn decode(bz: &[u8]) -> (r: Result<Self, ChunkV0DecodeError>)
        ensures
            match r {
                Ok(chunk) => Self::decoded(bz@) == Ok::<_, ChunkV0DecodeError>(chunk@),
                Err(e) => Self::decoded(bz@) == Err::<ChunkV0View, _>(e),
            },
            r matches Ok(chunk) ==> chunk@.encoding() == bz@ && chunk@.encodable(),
    {
        let bz_len = bz.len();
        if bz_len == 0 {
            return Err(ChunkV0DecodeError::EmptyBytes);
        }
        let len: usize = bz[0] as usize;
        let expected_len = (len * BLOCK_CONTEXT_LENGTH) + 1;
        if bz_len < expected_len {
            return Err(
                ChunkV0DecodeError::IncorrectChunkLength(
                    InvalidLength { expected: ExpectedLength::Gte(expected_len), found: bz_len },
                ),
            );
        }
        let blocks = decode_blocks(bz, len);
        let mut l2_transactions: Vec<Vec<u8>> = Vec::new();
        let mut ptr: usize = expected_len;
        let ghost section = bz@.subrange(expected_len as int, bz_len as int);
        proof {
            assert(byte_strings(l2_transactions@) =~= Seq::<Seq<u8>>::empty());
            assert(after(Seq::empty(), parse_transactions(section)) == parse_transactions(
                section,
            )) by {
                if let Ok(t) = parse_transactions(section) {
                    assert(Seq::<Seq<u8>>::empty() + t =~= t);
                }
            }
        }
        while ptr < bz_len
            invariant
                expected_len <= ptr <= bz_len,
                bz_len == bz@.len(),
                bz_len > 0,
                expected_len == 60 * (bz@[0] as int) + 1,
                section == bz@.subrange(expected_len as int, bz_len as int),
                parse_transactions(section) == after(
                    byte_strings(l2_transactions@),
                    parse_transactions(bz@.subrange(ptr as int, bz_len as int)),
                ),
            decreases bz_len - ptr,
        {
            let ghost rest = bz@.subrange(ptr as int, bz_len as int);
            let ghost done = byte_strings(l2_transactions@);
            if bz_len - ptr < 4 {
                return Err(ChunkV0DecodeError::NotEnoughL2TransactionLengthBytes);
            }
            let tx_len = read_u32_be(bz, ptr);
            proof {
                assert(rest.subrange(0, 4) =~= bz@.subrange(ptr as int, ptr + 4));
            }
            ptr = ptr + 4;
            if tx_len as usize > bz_len - ptr {
                return Err(ChunkV0DecodeError::IncorrectL2TransactionLength);
            }
            let tx = slice_to_vec(&bz[ptr..ptr + tx_len as usize]);
            proof {
                assert(rest.subrange(4, 4 + tx_len) =~= tx@);
                assert(rest.subrange(4 + tx_len, rest.len() as int) =~= bz@.subrange(
                    ptr + tx_len,
                    bz_len as int,
                ));
            }
            l2_transactions.push(tx);
            ptr = ptr + tx_len as usize;
            proof {
                let tail = parse_transactions(bz@.subrange(ptr as int, bz_len as int));
                assert(byte_strings(l2_transactions@) =~= done.push(tx@));
                if let Ok(t) = tail {
                    assert(done + (seq![tx@] + t) =~= done.push(tx@) + t);
                }
            }
        }
        proof {
            assert(bz@.subrange(ptr as int, bz_len as int).len() == 0);
            assert(byte_strings(l2_transactions@) + Seq::<Seq<u8>>::empty() =~= byte_strings(
                l2_transactions@,
            ));
            lemma_chunk_v0_round_trip(bz@);
        }
        Ok(ChunkV0 { blocks, l2_transactions })
    }

    /// Encodes the chunk, if one byte can count its blocks and four bytes
    /// the length of each of its transactions.
    pub fn encode(&self) -> (r: Option<Vec<u8>>)
        ensures
            r is Some <==> self@.encodable(),
            r matches Some(bz) ==> bz@ == self@.encoding(),
    {
        if self.blocks.len() > 255 {
            return None;
        }
        let mut out: Vec<u8> = Vec::new();
        out.push(self.blocks.len() as u8);
        encode_blocks_into(&self.blocks, &mut out);
        let ok = encode_transactions_into(&self.l2_transactions, &mut out);
        proof {
            let txs = self.l2_transactions@;
            if ok {
                assert forall|i: int| 0 <= i < self@.l2_transactions.len() implies (
                #[trigger] self@.l2_transactions[i]).len() <= u32::MAX by {
                    assert(self@.l2_transactions[i] == txs[i]@);
                }
            }
            if self@.encodable() {
                assert forall|i: int| 0 <= i < txs.len() implies txs[i]@.len() <= u32::MAX by {
                    assert(self@.l2_transactions[i] == txs[i]@);
                }
            }
        }
        if ok {
            assert(out@ =~= self@.encoding());
            Some(out)
        } else {
            None
        }
    }
}

/// Every input that decodes as a chunk of the first version is the encoding
/// of what it decodes to, and what it decodes to can be encoded.
pub proof fn lemma_chunk_v0_round_trip(bz: Seq<u8>)
    ensures
        ChunkV0::decoded(bz) matches Ok(chunk) ==> chunk.encoding() == bz && chunk.encodable(),
{
    if let Ok(chunk) = ChunkV0::decoded(bz) {
        let n = bz[0] as nat;
        lemma_blocks_round_trip(bz, n);
        lemma_transactions_round_trip(bz.subrange(60 * n + 1 as int, bz.len() as int));
        assert(seq![bz[0]] + bz.subrange(1, 60 * n + 1 as int) + bz.subrange(
            60 * n + 1 as int,
            bz.len() as int,
        ) =~= bz);
    }
}

/// Every chunk of the first version that can be encoded is what its
/// encoding decodes to.
pub proof fn lemma_chunk_v0_decode_encode(chunk: ChunkV0View)
    requires
        chunk.encodable(),
    ensures
        ChunkV0::decoded(chunk.encoding()) == Ok::<_, ChunkV0DecodeError>(chunk),
{
    let bz = chunk.encoding();
    let n = chunk.blocks.len();
    lemma_encode_blocks_layout(chunk.blocks);
    assert(bz[0] == n as u8);
    assert(bz.subrange(1, 60 * n + 1 as int) =~= encode_blocks(chunk.blocks));
    assert(bz.subrange(60 * n + 1 as int, bz.len() as int) =~= encode_transactions(
        chunk.l2_transactions,
    ));
    lemma_blocks_decode_encode(bz, chunk.blocks);
    lemma_transactions_decode_encode(chunk.l2_transactions);
}

} // verus!
