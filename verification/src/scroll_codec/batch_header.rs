//! Batch headers of the first version.
//!
//! ```text
//!   field                   bytes    type       index
//!   version                 1        uint8      0
//!   batchIndex              8        uint64     1
//!   l1MessagePopped         8        uint64     9
//!   totalL1MessagePopped    8        uint64     17
//!   dataHash                32       bytes32    25
//!   parentBatchHash         32       bytes32    57
//!   skippedL1MessageBitmap  dynamic  uint256[]  89
//! ```
//!
//! The bitmap has one bit for each message popped in the batch, in words of
//! 256 bits: `ceil(l1MessagePopped / 256)` words of 32 bytes, and no byte more.

use crate::bytes::{
    be_bytes, be_value, lemma_be_bytes_len, lemma_be_bytes_of_value, lemma_be_value_bound,
    lemma_be_value_of_bytes, lemma_capacity_values, push_all, push_be, read_u64_be,
};
use crate::errors::{ExpectedLength, InvalidLength};
use crate::hash::{array32, array32_of, H256};
use crate::uint::{lemma_u256_len, lemma_u256_of_bytes, U256};
use vstd::prelude::*;

verus! {

/// The number of bytes of a batch header before its bitmap.
pub const BATCH_HEADER_FIXED_LENGTH: usize = 89;

/// The header of a batch.
#[derive(Debug, Clone, PartialEq, Eq)]
pub struct BatchHeader {
    /// The batch version.
    pub version: u8,
    /// The index of the batch.
    pub batch_index: u64,
    /// Number of L1 messages popped in the batch.
    pub l1_message_popped: u64,
    /// Number of L1 messages popped up to and including the batch.
    pub total_l1_message_popped: u64,
    /// The data hash of the batch.
    pub data_hash: H256,
    /// The hash of the batch before this one.
    pub parent_batch_hash: H256,
    /// Which of the L1 messages popped in the batch were skipped.
    pub skipped_l1_message_bitmap: Vec<U256>,
}

/// A batch header as a mathematical value.
pub ghost struct BatchHeaderView {
    pub version: u8,
    pub batch_index: u64,
    pub l1_message_popped: u64,
    pub total_l1_message_popped: u64,
    pub data_hash: H256,
    pub parent_batch_hash: H256,
    pub skipped_l1_message_bitmap: Seq<U256>,
}

/// Why bytes are not a batch header.
#[derive(Debug, Clone, PartialEq, Eq)]
pub enum BatchHeaderDecodeError {
    /// The input is shorter than the fixed part of a header.
    LengthTooSmall(InvalidLength),
    /// The input is not as long as the header with its bitmap must be.
    IncorrectBitmapLength(InvalidLength),
    /// The bitmap for this many messages is longer than any input can be.
    TooManyL1Messages(u64),
}

/// The number of 256-bit words in the bitmap of a batch that popped `popped`
/// messages: `ceil(popped / 256)`.
pub open spec fn bitmap_words(popped: nat) -> nat {
    (popped + 255) / 256
}

/// The number of bytes of a header whose batch popped `popped` messages.
pub open spec fn header_length(popped: nat) -> nat {
    89 + 32 * bitmap_words(popped)
}

/// The bytes of `words`, one word after the other.
pub open spec fn encode_words(words: Seq<U256>) -> Seq<u8>
    decreases words.len(),
{
    if words.len() == 0 {
        Seq::empty()
    } else {
        encode_words(words.drop_last()) + words.last().be_bytes()
    }
}

/// The `n` words that `bz` holds after the fixed part of a header.
pub open spec fn words_at(bz: Seq<u8>, n: nat) -> Seq<U256> {
    Seq::new(n, |i: int| U256::of_bytes(bz.subrange(89 + 32 * i, 121 + 32 * i)))
}

impl View for BatchHeader {
    type V = BatchHeaderView;

    open spec fn view(&self) -> BatchHeaderView {
        BatchHeaderView {
            version: self.version,
            batch_index: self.batch_index,
            l1_message_popped: self.l1_message_popped,
            total_l1_message_popped: self.total_l1_message_popped,
            data_hash: self.data_hash,
            parent_batch_hash: self.parent_batch_hash,
            skipped_l1_message_bitmap: self.skipped_l1_message_bitmap@,
        }
    }
}

impl BatchHeaderView {
    /// Whether the bitmap has the length that the number of messages asks for.
    pub open spec fn well_formed(self) -> bool {
        self.skipped_l1_message_bitmap.len() == bitmap_words(self.l1_message_popped as nat)
    }

    /// The bytes that stand for this header.
    pub open spec fn encoding(self) -> Seq<u8> {
        seq![self.version] + be_bytes(self.batch_index as nat, 8) + be_bytes(
            self.l1_message_popped as nat,
            8,
        ) + be_bytes(self.total_l1_message_popped as nat, 8) + self.data_hash.bytes()
            + self.parent_batch_hash.bytes() + encode_words(self.skipped_l1_message_bitmap)
    }
}

impl BatchHeader {
    /// The header that `bz` stands for, or why it stands for none.
    pub open spec fn decoded(bz: Seq<u8>) -> Result<BatchHeaderView, BatchHeaderDecodeError> {
        if bz.len() < 89 {
            Err(
                BatchHeaderDecodeError::LengthTooSmall(
                    InvalidLength { expected: ExpectedLength::Gte(89), found: bz.len() as usize },
                ),
            )
        } else {
            let popped = be_value(bz.subrange(9, 17));
            if header_length(popped) > usize::MAX {
                Err(BatchHeaderDecodeError::TooManyL1Messages(popped as u64))
            } else if bz.len() != header_length(popped) {
                Err(
                    BatchHeaderDecodeError::IncorrectBitmapLength(
                        InvalidLength {
                            expected: ExpectedLength::Exact(header_length(popped) as usize),
                            found: bz.len() as usize,
                        },
                    ),
                )
            } else {
                Ok(
                    BatchHeaderView {
                        version: bz[0],
                        batch_index: be_value(bz.subrange(1, 9)) as u64,
                        l1_message_popped: popped as u64,
                        total_l1_message_popped: be_value(bz.subrange(17, 25)) as u64,
                        data_hash: H256(array32_of(bz.subrange(25, 57))),
                        parent_batch_hash: H256(array32_of(bz.subrange(57, 89))),
                        skipped_l1_message_bitmap: words_at(bz, bitmap_words(popped)),
                    },
                )
            }
        }
    }

    /// Decodes a batch header.
    ///
    /// The input must hold the 89 bytes of the fixed part and exactly the
    /// bitmap that the number of popped messages asks for. What is decoded
    /// encodes to the input.
    pub fn decode(bz: &[u8]) -> (r: Result<Self, BatchHeaderDecodeError>)
        ensures
            match r {
                Ok(header) => Self::decoded(bz@) == Ok::<_, BatchHeaderDecodeError>(header@),
                Err(e) => Self::decoded(bz@) == Err::<BatchHeaderView, _>(e),
            },
            r matches Ok(header) ==> header@.encoding() == bz@ && header@.well_formed(),
    {
        let bz_len = bz.len();
        if bz_len < BATCH_HEADER_FIXED_LENGTH {
            return Err(
                BatchHeaderDecodeError::LengthTooSmall(
                    InvalidLength {
                        expected: ExpectedLength::Gte(BATCH_HEADER_FIXED_LENGTH),
                        found: bz_len,
                    },
                ),
            );
        }
        let l1_message_popped = read_u64_be(bz, 9);
        let words: u64 = l1_message_popped / 256 + if l1_message_popped % 256 == 0 {
            0
        } else {
            1
        };
        assert(words == bitmap_words(l1_message_popped as nat));
        let expected: u64 = 89 + words * 32;
        if expected > usize::MAX as u64 {
            return Err(BatchHeaderDecodeError::TooManyL1Messages(l1_message_popped));
        }
        let expected_len: usize = expected as usize;
        if bz_len != expected_len {
            return Err(
                BatchHeaderDecodeError::IncorrectBitmapLength(
                    InvalidLength { expected: ExpectedLength::Exact(expected_len), found: bz_len },
                ),
            );
        }
        let count: usize = words as usize;
        let mut bitmap: Vec<U256> = Vec::new();
        let mut i: usize = 0;
        assert(bitmap@ =~= words_at(bz@, 0));
        while i < count
            invariant
                i <= count,
                bz_len == bz@.len(),
                bz_len == 89 + 32 * count,
                bitmap@ == words_at(bz@, i as nat),
            decreases count - i,
        {
            let word = U256::from_be_bytes(array32(bz, BATCH_HEADER_FIXED_LENGTH + 32 * i));
            bitmap.push(word);
            i = i + 1;
            assert(bitmap@ =~= words_at(bz@, i as nat));
        }
        let data_hash = H256(array32(bz, 25));
        let parent_batch_hash = H256(array32(bz, 57));
        proof {
            assert(array32_of(bz@.subrange(25, 57)) =~= data_hash.0);
            assert(array32_of(bz@.subrange(57, 89)) =~= parent_batch_hash.0);
            lemma_batch_header_round_trip(bz@);
        }
        Ok(
            BatchHeader {
                version: bz[0],
                batch_index: read_u64_be(bz, 1),
                l1_message_popped,
                total_l1_message_popped: read_u64_be(bz, 17),
                data_hash,
                parent_batch_hash,
                skipped_l1_message_bitmap: bitmap,
            },
        )
    }

    /// Encodes the header, if its bitmap has the length that the number of
    /// popped messages asks for.
    pub fn encode(&self) -> (r: Option<Vec<u8>>)
        ensures
            r is Some <==> self@.well_formed(),
            r matches Some(bz) ==> bz@ == self@.encoding(),
    {
        let words: u64 = self.l1_message_popped / 256 + if self.l1_message_popped % 256 == 0 {
            0
        } else {
            1
        };
        assert(words == bitmap_words(self.l1_message_popped as nat));
        if self.skipped_l1_message_bitmap.len() as u64 != words {
            return None;
        }
        let mut out: Vec<u8> = Vec::new();
        out.push(self.version);
        push_be(&mut out, self.batch_index, 8);
        push_be(&mut out, self.l1_message_popped, 8);
        push_be(&mut out, self.total_l1_message_popped, 8);
        push_all(&mut out, self.data_hash.0.as_slice());
        push_all(&mut out, self.parent_batch_hash.0.as_slice());
        let ghost fixed = out@;
        let ghost bitmap = self.skipped_l1_message_bitmap@;
        let mut i: usize = 0;
        assert(out@ =~= fixed + encode_words(bitmap.subrange(0, 0)));
        while i < self.skipped_l1_message_bitmap.len()
            invariant
                i <= bitmap.len(),
                bitmap == self.skipped_l1_message_bitmap@,
                out@ == fixed + encode_words(bitmap.subrange(0, i as int)),
            decreases bitmap.len() - i,
        {
            let word = self.skipped_l1_message_bitmap[i].to_be_bytes();
            push_all(&mut out, word.as_slice());
            i = i + 1;
            proof {
                let upto = bitmap.subrange(0, i as int);
                assert(upto.drop_last() =~= bitmap.subrange(0, i - 1));
                assert(out@ =~= fixed + encode_words(upto));
            }
        }
        assert(bitmap.subrange(0, bitmap.len() as int) =~= bitmap);
        assert(out@ =~= self@.encoding());
        Some(out)
    }
}

/// `n` words fill `32 * n` bytes, and each word stands at its place among them.
pub proof fn lemma_encode_words_layout(words: Seq<U256>)
    ensures
        encode_words(words).len() == 32 * words.len(),
        forall|i: int|
            0 <= i < words.len() ==> #[trigger] encode_words(words).subrange(32 * i, 32 * i + 32)
                == words[i].be_bytes(),
    decreases words.len(),
{
    if words.len() > 0 {
        let head = words.drop_last();
        lemma_encode_words_layout(head);
        lemma_u256_len(words.last());
        let all = encode_words(words);
        assert forall|i: int| 0 <= i < words.len() implies #[trigger] all.subrange(
            32 * i,
            32 * i + 32,
        ) == words[i].be_bytes() by {
            if i < head.len() {
                assert(all.subrange(32 * i, 32 * i + 32) =~= encode_words(head).subrange(
                    32 * i,
                    32 * i + 32,
                ));
                assert(head[i] == words[i]);
            } else {
                assert(all.subrange(32 * i, 32 * i + 32) =~= words.last().be_bytes());
            }
        }
    }
}

/// The words read from `bz` encode to the bytes they were read from.
pub proof fn lemma_words_round_trip(bz: Seq<u8>, n: nat)
    requires
        89 + 32 * n <= bz.len(),
    ensures
        encode_words(words_at(bz, n)) == bz.subrange(89, 89 + 32 * n as int),
    decreases n,
{
    if n == 0 {
        assert(bz.subrange(89, 89) =~= Seq::<u8>::empty());
    } else {
        let m = (n - 1) as nat;
        lemma_words_round_trip(bz, m);
        assert(words_at(bz, n).drop_last() =~= words_at(bz, m));
        let chunk = bz.subrange(89 + 32 * m as int, 121 + 32 * m as int);
        lemma_u256_of_bytes(U256::of_bytes(chunk), chunk);
        assert(bz.subrange(89, 89 + 32 * m as int) + chunk =~= bz.subrange(
            89,
            89 + 32 * n as int,
        ));
    }
}

/// Every input that decodes as a batch header is the encoding of what it
/// decodes to, and what it decodes to is well formed.
pub proof fn lemma_batch_header_round_trip(bz: Seq<u8>)
    ensures
        BatchHeader::decoded(bz) matches Ok(header) ==> header.encoding() == bz
            && header.well_formed(),
{
    if let Ok(header) = BatchHeader::decoded(bz) {
        let popped = be_value(bz.subrange(9, 17));
        lemma_capacity_values();
        lemma_be_value_bound(bz.subrange(1, 9));
        lemma_be_value_bound(bz.subrange(9, 17));
        lemma_be_value_bound(bz.subrange(17, 25));
        lemma_be_bytes_of_value(bz.subrange(1, 9));
        lemma_be_bytes_of_value(bz.subrange(9, 17));
        lemma_be_bytes_of_value(bz.subrange(17, 25));
        lemma_words_round_trip(bz, bitmap_words(popped));
        assert(array32_of(bz.subrange(25, 57))@ =~= bz.subrange(25, 57));
        assert(array32_of(bz.subrange(57, 89))@ =~= bz.subrange(57, 89));
        assert(header.encoding() =~= bz);
    }
}

/// Every well-formed batch header whose encoding is no longer than an input
/// can be is what its encoding decodes to.
pub proof fn lemma_batch_header_decode_encode(header: BatchHeaderView)
    requires
        header.well_formed(),
        header_length(header.l1_message_popped as nat) <= usize::MAX,
    ensures
        BatchHeader::decoded(header.encoding()) == Ok::<_, BatchHeaderDecodeError>(header),
{
    let bz = header.encoding();
    let words = header.skipped_l1_message_bitmap;
    lemma_capacity_values();
    lemma_be_bytes_len(header.batch_index as nat, 8);
    lemma_be_bytes_len(header.l1_message_popped as nat, 8);
    lemma_be_bytes_len(header.total_l1_message_popped as nat, 8);
    lemma_be_value_of_bytes(header.batch_index as nat, 8);
    lemma_be_value_of_bytes(header.l1_message_popped as nat, 8);
    lemma_be_value_of_bytes(header.total_l1_message_popped as nat, 8);
    lemma_encode_words_layout(words);
    assert(bz.subrange(1, 9) =~= be_bytes(header.batch_index as nat, 8));
    assert(bz.subrange(9, 17) =~= be_bytes(header.l1_message_popped as nat, 8));
    assert(bz.subrange(17, 25) =~= be_bytes(header.total_l1_message_popped as nat, 8));
    assert(bz.subrange(25, 57) =~= header.data_hash.bytes());
    assert(bz.subrange(57, 89) =~= header.parent_batch_hash.bytes());
    assert(array32_of(header.data_hash.0@) =~= header.data_hash.0);
    assert(array32_of(header.parent_batch_hash.0@) =~= header.parent_batch_hash.0);
    assert forall|i: int| 0 <= i < words.len() implies words_at(bz, words.len())[i]
        == words[i] by {
        assert(bz.subrange(89 + 32 * i, 121 + 32 * i) =~= encode_words(words).subrange(
            32 * i,
            32 * i + 32,
        ));
        lemma_u256_of_bytes(words[i], bz);
    }
    assert(words_at(bz, words.len()) =~= words);
}

} // verus!
