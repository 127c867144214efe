use voyager_core::errors::{ExpectedLength, InvalidLength};
use voyager_core::hash::H256;
use voyager_core::ics23::length_op::{apply, ApplyError, LengthOp};
use voyager_core::keccak::Keccak256;
use voyager_core::scroll_codec::batch_header::{BatchHeader, BatchHeaderDecodeError};
use voyager_core::scroll_codec::chunk::{
    BlockContext, ChunkV0, ChunkV0DecodeError, ChunkV1, ChunkV1DecodeError,
};
use voyager_core::uint::U256;

fn context_bytes(seed: u8) -> [u8; 60] {
    let mut bz = [0u8; 60];
    for (i, b) in bz.iter_mut().enumerate() {
        *b = seed.wrapping_mul(31).wrapping_add(i as u8);
    }
    bz
}

fn sample_context() -> BlockContext {
    let mut fee = [0u8; 32];
    fee[31] = 7;
    fee[0] = 1;
    BlockContext {
        block_number: 0x0102_0304_0506_0708,
        timestamp: 1_700_000_000,
        base_fee: U256::from_be_bytes(fee),
        gas_limit: 30_000_000,
        num_transactions: 513,
        num_l1_messages: 2,
    }
}

#[test]
fn block_context_fields_are_big_endian() {
    let mut bz = [0u8; 60];
    bz[0..8].copy_from_slice(&[1, 2, 3, 4, 5, 6, 7, 8]);
    bz[8..16].copy_from_slice(&1_700_000_000u64.to_be_bytes());
    bz[16] = 1;
    bz[47] = 7;
    bz[48..56].copy_from_slice(&30_000_000u64.to_be_bytes());
    bz[56..58].copy_from_slice(&[2, 1]);
    bz[58..60].copy_from_slice(&[0, 2]);
    assert_eq!(BlockContext::decode(bz), sample_context());
}

#[test]
fn block_context_round_trip() {
    for seed in 0..20u8 {
        let bz = context_bytes(seed);
        let context = BlockContext::decode(bz);
        let mut out = vec![0xee];
        context.encode(&mut out);
        assert_eq!(out[0], 0xee);
        assert_eq!(&out[1..], &bz[..]);
    }
}

#[test]
fn chunk_v1_rejects_every_length_but_the_exact_one() {
    let mut bz = vec![2u8];
    bz.extend_from_slice(&context_bytes(1));
    bz.extend_from_slice(&context_bytes(2));
    assert_eq!(bz.len(), 121);
    let chunk = ChunkV1::decode(&bz).unwrap();
    assert_eq!(
        chunk.blocks,
        vec![BlockContext::decode(context_bytes(1)), BlockContext::decode(context_bytes(2))]
    );

    let mut long = bz.clone();
    long.push(0);
    assert_eq!(
        ChunkV1::decode(&long),
        Err(ChunkV1DecodeError::IncorrectChunkLength(InvalidLength {
            expected: ExpectedLength::Exact(121),
            found: 122,
        }))
    );
    assert_eq!(
        ChunkV1::decode(&bz[..120]),
        Err(ChunkV1DecodeError::IncorrectChunkLength(InvalidLength {
            expected: ExpectedLength::Exact(121),
            found: 120,
        }))
    );
    assert_eq!(
        ChunkV1::decode(&[0, 0]),
        Err(ChunkV1DecodeError::IncorrectChunkLength(InvalidLength {
            expected: ExpectedLength::Exact(1),
            found: 2,
        }))
    );
    assert_eq!(
        ChunkV1::decode(&[255]),
        Err(ChunkV1DecodeError::IncorrectChunkLength(InvalidLength {
            expected: ExpectedLength::Exact(15_301),
            found: 1,
        }))
    );
    assert_eq!(ChunkV1::decode(&[]), Err(ChunkV1DecodeError::EmptyBytes));
    assert_eq!(ChunkV1::decode(&[0]), Ok(ChunkV1 { blocks: vec![] }));
}

#[test]
fn chunk_v1_round_trip() {
    let mut bz = vec![3u8];
    for seed in 5..8 {
        bz.extend_from_slice(&context_bytes(seed));
    }
    let chunk = ChunkV1::decode(&bz).unwrap();
    assert_eq!(chunk.encode(), Some(bz.clone()));
    assert_eq!(ChunkV1::decode(&chunk.encode().unwrap()), Ok(chunk));
}

#[test]
fn chunk_v1_with_too_many_blocks_has_no_encoding() {
    let chunk = ChunkV1 { blocks: vec![sample_context(); 256] };
    assert_eq!(chunk.encode(), None);
    let chunk = ChunkV1 { blocks: vec![sample_context(); 255] };
    assert_eq!(chunk.encode().map(|bz| bz.len()), Some(1 + 60 * 255));
}

#[test]
fn chunk_v0_accepts_an_empty_transaction_section() {
    let mut bz = vec![1u8];
    bz.extend_from_slice(&context_bytes(9));
    assert_eq!(
        ChunkV0::decode(&bz),
        Ok(ChunkV0 { blocks: vec![BlockContext::decode(context_bytes(9))], l2_transactions: vec![] })
    );
    assert_eq!(ChunkV0::decode(&[0]), Ok(ChunkV0 { blocks: vec![], l2_transactions: vec![] }));
}

#[test]
fn chunk_v0_reads_the_transactions() {
    let mut bz = vec![1u8];
    bz.extend_from_slice(&context_bytes(9));
    bz.extend_from_slice(&[0, 0, 0, 3, 0xaa, 0xbb, 0xcc]);
    bz.extend_from_slice(&[0, 0, 0, 0]);
    bz.extend_from_slice(&[0, 0, 0, 1, 0xdd]);
    let chunk = ChunkV0::decode(&bz).unwrap();
    assert_eq!(chunk.blocks, vec![BlockContext::decode(context_bytes(9))]);
    assert_eq!(chunk.l2_transactions, vec![vec![0xaa, 0xbb, 0xcc], vec![], vec![0xdd]]);
    assert_eq!(chunk.encode(), Some(bz));
}

#[test]
fn chunk_v0_errors() {
    assert_eq!(ChunkV0::decode(&[]), Err(ChunkV0DecodeError::EmptyBytes));

    let mut short = vec![2u8];
    short.extend_from_slice(&context_bytes(1));
    assert_eq!(
        ChunkV0::decode(&short),
        Err(ChunkV0DecodeError::IncorrectChunkLength(InvalidLength {
            expected: ExpectedLength::Gte(121),
            found: 61,
        }))
    );

    let mut bz = vec![1u8];
    bz.extend_from_slice(&context_bytes(1));
    let mut cut_length = bz.clone();
    cut_length.extend_from_slice(&[0, 0, 0]);
    assert_eq!(
        ChunkV0::decode(&cut_length),
        Err(ChunkV0DecodeError::NotEnoughL2TransactionLengthBytes)
    );

    let mut cut_transaction = bz.clone();
    cut_transaction.extend_from_slice(&[0, 0, 0, 2, 0xaa]);
    assert_eq!(
        ChunkV0::decode(&cut_transaction),
        Err(ChunkV0DecodeError::IncorrectL2TransactionLength)
    );

    let mut second_cut = bz.clone();
    second_cut.extend_from_slice(&[0, 0, 0, 1, 0xaa, 0xff, 0xff, 0xff, 0xff]);
    assert_eq!(
        ChunkV0::decode(&second_cut),
        Err(ChunkV0DecodeError::IncorrectL2TransactionLength)
    );
}

fn header_bytes(popped: u64, bitmap_len: usize) -> Vec<u8> {
    let mut bz = vec![0u8];
    bz.extend_from_slice(&42u64.to_be_bytes());
    bz.extend_from_slice(&popped.to_be_bytes());
    bz.extend_from_slice(&1000u64.to_be_bytes());
    bz.extend_from_slice(&[0x11; 32]);
    bz.extend_from_slice(&[0x22; 32]);
    for i in 0..bitmap_len {
        bz.push(i as u8);
    }
    bz
}

#[test]
fn batch_header_bitmap_length() {
    for (popped, bitmap_len) in [(0u64, 0usize), (1, 32), (256, 32), (257, 64), (512, 64), (513, 96)]
    {
        let bz = header_bytes(popped, bitmap_len);
        let header = BatchHeader::decode(&bz).unwrap();
        assert_eq!(header.l1_message_popped, popped);
        assert_eq!(header.skipped_l1_message_bitmap.len(), bitmap_len / 32);
        assert_eq!(header.encode(), Some(bz.clone()));

        let mut long = bz.clone();
        long.push(0);
        assert_eq!(
            BatchHeader::decode(&long),
            Err(BatchHeaderDecodeError::IncorrectBitmapLength(InvalidLength {
                expected: ExpectedLength::Exact(89 + bitmap_len),
                found: 90 + bitmap_len,
            }))
        );
    }
    assert_eq!(
        BatchHeader::decode(&header_bytes(1, 0)),
        Err(BatchHeaderDecodeError::IncorrectBitmapLength(InvalidLength {
            expected: ExpectedLength::Exact(121),
            found: 89,
        }))
    );
}

#[test]
fn batch_header_fields() {
    let bz = header_bytes(257, 64);
    let header = BatchHeader::decode(&bz).unwrap();
    assert_eq!(header.version, 0);
    assert_eq!(header.batch_index, 42);
    assert_eq!(header.total_l1_message_popped, 1000);
    assert_eq!(header.data_hash, H256([0x11; 32]));
    assert_eq!(header.parent_batch_hash, H256([0x22; 32]));
    let mut first = [0u8; 32];
    let mut second = [0u8; 32];
    for i in 0..32 {
        first[i] = i as u8;
        second[i] = 32 + i as u8;
    }
    assert_eq!(
        header.skipped_l1_message_bitmap,
        vec![U256::from_be_bytes(first), U256::from_be_bytes(second)]
    );
}

#[test]
fn batch_header_errors() {
    assert_eq!(
        BatchHeader::decode(&[0u8; 88]),
        Err(BatchHeaderDecodeError::LengthTooSmall(InvalidLength {
            expected: ExpectedLength::Gte(89),
            found: 88,
        }))
    );
    assert_eq!(
        BatchHeader::decode(&header_bytes(u64::MAX, 0)),
        Err(BatchHeaderDecodeError::IncorrectBitmapLength(InvalidLength {
            expected: ExpectedLength::Exact(89 + 32 * (1usize << 56)),
            found: 89,
        }))
    );
}

#[test]
fn batch_header_with_a_wrong_bitmap_has_no_encoding() {
    let mut header = BatchHeader::decode(&header_bytes(1, 32)).unwrap();
    header.skipped_l1_message_bitmap.push(U256::from_be_bytes([0; 32]));
    assert_eq!(header.encode(), None);
}

#[test]
fn length_op_require_32_bytes() {
    assert_eq!(apply(&LengthOp::Require32Bytes, vec![1; 33]), Err(ApplyError::Required32Bytes(33)));
    assert_eq!(apply(&LengthOp::Require32Bytes, vec![1; 32]), Ok(vec![1; 32]));
    assert_eq!(apply(&LengthOp::Require64Bytes, vec![1; 32]), Err(ApplyError::Required64Bytes(32)));
    assert_eq!(apply(&LengthOp::Require64Bytes, vec![2; 64]), Ok(vec![2; 64]));
}

#[test]
fn length_op_var_proto() {
    let data = vec![0x5a; 300];
    let mut expected = vec![0xac, 0x02];
    expected.extend_from_slice(&data);
    assert_eq!(apply(&LengthOp::VarProto, data), Ok(expected));
    assert_eq!(apply(&LengthOp::VarProto, vec![]), Ok(vec![0]));
    assert_eq!(apply(&LengthOp::VarProto, vec![9; 127]).map(|v| v[0]), Ok(127));
    assert_eq!(
        apply(&LengthOp::VarProto, vec![9; 128]).map(|v| (v[0], v[1], v.len())),
        Ok((0x80, 0x01, 130))
    );
}

#[test]
fn length_op_fixed_32_little() {
    let mut expected = vec![0x2c, 0x01, 0, 0];
    expected.extend_from_slice(&[7; 300]);
    assert_eq!(apply(&LengthOp::Fixed32Little, vec![7; 300]), Ok(expected));
}

#[test]
fn length_op_no_prefix_and_unsupported() {
    assert_eq!(apply(&LengthOp::NoPrefix, vec![1, 2, 3]), Ok(vec![1, 2, 3]));
    for op in [LengthOp::VarRlp, LengthOp::Fixed32Big, LengthOp::Fixed64Big, LengthOp::Fixed64Little]
    {
        assert_eq!(apply(&op, vec![1, 2, 3]), Err(ApplyError::UnsupportedOp(op)));
    }
}

#[test]
fn length_op_numbers() {
    for n in 0..9 {
        assert_eq!(LengthOp::from_i32(n).map(LengthOp::to_i32), Some(n));
    }
    assert_eq!(LengthOp::from_i32(9), None);
    assert_eq!(LengthOp::from_i32(-1), None);
    assert_eq!(LengthOp::from_i32(4), Some(LengthOp::Fixed32Little));
}

#[test]
fn copy_block_context_feeds_all_but_the_l1_messages() {
    let context = sample_context();
    let mut encoded = Vec::new();
    context.encode(&mut encoded);

    let mut hasher = Keccak256::new();
    hasher.update(&[0xab]);
    context.copy_block_context(&mut hasher);
    let digest = hasher.finalize();

    let mut whole = vec![0xab];
    whole.extend_from_slice(&encoded[..58]);
    let mut reference = Keccak256::new();
    reference.update(&whole);
    assert_eq!(digest, reference.finalize());

    let mut other = sample_context();
    other.num_l1_messages = 99;
    let mut hasher = Keccak256::new();
    hasher.update(&[0xab]);
    other.copy_block_context(&mut hasher);
    assert_eq!(hasher.finalize(), digest);
}

#[test]
fn keccak_of_the_empty_string() {
    let digest = Keccak256::new().finalize();
    assert_eq!(
        digest.0[..4],
        [0xc5, 0xd2, 0x46, 0x01]
    );
    let mut hasher = Keccak256::new();
    hasher.update(b"abc");
    assert_eq!(hasher.finalize().0[..4], [0x4e, 0x03, 0x65, 0x7a]);
}
