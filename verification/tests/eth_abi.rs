use voyager_core::errors::{ExpectedLength, InvalidLength};
use voyager_core::eth_abi::{
    BlockHeaderData, BlockIdData, CommitData, CommitSigData, HeaderData, HeightData,
    PartSetHeaderData, SignedHeaderData, TimestampData,
};
use voyager_core::hash::{H160, H256};
use voyager_core::height::Height;
use voyager_core::lightclients::cometbls::{Header, TryFromEthAbiHeaderError};
use voyager_core::tendermint::eth_abi::{
    timestamp_from_eth_abi, timestamp_into_eth_abi, TryFromEthAbiBlockHeaderError,
    TryFromEthAbiBlockIdError, TryFromEthAbiCommitError, TryFromEthAbiCommitSigError,
    TryFromEthAbiSignedHeaderError,
};
use voyager_core::tendermint::types::{BlockHeader, BlockId, Commit, CommitSig, SignedHeader};
use voyager_core::timestamp::{BoundedIntError, TryFromTimestampError};

fn exact(expected: usize, found: usize) -> InvalidLength {
    InvalidLength { expected: ExpectedLength::Exact(expected), found }
}

fn block_id() -> BlockIdData {
    BlockIdData {
        hash: vec![1; 32],
        part_set_header: PartSetHeaderData { total: 3, hash: vec![2; 32] },
    }
}

fn sig(flag: i32) -> CommitSigData {
    CommitSigData {
        block_id_flag: flag,
        validator_address: vec![5; 20],
        timestamp: TimestampData { secs: 100, nanos: 1 },
        signature: vec![6; 64],
    }
}

fn commit() -> CommitData {
    CommitData { height: 10, round: 2, block_id: block_id(), signatures: vec![sig(2), sig(3)] }
}

fn block_header() -> BlockHeaderData {
    BlockHeaderData {
        chain_id: "union-1".to_string(),
        height: 10,
        time: TimestampData { secs: 100, nanos: 0 },
        validators_hash: vec![1; 32],
        next_validators_hash: vec![2; 32],
        app_hash: vec![3; 32],
    }
}

#[test]
fn timestamps_of_the_contract() {
    let t = timestamp_from_eth_abi(TimestampData { secs: 7, nanos: 999_999_999 }).unwrap();
    assert_eq!(t.seconds(), 7);
    assert_eq!(t.nanos(), 999_999_999);
    assert_eq!(timestamp_into_eth_abi(t), TimestampData { secs: 7, nanos: 999_999_999 });
    assert_eq!(
        timestamp_from_eth_abi(TimestampData { secs: 0, nanos: 1 << 40 }),
        Err(TryFromTimestampError::Nanos(BoundedIntError {
            min: 0,
            max: 999_999_999,
            found: 1 << 40
        }))
    );
    assert_eq!(
        timestamp_from_eth_abi(TimestampData { secs: i64::MAX, nanos: -1 }),
        Err(TryFromTimestampError::Seconds(BoundedIntError {
            min: -62_135_596_800,
            max: 253_402_300_799,
            found: i64::MAX
        }))
    );
}

#[test]
fn block_ids_of_the_contract() {
    let id = BlockId::try_from_eth_abi(block_id()).unwrap();
    assert_eq!(id.hash, H256([1; 32]));
    assert_eq!(id.part_set_header.total, 3);
    assert_eq!(id.part_set_header.hash, H256([2; 32]));
    assert_eq!(id.into_eth_abi(), block_id());
    let mut bad = block_id();
    bad.hash = vec![1; 31];
    bad.part_set_header.hash = vec![];
    assert_eq!(BlockId::try_from_eth_abi(bad), Err(TryFromEthAbiBlockIdError::Hash(exact(32, 31))));
    let mut bad = block_id();
    bad.part_set_header.hash = vec![0; 33];
    assert_eq!(
        BlockId::try_from_eth_abi(bad),
        Err(TryFromEthAbiBlockIdError::PartSetHeader(exact(32, 33)))
    );
}

#[test]
fn commit_signatures_of_the_contract() {
    let commit_sig = CommitSig::try_from_eth_abi(sig(2)).unwrap();
    match &commit_sig {
        CommitSig::Commit { validator_address, timestamp, signature } => {
            assert_eq!(validator_address, &H160([5; 20]));
            assert_eq!((timestamp.seconds(), timestamp.nanos()), (100, 1));
            assert_eq!(signature, &vec![6; 64]);
        }
        other => panic!("unexpected {other:?}"),
    }
    assert_eq!(commit_sig.into_eth_abi(), sig(2));
    let nil = CommitSig::try_from_eth_abi(sig(3)).unwrap();
    assert!(matches!(nil, CommitSig::Nil { .. }));
    assert_eq!(nil.into_eth_abi(), sig(3));
    let mut absent = sig(1);
    absent.validator_address = vec![];
    absent.timestamp = TimestampData { secs: i64::MIN, nanos: -1 };
    assert_eq!(CommitSig::try_from_eth_abi(absent), Ok(CommitSig::Absent));
    assert_eq!(
        CommitSig::Absent.into_eth_abi(),
        CommitSigData {
            block_id_flag: 1,
            validator_address: vec![],
            timestamp: TimestampData { secs: 0, nanos: 0 },
            signature: vec![],
        }
    );
    assert_eq!(
        CommitSig::try_from_eth_abi(sig(7)),
        Err(TryFromEthAbiCommitSigError::UnknownBlockIdFlag(7))
    );
    let mut bad = sig(2);
    bad.validator_address = vec![5; 19];
    bad.timestamp = TimestampData { secs: 0, nanos: -1 };
    assert_eq!(
        CommitSig::try_from_eth_abi(bad),
        Err(TryFromEthAbiCommitSigError::ValidatorAddress(exact(20, 19)))
    );
    let mut bad = sig(3);
    bad.timestamp = TimestampData { secs: 0, nanos: -1 };
    assert_eq!(
        CommitSig::try_from_eth_abi(bad),
        Err(TryFromEthAbiCommitSigError::Timestamp(TryFromTimestampError::Nanos(
            BoundedIntError { min: 0, max: 999_999_999, found: -1 }
        )))
    );
}

#[test]
fn commits_of_the_contract() {
    let c = Commit::try_from_eth_abi(commit()).unwrap();
    assert_eq!((c.height, c.round), (10, 2));
    assert_eq!(c.block_id, BlockId::try_from_eth_abi(block_id()).unwrap());
    assert_eq!(
        c.signatures,
        vec![
            CommitSig::try_from_eth_abi(sig(2)).unwrap(),
            CommitSig::try_from_eth_abi(sig(3)).unwrap()
        ]
    );
    assert_eq!(c.into_eth_abi(), commit());

    let mut bad = commit();
    bad.height = -1;
    bad.round = -1;
    assert_eq!(
        Commit::try_from_eth_abi(bad),
        Err(TryFromEthAbiCommitError::Height(BoundedIntError {
            min: 0,
            max: i64::MAX,
            found: -1
        }))
    );
    let mut bad = commit();
    bad.round = -1;
    bad.block_id.hash = vec![];
    assert_eq!(
        Commit::try_from_eth_abi(bad),
        Err(TryFromEthAbiCommitError::Round(BoundedIntError {
            min: 0,
            max: i32::MAX as i64,
            found: -1
        }))
    );
    let mut bad = commit();
    bad.block_id.hash = vec![];
    bad.signatures = vec![sig(0)];
    assert_eq!(
        Commit::try_from_eth_abi(bad),
        Err(TryFromEthAbiCommitError::BlockId(TryFromEthAbiBlockIdError::Hash(exact(32, 0))))
    );
    let mut bad = commit();
    bad.signatures = vec![sig(1), sig(2), sig(8), sig(9)];
    assert_eq!(
        Commit::try_from_eth_abi(bad),
        Err(TryFromEthAbiCommitError::Signatures(
            TryFromEthAbiCommitSigError::UnknownBlockIdFlag(8)
        ))
    );
}

#[test]
fn block_headers_of_the_contract() {
    let header = BlockHeader::try_from_eth_abi(block_header()).unwrap();
    assert_eq!(header.chain_id, "union-1");
    assert_eq!(header.height, 10);
    assert_eq!(header.app_hash, H256([3; 32]));
    assert_eq!(header.into_eth_abi(), block_header());

    let mut bad = block_header();
    bad.height = i64::MIN;
    assert_eq!(
        BlockHeader::try_from_eth_abi(bad),
        Err(TryFromEthAbiBlockHeaderError::Height(BoundedIntError {
            min: 0,
            max: i64::MAX,
            found: i64::MIN
        }))
    );
    let mut bad = block_header();
    bad.time = TimestampData { secs: 0, nanos: 1_000_000_000 };
    assert_eq!(
        BlockHeader::try_from_eth_abi(bad),
        Err(TryFromEthAbiBlockHeaderError::Timestamp(TryFromTimestampError::Nanos(
            BoundedIntError { min: 0, max: 999_999_999, found: 1_000_000_000 }
        )))
    );
    let mut bad = block_header();
    bad.validators_hash = vec![];
    assert_eq!(
        BlockHeader::try_from_eth_abi(bad),
        Err(TryFromEthAbiBlockHeaderError::ValidatorsHash(exact(32, 0)))
    );
    let mut bad = block_header();
    bad.next_validators_hash = vec![1];
    assert_eq!(
        BlockHeader::try_from_eth_abi(bad),
        Err(TryFromEthAbiBlockHeaderError::NextValidatorsHash(exact(32, 1)))
    );
    let mut bad = block_header();
    bad.app_hash = vec![1, 2];
    assert_eq!(
        BlockHeader::try_from_eth_abi(bad),
        Err(TryFromEthAbiBlockHeaderError::AppHash(exact(32, 2)))
    );
}

#[test]
fn headers_of_the_contract() {
    let raw = HeaderData {
        signed_header: SignedHeaderData { header: block_header(), commit: commit() },
        trusted_height: HeightData { revision_number: 1, revision_height: 9 },
        zero_knowledge_proof: vec![0xaa],
    };
    let header = Header::try_from_eth_abi(raw.clone()).unwrap();
    assert_eq!(header.trusted_height, Height { revision_number: 1, revision_height: 9 });
    assert_eq!(header.zero_knowledge_proof, vec![0xaa]);
    assert_eq!(
        header.signed_header,
        SignedHeader {
            header: BlockHeader::try_from_eth_abi(block_header()).unwrap(),
            commit: Commit::try_from_eth_abi(commit()).unwrap(),
        }
    );
    assert_eq!(header.signed_header.clone().into_eth_abi(), raw.signed_header);
    assert_eq!(header.into_eth_abi(), raw);

    let mut bad = raw.clone();
    bad.signed_header.header.height = -1;
    bad.signed_header.commit.height = -1;
    assert_eq!(
        Header::try_from_eth_abi(bad),
        Err(TryFromEthAbiHeaderError::SignedHeader(TryFromEthAbiSignedHeaderError::Header(
            TryFromEthAbiBlockHeaderError::Height(BoundedIntError {
                min: 0,
                max: i64::MAX,
                found: -1
            })
        )))
    );
    let mut bad = raw;
    bad.signed_header.commit.round = -3;
    assert_eq!(
        SignedHeader::try_from_eth_abi(bad.signed_header.clone()),
        Err(TryFromEthAbiSignedHeaderError::Commit(TryFromEthAbiCommitError::Round(
            BoundedIntError { min: 0, max: i32::MAX as i64, found: -3 }
        )))
    );
    assert_eq!(
        Header::try_from_eth_abi(bad),
        Err(TryFromEthAbiHeaderError::SignedHeader(TryFromEthAbiSignedHeaderError::Commit(
            TryFromEthAbiCommitError::Round(BoundedIntError {
                min: 0,
                max: i32::MAX as i64,
                found: -3
            })
        )))
    );
}
