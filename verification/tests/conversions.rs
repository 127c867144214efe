use voyager_core::commitment::{
    CommitmentProof, ExistenceProof, LeafOp, MerklePath, MerkleProof, MerkleRoot,
    NonExistenceProof, TryFromCommitmentProofError, TryFromExistenceProofError,
    TryFromMerkleProofError, TryFromMerkleRootError,
};
use voyager_core::cosmos::{AnyPubKey, BaseAccount, TryFromAnyPubKeyError, TryFromBaseAccountError};
use voyager_core::errors::{ExpectedLength, InvalidLength, MissingField};
use voyager_core::galois::{
    PollResponse, ProveRequestDone, ProveRequestFailed, ProveResponse, TryFromPollResponseError,
    TryFromProveResponseError, ZeroKnowledgeProof,
};
use voyager_core::hash::H256;
use voyager_core::height::Height;
use voyager_core::ics23::length_op::LengthOp;
use voyager_core::lightclients::cometbls;
use voyager_core::lightclients::ethereum::{
    AccountProof, AccountUpdate, ActiveSyncCommittee, BlsPublicKey, SyncCommittee,
    TrustedSyncCommittee, TryFromAccountProofError, TryFromAccountUpdateError,
    TryFromSyncCommitteeError, TryFromTrustedSyncCommitteeError,
};
use voyager_core::lightclients::scroll;
use voyager_core::lightclients::tendermint;
use voyager_core::protos;
use voyager_core::tendermint::types::{
    BlockHeader, BlockId, Commit, CommitSig, SignedHeader, TryFromBlockHeaderError,
    TryFromBlockIdError, TryFromCommitError, TryFromCommitSigError, TryFromSignedHeaderError,
};
use voyager_core::timestamp::{BoundedIntError, Timestamp, TryFromTimestampError};

fn exact(expected: usize, found: usize) -> InvalidLength {
    InvalidLength { expected: ExpectedLength::Exact(expected), found }
}

#[test]
fn h256_length() {
    assert_eq!(H256::try_from(vec![3u8; 32]), Ok(H256([3; 32])));
    assert_eq!(H256::try_from(vec![3u8; 31]), Err(exact(32, 31)));
    assert_eq!(H256::try_from(vec![]), Err(exact(32, 0)));
    assert_eq!(H256([9; 32]).into_bytes(), vec![9u8; 32]);
    let mut bytes = vec![0u8; 32];
    bytes[0] = 1;
    bytes[31] = 2;
    let h = H256::try_from(bytes.clone()).unwrap();
    assert_eq!(h.0[0], 1);
    assert_eq!(h.0[31], 2);
    assert_eq!(h.into_bytes(), bytes);
}

#[test]
fn merkle_root_and_path() {
    assert_eq!(
        MerkleRoot::try_from(protos::MerkleRoot { hash: vec![1; 32] }),
        Ok(MerkleRoot { hash: H256([1; 32]) })
    );
    assert_eq!(
        MerkleRoot::try_from(protos::MerkleRoot { hash: vec![1; 33] }),
        Err(TryFromMerkleRootError::Hash(exact(32, 33)))
    );
    assert_eq!(
        MerkleRoot { hash: H256([4; 32]) }.into_raw(),
        protos::MerkleRoot { hash: vec![4; 32] }
    );
    let raw = protos::MerklePath { key_path: vec!["ibc".to_string(), "clients/x".to_string()] };
    let path = MerklePath::from(raw.clone());
    assert_eq!(path.key_path, raw.key_path);
    assert_eq!(path.into_raw(), raw);
}

#[test]
fn cometbls_consensus_state() {
    let raw = protos::CometblsConsensusState {
        timestamp: 77,
        root: Some(protos::MerkleRoot { hash: vec![1; 32] }),
        next_validators_hash: vec![2; 32],
    };
    let state = cometbls::ConsensusState::try_from(raw.clone()).unwrap();
    assert_eq!(
        state,
        cometbls::ConsensusState {
            timestamp: 77,
            app_hash: MerkleRoot { hash: H256([1; 32]) },
            next_validators_hash: H256([2; 32]),
        }
    );
    assert_eq!(state.into_raw(), raw);

    let mut missing = raw.clone();
    missing.root = None;
    missing.next_validators_hash = vec![];
    assert_eq!(
        cometbls::ConsensusState::try_from(missing),
        Err(cometbls::TryFromConsensusStateError::MissingField(MissingField("root")))
    );
    let mut bad_root = raw.clone();
    bad_root.root = Some(protos::MerkleRoot { hash: vec![1; 5] });
    assert_eq!(
        cometbls::ConsensusState::try_from(bad_root),
        Err(cometbls::TryFromConsensusStateError::Root(TryFromMerkleRootError::Hash(exact(32, 5))))
    );
    let mut bad_hash = raw;
    bad_hash.next_validators_hash = vec![2; 64];
    assert_eq!(
        cometbls::ConsensusState::try_from(bad_hash),
        Err(cometbls::TryFromConsensusStateError::NextValidatorsHash(exact(32, 64)))
    );

    let optimized = state.into_optimized();
    assert_eq!(
        optimized,
        cometbls::OptimizedConsensusState {
            timestamp: 77,
            app_hash: [1; 32],
            next_validators_hash: [2; 32]
        }
    );
    assert_eq!(cometbls::ConsensusState::from_optimized(optimized), Ok(state));
}

#[test]
fn scroll_consensus_state() {
    let raw = protos::ScrollConsensusState {
        batch_index: 5,
        ibc_storage_root: vec![8; 32],
        timestamp: 99,
    };
    let state = scroll::ConsensusState::try_from(raw.clone()).unwrap();
    assert_eq!(
        state,
        scroll::ConsensusState { batch_index: 5, ibc_storage_root: H256([8; 32]), timestamp: 99 }
    );
    assert_eq!(state.into_raw(), raw);
    assert_eq!(
        scroll::ConsensusState::try_from(protos::ScrollConsensusState {
            batch_index: 5,
            ibc_storage_root: vec![8; 30],
            timestamp: 99,
        }),
        Err(scroll::TryFromConsensusStateError::IbcStorageRoot(exact(32, 30)))
    );
}

#[test]
fn timestamp_bounds() {
    let t = Timestamp::try_from(protos::Timestamp { seconds: 1_700_000_000, nanos: 5 }).unwrap();
    assert_eq!(t.seconds(), 1_700_000_000);
    assert_eq!(t.nanos(), 5);
    assert_eq!(t.into_raw(), protos::Timestamp { seconds: 1_700_000_000, nanos: 5 });
    assert!(Timestamp::try_from(protos::Timestamp { seconds: -62_135_596_800, nanos: 0 }).is_ok());
    assert!(
        Timestamp::try_from(protos::Timestamp { seconds: 253_402_300_799, nanos: 999_999_999 })
            .is_ok()
    );
    assert_eq!(
        Timestamp::try_from(protos::Timestamp { seconds: 253_402_300_800, nanos: -1 }),
        Err(TryFromTimestampError::Seconds(BoundedIntError {
            min: -62_135_596_800,
            max: 253_402_300_799,
            found: 253_402_300_800,
        }))
    );
    assert_eq!(
        Timestamp::try_from(protos::Timestamp { seconds: 0, nanos: 1_000_000_000 }),
        Err(TryFromTimestampError::Nanos(BoundedIntError {
            min: 0,
            max: 999_999_999,
            found: 1_000_000_000,
        }))
    );
    assert_eq!(
        Timestamp::try_from(protos::Timestamp { seconds: 0, nanos: -1 }),
        Err(TryFromTimestampError::Nanos(BoundedIntError { min: 0, max: 999_999_999, found: -1 }))
    );
}

#[test]
fn tendermint_consensus_state() {
    let raw = protos::TendermintConsensusState {
        timestamp: Some(protos::Timestamp { seconds: 12, nanos: 34 }),
        root: Some(protos::MerkleRoot { hash: vec![1; 32] }),
        next_validators_hash: vec![2; 32],
    };
    let state = tendermint::ConsensusState::try_from(raw.clone()).unwrap();
    assert_eq!(state.timestamp.seconds(), 12);
    assert_eq!(state.timestamp.nanos(), 34);
    assert_eq!(state.root, MerkleRoot { hash: H256([1; 32]) });
    assert_eq!(state.next_validators_hash, H256([2; 32]));
    assert_eq!(state.into_raw(), raw);

    let mut no_time = raw.clone();
    no_time.timestamp = None;
    no_time.root = None;
    assert_eq!(
        tendermint::ConsensusState::try_from(no_time),
        Err(tendermint::TryFromConsensusStateError::MissingField(MissingField("timestamp")))
    );
    let mut bad_time = raw.clone();
    bad_time.timestamp = Some(protos::Timestamp { seconds: 0, nanos: -5 });
    assert_eq!(
        tendermint::ConsensusState::try_from(bad_time),
        Err(tendermint::TryFromConsensusStateError::Timestamp(TryFromTimestampError::Nanos(
            BoundedIntError { min: 0, max: 999_999_999, found: -5 }
        )))
    );
    let mut no_root = raw.clone();
    no_root.root = None;
    assert_eq!(
        tendermint::ConsensusState::try_from(no_root),
        Err(tendermint::TryFromConsensusStateError::MissingField(MissingField("root")))
    );
    let mut bad_root = raw.clone();
    bad_root.root = Some(protos::MerkleRoot { hash: vec![] });
    assert_eq!(
        tendermint::ConsensusState::try_from(bad_root),
        Err(tendermint::TryFromConsensusStateError::Root(TryFromMerkleRootError::Hash(exact(
            32, 0
        ))))
    );
    let mut bad_hash = raw;
    bad_hash.next_validators_hash = vec![1];
    assert_eq!(
        tendermint::ConsensusState::try_from(bad_hash),
        Err(tendermint::TryFromConsensusStateError::NextValidatorsHash(exact(32, 1)))
    );
}

fn zkp() -> protos::ZeroKnowledgeProof {
    protos::ZeroKnowledgeProof {
        content: vec![1],
        compressed_content: vec![2, 2],
        evm_proof: vec![3, 3, 3],
        public_inputs: vec![4],
    }
}

#[test]
fn zero_knowledge_proof_is_taken_as_it_is() {
    let proof = ZeroKnowledgeProof::from(zkp());
    assert_eq!(
        proof,
        ZeroKnowledgeProof {
            content: vec![1],
            compressed_content: vec![2, 2],
            evm_proof: vec![3, 3, 3],
            public_inputs: vec![4],
        }
    );
    assert_eq!(proof.into_raw(), zkp());
}

#[test]
fn poll_response() {
    assert_eq!(
        PollResponse::try_from(protos::PollResponse { result: None }),
        Err(TryFromPollResponseError::MissingField(MissingField("result")))
    );
    assert_eq!(
        PollResponse::try_from(protos::PollResponse { result: Some(protos::PollResult::Pending) }),
        Ok(PollResponse::Pending)
    );
    let failed = protos::PollResponse {
        result: Some(protos::PollResult::Failed(protos::ProveRequestFailed {
            message: "out of memory".to_string(),
        })),
    };
    assert_eq!(
        PollResponse::try_from(failed.clone()),
        Ok(PollResponse::Failed(ProveRequestFailed { message: "out of memory".to_string() }))
    );
    assert_eq!(
        PollResponse::Failed(ProveRequestFailed { message: "out of memory".to_string() })
            .into_raw(),
        failed
    );
    assert_eq!(
        PollResponse::Pending.into_raw(),
        protos::PollResponse { result: Some(protos::PollResult::Pending) }
    );

    let done = |response: Option<protos::ProveResponse>| protos::PollResponse {
        result: Some(protos::PollResult::Done(protos::ProveRequestDone { response })),
    };
    assert_eq!(
        PollResponse::try_from(done(None)),
        Err(TryFromPollResponseError::MissingField(MissingField("response")))
    );
    assert_eq!(
        PollResponse::try_from(done(Some(protos::ProveResponse {
            proof: None,
            trusted_validator_set_root: vec![],
        }))),
        Err(TryFromPollResponseError::ProveResponse(TryFromProveResponseError::MissingField(
            MissingField("proof")
        )))
    );
    assert_eq!(
        PollResponse::try_from(done(Some(protos::ProveResponse {
            proof: Some(zkp()),
            trusted_validator_set_root: vec![1; 31],
        }))),
        Err(TryFromPollResponseError::ProveResponse(
            TryFromProveResponseError::TrustedValidatorSetRoot(exact(32, 31))
        ))
    );
    let raw = done(Some(protos::ProveResponse {
        proof: Some(zkp()),
        trusted_validator_set_root: vec![1; 32],
    }));
    let response = PollResponse::try_from(raw.clone()).unwrap();
    assert_eq!(
        response,
        PollResponse::Done(ProveRequestDone {
            response: ProveResponse {
                proof: ZeroKnowledgeProof::from(zkp()),
                trusted_validator_set_root: H256([1; 32]),
            }
        })
    );
    assert_eq!(response.into_raw(), raw);
}

#[test]
fn base_account() {
    let raw = protos::BaseAccount {
        address: "union1abc".to_string(),
        pub_key: Some(protos::Any {
            type_url: "/cosmos.crypto.secp256k1.PubKey".to_string(),
            value: vec![10, 1, 7],
        }),
        account_number: 3,
        sequence: 9,
    };
    let account = BaseAccount::try_from(raw.clone()).unwrap();
    assert_eq!(
        account,
        BaseAccount {
            address: "union1abc".to_string(),
            pub_key: Some(AnyPubKey::Secp256k1(vec![10, 1, 7])),
            account_number: 3,
            sequence: 9,
        }
    );
    assert_eq!(account.into_raw(), raw);

    let mut fresh = raw.clone();
    fresh.pub_key = None;
    let account = BaseAccount::try_from(fresh.clone()).unwrap();
    assert_eq!(account.pub_key, None);
    assert_eq!(account.into_raw(), fresh);

    let mut unknown = raw;
    unknown.pub_key = Some(protos::Any { type_url: "/what".to_string(), value: vec![] });
    assert_eq!(
        BaseAccount::try_from(unknown),
        Err(TryFromBaseAccountError::PubKey(TryFromAnyPubKeyError::UnknownTypeUrl(
            "/what".to_string()
        )))
    );
    for (url, key) in [
        ("/cosmos.crypto.bn254.PubKey", AnyPubKey::Bn254(vec![1])),
        ("/cosmos.crypto.ed25519.PubKey", AnyPubKey::Ed25519(vec![1])),
    ] {
        let raw = protos::Any { type_url: url.to_string(), value: vec![1] };
        assert_eq!(AnyPubKey::try_from(raw.clone()), Ok(key.clone()));
        assert_eq!(key.into_raw(), raw);
    }
}

#[test]
fn account_update() {
    let raw = protos::AccountUpdate {
        account_proof: Some(protos::AccountProof {
            storage_root: vec![6; 32],
            proof: vec![vec![1, 2], vec![]],
        }),
    };
    let update = AccountUpdate::try_from(raw.clone()).unwrap();
    assert_eq!(
        update,
        AccountUpdate {
            account_proof: AccountProof {
                storage_root: H256([6; 32]),
                proof: vec![vec![1, 2], vec![]]
            }
        }
    );
    assert_eq!(update.into_raw(), raw);
    assert_eq!(
        AccountUpdate::try_from(protos::AccountUpdate { account_proof: None }),
        Err(TryFromAccountUpdateError::MissingField(MissingField("account_proof")))
    );
    assert_eq!(
        AccountUpdate::try_from(protos::AccountUpdate {
            account_proof: Some(protos::AccountProof { storage_root: vec![6; 2], proof: vec![] }),
        }),
        Err(TryFromAccountUpdateError::AccountProof(TryFromAccountProofError::StorageRoot(exact(
            32, 2
        ))))
    );
}

fn raw_committee(members: usize, seed: u8) -> protos::SyncCommittee {
    protos::SyncCommittee {
        pubkeys: (0..members).map(|i| vec![seed.wrapping_add(i as u8); 48]).collect(),
        aggregate_pubkey: vec![seed; 48],
    }
}

#[test]
fn sync_committee() {
    let raw = raw_committee(4, 1);
    let committee = SyncCommittee::<4>::try_from(raw.clone()).unwrap();
    assert_eq!(committee.pubkeys.len(), 4);
    assert_eq!(committee.pubkeys[2], BlsPublicKey([3; 48]));
    assert_eq!(committee.aggregate_pubkey, BlsPublicKey([1; 48]));
    assert_eq!(committee.into_raw(), raw);

    assert_eq!(
        SyncCommittee::<5>::try_from(raw_committee(4, 1)),
        Err(TryFromSyncCommitteeError::PubKeys(exact(5, 4)))
    );
    let mut bad_key = raw_committee(4, 1);
    bad_key.pubkeys[1] = vec![0; 47];
    bad_key.pubkeys[3] = vec![0; 2];
    assert_eq!(
        SyncCommittee::<4>::try_from(bad_key.clone()),
        Err(TryFromSyncCommitteeError::PubKey(exact(48, 47)))
    );
    assert_eq!(
        SyncCommittee::<9>::try_from(bad_key),
        Err(TryFromSyncCommitteeError::PubKey(exact(48, 47)))
    );
    let mut bad_aggregate = raw_committee(4, 1);
    bad_aggregate.aggregate_pubkey = vec![];
    assert_eq!(
        SyncCommittee::<4>::try_from(bad_aggregate),
        Err(TryFromSyncCommitteeError::AggregatePubKey(exact(48, 0)))
    );
}

#[test]
fn trusted_sync_committee_takes_the_current_one_first() {
    let height = protos::Height { revision_number: 1, revision_height: 64 };
    let both = protos::TrustedSyncCommittee {
        trusted_height: Some(height),
        current_sync_committee: Some(raw_committee(2, 10)),
        next_sync_committee: Some(raw_committee(2, 20)),
    };
    let trusted = TrustedSyncCommittee::<2>::try_from(both).unwrap();
    assert_eq!(trusted.trusted_height, Height { revision_number: 1, revision_height: 64 });
    assert_eq!(
        trusted.sync_committee,
        ActiveSyncCommittee::Current(SyncCommittee::<2>::try_from(raw_committee(2, 10)).unwrap())
    );
    assert_eq!(
        trusted.into_raw(),
        protos::TrustedSyncCommittee {
            trusted_height: Some(height),
            current_sync_committee: Some(raw_committee(2, 10)),
            next_sync_committee: None,
        }
    );

    let next_only = protos::TrustedSyncCommittee {
        trusted_height: Some(height),
        current_sync_committee: None,
        next_sync_committee: Some(raw_committee(2, 20)),
    };
    let trusted = TrustedSyncCommittee::<2>::try_from(next_only.clone()).unwrap();
    assert_eq!(
        trusted.sync_committee,
        ActiveSyncCommittee::Next(SyncCommittee::<2>::try_from(raw_committee(2, 20)).unwrap())
    );
    assert_eq!(trusted.into_raw(), next_only);

    assert_eq!(
        TrustedSyncCommittee::<2>::try_from(protos::TrustedSyncCommittee {
            trusted_height: Some(height),
            current_sync_committee: None,
            next_sync_committee: None,
        }),
        Err(TryFromTrustedSyncCommitteeError::MissingField(MissingField(
            "no current nor next sync committee"
        )))
    );
    assert_eq!(
        TrustedSyncCommittee::<2>::try_from(protos::TrustedSyncCommittee {
            trusted_height: None,
            current_sync_committee: None,
            next_sync_committee: None,
        }),
        Err(TryFromTrustedSyncCommitteeError::MissingField(MissingField("trusted_height")))
    );
    assert_eq!(
        TrustedSyncCommittee::<2>::try_from(protos::TrustedSyncCommittee {
            trusted_height: Some(height),
            current_sync_committee: Some(raw_committee(3, 1)),
            next_sync_committee: Some(raw_committee(2, 1)),
        }),
        Err(TryFromTrustedSyncCommitteeError::SyncCommittee(TryFromSyncCommitteeError::PubKeys(
            exact(2, 3)
        )))
    );
}

#[test]
fn active_sync_committee_get_and_get_mut() {
    let committee = SyncCommittee::<2>::try_from(raw_committee(2, 1)).unwrap();
    let other = SyncCommittee::<2>::try_from(raw_committee(2, 50)).unwrap();
    let mut current = ActiveSyncCommittee::Current(committee.clone());
    let mut next = ActiveSyncCommittee::Next(committee.clone());
    assert_eq!(current.get(), &committee);
    assert_eq!(next.get(), &committee);
    *current.get_mut() = other.clone();
    next.get_mut().aggregate_pubkey = BlsPublicKey([9; 48]);
    assert_eq!(current, ActiveSyncCommittee::Current(other));
    assert_eq!(
        next,
        ActiveSyncCommittee::Next(SyncCommittee {
            pubkeys: committee.pubkeys.clone(),
            aggregate_pubkey: BlsPublicKey([9; 48])
        })
    );
}

fn raw_block_id() -> protos::BlockId {
    protos::BlockId {
        hash: vec![1; 32],
        part_set_header: Some(protos::PartSetHeader { total: 3, hash: vec![2; 32] }),
    }
}

fn raw_sig(flag: i32) -> protos::CommitSig {
    protos::CommitSig {
        block_id_flag: flag,
        validator_address: vec![5; 20],
        timestamp: Some(protos::Timestamp { seconds: 100, nanos: 1 }),
        signature: vec![6; 64],
    }
}

fn raw_commit() -> protos::Commit {
    protos::Commit {
        height: 10,
        round: 0,
        block_id: Some(raw_block_id()),
        signatures: vec![raw_sig(2), raw_sig(3)],
    }
}

#[test]
fn block_id() {
    let id = BlockId::try_from(raw_block_id()).unwrap();
    assert_eq!(id.hash, H256([1; 32]));
    assert_eq!(id.part_set_header.total, 3);
    assert_eq!(id.part_set_header.hash, H256([2; 32]));
    assert_eq!(id.into_raw(), raw_block_id());
    let mut raw = raw_block_id();
    raw.part_set_header = None;
    assert_eq!(
        BlockId::try_from(raw),
        Err(TryFromBlockIdError::MissingField(MissingField("part_set_header")))
    );
    let mut raw = raw_block_id();
    raw.hash = vec![];
    raw.part_set_header = None;
    assert_eq!(BlockId::try_from(raw), Err(TryFromBlockIdError::Hash(exact(32, 0))));
    let mut raw = raw_block_id();
    raw.part_set_header = Some(protos::PartSetHeader { total: 3, hash: vec![2; 3] });
    assert_eq!(BlockId::try_from(raw), Err(TryFromBlockIdError::PartSetHeader(exact(32, 3))));
}

#[test]
fn commit_sig() {
    let sig = CommitSig::try_from(raw_sig(2)).unwrap();
    match &sig {
        CommitSig::Commit { validator_address, timestamp, signature } => {
            assert_eq!(validator_address.0, [5; 20]);
            assert_eq!(timestamp.seconds(), 100);
            assert_eq!(signature, &vec![6; 64]);
        }
        other => panic!("unexpected {other:?}"),
    }
    assert_eq!(sig.into_raw(), raw_sig(2));
    let sig = CommitSig::try_from(raw_sig(3)).unwrap();
    assert!(matches!(sig, CommitSig::Nil { .. }));
    assert_eq!(sig.into_raw(), raw_sig(3));

    let mut absent = raw_sig(1);
    absent.validator_address = vec![1];
    absent.timestamp = None;
    assert_eq!(CommitSig::try_from(absent), Ok(CommitSig::Absent));
    assert_eq!(
        CommitSig::Absent.into_raw(),
        protos::CommitSig {
            block_id_flag: 1,
            validator_address: vec![],
            timestamp: None,
            signature: vec![]
        }
    );

    assert_eq!(
        CommitSig::try_from(raw_sig(0)),
        Err(TryFromCommitSigError::UnknownBlockIdFlag(0))
    );
    assert_eq!(
        CommitSig::try_from(raw_sig(4)),
        Err(TryFromCommitSigError::UnknownBlockIdFlag(4))
    );
    let mut bad = raw_sig(2);
    bad.validator_address = vec![5; 21];
    assert_eq!(
        CommitSig::try_from(bad),
        Err(TryFromCommitSigError::ValidatorAddress(exact(20, 21)))
    );
    let mut bad = raw_sig(2);
    bad.timestamp = None;
    assert_eq!(
        CommitSig::try_from(bad),
        Err(TryFromCommitSigError::MissingField(MissingField("timestamp")))
    );
    let mut bad = raw_sig(3);
    bad.timestamp = Some(protos::Timestamp { seconds: 0, nanos: -1 });
    assert_eq!(
        CommitSig::try_from(bad),
        Err(TryFromCommitSigError::Timestamp(TryFromTimestampError::Nanos(BoundedIntError {
            min: 0,
            max: 999_999_999,
            found: -1
        })))
    );
}

#[test]
fn commit() {
    let commit = Commit::try_from(raw_commit()).unwrap();
    assert_eq!(commit.height, 10);
    assert_eq!(commit.round, 0);
    assert_eq!(commit.block_id, BlockId::try_from(raw_block_id()).unwrap());
    assert_eq!(
        commit.signatures,
        vec![CommitSig::try_from(raw_sig(2)).unwrap(), CommitSig::try_from(raw_sig(3)).unwrap()]
    );
    assert_eq!(commit.into_raw(), raw_commit());

    let mut raw = raw_commit();
    raw.height = -1;
    raw.round = -1;
    assert_eq!(
        Commit::try_from(raw),
        Err(TryFromCommitError::Height(BoundedIntError { min: 0, max: i64::MAX, found: -1 }))
    );
    let mut raw = raw_commit();
    raw.round = -2;
    raw.block_id = None;
    assert_eq!(
        Commit::try_from(raw),
        Err(TryFromCommitError::Round(BoundedIntError {
            min: 0,
            max: i32::MAX as i64,
            found: -2
        }))
    );
    let mut raw = raw_commit();
    raw.block_id = None;
    assert_eq!(
        Commit::try_from(raw),
        Err(TryFromCommitError::MissingField(MissingField("block_id")))
    );
    let mut raw = raw_commit();
    raw.block_id = Some(protos::BlockId { hash: vec![], part_set_header: None });
    assert_eq!(
        Commit::try_from(raw),
        Err(TryFromCommitError::BlockId(TryFromBlockIdError::Hash(exact(32, 0))))
    );
    let mut raw = raw_commit();
    raw.signatures = vec![raw_sig(2), raw_sig(9), raw_sig(0)];
    assert_eq!(
        Commit::try_from(raw),
        Err(TryFromCommitError::Signatures(TryFromCommitSigError::UnknownBlockIdFlag(9)))
    );
}

fn raw_block_header() -> protos::BlockHeader {
    protos::BlockHeader {
        chain_id: "union-1".to_string(),
        height: 10,
        time: Some(protos::Timestamp { seconds: 100, nanos: 0 }),
        validators_hash: vec![1; 32],
        next_validators_hash: vec![2; 32],
        app_hash: vec![3; 32],
    }
}

#[test]
fn block_header() {
    let header = BlockHeader::try_from(raw_block_header()).unwrap();
    assert_eq!(header.chain_id, "union-1");
    assert_eq!(header.height, 10);
    assert_eq!(header.validators_hash, H256([1; 32]));
    assert_eq!(header.next_validators_hash, H256([2; 32]));
    assert_eq!(header.app_hash, H256([3; 32]));
    assert_eq!(header.into_raw(), raw_block_header());

    let mut raw = raw_block_header();
    raw.height = -5;
    assert_eq!(
        BlockHeader::try_from(raw),
        Err(TryFromBlockHeaderError::Height(BoundedIntError { min: 0, max: i64::MAX, found: -5 }))
    );
    let mut raw = raw_block_header();
    raw.time = None;
    assert_eq!(
        BlockHeader::try_from(raw),
        Err(TryFromBlockHeaderError::MissingField(MissingField("time")))
    );
    let mut raw = raw_block_header();
    raw.validators_hash = vec![];
    raw.app_hash = vec![];
    assert_eq!(
        BlockHeader::try_from(raw),
        Err(TryFromBlockHeaderError::ValidatorsHash(exact(32, 0)))
    );
    let mut raw = raw_block_header();
    raw.next_validators_hash = vec![0; 1];
    assert_eq!(
        BlockHeader::try_from(raw),
        Err(TryFromBlockHeaderError::NextValidatorsHash(exact(32, 1)))
    );
    let mut raw = raw_block_header();
    raw.app_hash = vec![0; 33];
    assert_eq!(BlockHeader::try_from(raw), Err(TryFromBlockHeaderError::AppHash(exact(32, 33))));
}

#[test]
fn signed_header() {
    let raw = protos::SignedHeader { header: Some(raw_block_header()), commit: Some(raw_commit()) };
    let signed = SignedHeader::try_from(raw.clone()).unwrap();
    assert_eq!(signed.header, BlockHeader::try_from(raw_block_header()).unwrap());
    assert_eq!(signed.commit, Commit::try_from(raw_commit()).unwrap());
    assert_eq!(signed.into_raw(), raw);

    let mut bad_time = raw_block_header();
    bad_time.time = Some(protos::Timestamp { seconds: i64::MIN, nanos: 0 });
    assert_eq!(
        BlockHeader::try_from(bad_time.clone()),
        Err(TryFromBlockHeaderError::Timestamp(TryFromTimestampError::Seconds(BoundedIntError {
            min: -62_135_596_800,
            max: 253_402_300_799,
            found: i64::MIN,
        })))
    );
    assert_eq!(
        SignedHeader::try_from(protos::SignedHeader {
            header: Some(bad_time),
            commit: None,
        }),
        Err(TryFromSignedHeaderError::Header(TryFromBlockHeaderError::Timestamp(
            TryFromTimestampError::Seconds(BoundedIntError {
                min: -62_135_596_800,
                max: 253_402_300_799,
                found: i64::MIN,
            })
        )))
    );
    let mut bad_commit = raw_commit();
    bad_commit.round = -1;
    assert_eq!(
        SignedHeader::try_from(protos::SignedHeader {
            header: Some(raw_block_header()),
            commit: Some(bad_commit),
        }),
        Err(TryFromSignedHeaderError::Commit(TryFromCommitError::Round(BoundedIntError {
            min: 0,
            max: i32::MAX as i64,
            found: -1,
        })))
    );
}

#[test]
fn cometbls_header() {
    let raw = protos::CometblsHeader {
        signed_header: Some(protos::SignedHeader {
            header: Some(raw_block_header()),
            commit: Some(raw_commit()),
        }),
        trusted_height: Some(protos::Height { revision_number: 1, revision_height: 9 }),
        zero_knowledge_proof: vec![0xaa, 0xbb],
    };
    let header = cometbls::Header::try_from(raw.clone()).unwrap();
    assert_eq!(header.trusted_height, Height { revision_number: 1, revision_height: 9 });
    assert_eq!(header.zero_knowledge_proof, vec![0xaa, 0xbb]);
    assert_eq!(
        header.signed_header,
        SignedHeader {
            header: BlockHeader::try_from(raw_block_header()).unwrap(),
            commit: Commit::try_from(raw_commit()).unwrap(),
        }
    );
    assert_eq!(header.into_raw(), raw);

    let mut missing = raw.clone();
    missing.signed_header = None;
    missing.trusted_height = None;
    assert_eq!(
        cometbls::Header::try_from(missing),
        Err(cometbls::TryFromHeaderError::MissingField(MissingField("signed_header")))
    );
    let mut missing = raw.clone();
    missing.trusted_height = None;
    assert_eq!(
        cometbls::Header::try_from(missing),
        Err(cometbls::TryFromHeaderError::MissingField(MissingField("trusted_height")))
    );
    let mut bad = raw.clone();
    bad.signed_header =
        Some(protos::SignedHeader { header: None, commit: Some(raw_commit()) });
    assert_eq!(
        cometbls::Header::try_from(bad),
        Err(cometbls::TryFromHeaderError::SignedHeader(TryFromSignedHeaderError::MissingField(
            MissingField("header")
        )))
    );
    let mut bad = raw;
    bad.signed_header =
        Some(protos::SignedHeader { header: Some(raw_block_header()), commit: None });
    assert_eq!(
        cometbls::Header::try_from(bad),
        Err(cometbls::TryFromHeaderError::SignedHeader(TryFromSignedHeaderError::MissingField(
            MissingField("commit")
        )))
    );
}

fn raw_exist(length: i32) -> protos::ExistenceProof {
    protos::ExistenceProof {
        key: vec![1],
        value: vec![2],
        leaf: Some(protos::LeafOp { length, prefix: vec![0] }),
        path: vec![protos::InnerOp { prefix: vec![1], suffix: vec![] }],
    }
}

#[test]
fn merkle_proof() {
    let raw = protos::MerkleProof {
        proofs: vec![
            protos::CommitmentProof { proof: Some(protos::Proof::Exist(raw_exist(1))) },
            protos::CommitmentProof {
                proof: Some(protos::Proof::Nonexist(protos::NonExistenceProof {
                    key: vec![9],
                    left: Some(raw_exist(0)),
                    right: None,
                })),
            },
        ],
    };
    let proof = MerkleProof::try_from(raw.clone()).unwrap();
    assert_eq!(
        proof,
        MerkleProof {
            proofs: vec![
                CommitmentProof::Exist(ExistenceProof {
                    key: vec![1],
                    value: vec![2],
                    leaf: LeafOp { length: LengthOp::VarProto, prefix: vec![0] },
                    path: vec![protos::InnerOp { prefix: vec![1], suffix: vec![] }],
                }),
                CommitmentProof::NonExist(NonExistenceProof {
                    key: vec![9],
                    left: Some(ExistenceProof {
                        key: vec![1],
                        value: vec![2],
                        leaf: LeafOp { length: LengthOp::NoPrefix, prefix: vec![0] },
                        path: vec![protos::InnerOp { prefix: vec![1], suffix: vec![] }],
                    }),
                    right: None,
                }),
            ]
        }
    );
    assert_eq!(proof.into_raw(), raw);
    assert_eq!(
        MerkleProof::try_from(protos::MerkleProof { proofs: vec![] }),
        Ok(MerkleProof { proofs: vec![] })
    );

    let failing = |proofs: Vec<protos::CommitmentProof>| {
        MerkleProof::try_from(protos::MerkleProof { proofs })
    };
    let good = protos::CommitmentProof { proof: Some(protos::Proof::Exist(raw_exist(1))) };
    assert_eq!(
        failing(vec![good.clone(), protos::CommitmentProof { proof: None }]),
        Err(TryFromMerkleProofError::Proofs(TryFromCommitmentProofError::MissingField(
            MissingField("proof")
        )))
    );
    assert_eq!(
        failing(vec![
            protos::CommitmentProof { proof: Some(protos::Proof::Batch) },
            protos::CommitmentProof { proof: None }
        ]),
        Err(TryFromMerkleProofError::Proofs(TryFromCommitmentProofError::Unsupported))
    );
    assert_eq!(
        failing(vec![protos::CommitmentProof { proof: Some(protos::Proof::Compressed) }]),
        Err(TryFromMerkleProofError::Proofs(TryFromCommitmentProofError::Unsupported))
    );
    assert_eq!(
        failing(vec![protos::CommitmentProof { proof: Some(protos::Proof::Exist(raw_exist(9))) }]),
        Err(TryFromMerkleProofError::Proofs(TryFromCommitmentProofError::Exist(
            TryFromExistenceProofError::UnknownLengthOp(9)
        )))
    );
    let mut no_leaf = raw_exist(1);
    no_leaf.leaf = None;
    assert_eq!(
        failing(vec![protos::CommitmentProof {
            proof: Some(protos::Proof::Nonexist(protos::NonExistenceProof {
                key: vec![],
                left: None,
                right: Some(no_leaf.clone()),
            }))
        }]),
        Err(TryFromMerkleProofError::Proofs(TryFromCommitmentProofError::Right(
            TryFromExistenceProofError::MissingField(MissingField("leaf"))
        )))
    );
    assert_eq!(
        failing(vec![protos::CommitmentProof {
            proof: Some(protos::Proof::Nonexist(protos::NonExistenceProof {
                key: vec![],
                left: Some(raw_exist(-1)),
                right: Some(no_leaf),
            }))
        }]),
        Err(TryFromMerkleProofError::Proofs(TryFromCommitmentProofError::Left(
            TryFromExistenceProofError::UnknownLengthOp(-1)
        )))
    );
}

#[test]
fn heights_are_ordered_by_revision_first() {
    let a = Height { revision_number: 1, revision_height: 100 };
    let b = Height { revision_number: 1, revision_height: 101 };
    let c = Height { revision_number: 2, revision_height: 0 };
    assert!(a < b && b < c && a < c);
    assert!(!(b < a) && !(a < a));
    assert_eq!(a.partial_cmp(&a), Some(std::cmp::Ordering::Equal));
    assert_eq!(c.partial_cmp(&a), Some(std::cmp::Ordering::Greater));
    assert_eq!(a.max(b), b);
    assert_eq!(c.max(b), c);
    assert_eq!(Height::from(protos::Height { revision_number: 2, revision_height: 0 }), c);
    assert_eq!(c.into_raw(), protos::Height { revision_number: 2, revision_height: 0 });
}
