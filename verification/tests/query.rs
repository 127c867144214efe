use voyager_core::custom_query::{
    abci_response_data, aggregate_public_key, consensus_state_query, AbciQuery, Error,
    QuerierOutcome,
};
use voyager_core::height::Height;
use voyager_core::ibc_path::ClientConsensusStatePath;
use voyager_core::lightclients::ethereum::BlsPublicKey;

#[test]
fn consensus_state_query_asks_the_block_before() {
    let query = consensus_state_query(
        "08-wasm-3".to_string(),
        Height { revision_number: 1, revision_height: 4096 },
        500,
    );
    assert_eq!(
        query,
        AbciQuery {
            data: b"clients/08-wasm-3/consensusStates/1-4096".to_vec(),
            path: "store/ibc/key".to_string(),
            height: 499,
            prove: false,
        }
    );
    assert_eq!(
        consensus_state_query("c".to_string(), Height { revision_number: 0, revision_height: 0 }, 1)
            .height,
        0
    );
    assert_eq!(
        consensus_state_query(
            "c".to_string(),
            Height { revision_number: 0, revision_height: 0 },
            1u64 << 63
        )
        .height,
        i64::MAX
    );
}

#[test]
fn consensus_state_key() {
    let path = ClientConsensusStatePath {
        client_id: "07-tendermint-12".to_string(),
        height: Height { revision_number: 0, revision_height: u64::MAX },
    };
    assert_eq!(
        path.to_bytes(),
        b"clients/07-tendermint-12/consensusStates/0-18446744073709551615".to_vec()
    );
    let path = ClientConsensusStatePath {
        client_id: "x".to_string(),
        height: Height { revision_number: 10, revision_height: 909 },
    };
    assert_eq!(path.to_bytes(), b"clients/x/consensusStates/10-909".to_vec());
}

#[test]
fn querier_outcomes() {
    assert_eq!(abci_response_data(QuerierOutcome::Answer(vec![1, 2])), Ok(vec![1, 2]));
    assert_eq!(
        abci_response_data(QuerierOutcome::SystemErr("no such contract".to_string())),
        Err(Error::ConsensusState("Querier system error: no such contract".to_string()))
    );
    assert_eq!(
        abci_response_data(QuerierOutcome::ContractErr("bad request".to_string())),
        Err(Error::ConsensusState("Querier contract error: bad request".to_string()))
    );
}

#[test]
fn aggregate_public_key_must_be_48_bytes() {
    assert_eq!(aggregate_public_key(&[7; 48]), Ok(BlsPublicKey([7; 48])));
    assert_eq!(aggregate_public_key(&[7; 47]), Err(Error::InvalidAggregatePublicKey));
    assert_eq!(aggregate_public_key(&[7; 49]), Err(Error::InvalidAggregatePublicKey));
    assert_eq!(aggregate_public_key(&[]), Err(Error::InvalidAggregatePublicKey));
}
