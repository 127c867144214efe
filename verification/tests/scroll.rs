use std::collections::VecDeque;

use voyager_core::block_message::scroll::{
    do_aggregate, fetch_block_range, on_logs, AggregateWithChannel, AggregateWithConnection,
    BatchStep, ChannelData, ConnectionData, FetchBeaconBlockRange, FetchChannel, FetchEvents,
    FetchGetLogs, FetchStep, LogFilter, ScrollAggregate, ScrollData, ScrollFetch,
    SCROLL_REVISION_NUMBER,
};
use voyager_core::data::{ChannelEnd, ConnectionEnd, HandshakeState};
use voyager_core::events::{ConnectionOpenInit, Order, PacketInfo, SendPacket};
use voyager_core::block_message::{BlockPollingTypes, Data, Fetch, FetchBlockRange};
use voyager_core::data::ChainEvent;
use voyager_core::events::{IbcEvent, SubmitEvidence};
use voyager_core::hash::H256;
use voyager_core::height::Height;
use voyager_core::ibc_path::ChannelEndPath;
use voyager_core::queue_msg::QueueMsg;
use voyager_core::relay_message::Identified;

type Msg = QueueMsg<BlockPollingTypes>;

fn on_scroll<T>(t: T) -> Identified<T> {
    Identified { chain_id: "534352".to_string(), t }
}

#[test]
fn rollup_slot_to_batch_mapping_no_new_batch() {
    let fetch = FetchGetLogs { from_slot: 10, to_slot: 20 };
    assert_eq!(
        ScrollFetch::do_fetch("534352".to_string(), ScrollFetch::FetchGetLogs(fetch)),
        FetchStep::ReadBatchIndices(fetch)
    );
    assert_eq!(fetch.on_batch_indices(5, 5), BatchStep::Reduced(QueueMsg::Noop));
}

#[test]
fn rollup_slot_to_batch_mapping_one_batch_advance() {
    let fetch = FetchGetLogs { from_slot: 10, to_slot: 20 };
    assert_eq!(
        fetch.on_batch_indices(5, 6),
        BatchStep::ReadScrollHeights { from_batch_index: 5, to_batch_index: 6 }
    );
    let scroll_height_of_5 = 1_000;
    let scroll_height_of_6 = 1_250;
    assert_eq!(
        fetch.log_filter(scroll_height_of_5, scroll_height_of_6),
        LogFilter {
            from_block: 1_000,
            to_block: 1_249,
            event_height: Height { revision_number: SCROLL_REVISION_NUMBER, revision_height: 20 },
        }
    );

    let event = |n: u8| -> Msg {
        QueueMsg::Data(on_scroll(Data::ChainEvent(ChainEvent {
            tx_hash: H256([n; 32]),
            height: Height { revision_number: SCROLL_REVISION_NUMBER, revision_height: 20 },
            event: IbcEvent::SubmitEvidence(SubmitEvidence { evidence_hash: n.to_string() }),
        })))
    };
    assert_eq!(
        on_logs(vec![event(1), event(2)]),
        QueueMsg::Concurrent(vec![event(1), event(2)])
    );
    assert_eq!(on_logs(vec![]), QueueMsg::Concurrent(vec![]));
}

#[test]
fn events_between_heights_become_a_walk_of_the_beacon_chain() {
    let from_height = Height { revision_number: 0, revision_height: 100 };
    let to_height = Height { revision_number: 0, revision_height: 132 };
    assert_eq!(
        fetch_block_range("534352".to_string(), FetchBlockRange { from_height, to_height }),
        QueueMsg::Fetch(on_scroll(Fetch::Scroll(ScrollFetch::FetchEvents(FetchEvents {
            from_height,
            to_height
        }))))
    );
    assert_eq!(
        ScrollFetch::do_fetch(
            "534352".to_string(),
            ScrollFetch::FetchEvents(FetchEvents { from_height, to_height })
        ),
        FetchStep::Reduced(QueueMsg::Fetch(on_scroll(Fetch::Scroll(
            ScrollFetch::FetchBeaconBlockRange(FetchBeaconBlockRange {
                from_slot: 100,
                to_slot: 132
            })
        ))))
    );
    let range = FetchBeaconBlockRange { from_slot: 100, to_slot: 132 };
    assert_eq!(
        ScrollFetch::do_fetch("534352".to_string(), ScrollFetch::FetchBeaconBlockRange(range)),
        FetchStep::WalkBeaconChain(range)
    );
}

#[test]
fn the_fetches_that_are_not_settled_are_told_apart() {
    let fetch = ScrollFetch::FetchChannel(FetchChannel {
        height: Height { revision_number: 0, revision_height: 1 },
        path: ChannelEndPath { port_id: "transfer".to_string(), channel_id: "channel-0".to_string() },
    });
    assert!(matches!(fetch, ScrollFetch::FetchChannel(_)));
}

fn send_packet(connection_id: &str) -> IbcEvent {
    IbcEvent::SendPacket(SendPacket {
        packet: PacketInfo {
            sequence: 1,
            src_port: "transfer".to_string(),
            src_channel: "channel-0".to_string(),
            dst_port: "transfer".to_string(),
            dst_channel: "channel-1".to_string(),
            channel_ordering: Order::Unordered,
            timeout_height: Height { revision_number: 0, revision_height: 0 },
            timeout_timestamp: 9,
        },
        packet_data: vec![1, 2],
        connection_id: connection_id.to_string(),
    })
}

fn channel(hops: &[&str]) -> Identified<Data> {
    on_scroll(Data::Scroll(ScrollData::Channel(ChannelData(ChannelEnd {
        state: HandshakeState::Open,
        ordering: Order::Unordered,
        counterparty_port_id: "transfer".to_string(),
        counterparty_channel_id: "channel-1".to_string(),
        connection_hops: hops.iter().map(|h| h.to_string()).collect(),
        version: "ucs01-0".to_string(),
    }))))
}

fn connection(client_id: &str) -> Identified<Data> {
    on_scroll(Data::Scroll(ScrollData::Connection(ConnectionData(ConnectionEnd {
        client_id: client_id.to_string(),
        counterparty_client_id: "08-wasm-1".to_string(),
        counterparty_connection_id: "connection-9".to_string(),
        state: HandshakeState::Open,
    }))))
}

fn seen(event: IbcEvent) -> Msg {
    QueueMsg::Data(on_scroll(Data::ChainEvent(ChainEvent {
        tx_hash: H256([4; 32]),
        height: Height { revision_number: 0, revision_height: 20 },
        event,
    })))
}

#[test]
fn an_event_is_completed_with_its_channel() {
    let receiver = |event: IbcEvent| {
        on_scroll(ScrollAggregate::AggregateWithChannel(AggregateWithChannel {
            event,
            event_height: Height { revision_number: 0, revision_height: 20 },
            tx_hash: H256([4; 32]),
        }))
    };
    let (term, rest) = do_aggregate(
        receiver(send_packet("")),
        VecDeque::from_iter([connection("x"), channel(&["connection-3", "connection-4"])]),
    );
    assert_eq!(term, seen(send_packet("connection-3")));
    assert_eq!(rest, VecDeque::from_iter([connection("x")]));

    let (term, rest) =
        do_aggregate(receiver(send_packet("unknown")), VecDeque::from_iter([channel(&[])]));
    assert_eq!(term, seen(send_packet("unknown")));
    assert_eq!(rest, VecDeque::new());

    let evidence = IbcEvent::SubmitEvidence(SubmitEvidence { evidence_hash: "e".to_string() });
    let (term, _) =
        do_aggregate(receiver(evidence.clone()), VecDeque::from_iter([channel(&["connection-3"])]));
    assert_eq!(term, seen(evidence));
}

#[test]
fn an_event_is_completed_with_its_connection() {
    let init = |client_id: &str, counterparty_client_id: &str| {
        IbcEvent::ConnectionOpenInit(ConnectionOpenInit {
            connection_id: "connection-0".to_string(),
            client_id: client_id.to_string(),
            counterparty_client_id: counterparty_client_id.to_string(),
        })
    };
    let receiver = on_scroll(ScrollAggregate::AggregateWithConnection(AggregateWithConnection {
        event: init("", ""),
        event_height: Height { revision_number: 0, revision_height: 20 },
        tx_hash: H256([4; 32]),
    }));
    let (term, rest) = do_aggregate(
        receiver,
        VecDeque::from_iter([channel(&["connection-3"]), connection("cometbls-2"), connection("y")]),
    );
    assert_eq!(term, seen(init("cometbls-2", "08-wasm-1")));
    assert_eq!(rest, VecDeque::from_iter([channel(&["connection-3"]), connection("y")]));
    assert_eq!(
        send_packet("c").with_clients("a".to_string(), "b".to_string()),
        send_packet("c")
    );
    assert_eq!(
        init("a", "b").with_connection("connection-7".to_string()),
        init("a", "b")
    );
}
