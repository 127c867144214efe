use std::collections::VecDeque;

use voyager_core::events;
use voyager_core::hash::H256;
use voyager_core::height::Height;
use voyager_core::ibc_path::{ChannelEndPath, ClientStatePath, ConnectionPath, Path};
use voyager_core::queue_msg::QueueMsg;
use voyager_core::relay_message::aggregate::{
    mk_aggregate_wait_for_update, Aggregate, AggregateChannelHandshakeUpdateClient,
    AggregateConnectionFetchFromChannelEnd, AggregateConnectionOpenAck,
    AggregateConnectionOpenConfirm, AggregateConnectionOpenTry, AggregateMsgAfterUpdate,
    AggregatePacketUpdateClient, AggregateUpdateClientFromClientId,
    AggregateWaitForTrustedHeight, ChannelHandshakeEvent, PacketEvent,
};
use voyager_core::relay_message::event::{Command, Event, IbcEvent};
use voyager_core::relay_message::fetch::{Fetch, FetchLatestClientState, FetchState};
use voyager_core::relay_message::wait::{Wait, WaitForBlock};
use voyager_core::relay_message::{Identified, RelayerMsgTypes};

type Msg = QueueMsg<RelayerMsgTypes>;

fn h() -> Height {
    Height { revision_number: 1, revision_height: 100 }
}

fn on_a<T>(t: T) -> Identified<T> {
    Identified { chain_id: "chain-a".to_string(), t }
}

fn ibc(event: events::IbcEvent) -> Event {
    Event::Ibc(IbcEvent { tx_hash: H256([7; 32]), height: h(), event })
}

fn wait_for_update(client_id: &str, counterparty_client_id: &str) -> Msg {
    QueueMsg::Aggregate {
        queue: vec![QueueMsg::Fetch(on_a(Fetch::LatestClientState(FetchLatestClientState {
            path: ClientStatePath { client_id: client_id.to_string() },
        })))],
        data: VecDeque::new(),
        receiver: on_a(Aggregate::WaitForTrustedHeight(AggregateWaitForTrustedHeight {
            wait_for: h(),
            client_id: client_id.to_string(),
            counterparty_client_id: counterparty_client_id.to_string(),
        })),
    }
}

fn after_update(update: Msg, next: AggregateMsgAfterUpdate) -> Msg {
    QueueMsg::Aggregate {
        queue: vec![update],
        data: VecDeque::new(),
        receiver: on_a(Aggregate::MsgAfterUpdate(next)),
    }
}

fn packet_info() -> events::PacketInfo {
    events::PacketInfo {
        sequence: 5,
        src_port: "transfer".to_string(),
        src_channel: "channel-0".to_string(),
        dst_port: "transfer".to_string(),
        dst_channel: "channel-9".to_string(),
        channel_ordering: events::Order::Unordered,
        timeout_height: Height { revision_number: 1, revision_height: 900 },
        timeout_timestamp: 0,
    }
}

#[test]
fn observational_events_lower_to_noop() {
    let observed = vec![
        events::IbcEvent::CreateClient(events::CreateClient {
            client_id: "07-xy-0".to_string(),
            client_type: "07-xy".to_string(),
            consensus_height: h(),
        }),
        events::IbcEvent::UpdateClient(events::UpdateClient {
            client_id: "07-xy-0".to_string(),
            client_type: "07-xy".to_string(),
            consensus_heights: vec![h()],
        }),
        events::IbcEvent::ConnectionOpenConfirm(events::ConnectionOpenConfirm {
            connection_id: "connection-0".to_string(),
            client_id: "07-xy-0".to_string(),
            counterparty_client_id: "07-xy-1".to_string(),
            counterparty_connection_id: "connection-4".to_string(),
        }),
        events::IbcEvent::ChannelOpenConfirm(events::ChannelOpenConfirm {
            port_id: "transfer".to_string(),
            channel_id: "channel-0".to_string(),
            counterparty_port_id: "transfer".to_string(),
            counterparty_channel_id: "channel-9".to_string(),
            connection_id: "connection-0".to_string(),
        }),
        events::IbcEvent::AcknowledgePacket(events::AcknowledgePacket {
            packet: packet_info(),
            connection_id: "connection-0".to_string(),
        }),
        events::IbcEvent::TimeoutPacket(events::TimeoutPacket {
            packet: packet_info(),
            connection_id: "connection-0".to_string(),
        }),
        events::IbcEvent::WriteAcknowledgement(events::WriteAcknowledgement {
            packet: packet_info(),
            packet_data: vec![1],
            packet_ack: vec![2],
            connection_id: "connection-0".to_string(),
        }),
    ];
    for event in observed {
        assert_eq!(ibc(event).handle("chain-a".to_string()), QueueMsg::Noop);
    }
}

#[test]
fn connection_open_init_waits_for_the_block_then_asks_for_the_try() {
    let init = events::ConnectionOpenInit {
        connection_id: "connection-0".to_string(),
        client_id: "07-xy-0".to_string(),
        counterparty_client_id: "07-xy-0".to_string(),
    };
    let expected: Msg = QueueMsg::Sequence(vec![
        QueueMsg::Wait(on_a(Wait::Block(WaitForBlock { height: h() }))),
        after_update(
            wait_for_update("07-xy-0", "07-xy-0"),
            AggregateMsgAfterUpdate::ConnectionOpenTry(AggregateConnectionOpenTry {
                event_height: h(),
                event: init.clone(),
            }),
        ),
    ]);
    assert_eq!(
        ibc(events::IbcEvent::ConnectionOpenInit(init)).handle("chain-a".to_string()),
        expected
    );
}

#[test]
fn connection_open_try_and_ack_ask_for_the_next_step() {
    let try_ = events::ConnectionOpenTry {
        connection_id: "connection-4".to_string(),
        client_id: "07-xy-1".to_string(),
        counterparty_client_id: "07-xy-0".to_string(),
        counterparty_connection_id: "connection-0".to_string(),
    };
    assert_eq!(
        ibc(events::IbcEvent::ConnectionOpenTry(try_.clone())).handle("chain-a".to_string()),
        after_update(
            wait_for_update("07-xy-1", "07-xy-0"),
            AggregateMsgAfterUpdate::ConnectionOpenAck(AggregateConnectionOpenAck {
                event_height: h(),
                event: try_,
            }),
        )
    );

    let ack = events::ConnectionOpenAck {
        connection_id: "connection-0".to_string(),
        client_id: "07-xy-0".to_string(),
        counterparty_client_id: "07-xy-1".to_string(),
        counterparty_connection_id: "connection-4".to_string(),
    };
    assert_eq!(
        ibc(events::IbcEvent::ConnectionOpenAck(ack.clone())).handle("chain-a".to_string()),
        after_update(
            wait_for_update("07-xy-0", "07-xy-1"),
            AggregateMsgAfterUpdate::ConnectionOpenConfirm(AggregateConnectionOpenConfirm {
                event_height: h(),
                event: ack,
            }),
        )
    );
}

fn channel_step(port_id: &str, channel_id: &str, step: ChannelHandshakeEvent) -> Msg {
    QueueMsg::Aggregate {
        queue: vec![QueueMsg::Aggregate {
            queue: vec![QueueMsg::Fetch(on_a(Fetch::State(FetchState {
                at: h(),
                path: Path::ChannelEnd(ChannelEndPath {
                    port_id: port_id.to_string(),
                    channel_id: channel_id.to_string(),
                }),
            })))],
            data: VecDeque::new(),
            receiver: on_a(Aggregate::ConnectionFetchFromChannelEnd(
                AggregateConnectionFetchFromChannelEnd { at: h() },
            )),
        }],
        data: VecDeque::new(),
        receiver: on_a(Aggregate::ChannelHandshakeUpdateClient(
            AggregateChannelHandshakeUpdateClient {
                update_to: h(),
                event_height: h(),
                channel_handshake_event: step,
            },
        )),
    }
}

#[test]
fn channel_handshake_steps_ask_for_the_channel_end() {
    let init = events::ChannelOpenInit {
        port_id: "transfer".to_string(),
        channel_id: "channel-0".to_string(),
        counterparty_port_id: "transfer".to_string(),
        connection_id: "connection-0".to_string(),
        version: "ucs01-0".to_string(),
    };
    assert_eq!(
        ibc(events::IbcEvent::ChannelOpenInit(init.clone())).handle("chain-a".to_string()),
        channel_step("transfer", "channel-0", ChannelHandshakeEvent::Init(init))
    );

    let try_ = events::ChannelOpenTry {
        port_id: "wasm.xyz".to_string(),
        channel_id: "channel-3".to_string(),
        counterparty_port_id: "transfer".to_string(),
        counterparty_channel_id: "channel-0".to_string(),
        connection_id: "connection-4".to_string(),
        version: "ucs01-0".to_string(),
    };
    assert_eq!(
        ibc(events::IbcEvent::ChannelOpenTry(try_.clone())).handle("chain-a".to_string()),
        channel_step("wasm.xyz", "channel-3", ChannelHandshakeEvent::Try(try_))
    );

    let ack = events::ChannelOpenAck {
        port_id: "transfer".to_string(),
        channel_id: "channel-0".to_string(),
        counterparty_port_id: "wasm.xyz".to_string(),
        counterparty_channel_id: "channel-3".to_string(),
        connection_id: "connection-0".to_string(),
    };
    assert_eq!(
        ibc(events::IbcEvent::ChannelOpenAck(ack.clone())).handle("chain-a".to_string()),
        channel_step("transfer", "channel-0", ChannelHandshakeEvent::Ack(ack))
    );
}

fn packet_step(connection_id: &str, packet_event: PacketEvent) -> Msg {
    QueueMsg::Aggregate {
        queue: vec![QueueMsg::Fetch(on_a(Fetch::State(FetchState {
            at: h(),
            path: Path::Connection(ConnectionPath { connection_id: connection_id.to_string() }),
        })))],
        data: VecDeque::new(),
        receiver: on_a(Aggregate::PacketUpdateClient(AggregatePacketUpdateClient {
            update_to: h(),
            event_height: h(),
            tx_hash: H256([7; 32]),
            packet_event,
        })),
    }
}

#[test]
fn packets_ask_for_the_connection() {
    let send = events::SendPacket {
        packet: packet_info(),
        packet_data: vec![1, 2, 3],
        connection_id: "connection-0".to_string(),
    };
    assert_eq!(
        ibc(events::IbcEvent::SendPacket(send.clone())).handle("chain-a".to_string()),
        packet_step("connection-0", PacketEvent::Send(send))
    );
    let recv = events::RecvPacket {
        packet: packet_info(),
        packet_data: vec![1, 2, 3],
        connection_id: "connection-4".to_string(),
    };
    assert_eq!(
        ibc(events::IbcEvent::RecvPacket(recv.clone())).handle("chain-a".to_string()),
        packet_step("connection-4", PacketEvent::Recv(recv))
    );
}

#[test]
fn update_client_command_asks_for_the_client_state() {
    let command = Command::UpdateClient {
        client_id: "07-xy-0".to_string(),
        counterparty_client_id: "07-xy-1".to_string(),
    };
    let expected: Msg = QueueMsg::Aggregate {
        queue: vec![QueueMsg::Fetch(on_a(Fetch::LatestClientState(FetchLatestClientState {
            path: ClientStatePath { client_id: "07-xy-0".to_string() },
        })))],
        data: VecDeque::new(),
        receiver: on_a(Aggregate::UpdateClientFromClientId(AggregateUpdateClientFromClientId {
            client_id: "07-xy-0".to_string(),
            counterparty_client_id: "07-xy-1".to_string(),
        })),
    };
    assert_eq!(Event::Command(command).handle("chain-a".to_string()), expected);
}

#[test]
fn mk_aggregate_wait_for_update_fetches_the_latest_client_state() {
    assert_eq!(
        mk_aggregate_wait_for_update(
            "chain-a".to_string(),
            "07-xy-0".to_string(),
            "07-xy-1".to_string(),
            h()
        ),
        wait_for_update("07-xy-0", "07-xy-1")
    );
}

#[test]
fn events_show_by_name() {
    let command = Command::UpdateClient {
        client_id: "07-xy-0".to_string(),
        counterparty_client_id: "07-xy-1".to_string(),
    };
    assert_eq!(command.to_text(), "Command::UpdateClient(07-xy-0, 07-xy-1)");
    assert_eq!(Event::Command(command).to_text(), "Command::UpdateClient(07-xy-0, 07-xy-1)");
    let send = events::IbcEvent::SendPacket(events::SendPacket {
        packet: packet_info(),
        packet_data: vec![],
        connection_id: "connection-0".to_string(),
    });
    assert_eq!(send.name(), "send_packet");
    assert_eq!(ibc(send.clone()).to_text(), "Ibc");
    assert_eq!(
        IbcEvent { tx_hash: H256([0; 32]), height: h(), event: send }.to_text(),
        "send_packet"
    );
}
