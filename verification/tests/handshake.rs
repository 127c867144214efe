use std::collections::VecDeque;

use voyager_core::data::{ClientState, Data};
use voyager_core::events::{
    ConnectionOpenAck, ConnectionOpenConfirm, ConnectionOpenInit, ConnectionOpenTry,
    IbcEvent as ChainEvent,
};
use voyager_core::hash::H256;
use voyager_core::height::Height;
use voyager_core::ibc_path::ClientStatePath;
use voyager_core::queue_msg::reduce::{reduce, resume, with_data, Frame, Leaf, Reduction};
use voyager_core::queue_msg::QueueMsg;
use voyager_core::relay_message::aggregate::{
    Aggregate, AggregateConnectionOpenAck, AggregateConnectionOpenConfirm,
    AggregateConnectionOpenTry, AggregateMsgAfterUpdate, AggregateWaitForTrustedHeight,
};
use voyager_core::relay_message::event::{Event, IbcEvent};
use voyager_core::relay_message::fetch::{Fetch, FetchLatestClientState};
use voyager_core::relay_message::wait::{Wait, WaitForBlock};
use voyager_core::relay_message::{Identified, RelayerMsgTypes};

type Msg = QueueMsg<RelayerMsgTypes>;

fn at() -> Height {
    Height { revision_number: 1, revision_height: 100 }
}

fn on<T>(chain: &str, t: T) -> Identified<T> {
    Identified { chain_id: chain.to_string(), t }
}

fn seen(chain: &str, event: ChainEvent) -> Msg {
    Event::Ibc(IbcEvent { tx_hash: H256([1; 32]), height: at(), event }).handle(chain.to_string())
}

fn perform(term: Msg) -> (Leaf<RelayerMsgTypes>, Vec<Frame<RelayerMsgTypes>>) {
    match reduce(term, 0) {
        Reduction::Perform { leaf, context } => (leaf, context),
        other => panic!("unexpected {other:?}"),
    }
}

/// Runs the reaction to a step of the connection handshake on `chain` up
/// to the point where the next message is due, and returns the receiver
/// that is to send it.
fn run_until_the_next_message(chain: &str, term: Msg, client_id: &str, cp: &str) -> Aggregate {
    // the latest state of the client is read
    let (leaf, context) = perform(term);
    assert_eq!(
        leaf,
        Leaf::Fetch(on(
            chain,
            Fetch::LatestClientState(FetchLatestClientState {
                path: ClientStatePath { client_id: client_id.to_string() }
            })
        ))
    );
    let client_state = on(
        chain,
        Data::ClientState(ClientState { chain_id: "other".to_string(), latest_height: at() }),
    );
    let term = resume(context, QueueMsg::Data(client_state.clone()));

    // with it, the counterparty's client is brought up to the event's height
    let (leaf, context) = perform(term);
    assert_eq!(
        leaf,
        Leaf::Fire {
            receiver: on(
                chain,
                Aggregate::WaitForTrustedHeight(AggregateWaitForTrustedHeight {
                    wait_for: at(),
                    client_id: client_id.to_string(),
                    counterparty_client_id: cp.to_string(),
                })
            ),
            data: VecDeque::from_iter([client_state.clone()]),
        }
    );
    // the update ends by handing on the state of the client that is now trusted
    let term = resume(context, QueueMsg::Data(client_state.clone()));

    // and only then the next message of the handshake is due
    let (leaf, context) = perform(term);
    assert_eq!(context, vec![Frame::Fired(VecDeque::new())]);
    match leaf {
        Leaf::Fire { receiver, data } => {
            assert_eq!(data, VecDeque::from_iter([client_state]));
            assert_eq!(receiver.chain_id, chain);
            receiver.t
        }
        other => panic!("unexpected {other:?}"),
    }
}

#[test]
fn connection_handshake_completes() {
    // chain A sees the init
    let init = ConnectionOpenInit {
        connection_id: "connection-0".to_string(),
        client_id: "07-xy-0".to_string(),
        counterparty_client_id: "07-xy-0".to_string(),
    };
    let term = seen("chain-a", ChainEvent::ConnectionOpenInit(init.clone()));

    // first the block of the event must be there
    let (leaf, context) = perform(term);
    assert_eq!(leaf, Leaf::Wait(on("chain-a", Wait::Block(WaitForBlock { height: at() }))));
    let term = resume(context, QueueMsg::Noop);
    let term = match term {
        QueueMsg::Sequence(mut rest) => {
            assert_eq!(rest.len(), 1);
            rest.remove(0)
        }
        other => panic!("unexpected {other:?}"),
    };
    assert_eq!(
        run_until_the_next_message("chain-a", term, "07-xy-0", "07-xy-0"),
        Aggregate::MsgAfterUpdate(AggregateMsgAfterUpdate::ConnectionOpenTry(
            AggregateConnectionOpenTry { event_height: at(), event: init }
        ))
    );

    // chain B sees the try that was sent to it
    let try_ = ConnectionOpenTry {
        connection_id: "connection-4".to_string(),
        client_id: "07-xy-0".to_string(),
        counterparty_client_id: "07-xy-0".to_string(),
        counterparty_connection_id: "connection-0".to_string(),
    };
    let term = seen("chain-b", ChainEvent::ConnectionOpenTry(try_.clone()));
    assert_eq!(
        run_until_the_next_message("chain-b", term, "07-xy-0", "07-xy-0"),
        Aggregate::MsgAfterUpdate(AggregateMsgAfterUpdate::ConnectionOpenAck(
            AggregateConnectionOpenAck { event_height: at(), event: try_ }
        ))
    );

    // chain A sees the ack
    let ack = ConnectionOpenAck {
        connection_id: "connection-0".to_string(),
        client_id: "07-xy-0".to_string(),
        counterparty_client_id: "07-xy-0".to_string(),
        counterparty_connection_id: "connection-4".to_string(),
    };
    let term = seen("chain-a", ChainEvent::ConnectionOpenAck(ack.clone()));
    assert_eq!(
        run_until_the_next_message("chain-a", term, "07-xy-0", "07-xy-0"),
        Aggregate::MsgAfterUpdate(AggregateMsgAfterUpdate::ConnectionOpenConfirm(
            AggregateConnectionOpenConfirm { event_height: at(), event: ack }
        ))
    );

    // chain B sees the confirm: the connection is open, nothing is left to do
    let confirm = ConnectionOpenConfirm {
        connection_id: "connection-4".to_string(),
        client_id: "07-xy-0".to_string(),
        counterparty_client_id: "07-xy-0".to_string(),
        counterparty_connection_id: "connection-0".to_string(),
    };
    assert_eq!(seen("chain-b", ChainEvent::ConnectionOpenConfirm(confirm)), QueueMsg::Noop);
}

#[test]
fn a_waiting_aggregate_goes_on_when_its_data_comes() {
    let receiver = on(
        "chain-a",
        Aggregate::WaitForTrustedHeight(AggregateWaitForTrustedHeight {
            wait_for: at(),
            client_id: "07-xy-0".to_string(),
            counterparty_client_id: "07-xy-1".to_string(),
        }),
    );
    let term: Msg =
        QueueMsg::Aggregate { queue: vec![], data: VecDeque::new(), receiver: receiver.clone() };
    let (leaf, context) = perform(term);
    let (receiver, data) = match leaf {
        Leaf::AwaitData { receiver, data } => (receiver, data),
        other => panic!("unexpected {other:?}"),
    };
    let client_state = on(
        "chain-a",
        Data::ClientState(ClientState { chain_id: "other".to_string(), latest_height: at() }),
    );
    let term = resume(context, with_data(receiver.clone(), data, client_state.clone()));
    let (leaf, _) = perform(term);
    assert_eq!(leaf, Leaf::Fire { receiver, data: VecDeque::from_iter([client_state]) });
}
