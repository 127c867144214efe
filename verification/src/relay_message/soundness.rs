//! What holds of every term that the relay queue builds from an event.

use crate::data::Data;
use crate::height::Height;
use crate::queue_msg::aggregation::{join, Receiver};
use crate::queue_msg::QueueTerm;
use crate::events;
use crate::hash::H256;
use crate::relay_message::aggregate::{
    wait_for_update_term, Aggregate, AggregateConnectionOpenAck, AggregateConnectionOpenConfirm,
    AggregateConnectionOpenTry, AggregateMsgAfterUpdate, ChannelHandshakeEvent, PacketEvent,
};
use crate::relay_message::event::{
    channel_step_term, connection_step_term, packet_term, Command, Event, IbcEvent,
};
use crate::relay_message::fetch::Fetch;
use crate::relay_message::wait::Wait;
use crate::relay_message::{Identified, RelayerMsgTypes};
use vstd::prelude::*;

verus! {

/// Whether every leaf and every receiver of `term` is about the chain
/// `chain_id`.
pub open spec fn on_chain(term: QueueTerm<RelayerMsgTypes>, chain_id: String) -> bool
    decreases term,
{
    match term {
        QueueTerm::Noop => true,
        QueueTerm::Event(e) => e.chain_id == chain_id,
        QueueTerm::Data(d) => d.chain_id == chain_id,
        QueueTerm::Fetch(f) => f.chain_id == chain_id,
        QueueTerm::Effect(e) => e.chain_id == chain_id,
        QueueTerm::Wait(w) => w.chain_id == chain_id,
        QueueTerm::Aggregate { queue, data, receiver } => {
            &&& receiver.chain_id == chain_id
            &&& forall|i: int| 0 <= i < queue.len() ==> on_chain(#[trigger] queue[i], chain_id)
            &&& forall|i: int| 0 <= i < data.len() ==> (#[trigger] data[i]).chain_id == chain_id
        },
        QueueTerm::Sequence(msgs) => forall|i: int|
            0 <= i < msgs.len() ==> on_chain(#[trigger] msgs[i], chain_id),
        QueueTerm::Concurrent(msgs) => forall|i: int|
            0 <= i < msgs.len() ==> on_chain(#[trigger] msgs[i], chain_id),
        QueueTerm::Repeat(msg) => on_chain(*msg, chain_id),
        QueueTerm::Timeout { msg, .. } => on_chain(*msg, chain_id),
    }
}

/// Whether a fetch reads as of `height` or as of the latest height.
pub open spec fn fetch_at(fetch: Fetch, height: Height) -> bool {
    match fetch {
        Fetch::State(f) => f.at == height,
        Fetch::LatestClientState(_) => true,
    }
}

/// Whether a wait is for `height`.
pub open spec fn wait_at(wait: Wait, height: Height) -> bool {
    match wait {
        Wait::Block(w) => w.height == height,
        Wait::TrustedHeight(w) => w.height == height,
    }
}

/// Whether every height that a receiver names is `height`.
pub open spec fn receiver_at(receiver: Aggregate, height: Height) -> bool {
    match receiver {
        Aggregate::MsgAfterUpdate(AggregateMsgAfterUpdate::ConnectionOpenTry(r)) => r.event_height
            == height,
        Aggregate::MsgAfterUpdate(AggregateMsgAfterUpdate::ConnectionOpenAck(r)) => r.event_height
            == height,
        Aggregate::MsgAfterUpdate(AggregateMsgAfterUpdate::ConnectionOpenConfirm(r)) =>
            r.event_height == height,
        Aggregate::ChannelHandshakeUpdateClient(r) => r.update_to == height && r.event_height
            == height,
        Aggregate::PacketUpdateClient(r) => r.update_to == height && r.event_height == height,
        Aggregate::ConnectionFetchFromChannelEnd(r) => r.at == height,
        Aggregate::UpdateClientFromClientId(_) => true,
        Aggregate::WaitForTrustedHeight(r) => r.wait_for == height,
    }
}

/// Whether no fetch, wait or receiver of `term` names another height than
/// `height`, and whether `term` holds no event, data or effect.
pub open spec fn cites_only(term: QueueTerm<RelayerMsgTypes>, height: Height) -> bool
    decreases term,
{
    match term {
        QueueTerm::Noop => true,
        QueueTerm::Fetch(f) => fetch_at(f.t, height),
        QueueTerm::Wait(w) => wait_at(w.t, height),
        QueueTerm::Aggregate { queue, data, receiver } => {
            &&& receiver_at(receiver.t, height)
            &&& data.len() == 0
            &&& forall|i: int| 0 <= i < queue.len() ==> cites_only(#[trigger] queue[i], height)
        },
        QueueTerm::Sequence(msgs) => forall|i: int|
            0 <= i < msgs.len() ==> cites_only(#[trigger] msgs[i], height),
        QueueTerm::Concurrent(msgs) => forall|i: int|
            0 <= i < msgs.len() ==> cites_only(#[trigger] msgs[i], height),
        QueueTerm::Repeat(msg) => cites_only(*msg, height),
        QueueTerm::Timeout { msg, .. } => cites_only(*msg, height),
        _ => false,
    }
}

/// Whether every aggregate of `term` can go on: it has something to run,
/// or its data holds what its receiver asks for.
pub open spec fn can_go_on(term: QueueTerm<RelayerMsgTypes>) -> bool
    decreases term,
{
    match term {
        QueueTerm::Aggregate { queue, data, receiver } => {
            &&& queue.len() > 0 || join(data, receiver.expects()) is Some
            &&& forall|i: int| 0 <= i < queue.len() ==> can_go_on(#[trigger] queue[i])
        },
        QueueTerm::Sequence(msgs) => forall|i: int|
            0 <= i < msgs.len() ==> can_go_on(#[trigger] msgs[i]),
        QueueTerm::Concurrent(msgs) => forall|i: int|
            0 <= i < msgs.len() ==> can_go_on(#[trigger] msgs[i]),
        QueueTerm::Repeat(msg) => can_go_on(*msg),
        QueueTerm::Timeout { msg, .. } => can_go_on(*msg),
        _ => true,
    }
}

/// Whether all three hold of `term`.
pub open spec fn sound(term: QueueTerm<RelayerMsgTypes>, chain_id: String, height: Height) -> bool {
    on_chain(term, chain_id) && cites_only(term, height) && can_go_on(term)
}

/// An aggregate that runs one sound term, holds no data, and has a receiver
/// on the chain and at the height, is sound.
proof fn lemma_aggregate_of_one(
    inner: QueueTerm<RelayerMsgTypes>,
    receiver: Identified<Aggregate>,
    chain_id: String,
    height: Height,
)
    requires
        sound(inner, chain_id, height),
        receiver.chain_id == chain_id,
        receiver_at(receiver.t, height),
    ensures
        sound(
            QueueTerm::Aggregate { queue: seq![inner], data: Seq::<Identified<Data>>::empty(), receiver },
            chain_id,
            height,
        ),
{
    let queue = seq![inner];
    assert forall|i: int| 0 <= i < queue.len() implies sound(
        #[trigger] queue[i],
        chain_id,
        height,
    ) by {
        assert(queue[i] == inner);
    }
}

/// Whether `term` is a fetch on the chain and at the height, or, with
/// `levels` to go, an aggregate without data that runs exactly one such
/// term and has a receiver on the chain and at the height.
spec fn shaped(
    term: QueueTerm<RelayerMsgTypes>,
    chain_id: String,
    height: Height,
    levels: nat,
) -> bool
    decreases levels,
{
    match term {
        QueueTerm::Fetch(f) => f.chain_id == chain_id && fetch_at(f.t, height),
        QueueTerm::Aggregate { queue, data, receiver } => {
            &&& levels > 0
            &&& queue.len() == 1
            &&& data.len() == 0
            &&& receiver.chain_id == chain_id
            &&& receiver_at(receiver.t, height)
            &&& shaped(queue[0], chain_id, height, (levels - 1) as nat)
        },
        _ => false,
    }
}

/// A term of that shape is sound.
proof fn lemma_shaped_is_sound(
    term: QueueTerm<RelayerMsgTypes>,
    chain_id: String,
    height: Height,
    levels: nat,
)
    requires
        shaped(term, chain_id, height, levels),
    ensures
        sound(term, chain_id, height),
    decreases levels,
{
    if let QueueTerm::Aggregate { queue, data, receiver } = term {
        let inner = queue[0];
        lemma_shaped_is_sound(inner, chain_id, height, (levels - 1) as nat);
        assert(queue =~= seq![inner]);
        assert(data =~= Seq::<Identified<Data>>::empty());
        lemma_aggregate_of_one(inner, receiver, chain_id, height);
    }
}

/// The term that brings a light client up to date has that shape.
proof fn lemma_wait_for_update_shaped(
    chain_id: String,
    client_id: String,
    counterparty_client_id: String,
    height: Height,
)
    ensures
        shaped(
            wait_for_update_term(chain_id, client_id, counterparty_client_id, height),
            chain_id,
            height,
            1,
        ),
{
    let term = wait_for_update_term(chain_id, client_id, counterparty_client_id, height);
    assert(shaped(term->queue[0], chain_id, height, 0));
}

/// The reaction to a step of the connection handshake has that shape.
proof fn lemma_connection_step_shaped(
    chain_id: String,
    client_id: String,
    counterparty_client_id: String,
    height: Height,
    next: AggregateMsgAfterUpdate,
)
    requires
        receiver_at(Aggregate::MsgAfterUpdate(next), height),
    ensures
        shaped(
            connection_step_term(chain_id, client_id, counterparty_client_id, height, next),
            chain_id,
            height,
            2,
        ),
{
    lemma_wait_for_update_shaped(chain_id, client_id, counterparty_client_id, height);
    let term = connection_step_term(chain_id, client_id, counterparty_client_id, height, next);
    assert(term->queue[0] == wait_for_update_term(
        chain_id,
        client_id,
        counterparty_client_id,
        height,
    ));
}

/// The reaction to a step of the channel handshake has that shape.
proof fn lemma_channel_step_shaped(
    chain_id: String,
    port_id: String,
    channel_id: String,
    height: Height,
    step: ChannelHandshakeEvent,
)
    ensures
        shaped(channel_step_term(chain_id, port_id, channel_id, height, step), chain_id, height, 2),
{
    let term = channel_step_term(chain_id, port_id, channel_id, height, step);
    let inner = term->queue[0];
    assert(shaped(inner->queue[0], chain_id, height, 0));
    assert(shaped(inner, chain_id, height, 1));
}

/// The reaction to a packet has that shape.
proof fn lemma_packet_shaped(
    chain_id: String,
    connection_id: String,
    height: Height,
    tx_hash: H256,
    packet_event: PacketEvent,
)
    ensures
        shaped(
            packet_term(chain_id, connection_id, height, tx_hash, packet_event),
            chain_id,
            height,
            1,
        ),
{
    let term = packet_term(chain_id, connection_id, height, tx_hash, packet_event);
    assert(shaped(term->queue[0], chain_id, height, 0));
}

/// What the relay queue builds from an event of a chain is about that chain
/// alone, names no height but that of the event, and holds only aggregates
/// that have something to run.
pub proof fn lemma_lowering_is_sound(event: IbcEvent, chain_id: String)
    ensures
        sound(event.lowering(chain_id), chain_id, event.height),
{
    let h = event.height;
    let term = event.lowering(chain_id);
    match event.event {
        events::IbcEvent::ConnectionOpenInit(init) => {
            let next = AggregateMsgAfterUpdate::ConnectionOpenTry(
                AggregateConnectionOpenTry { event_height: h, event: init },
            );
            let step = connection_step_term(
                chain_id,
                init.client_id,
                init.counterparty_client_id,
                h,
                next,
            );
            lemma_connection_step_shaped(
                chain_id,
                init.client_id,
                init.counterparty_client_id,
                h,
                next,
            );
            lemma_shaped_is_sound(step, chain_id, h, 2);
            let msgs = term->Sequence_0;
            assert forall|i: int| 0 <= i < msgs.len() implies sound(#[trigger] msgs[i], chain_id, h) by {
                if i == 1 {
                    assert(msgs[i] == step);
                }
            }
        },
        events::IbcEvent::ConnectionOpenTry(try_) => {
            let next = AggregateMsgAfterUpdate::ConnectionOpenAck(
                AggregateConnectionOpenAck { event_height: h, event: try_ },
            );
            lemma_connection_step_shaped(
                chain_id,
                try_.client_id,
                try_.counterparty_client_id,
                h,
                next,
            );
            lemma_shaped_is_sound(term, chain_id, h, 2);
        },
        events::IbcEvent::ConnectionOpenAck(ack) => {
            let next = AggregateMsgAfterUpdate::ConnectionOpenConfirm(
                AggregateConnectionOpenConfirm { event_height: h, event: ack },
            );
            lemma_connection_step_shaped(
                chain_id,
                ack.client_id,
                ack.counterparty_client_id,
                h,
                next,
            );
            lemma_shaped_is_sound(term, chain_id, h, 2);
        },
        events::IbcEvent::ChannelOpenInit(init) => {
            lemma_channel_step_shaped(
                chain_id,
                init.port_id,
                init.channel_id,
                h,
                ChannelHandshakeEvent::Init(init),
            );
            lemma_shaped_is_sound(term, chain_id, h, 2);
        },
        events::IbcEvent::ChannelOpenTry(try_) => {
            lemma_channel_step_shaped(
                chain_id,
                try_.port_id,
                try_.channel_id,
                h,
                ChannelHandshakeEvent::Try(try_),
            );
            lemma_shaped_is_sound(term, chain_id, h, 2);
        },
        events::IbcEvent::ChannelOpenAck(ack) => {
            lemma_channel_step_shaped(
                chain_id,
                ack.port_id,
                ack.channel_id,
                h,
                ChannelHandshakeEvent::Ack(ack),
            );
            lemma_shaped_is_sound(term, chain_id, h, 2);
        },
        events::IbcEvent::RecvPacket(packet) => {
            lemma_packet_shaped(
                chain_id,
                packet.connection_id,
                h,
                event.tx_hash,
                PacketEvent::Recv(packet),
            );
            lemma_shaped_is_sound(term, chain_id, h, 1);
        },
        events::IbcEvent::SendPacket(packet) => {
            lemma_packet_shaped(
                chain_id,
                packet.connection_id,
                h,
                event.tx_hash,
                PacketEvent::Send(packet),
            );
            lemma_shaped_is_sound(term, chain_id, h, 1);
        },
        _ => {},
    }
}

/// What the relay queue builds from a command is about the chain it was
/// given for, and holds only aggregates that have something to run.
pub proof fn lemma_command_lowering_is_sound(command: Command, chain_id: String)
    ensures
        on_chain(Event::Command(command).lowering(chain_id), chain_id),
        can_go_on(Event::Command(command).lowering(chain_id)),
{
    let term = command.lowering(chain_id);
    let queue = term->queue;
    assert forall|i: int| 0 <= i < queue.len() implies on_chain(#[trigger] queue[i], chain_id)
        && can_go_on(queue[i]) by {
        assert(queue[i] == queue[0]);
    }
}

} // verus!
