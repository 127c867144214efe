//! The reactions of the relay queue: what each event of a chain asks the
//! relayer to do next.

use crate::events;
use crate::hash::H256;
use crate::height::Height;
use crate::ibc_path::{ChannelEndPath, ClientStatePath, ConnectionPath, Path};
use crate::queue_msg::{aggregate, fetch, noop, terms, wait, QueueMsg, QueueTerm};
use crate::relay_message::aggregate::{
    mk_aggregate_wait_for_update, wait_for_update_term, Aggregate,
    AggregateChannelHandshakeUpdateClient, AggregateConnectionFetchFromChannelEnd,
    AggregateConnectionOpenAck, AggregateConnectionOpenConfirm, AggregateConnectionOpenTry,
    AggregateMsgAfterUpdate, AggregatePacketUpdateClient, AggregateUpdateClientFromClientId,
    ChannelHandshakeEvent, PacketEvent,
};
use crate::relay_message::fetch::{Fetch, FetchLatestClientState, FetchState};
use crate::relay_message::wait::{Wait, WaitForBlock};
use crate::relay_message::{id, Identified, RelayerMsgTypes};
use std::collections::VecDeque;
use vstd::prelude::*;
use vstd::string::StringExecFns;

verus! {

/// Something the relay queue reacts to.
#[derive(Debug, Clone, PartialEq, Eq)]
pub enum Event {
    /// An event that a chain emitted.
    Ibc(IbcEvent),
    /// An order from the operator.
    Command(Command),
}

/// An event of a chain, with the transaction and the height it was seen at.
#[derive(Debug, Clone, PartialEq, Eq)]
pub struct IbcEvent {
    pub tx_hash: H256,
    pub height: Height,
    pub event: events::IbcEvent,
}

/// An order from the operator.
#[derive(Debug, Clone, PartialEq, Eq)]
pub enum Command {
    /// Bring the light client `client_id` up to date.
    UpdateClient { client_id: String, counterparty_client_id: String },
}

/// The term that fetches what is stored under `path` on `chain_id` as of `at`.
pub open spec fn fetch_state_term(chain_id: String, at: Height, path: Path) -> QueueTerm<
    RelayerMsgTypes,
> {
    QueueTerm::Fetch(Identified { chain_id, t: Fetch::State(FetchState { at, path }) })
}

/// The term with which the relayer answers a step of the connection
/// handshake seen at `height`: once the counterparty's light client trusts
/// `height`, send `next`.
pub open spec fn connection_step_term(
    chain_id: String,
    client_id: String,
    counterparty_client_id: String,
    height: Height,
    next: AggregateMsgAfterUpdate,
) -> QueueTerm<RelayerMsgTypes> {
    QueueTerm::Aggregate {
        queue: seq![wait_for_update_term(chain_id, client_id, counterparty_client_id, height)],
        data: Seq::empty(),
        receiver: Identified { chain_id, t: Aggregate::MsgAfterUpdate(next) },
    }
}

/// The term with which the relayer answers a step of the channel handshake
/// seen at `height` on the channel `port_id`/`channel_id`: read the channel
/// end, from it the connection, then update the counterparty's light client
/// to `height` and send the next step.
pub open spec fn channel_step_term(
    chain_id: String,
    port_id: String,
    channel_id: String,
    height: Height,
    step: ChannelHandshakeEvent,
) -> QueueTerm<RelayerMsgTypes> {
    QueueTerm::Aggregate {
        queue: seq![
            QueueTerm::Aggregate {
                queue: seq![
                    fetch_state_term(
                        chain_id,
                        height,
                        Path::ChannelEnd(ChannelEndPath { port_id, channel_id }),
                    ),
                ],
                data: Seq::empty(),
                receiver: Identified {
                    chain_id,
                    t: Aggregate::ConnectionFetchFromChannelEnd(
                        AggregateConnectionFetchFromChannelEnd { at: height },
                    ),
                },
            },
        ],
        data: Seq::empty(),
        receiver: Identified {
            chain_id,
            t: Aggregate::ChannelHandshakeUpdateClient(
                AggregateChannelHandshakeUpdateClient {
                    update_to: height,
                    event_height: height,
                    channel_handshake_event: step,
                },
            ),
        },
    }
}

/// The term with which the relayer answers a packet sent or received at
/// `height` over `connection_id`: read the connection, then update the
/// counterparty's light client to `height` and relay the packet.
pub open spec fn packet_term(
    chain_id: String,
    connection_id: String,
    height: Height,
    tx_hash: H256,
    packet_event: PacketEvent,
) -> QueueTerm<RelayerMsgTypes> {
    QueueTerm::Aggregate {
        queue: seq![
            fetch_state_term(
                chain_id,
                height,
                Path::Connection(ConnectionPath { connection_id }),
            ),
        ],
        data: Seq::empty(),
        receiver: Identified {
            chain_id,
            t: Aggregate::PacketUpdateClient(
                AggregatePacketUpdateClient {
                    update_to: height,
                    event_height: height,
                    tx_hash,
                    packet_event,
                },
            ),
        },
    }
}

impl IbcEvent {
    /// How the event shows in logs: by the name of what happened.
    pub fn to_text(&self) -> (r: String)
        ensures
            r@ == self.event.name_of(),
    {
        self.event.name().to_owned()
    }

    /// Whether the relayer only takes note of the event.
    pub open spec fn is_observational(self) -> bool {
        match self.event {
            events::IbcEvent::CreateClient(_)
            | events::IbcEvent::UpdateClient(_)
            | events::IbcEvent::ConnectionOpenConfirm(_)
            | events::IbcEvent::ChannelOpenConfirm(_)
            | events::IbcEvent::AcknowledgePacket(_)
            | events::IbcEvent::TimeoutPacket(_)
            | events::IbcEvent::WriteAcknowledgement(_) => true,
            _ => false,
        }
    }

    /// Whether the relayer has a reaction to the event. Misbehaviour and
    /// evidence have none.
    pub open spec fn is_supported(self) -> bool {
        !(self.event is ClientMisbehaviour) && !(self.event is SubmitEvidence)
    }

    /// The term that the event, seen on `chain_id`, is lowered to.
    pub open spec fn lowering(self, chain_id: String) -> QueueTerm<RelayerMsgTypes> {
        let h = self.height;
        match self.event {
            events::IbcEvent::ConnectionOpenInit(init) => QueueTerm::Sequence(
                seq![
                    QueueTerm::Wait(
                        Identified { chain_id, t: Wait::Block(WaitForBlock { height: h }) },
                    ),
                    connection_step_term(
                        chain_id,
                        init.client_id,
                        init.counterparty_client_id,
                        h,
                        AggregateMsgAfterUpdate::ConnectionOpenTry(
                            AggregateConnectionOpenTry { event_height: h, event: init },
                        ),
                    ),
                ],
            ),
            events::IbcEvent::ConnectionOpenTry(try_) => connection_step_term(
                chain_id,
                try_.client_id,
                try_.counterparty_client_id,
                h,
                AggregateMsgAfterUpdate::ConnectionOpenAck(
                    AggregateConnectionOpenAck { event_height: h, event: try_ },
                ),
            ),
            events::IbcEvent::ConnectionOpenAck(ack) => connection_step_term(
                chain_id,
                ack.client_id,
                ack.counterparty_client_id,
                h,
                AggregateMsgAfterUpdate::ConnectionOpenConfirm(
                    AggregateConnectionOpenConfirm { event_height: h, event: ack },
                ),
            ),
            events::IbcEvent::ChannelOpenInit(init) => channel_step_term(
                chain_id,
                init.port_id,
                init.channel_id,
                h,
                ChannelHandshakeEvent::Init(init),
            ),
            events::IbcEvent::ChannelOpenTry(try_) => channel_step_term(
                chain_id,
                try_.port_id,
                try_.channel_id,
                h,
                ChannelHandshakeEvent::Try(try_),
            ),
            events::IbcEvent::ChannelOpenAck(ack) => channel_step_term(
                chain_id,
                ack.port_id,
                ack.channel_id,
                h,
                ChannelHandshakeEvent::Ack(ack),
            ),
            events::IbcEvent::RecvPacket(packet) => packet_term(
                chain_id,
                packet.connection_id,
                h,
                self.tx_hash,
                PacketEvent::Recv(packet),
            ),
            events::IbcEvent::SendPacket(packet) => packet_term(
                chain_id,
                packet.connection_id,
                h,
                self.tx_hash,
                PacketEvent::Send(packet),
            ),
            _ => QueueTerm::Noop,
        }
    }
}

impl Command {
    /// How the command shows in logs:
    /// `Command::UpdateClient({client_id}, {counterparty_client_id})`.
    pub open spec fn text(self) -> Seq<char> {
        match self {
            Command::UpdateClient { client_id, counterparty_client_id } =>
                "Command::UpdateClient("@ + client_id@ + ", "@ + counterparty_client_id@ + ")"@,
        }
    }

    /// How the command shows in logs.
    pub fn to_text(&self) -> (r: String)
        ensures
            r@ == self.text(),
    {
        match self {
            Command::UpdateClient { client_id, counterparty_client_id } => {
                "Command::UpdateClient(".to_owned().concat(client_id.as_str()).concat(", ").concat(
                    counterparty_client_id.as_str(),
                ).concat(")")
            },
        }
    }

    /// The term that the command, given for `chain_id`, is lowered to: read
    /// the client's latest state and update the client from it.
    pub open spec fn lowering(self, chain_id: String) -> QueueTerm<RelayerMsgTypes> {
        match self {
            Command::UpdateClient { client_id, counterparty_client_id } => QueueTerm::Aggregate {
                queue: seq![
                    QueueTerm::Fetch(
                        Identified {
                            chain_id,
                            t: Fetch::LatestClientState(
                                FetchLatestClientState { path: ClientStatePath { client_id } },
                            ),
                        },
                    ),
                ],
                data: Seq::empty(),
                receiver: Identified {
                    chain_id,
                    t: Aggregate::UpdateClientFromClientId(
                        AggregateUpdateClientFromClientId { client_id, counterparty_client_id },
                    ),
                },
            },
        }
    }
}

impl Event {
    /// How the event shows in logs: `Ibc` for an event of a chain, and a
    /// command as itself.
    pub open spec fn text(self) -> Seq<char> {
        match self {
            Event::Ibc(_) => "Ibc"@,
            Event::Command(command) => command.text(),
        }
    }

    /// How the event shows in logs.
    pub fn to_text(&self) -> (r: String)
        ensures
            r@ == self.text(),
    {
        match self {
            Event::Ibc(_) => "Ibc".to_owned(),
            Event::Command(command) => command.to_text(),
        }
    }

    /// Whether `handle` has a reaction to the event.
    pub open spec fn is_supported(self) -> bool {
        match self {
            Event::Ibc(e) => e.is_supported(),
            Event::Command(_) => true,
        }
    }

    /// The term that the event, seen on `chain_id`, is lowered to.
    pub open spec fn lowering(self, chain_id: String) -> QueueTerm<RelayerMsgTypes> {
        match self {
            Event::Ibc(e) => e.lowering(chain_id),
            Event::Command(c) => c.lowering(chain_id),
        }
    }

    /// Lowers an event seen on the chain `chain_id` to the work it asks for.
    ///
    /// Events that only report progress ask for nothing. A step of the
    /// connection handshake asks for the next step, once the counterparty's
    /// light client trusts the height of the event; an init first waits for
    /// that block. A step of the channel handshake and a packet ask for the
    /// channel's connection, a client update and the next message.
    pub fn handle(self, chain_id: String) -> (r: QueueMsg<RelayerMsgTypes>)
        requires
            self.is_supported(),
        ensures
            r@ == self.lowering(chain_id),
    {
        match self {
            Event::Ibc(ibc_event) => {
                let height = ibc_event.height;
                match ibc_event.event {
                    events::IbcEvent::CreateClient(_) => noop(),
                    events::IbcEvent::UpdateClient(_) => noop(),
                    events::IbcEvent::ClientMisbehaviour(_) => unreached(),
                    events::IbcEvent::SubmitEvidence(_) => unreached(),
                    events::IbcEvent::ConnectionOpenInit(init) => {
                        let update = mk_aggregate_wait_for_update(
                            chain_id.clone(),
                            init.client_id.clone(),
                            init.counterparty_client_id.clone(),
                            height,
                        );
                        let steps = vec![
                            wait(id(chain_id.clone(), Wait::Block(WaitForBlock { height }))),
                            after_update(
                                chain_id,
                                update,
                                AggregateMsgAfterUpdate::ConnectionOpenTry(
                                    AggregateConnectionOpenTry { event_height: height, event: init },
                                ),
                            ),
                        ];
                        proof {
                            assert(terms(steps@) =~= seq![steps@[0]@, steps@[1]@]);
                        }
                        crate::queue_msg::seq(steps)
                    },
                    events::IbcEvent::ConnectionOpenTry(try_) => {
                        let update = mk_aggregate_wait_for_update(
                            chain_id.clone(),
                            try_.client_id.clone(),
                            try_.counterparty_client_id.clone(),
                            height,
                        );
                        after_update(
                            chain_id,
                            update,
                            AggregateMsgAfterUpdate::ConnectionOpenAck(
                                AggregateConnectionOpenAck { event_height: height, event: try_ },
                            ),
                        )
                    },
                    events::IbcEvent::ConnectionOpenAck(ack) => {
                        let update = mk_aggregate_wait_for_update(
                            chain_id.clone(),
                            ack.client_id.clone(),
                            ack.counterparty_client_id.clone(),
                            height,
                        );
                        after_update(
                            chain_id,
                            update,
                            AggregateMsgAfterUpdate::ConnectionOpenConfirm(
                                AggregateConnectionOpenConfirm { event_height: height, event: ack },
                            ),
                        )
                    },
                    events::IbcEvent::ConnectionOpenConfirm(_) => noop(),
                    events::IbcEvent::ChannelOpenInit(init) => {
                        let port_id = init.port_id.clone();
                        let channel_id = init.channel_id.clone();
                        channel_step(
                            chain_id,
                            port_id,
                            channel_id,
                            height,
                            ChannelHandshakeEvent::Init(init),
                        )
                    },
                    events::IbcEvent::ChannelOpenTry(try_) => {
                        let port_id = try_.port_id.clone();
                        let channel_id = try_.channel_id.clone();
                        channel_step(
                            chain_id,
                            port_id,
                            channel_id,
                            height,
                            ChannelHandshakeEvent::Try(try_),
                        )
                    },
                    events::IbcEvent::ChannelOpenAck(ack) => {
                        let port_id = ack.port_id.clone();
                        let channel_id = ack.channel_id.clone();
                        channel_step(
                            chain_id,
                            port_id,
                            channel_id,
                            height,
                            ChannelHandshakeEvent::Ack(ack),
                        )
                    },
                    events::IbcEvent::ChannelOpenConfirm(_) => noop(),
                    events::IbcEvent::RecvPacket(packet) => {
                        let connection_id = packet.connection_id.clone();
                        packet_step(
                            chain_id,
                            connection_id,
                            height,
                            ibc_event.tx_hash,
                            PacketEvent::Recv(packet),
                        )
                    },
                    events::IbcEvent::SendPacket(packet) => {
                        let connection_id = packet.connection_id.clone();
                        packet_step(
                            chain_id,
                            connection_id,
                            height,
                            ibc_event.tx_hash,
                            PacketEvent::Send(packet),
                        )
                    },
                    events::IbcEvent::AcknowledgePacket(_) => noop(),
                    events::IbcEvent::TimeoutPacket(_) => noop(),
                    events::IbcEvent::WriteAcknowledgement(_) => noop(),
                }
            },
            Event::Command(command) => match command {
                Command::UpdateClient { client_id, counterparty_client_id } => {
                    let queue = vec![
                        fetch(
                            id(
                                chain_id.clone(),
                                Fetch::LatestClientState(
                                    FetchLatestClientState {
                                        path: ClientStatePath { client_id: client_id.clone() },
                                    },
                                ),
                            ),
                        ),
                    ];
                    proof {
                        assert(terms(queue@) =~= seq![queue@[0]@]);
                    }
                    aggregate(
                        queue,
                        VecDeque::new(),
                        id(
                            chain_id,
                            Aggregate::UpdateClientFromClientId(
                                AggregateUpdateClientFromClientId {
                                    client_id,
                                    counterparty_client_id,
                                },
                            ),
                        ),
                    )
                },
            },
        }
    }
}

/// The events that only report progress ask for nothing, on whatever chain
/// they are seen.
pub proof fn lemma_observational_events_ask_for_nothing(event: IbcEvent, chain_id: String)
    requires
        event.is_observational(),
    ensures
        event.lowering(chain_id) == QueueTerm::<RelayerMsgTypes>::Noop,
        Event::Ibc(event).lowering(chain_id) == QueueTerm::<RelayerMsgTypes>::Noop,
{
}

/// Wraps the client update `update` so that `next` is sent once it is done.
fn after_update(
    chain_id: String,
    update: QueueMsg<RelayerMsgTypes>,
    next: AggregateMsgAfterUpdate,
) -> (r: QueueMsg<RelayerMsgTypes>)
    ensures
        r@ == (QueueTerm::<RelayerMsgTypes>::Aggregate {
            queue: seq![update@],
            data: Seq::empty(),
            receiver: Identified { chain_id, t: Aggregate::MsgAfterUpdate(next) },
        }),
{
    let queue = vec![update];
    proof {
        assert(terms(queue@) =~= seq![update@]);
    }
    aggregate(queue, VecDeque::new(), id(chain_id, Aggregate::MsgAfterUpdate(next)))
}

/// Builds the reaction to a step of the channel handshake.
fn channel_step(
    chain_id: String,
    port_id: String,
    channel_id: String,
    height: Height,
    step: ChannelHandshakeEvent,
) -> (r: QueueMsg<RelayerMsgTypes>)
    ensures
        r@ == channel_step_term(chain_id, port_id, channel_id, height, step),
{
    let inner_queue = vec![
        fetch(
            id(
                chain_id.clone(),
                Fetch::State(
                    FetchState {
                        at: height,
                        path: Path::ChannelEnd(ChannelEndPath { port_id, channel_id }),
                    },
                ),
            ),
        ),
    ];
    proof {
        assert(terms(inner_queue@) =~= seq![inner_queue@[0]@]);
    }
    let inner = aggregate(
        inner_queue,
        VecDeque::new(),
        id(
            chain_id.clone(),
            Aggregate::ConnectionFetchFromChannelEnd(
                AggregateConnectionFetchFromChannelEnd { at: height },
            ),
        ),
    );
    let queue = vec![inner];
    proof {
        assert(terms(queue@) =~= seq![queue@[0]@]);
    }
    aggregate(
        queue,
        VecDeque::new(),
        id(
            chain_id,
            Aggregate::ChannelHandshakeUpdateClient(
                AggregateChannelHandshakeUpdateClient {
                    update_to: height,
                    event_height: height,
                    channel_handshake_event: step,
                },
            ),
        ),
    )
}

/// Builds the reaction to a packet sent or received.
fn packet_step(
    chain_id: String,
    connection_id: String,
    height: Height,
    tx_hash: H256,
    packet_event: PacketEvent,
) -> (r: QueueMsg<RelayerMsgTypes>)
    ensures
        r@ == packet_term(chain_id, connection_id, height, tx_hash, packet_event),
{
    let queue = vec![
        fetch(
            id(
                chain_id.clone(),
                Fetch::State(
                    FetchState {
                        at: height,
                        path: Path::Connection(ConnectionPath { connection_id }),
                    },
                ),
            ),
        ),
    ];
    proof {
        assert(terms(queue@) =~= seq![queue@[0]@]);
    }
    aggregate(
        queue,
        VecDeque::new(),
        id(
            chain_id,
            Aggregate::PacketUpdateClient(
                AggregatePacketUpdateClient {
                    update_to: height,
                    event_height: height,
                    tx_hash,
                    packet_event,
                },
            ),
        ),
    )
}

} // verus!
