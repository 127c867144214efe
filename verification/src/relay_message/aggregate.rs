//! The receivers of the relay queue's aggregates: what is to be done once
//! the data that was asked for has arrived.

use crate::events::{
    ChannelOpenAck, ChannelOpenInit, ChannelOpenTry, ConnectionOpenAck, ConnectionOpenInit,
    ConnectionOpenTry, RecvPacket, SendPacket,
};
use crate::hash::H256;
use crate::height::Height;
use crate::ibc_path::ClientStatePath;
use crate::data::{Data, DataKind};
use crate::queue_msg::aggregation::Receiver;
use crate::queue_msg::{aggregate, fetch, terms, QueueMsg, QueueTerm};
use crate::relay_message::fetch::{Fetch, FetchLatestClientState};
use crate::relay_message::{id, Identified, RelayerMsgTypes};
use std::collections::VecDeque;
use vstd::prelude::*;

verus! {

/// Answer a connection-open-init seen at `event_height` with a try.
#[derive(Debug, Clone, PartialEq, Eq)]
pub struct AggregateConnectionOpenTry {
    pub event_height: Height,
    pub event: ConnectionOpenInit,
}

/// Answer a connection-open-try seen at `event_height` with an ack.
#[derive(Debug, Clone, PartialEq, Eq)]
pub struct AggregateConnectionOpenAck {
    pub event_height: Height,
    pub event: ConnectionOpenTry,
}

/// Answer a connection-open-ack seen at `event_height` with a confirm.
#[derive(Debug, Clone, PartialEq, Eq)]
pub struct AggregateConnectionOpenConfirm {
    pub event_height: Height,
    pub event: ConnectionOpenAck,
}

/// The message to send once the counterparty's light client is up to date.
#[derive(Debug, Clone, PartialEq, Eq)]
pub enum AggregateMsgAfterUpdate {
    ConnectionOpenTry(AggregateConnectionOpenTry),
    ConnectionOpenAck(AggregateConnectionOpenAck),
    ConnectionOpenConfirm(AggregateConnectionOpenConfirm),
}

/// The step of the channel handshake that was seen.
#[derive(Debug, Clone, PartialEq, Eq)]
pub enum ChannelHandshakeEvent {
    Init(ChannelOpenInit),
    Try(ChannelOpenTry),
    Ack(ChannelOpenAck),
}

/// The packet event that was seen.
#[derive(Debug, Clone, PartialEq, Eq)]
pub enum PacketEvent {
    Send(SendPacket),
    Recv(RecvPacket),
}

/// Update the counterparty's light client to `update_to`, then carry the
/// channel handshake one step further.
#[derive(Debug, Clone, PartialEq, Eq)]
pub struct AggregateChannelHandshakeUpdateClient {
    pub update_to: Height,
    pub event_height: Height,
    pub channel_handshake_event: ChannelHandshakeEvent,
}

/// Update the counterparty's light client to `update_to`, then relay the packet.
#[derive(Debug, Clone, PartialEq, Eq)]
pub struct AggregatePacketUpdateClient {
    pub update_to: Height,
    pub event_height: Height,
    pub tx_hash: H256,
    pub packet_event: PacketEvent,
}

/// Given a channel end, fetch the connection it runs over, as of `at`.
#[derive(Debug, Clone, PartialEq, Eq)]
pub struct AggregateConnectionFetchFromChannelEnd {
    pub at: Height,
}

/// Given the state of `client_id`, update it to its counterparty's latest height.
#[derive(Debug, Clone, PartialEq, Eq)]
pub struct AggregateUpdateClientFromClientId {
    pub client_id: String,
    pub counterparty_client_id: String,
}

/// Given the state of `client_id`, bring the counterparty's light client up
/// to `wait_for` and hold until it trusts that height.
#[derive(Debug, Clone, PartialEq, Eq)]
pub struct AggregateWaitForTrustedHeight {
    pub wait_for: Height,
    pub client_id: String,
    pub counterparty_client_id: String,
}

/// A receiver of the relay queue.
#[derive(Debug, Clone, PartialEq, Eq)]
pub enum Aggregate {
    MsgAfterUpdate(AggregateMsgAfterUpdate),
    ChannelHandshakeUpdateClient(AggregateChannelHandshakeUpdateClient),
    PacketUpdateClient(AggregatePacketUpdateClient),
    ConnectionFetchFromChannelEnd(AggregateConnectionFetchFromChannelEnd),
    UpdateClientFromClientId(AggregateUpdateClientFromClientId),
    WaitForTrustedHeight(AggregateWaitForTrustedHeight),
}

impl Receiver<Data> for Aggregate {
    /// The message after an update, the update of a client and the wait for
    /// a trusted height take the client's state. The fetch of a connection
    /// takes the channel end. A packet takes the connection end, and a step
    /// of the channel handshake the connection end and the channel end.
    open spec fn expects(&self) -> Seq<DataKind> {
        match self {
            Aggregate::MsgAfterUpdate(_) => seq![DataKind::ClientState],
            Aggregate::ChannelHandshakeUpdateClient(_) => seq![
                DataKind::ConnectionEnd,
                DataKind::ChannelEnd,
            ],
            Aggregate::PacketUpdateClient(_) => seq![DataKind::ConnectionEnd],
            Aggregate::ConnectionFetchFromChannelEnd(_) => seq![DataKind::ChannelEnd],
            Aggregate::UpdateClientFromClientId(_) => seq![DataKind::ClientState],
            Aggregate::WaitForTrustedHeight(_) => seq![DataKind::ClientState],
        }
    }

    fn expected(&self) -> (r: Vec<DataKind>) {
        let r = match self {
            Aggregate::MsgAfterUpdate(_) => vec![DataKind::ClientState],
            Aggregate::ChannelHandshakeUpdateClient(_) => vec![
                DataKind::ConnectionEnd,
                DataKind::ChannelEnd,
            ],
            Aggregate::PacketUpdateClient(_) => vec![DataKind::ConnectionEnd],
            Aggregate::ConnectionFetchFromChannelEnd(_) => vec![DataKind::ChannelEnd],
            Aggregate::UpdateClientFromClientId(_) => vec![DataKind::ClientState],
            Aggregate::WaitForTrustedHeight(_) => vec![DataKind::ClientState],
        };
        assert(r@ =~= self.expects());
        r
    }

    /// A receiver without a chain takes data wherever it is from.
    open spec fn serves(&self, item: &Data) -> bool {
        true
    }

    fn can_serve(&self, item: &Data) -> (b: bool) {
        true
    }
}

/// The term that `mk_aggregate_wait_for_update` builds: fetch the latest
/// state of `client_id` on `chain_id`, and hand it to the receiver that
/// brings the counterparty's light client up to `wait_for`.
pub open spec fn wait_for_update_term(
    chain_id: String,
    client_id: String,
    counterparty_client_id: String,
    wait_for: Height,
) -> QueueTerm<RelayerMsgTypes> {
    QueueTerm::Aggregate {
        queue: seq![
            QueueTerm::Fetch(
                Identified {
                    chain_id,
                    t: Fetch::LatestClientState(
                        FetchLatestClientState { path: ClientStatePath { client_id } },
                    ),
                },
            ),
        ],
        data: Seq::empty(),
        receiver: Identified {
            chain_id,
            t: Aggregate::WaitForTrustedHeight(
                AggregateWaitForTrustedHeight { wait_for, client_id, counterparty_client_id },
            ),
        },
    }
}

/// Builds the term that makes sure the light client `counterparty_client_id`
/// trusts the height `wait_for` of the chain `chain_id`.
pub fn mk_aggregate_wait_for_update(
    chain_id: String,
    client_id: String,
    counterparty_client_id: String,
    wait_for: Height,
) -> (r: QueueMsg<RelayerMsgTypes>)
    ensures
        r@ == wait_for_update_term(chain_id, client_id, counterparty_client_id, wait_for),
{
    let queue = vec![
        fetch(
            id(
                chain_id.clone(),
                Fetch::LatestClientState(
                    FetchLatestClientState { path: ClientStatePath { client_id: client_id.clone() } },
                ),
            ),
        ),
    ];
    proof {
        assert(terms(queue@) =~= seq![queue@[0]@]);
    }
    aggregate(
        queue,
        VecDeque::new(),
        id(
            chain_id,
            Aggregate::WaitForTrustedHeight(
                AggregateWaitForTrustedHeight { wait_for, client_id, counterparty_client_id },
            ),
        ),
    )
}

} // verus!
