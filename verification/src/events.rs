//! The events that a chain's IBC handler emits.

use crate::height::Height;
use vstd::prelude::*;

verus! {

/// Whether a channel delivers packets in the order they were sent.
#[derive(Debug, Clone, Copy, PartialEq, Eq, Structural)]
pub enum Order {
    Unordered,
    Ordered,
}

#[derive(Debug, Clone, PartialEq, Eq)]
pub struct CreateClient {
    pub client_id: String,
    pub client_type: String,
    pub consensus_height: Height,
}

#[derive(Debug, Clone, PartialEq, Eq)]
pub struct UpdateClient {
    pub client_id: String,
    pub client_type: String,
    pub consensus_heights: Vec<Height>,
}

#[derive(Debug, Clone, PartialEq, Eq)]
pub struct ClientMisbehaviour {
    pub client_id: String,
    pub client_type: String,
    pub consensus_height: Height,
}

#[derive(Debug, Clone, PartialEq, Eq)]
pub struct SubmitEvidence {
    pub evidence_hash: String,
}

#[derive(Debug, Clone, PartialEq, Eq)]
pub struct ConnectionOpenInit {
    pub connection_id: String,
    pub client_id: String,
    pub counterparty_client_id: String,
}

#[derive(Debug, Clone, PartialEq, Eq)]
pub struct ConnectionOpenTry {
    pub connection_id: String,
    pub client_id: String,
    pub counterparty_client_id: String,
    pub counterparty_connection_id: String,
}

#[derive(Debug, Clone, PartialEq, Eq)]
pub struct ConnectionOpenAck {
    pub connection_id: String,
    pub client_id: String,
    pub counterparty_client_id: String,
    pub counterparty_connection_id: String,
}

#[derive(Debug, Clone, PartialEq, Eq)]
pub struct ConnectionOpenConfirm {
    pub connection_id: String,
    pub client_id: String,
    pub counterparty_client_id: String,
    pub counterparty_connection_id: String,
}

#[derive(Debug, Clone, PartialEq, Eq)]
pub struct ChannelOpenInit {
    pub port_id: String,
    pub channel_id: String,
    pub counterparty_port_id: String,
    pub connection_id: String,
    pub version: String,
}

#[derive(Debug, Clone, PartialEq, Eq)]
pub struct ChannelOpenTry {
    pub port_id: String,
    pub channel_id: String,
    pub counterparty_port_id: String,
    pub counterparty_channel_id: String,
    pub connection_id: String,
    pub version: String,
}

#[derive(Debug, Clone, PartialEq, Eq)]
pub struct ChannelOpenAck {
    pub port_id: String,
    pub channel_id: String,
    pub counterparty_port_id: String,
    pub counterparty_channel_id: String,
    pub connection_id: String,
}

#[derive(Debug, Clone, PartialEq, Eq)]
pub struct ChannelOpenConfirm {
    pub port_id: String,
    pub channel_id: String,
    pub counterparty_port_id: String,
    pub counterparty_channel_id: String,
    pub connection_id: String,
}

/// The fields that every packet event carries.
#[derive(Debug, Clone, PartialEq, Eq)]
pub struct PacketInfo {
    pub sequence: u64,
    pub src_port: String,
    pub src_channel: String,
    pub dst_port: String,
    pub dst_channel: String,
    pub channel_ordering: Order,
    pub timeout_height: Height,
    pub timeout_timestamp: u64,
}

#[derive(Debug, Clone, PartialEq, Eq)]
pub struct SendPacket {
    pub packet: PacketInfo,
    pub packet_data: Vec<u8>,
    pub connection_id: String,
}

#[derive(Debug, Clone, PartialEq, Eq)]
pub struct RecvPacket {
    pub packet: PacketInfo,
    pub packet_data: Vec<u8>,
    pub connection_id: String,
}

#[derive(Debug, Clone, PartialEq, Eq)]
pub struct AcknowledgePacket {
    pub packet: PacketInfo,
    pub connection_id: String,
}

#[derive(Debug, Clone, PartialEq, Eq)]
pub struct TimeoutPacket {
    pub packet: PacketInfo,
    pub connection_id: String,
}

#[derive(Debug, Clone, PartialEq, Eq)]
pub struct WriteAcknowledgement {
    pub packet: PacketInfo,
    pub packet_data: Vec<u8>,
    pub packet_ack: Vec<u8>,
    pub connection_id: String,
}

/// An event of a chain's IBC handler.
#[derive(Debug, Clone, PartialEq, Eq)]
pub enum IbcEvent {
    CreateClient(CreateClient),
    UpdateClient(UpdateClient),
    ClientMisbehaviour(ClientMisbehaviour),
    SubmitEvidence(SubmitEvidence),
    ConnectionOpenInit(ConnectionOpenInit),
    ConnectionOpenTry(ConnectionOpenTry),
    ConnectionOpenAck(ConnectionOpenAck),
    ConnectionOpenConfirm(ConnectionOpenConfirm),
    ChannelOpenInit(ChannelOpenInit),
    ChannelOpenTry(ChannelOpenTry),
    ChannelOpenAck(ChannelOpenAck),
    ChannelOpenConfirm(ChannelOpenConfirm),
    WriteAcknowledgement(WriteAcknowledgement),
    RecvPacket(RecvPacket),
    SendPacket(SendPacket),
    AcknowledgePacket(AcknowledgePacket),
    TimeoutPacket(TimeoutPacket),
}

impl IbcEvent {
    /// The name of the event, as the chain spells it.
    pub open spec fn name_of(self) -> Seq<char> {
        match self {
            IbcEvent::CreateClient(_) => "create_client"@,
            IbcEvent::UpdateClient(_) => "update_client"@,
            IbcEvent::ClientMisbehaviour(_) => "client_misbehaviour"@,
            IbcEvent::SubmitEvidence(_) => "submit_evidence"@,
            IbcEvent::ConnectionOpenInit(_) => "connection_open_init"@,
            IbcEvent::ConnectionOpenTry(_) => "connection_open_try"@,
            IbcEvent::ConnectionOpenAck(_) => "connection_open_ack"@,
            IbcEvent::ConnectionOpenConfirm(_) => "connection_open_confirm"@,
            IbcEvent::ChannelOpenInit(_) => "channel_open_init"@,
            IbcEvent::ChannelOpenTry(_) => "channel_open_try"@,
            IbcEvent::ChannelOpenAck(_) => "channel_open_ack"@,
            IbcEvent::ChannelOpenConfirm(_) => "channel_open_confirm"@,
            IbcEvent::WriteAcknowledgement(_) => "write_acknowledgement"@,
            IbcEvent::RecvPacket(_) => "recv_packet"@,
            IbcEvent::SendPacket(_) => "send_packet"@,
            IbcEvent::AcknowledgePacket(_) => "acknowledge_packet"@,
            IbcEvent::TimeoutPacket(_) => "timeout_packet"@,
        }
    }

    /// The name of the event, as the chain spells it.
    pub fn name(&self) -> (r: &'static str)
        ensures
            r@ == self.name_of(),
    {
        match self {
            IbcEvent::CreateClient(_) => "create_client",
            IbcEvent::UpdateClient(_) => "update_client",
            IbcEvent::ClientMisbehaviour(_) => "client_misbehaviour",
            IbcEvent::SubmitEvidence(_) => "submit_evidence",
            IbcEvent::ConnectionOpenInit(_) => "connection_open_init",
            IbcEvent::ConnectionOpenTry(_) => "connection_open_try",
            IbcEvent::ConnectionOpenAck(_) => "connection_open_ack",
            IbcEvent::ConnectionOpenConfirm(_) => "connection_open_confirm",
            IbcEvent::ChannelOpenInit(_) => "channel_open_init",
            IbcEvent::ChannelOpenTry(_) => "channel_open_try",
            IbcEvent::ChannelOpenAck(_) => "channel_open_ack",
            IbcEvent::ChannelOpenConfirm(_) => "channel_open_confirm",
            IbcEvent::WriteAcknowledgement(_) => "write_acknowledgement",
            IbcEvent::RecvPacket(_) => "recv_packet",
            IbcEvent::SendPacket(_) => "send_packet",
            IbcEvent::AcknowledgePacket(_) => "acknowledge_packet",
            IbcEvent::TimeoutPacket(_) => "timeout_packet",
        }
    }
}

impl IbcEvent {
    /// This event, said to have happened on the connection `connection_id`.
    /// Only the events of channels and packets name a connection.
    pub open spec fn on_connection(self, connection_id: String) -> IbcEvent {
        match self {
            IbcEvent::ChannelOpenInit(e) => IbcEvent::ChannelOpenInit(
                ChannelOpenInit { connection_id, ..e },
            ),
            IbcEvent::ChannelOpenTry(e) => IbcEvent::ChannelOpenTry(
                ChannelOpenTry { connection_id, ..e },
            ),
            IbcEvent::ChannelOpenAck(e) => IbcEvent::ChannelOpenAck(
                ChannelOpenAck { connection_id, ..e },
            ),
            IbcEvent::ChannelOpenConfirm(e) => IbcEvent::ChannelOpenConfirm(
                ChannelOpenConfirm { connection_id, ..e },
            ),
            IbcEvent::WriteAcknowledgement(e) => IbcEvent::WriteAcknowledgement(
                WriteAcknowledgement { connection_id, ..e },
            ),
            IbcEvent::RecvPacket(e) => IbcEvent::RecvPacket(RecvPacket { connection_id, ..e }),
            IbcEvent::SendPacket(e) => IbcEvent::SendPacket(SendPacket { connection_id, ..e }),
            IbcEvent::AcknowledgePacket(e) => IbcEvent::AcknowledgePacket(
                AcknowledgePacket { connection_id, ..e },
            ),
            IbcEvent::TimeoutPacket(e) => IbcEvent::TimeoutPacket(
                TimeoutPacket { connection_id, ..e },
            ),
            other => other,
        }
    }

    /// This event, said to be about the light client `client_id` and its
    /// counterparty `counterparty_client_id`. Only the events of connections
    /// name their clients.
    pub open spec fn between_clients(
        self,
        client_id: String,
        counterparty_client_id: String,
    ) -> IbcEvent {
        match self {
            IbcEvent::ConnectionOpenInit(e) => IbcEvent::ConnectionOpenInit(
                ConnectionOpenInit { client_id, counterparty_client_id, ..e },
            ),
            IbcEvent::ConnectionOpenTry(e) => IbcEvent::ConnectionOpenTry(
                ConnectionOpenTry { client_id, counterparty_client_id, ..e },
            ),
            IbcEvent::ConnectionOpenAck(e) => IbcEvent::ConnectionOpenAck(
                ConnectionOpenAck { client_id, counterparty_client_id, ..e },
            ),
            IbcEvent::ConnectionOpenConfirm(e) => IbcEvent::ConnectionOpenConfirm(
                ConnectionOpenConfirm { client_id, counterparty_client_id, ..e },
            ),
            other => other,
        }
    }

    /// Fills in the connection that a channel or packet event happened on.
    pub fn with_connection(self, connection_id: String) -> (r: IbcEvent)
        ensures
            r == self.on_connection(connection_id),
    {
        match self {
            IbcEvent::ChannelOpenInit(e) => IbcEvent::ChannelOpenInit(
                ChannelOpenInit {
                    port_id: e.port_id,
                    channel_id: e.channel_id,
                    counterparty_port_id: e.counterparty_port_id,
                    connection_id,
                    version: e.version,
                },
            ),
            IbcEvent::ChannelOpenTry(e) => IbcEvent::ChannelOpenTry(
                ChannelOpenTry {
                    port_id: e.port_id,
                    channel_id: e.channel_id,
                    counterparty_port_id: e.counterparty_port_id,
                    counterparty_channel_id: e.counterparty_channel_id,
                    connection_id,
                    version: e.version,
                },
            ),
            IbcEvent::ChannelOpenAck(e) => IbcEvent::ChannelOpenAck(
                ChannelOpenAck {
                    port_id: e.port_id,
                    channel_id: e.channel_id,
                    counterparty_port_id: e.counterparty_port_id,
                    counterparty_channel_id: e.counterparty_channel_id,
                    connection_id,
                },
            ),
            IbcEvent::ChannelOpenConfirm(e) => IbcEvent::ChannelOpenConfirm(
                ChannelOpenConfirm {
                    port_id: e.port_id,
                    channel_id: e.channel_id,
                    counterparty_port_id: e.counterparty_port_id,
                    counterparty_channel_id: e.counterparty_channel_id,
                    connection_id,
                },
            ),
            IbcEvent::WriteAcknowledgement(e) => IbcEvent::WriteAcknowledgement(
                WriteAcknowledgement {
                    packet: e.packet,
                    packet_data: e.packet_data,
                    packet_ack: e.packet_ack,
                    connection_id,
                },
            ),
            IbcEvent::RecvPacket(e) => IbcEvent::RecvPacket(
                RecvPacket { packet: e.packet, packet_data: e.packet_data, connection_id },
            ),
            IbcEvent::SendPacket(e) => IbcEvent::SendPacket(
                SendPacket { packet: e.packet, packet_data: e.packet_data, connection_id },
            ),
            IbcEvent::AcknowledgePacket(e) => IbcEvent::AcknowledgePacket(
                AcknowledgePacket { packet: e.packet, connection_id },
            ),
            IbcEvent::TimeoutPacket(e) => IbcEvent::TimeoutPacket(
                TimeoutPacket { packet: e.packet, connection_id },
            ),
            other => other,
        }
    }

    /// Fills in the light clients that a connection event is about.
    pub fn with_clients(self, client_id: String, counterparty_client_id: String) -> (r: IbcEvent)
        ensures
            r == self.between_clients(client_id, counterparty_client_id),
    {
        match self {
            IbcEvent::ConnectionOpenInit(e) => IbcEvent::ConnectionOpenInit(
                ConnectionOpenInit {
                    connection_id: e.connection_id,
                    client_id,
                    counterparty_client_id,
                },
            ),
            IbcEvent::ConnectionOpenTry(e) => IbcEvent::ConnectionOpenTry(
                ConnectionOpenTry {
                    connection_id: e.connection_id,
                    client_id,
                    counterparty_client_id,
                    counterparty_connection_id: e.counterparty_connection_id,
                },
            ),
            IbcEvent::ConnectionOpenAck(e) => IbcEvent::ConnectionOpenAck(
                ConnectionOpenAck {
                    connection_id: e.connection_id,
                    client_id,
                    counterparty_client_id,
                    counterparty_connection_id: e.counterparty_connection_id,
                },
            ),
            IbcEvent::ConnectionOpenConfirm(e) => IbcEvent::ConnectionOpenConfirm(
                ConnectionOpenConfirm {
                    connection_id: e.connection_id,
                    client_id,
                    counterparty_client_id,
                    counterparty_connection_id: e.counterparty_connection_id,
                },
            ),
            other => other,
        }
    }
}

} // verus!
