//! The messages of the token-relay contract.

use vstd::prelude::*;

verus! {

/// What the contract is migrated with: nothing.
#[derive(Debug, Clone, Copy, PartialEq, Eq, Structural)]
pub struct MigrateMsg {}

/// What the contract executes.
#[derive(Debug, Clone, PartialEq, Eq)]
pub enum ExecuteMsg {
    /// Send the funds that come with the message over a channel.
    Transfer(TransferMsg),
    /// Change the admin. Only the current admin may.
    UpdateAdmin { admin: String },
}

/// A transfer of funds over a channel.
#[derive(Debug, Clone, PartialEq, Eq)]
pub struct TransferMsg {
    /// The local channel to send the packets on.
    pub channel: String,
    /// The remote address to send to.
    pub receiver: String,
    /// How long the packet lives, in seconds. Where absent, the contract's
    /// default timeout holds.
    pub timeout: Option<u64>,
    /// The memo.
    pub memo: String,
}

/// What the contract can be asked.
#[derive(Debug, Clone, PartialEq, Eq)]
pub enum QueryMsg {
    /// The port that the contract is bound to.
    Port {},
    /// All the channels that the contract is connected to.
    ListChannels {},
    /// The details of the channel `id`.
    Channel { id: String },
    /// The configuration.
    Config {},
    /// The admin.
    Admin {},
}

/// One end of a channel: a port and a channel on it.
#[derive(Debug, Clone, PartialEq, Eq)]
pub struct Endpoint {
    pub port_id: String,
    pub channel_id: String,
}

/// What the contract keeps of a channel.
#[derive(Debug, Clone, PartialEq, Eq)]
pub struct ChannelInfo {
    /// The channel on this side.
    pub id: String,
    /// The other end of the channel.
    pub counterparty_endpoint: Endpoint,
    /// The connection that the channel runs over.
    pub connection_id: String,
    /// The version of the transfer protocol spoken on the channel.
    pub protocol_version: String,
}

/// The answer to `QueryMsg::ListChannels`.
#[derive(Debug, Clone, PartialEq, Eq)]
pub struct ListChannelsResponse {
    pub channels: Vec<ChannelInfo>,
}

/// The answer to `QueryMsg::Port`.
#[derive(Debug, Clone, PartialEq, Eq)]
pub struct PortResponse {
    pub port_id: String,
}

/// The answer to `QueryMsg::Config`.
#[derive(Debug, Clone, PartialEq, Eq)]
pub struct ConfigResponse {
    pub default_timeout: u64,
    pub gov_contract: String,
}

} // verus!
