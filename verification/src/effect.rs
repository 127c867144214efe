//! The transactions that the relayer submits.

use crate::events::Order;
use crate::height::Height;
use vstd::prelude::*;

verus! {

/// The last message of the connection handshake's third step: the chain that
/// sent the init acknowledges the try of its counterparty.
#[derive(Debug, Clone, PartialEq, Eq)]
pub struct MsgConnectionOpenAck<ClientState, ProofTry, ProofClient, ProofConsensus> {
    pub connection_id: String,
    pub counterparty_connection_id: String,
    pub version: Version,
    pub client_state: ClientState,
    pub proof_height: Height,
    pub proof_try: ProofTry,
    pub proof_client: ProofClient,
    pub proof_consensus: ProofConsensus,
    pub consensus_height: Height,
}

/// A connection version: an identifier and the features it supports.
#[derive(Debug, Clone, PartialEq, Eq)]
pub struct Version {
    pub identifier: String,
    pub features: Vec<Order>,
}

/// Update the light client `client_id` with an encoded header.
#[derive(Debug, Clone, PartialEq, Eq)]
pub struct MsgUpdateClient {
    pub client_id: String,
    pub client_message: Vec<u8>,
}

/// A transaction to submit, with its proofs already encoded.
#[derive(Debug, Clone, PartialEq, Eq)]
pub enum Effect {
    ConnectionOpenAck(MsgConnectionOpenAck<Vec<u8>, Vec<u8>, Vec<u8>, Vec<u8>>),
    UpdateClient(MsgUpdateClient),
}

} // verus!
