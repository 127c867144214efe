//! The paths under which a chain commits its IBC state.

use crate::bytes::{decimal, push_all, push_decimal};
use crate::height::Height;
use vstd::prelude::*;
use vstd::string::StringSliceAdditionalSpecFns;

verus! {

/// Where the state of a light client is kept.
#[derive(Debug, Clone, PartialEq, Eq)]
pub struct ClientStatePath {
    pub client_id: String,
}

/// Where the consensus state that a light client holds for a height is kept.
#[derive(Debug, Clone, PartialEq, Eq)]
pub struct ClientConsensusStatePath {
    pub client_id: String,
    pub height: Height,
}

/// Where a connection end is kept.
#[derive(Debug, Clone, PartialEq, Eq)]
pub struct ConnectionPath {
    pub connection_id: String,
}

/// Where a channel end is kept.
#[derive(Debug, Clone, PartialEq, Eq)]
pub struct ChannelEndPath {
    pub port_id: String,
    pub channel_id: String,
}

impl ClientConsensusStatePath {
    /// The key under which the store keeps what this path names:
    /// `clients/{client_id}/consensusStates/{revision_number}-{revision_height}`.
    pub open spec fn key(self) -> Seq<u8> {
        "clients/".spec_bytes() + vstd::utf8::encode_utf8(self.client_id@)
            + "/consensusStates/".spec_bytes() + decimal(self.height.revision_number as nat)
            + "-".spec_bytes() + decimal(self.height.revision_height as nat)
    }

    /// The key under which the store keeps what this path names.
    pub fn to_bytes(&self) -> (r: Vec<u8>)
        ensures
            r@ == self.key(),
    {
        let mut r: Vec<u8> = Vec::new();
        push_all(&mut r, "clients/".as_bytes());
        push_all(&mut r, self.client_id.as_str().as_bytes());
        push_all(&mut r, "/consensusStates/".as_bytes());
        push_decimal(&mut r, self.height.revision_number);
        push_all(&mut r, "-".as_bytes());
        push_decimal(&mut r, self.height.revision_height);
        assert(r@ =~= self.key());
        r
    }
}

/// A path into a chain's IBC store.
#[derive(Debug, Clone, PartialEq, Eq)]
pub enum Path {
    ClientState(ClientStatePath),
    ClientConsensusState(ClientConsensusStatePath),
    Connection(ConnectionPath),
    ChannelEnd(ChannelEndPath),
}

} // verus!
