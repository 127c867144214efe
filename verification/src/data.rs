//! What fetches and effects hand back to the queue.

use crate::events::{IbcEvent, Order};
use crate::hash::H256;
use crate::height::Height;
use crate::queue_msg::aggregation::{Kinded, Receiver, Variant};
use crate::relay_message::Identified;
use vstd::prelude::*;

verus! {

/// What a light client knows of the chain it tracks.
#[derive(Debug, Clone, PartialEq, Eq)]
pub struct ClientState {
    pub chain_id: String,
    pub latest_height: Height,
}

/// How far a connection or channel handshake has come on one side.
#[derive(Debug, Clone, Copy, PartialEq, Eq, Structural)]
pub enum HandshakeState {
    Init,
    TryOpen,
    Open,
}

/// One end of a connection.
#[derive(Debug, Clone, PartialEq, Eq)]
pub struct ConnectionEnd {
    pub client_id: String,
    pub counterparty_client_id: String,
    pub counterparty_connection_id: String,
    pub state: HandshakeState,
}

/// One end of a channel.
#[derive(Debug, Clone, PartialEq, Eq)]
pub struct ChannelEnd {
    pub state: HandshakeState,
    pub ordering: Order,
    pub counterparty_port_id: String,
    pub counterparty_channel_id: String,
    pub connection_hops: Vec<String>,
    pub version: String,
}

/// An event of a chain, with the transaction and the height it was seen at.
#[derive(Debug, Clone, PartialEq, Eq)]
pub struct ChainEvent {
    pub tx_hash: H256,
    pub height: Height,
    pub event: IbcEvent,
}

/// A piece of data.
#[derive(Debug, Clone, PartialEq, Eq)]
pub enum Data {
    ClientState(ClientState),
    ConnectionEnd(ConnectionEnd),
    ChannelEnd(ChannelEnd),
    ChainEvent(ChainEvent),
    LatestHeight(Height),
}

/// The kinds of data: what an aggregate's receiver asks for.
#[derive(Debug, Clone, Copy, PartialEq, Eq, Structural)]
pub enum DataKind {
    ClientState,
    ConnectionEnd,
    ChannelEnd,
    ChainEvent,
    LatestHeight,
}

impl Data {
    /// The kind of this piece of data.
    pub open spec fn kind_of(self) -> DataKind {
        match self {
            Data::ClientState(_) => DataKind::ClientState,
            Data::ConnectionEnd(_) => DataKind::ConnectionEnd,
            Data::ChannelEnd(_) => DataKind::ChannelEnd,
            Data::ChainEvent(_) => DataKind::ChainEvent,
            Data::LatestHeight(_) => DataKind::LatestHeight,
        }
    }

    /// The kind of this piece of data.
    pub fn kind(&self) -> (r: DataKind)
        ensures
            r == self.kind_of(),
    {
        match self {
            Data::ClientState(_) => DataKind::ClientState,
            Data::ConnectionEnd(_) => DataKind::ConnectionEnd,
            Data::ChannelEnd(_) => DataKind::ChannelEnd,
            Data::ChainEvent(_) => DataKind::ChainEvent,
            Data::LatestHeight(_) => DataKind::LatestHeight,
        }
    }
}

impl Kinded for Data {
    type Kind = DataKind;

    open spec fn kind_of(&self) -> DataKind {
        Data::kind_of(*self)
    }

    fn is_kind(&self, kind: &DataKind) -> (b: bool) {
        self.kind() == *kind
    }
}

impl<T: Kinded> Kinded for Identified<T> {
    type Kind = T::Kind;

    open spec fn kind_of(&self) -> T::Kind {
        self.t.kind_of()
    }

    fn is_kind(&self, kind: &T::Kind) -> (b: bool) {
        self.t.is_kind(kind)
    }
}

impl Variant<Data> for ClientState {
    open spec fn kind() -> DataKind {
        DataKind::ClientState
    }

    open spec fn item(self) -> Data {
        Data::ClientState(self)
    }

    open spec fn of_item(item: Data) -> ClientState {
        match item {
            Data::ClientState(value) => value,
            _ => arbitrary(),
        }
    }

    proof fn lemma_of_item(self) {
    }

    fn kind_tag() -> (k: DataKind) {
        DataKind::ClientState
    }

    fn try_from_item(item: Data) -> (r: Result<ClientState, Data>) {
        match item {
            Data::ClientState(value) => Ok(value),
            other => Err(other),
        }
    }
}

impl Variant<Data> for ConnectionEnd {
    open spec fn kind() -> DataKind {
        DataKind::ConnectionEnd
    }

    open spec fn item(self) -> Data {
        Data::ConnectionEnd(self)
    }

    open spec fn of_item(item: Data) -> ConnectionEnd {
        match item {
            Data::ConnectionEnd(value) => value,
            _ => arbitrary(),
        }
    }

    proof fn lemma_of_item(self) {
    }

    fn kind_tag() -> (k: DataKind) {
        DataKind::ConnectionEnd
    }

    fn try_from_item(item: Data) -> (r: Result<ConnectionEnd, Data>) {
        match item {
            Data::ConnectionEnd(value) => Ok(value),
            other => Err(other),
        }
    }
}

impl Variant<Data> for ChannelEnd {
    open spec fn kind() -> DataKind {
        DataKind::ChannelEnd
    }

    open spec fn item(self) -> Data {
        Data::ChannelEnd(self)
    }

    open spec fn of_item(item: Data) -> ChannelEnd {
        match item {
            Data::ChannelEnd(value) => value,
            _ => arbitrary(),
        }
    }

    proof fn lemma_of_item(self) {
    }

    fn kind_tag() -> (k: DataKind) {
        DataKind::ChannelEnd
    }

    fn try_from_item(item: Data) -> (r: Result<ChannelEnd, Data>) {
        match item {
            Data::ChannelEnd(value) => Ok(value),
            other => Err(other),
        }
    }
}

impl Variant<Data> for ChainEvent {
    open spec fn kind() -> DataKind {
        DataKind::ChainEvent
    }

    open spec fn item(self) -> Data {
        Data::ChainEvent(self)
    }

    open spec fn of_item(item: Data) -> ChainEvent {
        match item {
            Data::ChainEvent(value) => value,
            _ => arbitrary(),
        }
    }

    proof fn lemma_of_item(self) {
    }

    fn kind_tag() -> (k: DataKind) {
        DataKind::ChainEvent
    }

    fn try_from_item(item: Data) -> (r: Result<ChainEvent, Data>) {
        match item {
            Data::ChainEvent(value) => Ok(value),
            other => Err(other),
        }
    }
}

impl<U: Kinded, T: Variant<U>> Variant<Identified<U>> for Identified<T> {
    open spec fn kind() -> U::Kind {
        T::kind()
    }

    open spec fn item(self) -> Identified<U> {
        Identified { chain_id: self.chain_id, t: self.t.item() }
    }

    open spec fn of_item(item: Identified<U>) -> Identified<T> {
        Identified { chain_id: item.chain_id, t: T::of_item(item.t) }
    }

    proof fn lemma_of_item(self) {
        self.t.lemma_of_item();
    }

    fn kind_tag() -> (k: U::Kind) {
        T::kind_tag()
    }

    fn try_from_item(item: Identified<U>) -> (r: Result<Identified<T>, Identified<U>>) {
        match T::try_from_item(item.t) {
            Ok(t) => Ok(Identified { chain_id: item.chain_id, t }),
            Err(t) => Err(Identified { chain_id: item.chain_id, t }),
        }
    }
}

impl<D: Kinded, R: Receiver<D>> Receiver<Identified<D>> for Identified<R> {
    open spec fn expects(&self) -> Seq<D::Kind> {
        self.t.expects()
    }

    fn expected(&self) -> (r: Vec<D::Kind>) {
        self.t.expected()
    }

    /// Data is for a receiver on the chain that the data is about.
    open spec fn serves(&self, item: &Identified<D>) -> bool {
        self.chain_id@ == item.chain_id@ && self.t.serves(&item.t)
    }

    fn can_serve(&self, item: &Identified<D>) -> (b: bool) {
        self.chain_id == item.chain_id && self.t.can_serve(&item.t)
    }
}

} // verus!
