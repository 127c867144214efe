//! The terms of the block-polling queue: what the relayer does to find the
//! events of a chain, block range by block range.

pub mod scroll;

use crate::data::ChainEvent;
use crate::errors::Never;
use crate::height::Height;
use crate::queue_msg::aggregation::{Kinded, Receiver, Variant};
use crate::queue_msg::QueueMsgTypes;
use crate::relay_message::Identified;
use vstd::prelude::*;

verus! {

/// The payload types of the block-polling queue. It reacts to no events and
/// submits no transactions.
#[derive(Debug, Clone, PartialEq, Eq)]
pub struct BlockPollingTypes;

impl QueueMsgTypes for BlockPollingTypes {
    type Event = Never;

    type Data = Identified<Data>;

    type Fetch = Identified<Fetch>;

    type Effect = Never;

    type Wait = Identified<Wait>;

    type Aggregate = Identified<Aggregate>;
}

/// Find the events of the blocks from `from_height` on and before `to_height`.
#[derive(Debug, Clone, Copy, PartialEq, Eq, Structural)]
pub struct FetchBlockRange {
    pub from_height: Height,
    pub to_height: Height,
}

/// A read request of the block-polling queue.
#[derive(Debug, Clone, PartialEq, Eq)]
pub enum Fetch {
    /// Read the chain's latest height.
    Block,
    /// Find the events of a range of blocks.
    BlockRange(FetchBlockRange),
    /// What only a rollup chain of the Scroll family reads.
    Scroll(scroll::ScrollFetch),
}

/// Hold until the chain has reached a height.
#[derive(Debug, Clone, Copy, PartialEq, Eq, Structural)]
pub struct Wait {
    pub height: Height,
}

/// A piece of data of the block-polling queue.
#[derive(Debug, Clone, PartialEq, Eq)]
pub enum Data {
    /// An event that was found.
    ChainEvent(ChainEvent),
    /// The latest height of the chain.
    LatestHeight(Height),
    /// What only a rollup chain of the Scroll family hands back.
    Scroll(scroll::ScrollData),
}

/// The kinds of data of the block-polling queue.
#[derive(Debug, Clone, Copy, PartialEq, Eq, Structural)]
pub enum DataKind {
    ChainEvent,
    LatestHeight,
    ScrollChannel,
    ScrollConnection,
}

/// A receiver of the block-polling queue.
#[derive(Debug, Clone, PartialEq, Eq)]
pub enum Aggregate {
    /// A receiver of a rollup chain of the Scroll family.
    Scroll(scroll::ScrollAggregate),
}

impl Data {
    /// The kind of this piece of data.
    pub open spec fn kind_of(self) -> DataKind {
        match self {
            Data::ChainEvent(_) => DataKind::ChainEvent,
            Data::LatestHeight(_) => DataKind::LatestHeight,
            Data::Scroll(scroll::ScrollData::Channel(_)) => DataKind::ScrollChannel,
            Data::Scroll(scroll::ScrollData::Connection(_)) => DataKind::ScrollConnection,
        }
    }

    /// The kind of this piece of data.
    pub fn kind(&self) -> (r: DataKind)
        ensures
            r == self.kind_of(),
    {
        match self {
            Data::ChainEvent(_) => DataKind::ChainEvent,
            Data::LatestHeight(_) => DataKind::LatestHeight,
            Data::Scroll(scroll::ScrollData::Channel(_)) => DataKind::ScrollChannel,
            Data::Scroll(scroll::ScrollData::Connection(_)) => DataKind::ScrollConnection,
        }
    }
}

impl Kinded for Data {
    type Kind = DataKind;

    open spec fn kind_of(&self) -> DataKind {
        Data::kind_of(*self)
    }

    fn is_kind(&self, kind: &DataKind) -> (b: bool) {
        self.kind() == *kind
    }
}

impl Variant<Data> for scroll::ChannelData {
    open spec fn kind() -> DataKind {
        DataKind::ScrollChannel
    }

    open spec fn item(self) -> Data {
        Data::Scroll(scroll::ScrollData::Channel(self))
    }

    open spec fn of_item(item: Data) -> scroll::ChannelData {
        match item {
            Data::Scroll(scroll::ScrollData::Channel(value)) => value,
            _ => arbitrary(),
        }
    }

    proof fn lemma_of_item(self) {
    }

    fn kind_tag() -> (k: DataKind) {
        DataKind::ScrollChannel
    }

    fn try_from_item(item: Data) -> (r: Result<scroll::ChannelData, Data>) {
        match item {
            Data::Scroll(scroll::ScrollData::Channel(value)) => Ok(value),
            other => Err(other),
        }
    }
}

impl Variant<Data> for scroll::ConnectionData {
    open spec fn kind() -> DataKind {
        DataKind::ScrollConnection
    }

    open spec fn item(self) -> Data {
        Data::Scroll(scroll::ScrollData::Connection(self))
    }

    open spec fn of_item(item: Data) -> scroll::ConnectionData {
        match item {
            Data::Scroll(scroll::ScrollData::Connection(value)) => value,
            _ => arbitrary(),
        }
    }

    proof fn lemma_of_item(self) {
    }

    fn kind_tag() -> (k: DataKind) {
        DataKind::ScrollConnection
    }

    fn try_from_item(item: Data) -> (r: Result<scroll::ConnectionData, Data>) {
        match item {
            Data::Scroll(scroll::ScrollData::Connection(value)) => Ok(value),
            other => Err(other),
        }
    }
}

impl Receiver<Data> for Aggregate {
    /// Each receiver takes what it completes the event of a log with: the
    /// channel or the connection.
    open spec fn expects(&self) -> Seq<DataKind> {
        match self {
            Aggregate::Scroll(scroll::ScrollAggregate::AggregateWithChannel(_)) => seq![
                DataKind::ScrollChannel,
            ],
            Aggregate::Scroll(scroll::ScrollAggregate::AggregateWithConnection(_)) => seq![
                DataKind::ScrollConnection,
            ],
        }
    }

    fn expected(&self) -> (r: Vec<DataKind>) {
        let r = match self {
            Aggregate::Scroll(scroll::ScrollAggregate::AggregateWithChannel(_)) => vec![
                DataKind::ScrollChannel,
            ],
            Aggregate::Scroll(scroll::ScrollAggregate::AggregateWithConnection(_)) => vec![
                DataKind::ScrollConnection,
            ],
        };
        assert(r@ =~= self.expects());
        r
    }

    /// A receiver without a chain takes data wherever it is from.
    open spec fn serves(&self, item: &Data) -> bool {
        true
    }

    fn can_serve(&self, item: &Data) -> (b: bool) {
        true
    }
}

} // verus!
