//! Block polling on a rollup of the Scroll family.
//!
//! The rollup settles on a beacon chain, so its events are found by way of
//! beacon slots: a range of slots maps to a range of batches, a batch to a
//! range of rollup blocks, and the logs of those blocks hold the events.

use crate::block_message::{BlockPollingTypes, Data, Fetch, FetchBlockRange};
use crate::data::ChainEvent;
use crate::queue_msg::aggregation::{handed_over, join, HListTryFromIterator, UseAggregate};
use crate::data::{ChannelEnd, ConnectionEnd};
use crate::events::IbcEvent;
use crate::hash::H256;
use crate::height::Height;
use crate::ibc_path::{ChannelEndPath, ConnectionPath};
use crate::queue_msg::{conc, fetch, noop, terms, QueueMsg, QueueTerm};
use std::collections::VecDeque;
use crate::relay_message::{id, Identified};
use vstd::prelude::*;

verus! {

/// The revision number of every height of the rollup.
pub const SCROLL_REVISION_NUMBER: u64 = 0;

/// Find the events between two heights of the rollup.
#[derive(Debug, Clone, Copy, PartialEq, Eq, Structural)]
pub struct FetchEvents {
    pub from_height: Height,
    pub to_height: Height,
}

/// Find the events that the rollup settled between two beacon slots.
#[derive(Debug, Clone, Copy, PartialEq, Eq, Structural)]
pub struct FetchGetLogs {
    pub from_slot: u64,
    pub to_slot: u64,
}

/// Walk the beacon chain between two slots.
#[derive(Debug, Clone, Copy, PartialEq, Eq, Structural)]
pub struct FetchBeaconBlockRange {
    pub from_slot: u64,
    pub to_slot: u64,
}

/// Read a channel end as of a height.
#[derive(Debug, Clone, PartialEq, Eq)]
pub struct FetchChannel {
    pub height: Height,
    pub path: ChannelEndPath,
}

/// Read a connection end as of a height.
#[derive(Debug, Clone, PartialEq, Eq)]
pub struct FetchConnection {
    pub height: Height,
    pub path: ConnectionPath,
}

/// What block polling reads on the rollup.
#[derive(Debug, Clone, PartialEq, Eq)]
pub enum ScrollFetch {
    FetchEvents(FetchEvents),
    FetchGetLogs(FetchGetLogs),
    FetchBeaconBlockRange(FetchBeaconBlockRange),
    FetchChannel(FetchChannel),
    FetchConnection(FetchConnection),
}

/// The batch that was last settled as of a beacon slot.
#[derive(Debug, Clone, Copy, PartialEq, Eq, Structural)]
pub struct FetchBatchIndex {
    pub beacon_slot: u64,
    pub batch_index: u64,
}

/// A channel end read from the rollup.
#[derive(Debug, Clone, PartialEq, Eq)]
pub struct ChannelData(pub ChannelEnd);

/// A connection end read from the rollup.
#[derive(Debug, Clone, PartialEq, Eq)]
pub struct ConnectionData(pub ConnectionEnd);

/// What block polling on the rollup hands back.
#[derive(Debug, Clone, PartialEq, Eq)]
pub enum ScrollData {
    Channel(ChannelData),
    Connection(ConnectionData),
}

/// Complete the event of a log with the channel it is about.
#[derive(Debug, Clone, PartialEq, Eq)]
pub struct AggregateWithChannel {
    pub event: IbcEvent,
    pub event_height: Height,
    pub tx_hash: H256,
}

/// Complete the event of a log with the connection it is about.
#[derive(Debug, Clone, PartialEq, Eq)]
pub struct AggregateWithConnection {
    pub event: IbcEvent,
    pub event_height: Height,
    pub tx_hash: H256,
}

/// The receivers of block polling on the rollup.
#[derive(Debug, Clone, PartialEq, Eq)]
pub enum ScrollAggregate {
    AggregateWithChannel(AggregateWithChannel),
    AggregateWithConnection(AggregateWithConnection),
}

/// What is to be done next for a fetch.
#[derive(Debug, PartialEq, Eq)]
pub enum FetchStep {
    /// The fetch has been reduced to this term.
    Reduced(QueueMsg<BlockPollingTypes>),
    /// Ask the rollup which batch was last settled as of each of the two
    /// slots, then go on with `FetchGetLogs::on_batch_indices`.
    ReadBatchIndices(FetchGetLogs),
    /// Walk the beacon chain over this range of slots.
    WalkBeaconChain(FetchBeaconBlockRange),
}

/// What is to be done next once the batches of the two slots are known.
#[derive(Debug, PartialEq, Eq)]
pub enum BatchStep {
    /// Both slots fall into one batch, so nothing new was settled: the fetch
    /// has been reduced to this term.
    Reduced(QueueMsg<BlockPollingTypes>),
    /// Ask the rollup for the height at which each of the two batches was
    /// settled, then go on with `FetchGetLogs::log_filter`.
    ReadScrollHeights { from_batch_index: u64, to_batch_index: u64 },
}

/// The logs to read: those of the blocks `from_block` to `to_block`, both
/// included. Their events are recorded at `event_height`.
#[derive(Debug, Clone, Copy, PartialEq, Eq, Structural)]
pub struct LogFilter {
    pub from_block: u64,
    pub to_block: u64,
    pub event_height: Height,
}

/// Reduces a request for the events of a range of blocks of the rollup
/// `chain_id` to a request for its events between the two heights.
pub fn fetch_block_range(chain_id: String, range: FetchBlockRange) -> (r: QueueMsg<
    BlockPollingTypes,
>)
    ensures
        r@ == QueueTerm::<BlockPollingTypes>::Fetch(
            Identified {
                chain_id,
                t: Fetch::Scroll(
                    ScrollFetch::FetchEvents(
                        FetchEvents { from_height: range.from_height, to_height: range.to_height },
                    ),
                ),
            },
        ),
{
    fetch(
        id(
            chain_id,
            Fetch::Scroll(
                ScrollFetch::FetchEvents(
                    FetchEvents { from_height: range.from_height, to_height: range.to_height },
                ),
            ),
        ),
    )
}

impl ScrollFetch {
    /// Whether the way to reduce this fetch is settled. How a channel end or
    /// a connection end is read from the rollup is not.
    pub open spec fn is_supported(self) -> bool {
        !(self is FetchChannel) && !(self is FetchConnection)
    }

    /// What `do_fetch` makes of this fetch on the rollup `chain_id`.
    pub open spec fn step(self, chain_id: String) -> FetchStepView {
        match self {
            ScrollFetch::FetchEvents(f) => FetchStepView::Reduced(
                QueueTerm::Fetch(
                    Identified {
                        chain_id,
                        t: Fetch::Scroll(
                            ScrollFetch::FetchBeaconBlockRange(
                                FetchBeaconBlockRange {
                                    from_slot: f.from_height.revision_height,
                                    to_slot: f.to_height.revision_height,
                                },
                            ),
                        ),
                    },
                ),
            ),
            ScrollFetch::FetchGetLogs(f) => FetchStepView::ReadBatchIndices(f),
            ScrollFetch::FetchBeaconBlockRange(f) => FetchStepView::WalkBeaconChain(f),
            _ => FetchStepView::Reduced(QueueTerm::Noop),
        }
    }

    /// Decides what is to be done for a fetch on the rollup `chain_id`.
    ///
    /// A request for events between two heights becomes a walk of the beacon
    /// chain between the slots that the heights name. A request for the logs
    /// between two slots first needs the batches of the two slots. A walk of
    /// the beacon chain is handed on as it is.
    pub fn do_fetch(chain_id: String, msg: ScrollFetch) -> (r: FetchStep)
        requires
            msg.is_supported(),
        ensures
            r@ == msg.step(chain_id),
    {
        match msg {
            ScrollFetch::FetchEvents(FetchEvents { from_height, to_height }) => FetchStep::Reduced(
                fetch(
                    id(
                        chain_id,
                        Fetch::Scroll(
                            ScrollFetch::FetchBeaconBlockRange(
                                FetchBeaconBlockRange {
                                    from_slot: from_height.revision_height,
                                    to_slot: to_height.revision_height,
                                },
                            ),
                        ),
                    ),
                ),
            ),
            ScrollFetch::FetchGetLogs(get_logs) => FetchStep::ReadBatchIndices(get_logs),
            ScrollFetch::FetchBeaconBlockRange(range) => FetchStep::WalkBeaconChain(range),
            ScrollFetch::FetchChannel(_) => unreached(),
            ScrollFetch::FetchConnection(_) => unreached(),
        }
    }
}

/// A `FetchStep` as a mathematical value.
pub ghost enum FetchStepView {
    Reduced(QueueTerm<BlockPollingTypes>),
    ReadBatchIndices(FetchGetLogs),
    WalkBeaconChain(FetchBeaconBlockRange),
}

impl View for FetchStep {
    type V = FetchStepView;

    open spec fn view(&self) -> FetchStepView {
        match self {
            FetchStep::Reduced(msg) => FetchStepView::Reduced(msg@),
            FetchStep::ReadBatchIndices(f) => FetchStepView::ReadBatchIndices(*f),
            FetchStep::WalkBeaconChain(f) => FetchStepView::WalkBeaconChain(*f),
        }
    }
}

impl FetchGetLogs {
    /// The height at which the events of this fetch are recorded: the slot
    /// that ends the range.
    pub open spec fn event_height(self) -> Height {
        Height { revision_number: SCROLL_REVISION_NUMBER, revision_height: self.to_slot }
    }

    /// Decides what is to be done once the batches of the two slots are
    /// known. Between two slots the rollup settles at most one batch.
    pub fn on_batch_indices(&self, from_batch_index: u64, to_batch_index: u64) -> (r: BatchStep)
        requires
            from_batch_index == to_batch_index || from_batch_index + 1 == to_batch_index,
        ensures
            from_batch_index == to_batch_index ==> (r matches BatchStep::Reduced(msg) && msg@
                == QueueTerm::<BlockPollingTypes>::Noop),
            from_batch_index != to_batch_index ==> (r matches BatchStep::ReadScrollHeights {
                from_batch_index: from,
                to_batch_index: to,
            } && from == from_batch_index && to == to_batch_index),
    {
        if from_batch_index == to_batch_index {
            BatchStep::Reduced(noop())
        } else {
            BatchStep::ReadScrollHeights { from_batch_index, to_batch_index }
        }
    }

    /// The logs to read once the heights at which the two batches were
    /// settled are known: from the first height up to the block before the
    /// second, so that no block is read twice.
    pub fn log_filter(&self, from_scroll_height: u64, to_scroll_height: u64) -> (r: LogFilter)
        requires
            to_scroll_height >= 1,
        ensures
            r.from_block == from_scroll_height,
            r.to_block == to_scroll_height - 1,
            r.event_height == self.event_height(),
    {
        LogFilter {
            from_block: from_scroll_height,
            to_block: to_scroll_height - 1,
            event_height: Height {
                revision_number: SCROLL_REVISION_NUMBER,
                revision_height: self.to_slot,
            },
        }
    }
}

/// Reduces a fetch of logs to the terms made of the logs that were read,
/// side by side and in the order of the logs.
pub fn on_logs(events: Vec<QueueMsg<BlockPollingTypes>>) -> (r: QueueMsg<BlockPollingTypes>)
    ensures
        r@ == QueueTerm::<BlockPollingTypes>::Concurrent(terms(events@)),
{
    conc(events)
}

impl AggregateWithChannel {
    /// The event of the log, said to have happened on the connection that
    /// the channel runs over: the first of its hops. Where the channel
    /// names no hop, the event stays as it is.
    pub open spec fn completed(self, channel: ChannelData) -> IbcEvent {
        if channel.0.connection_hops@.len() > 0 {
            self.event.on_connection(channel.0.connection_hops@[0])
        } else {
            self.event
        }
    }
}

impl AggregateWithConnection {
    /// The event of the log, said to be about the light clients of the two
    /// ends of the connection.
    pub open spec fn completed(self, connection: ConnectionData) -> IbcEvent {
        self.event.between_clients(connection.0.client_id, connection.0.counterparty_client_id)
    }
}

impl UseAggregate<BlockPollingTypes> for Identified<AggregateWithChannel> {
    type AggregatedData = (Identified<ChannelData>, ());

    /// Hands on the completed event as an event of the chain, seen at the
    /// height and in the transaction of the log.
    open spec fn continuation(self, data: Self::AggregatedData) -> QueueTerm<BlockPollingTypes> {
        QueueTerm::Data(
            Identified {
                chain_id: self.chain_id,
                t: Data::ChainEvent(
                    ChainEvent {
                        tx_hash: self.t.tx_hash,
                        height: self.t.event_height,
                        event: self.t.completed(data.0.t),
                    },
                ),
            },
        )
    }

    fn aggregate(this: Self, data: Self::AggregatedData) -> (r: QueueMsg<BlockPollingTypes>) {
        let channel = data.0.t.0;
        let AggregateWithChannel { event, event_height, tx_hash } = this.t;
        let event = if channel.connection_hops.len() > 0 {
            event.with_connection(channel.connection_hops[0].clone())
        } else {
            event
        };
        crate::queue_msg::data(
            id(
                this.chain_id,
                Data::ChainEvent(ChainEvent { tx_hash, height: event_height, event }),
            ),
        )
    }
}

impl UseAggregate<BlockPollingTypes> for Identified<AggregateWithConnection> {
    type AggregatedData = (Identified<ConnectionData>, ());

    /// Hands on the completed event as an event of the chain, seen at the
    /// height and in the transaction of the log.
    open spec fn continuation(self, data: Self::AggregatedData) -> QueueTerm<BlockPollingTypes> {
        QueueTerm::Data(
            Identified {
                chain_id: self.chain_id,
                t: Data::ChainEvent(
                    ChainEvent {
                        tx_hash: self.t.tx_hash,
                        height: self.t.event_height,
                        event: self.t.completed(data.0.t),
                    },
                ),
            },
        )
    }

    fn aggregate(this: Self, data: Self::AggregatedData) -> (r: QueueMsg<BlockPollingTypes>) {
        let connection = data.0.t.0;
        let AggregateWithConnection { event, event_height, tx_hash } = this.t;
        let event = event.with_clients(connection.client_id, connection.counterparty_client_id);
        crate::queue_msg::data(
            id(
                this.chain_id,
                Data::ChainEvent(ChainEvent { tx_hash, height: event_height, event }),
            ),
        )
    }
}

/// The kinds of data that a receiver of the rollup asks for.
pub open spec fn asked_for(receiver: ScrollAggregate) -> Seq<crate::block_message::DataKind> {
    match receiver {
        ScrollAggregate::AggregateWithChannel(_) => <(Identified<ChannelData>, ()) as HListTryFromIterator<
            Identified<Data>,
        >>::kinds(),
        ScrollAggregate::AggregateWithConnection(_) => <(
            Identified<ConnectionData>,
            (),
        ) as HListTryFromIterator<Identified<Data>>>::kinds(),
    }
}

/// Hands the data in `data` to the receiver, whichever of the two it is,
/// and returns the term it continues with, together with the data that the
/// receiver did not ask for.
pub fn do_aggregate(receiver: Identified<ScrollAggregate>, data: VecDeque<Identified<Data>>) -> (r:
    (QueueMsg<BlockPollingTypes>, VecDeque<Identified<Data>>))
    requires
        join(data@, asked_for(receiver.t)) is Some,
    ensures
        r.1@ == join(data@, asked_for(receiver.t))->Some_0.1,
        r.0@ == match receiver.t {
            ScrollAggregate::AggregateWithChannel(msg) => (Identified {
                chain_id: receiver.chain_id,
                t: msg,
            }).continuation(
                handed_over::<BlockPollingTypes, Identified<AggregateWithChannel>>(data@),
            ),
            ScrollAggregate::AggregateWithConnection(msg) => (Identified {
                chain_id: receiver.chain_id,
                t: msg,
            }).continuation(
                handed_over::<BlockPollingTypes, Identified<AggregateWithConnection>>(data@),
            ),
        },
{
    let Identified { chain_id, t } = receiver;
    match t {
        ScrollAggregate::AggregateWithChannel(msg) => crate::queue_msg::aggregation::do_aggregate(
            id(chain_id, msg),
            data,
        ),
        ScrollAggregate::AggregateWithConnection(msg) => crate::queue_msg::aggregation::do_aggregate(
            id(chain_id, msg),
            data,
        ),
    }
}

/// What a receiver of the rollup asks for as a typed list is what the
/// queue matches its data against.
pub proof fn lemma_asked_for_is_expected(receiver: ScrollAggregate)
    ensures
        crate::queue_msg::aggregation::Receiver::<Data>::expects(
            &crate::block_message::Aggregate::Scroll(receiver),
        ) == asked_for(receiver),
{
    assert(crate::queue_msg::aggregation::Receiver::<Data>::expects(
        &crate::block_message::Aggregate::Scroll(receiver),
    ) =~= asked_for(receiver));
}

/// The heights at which events are recorded do not go down from one fetch
/// of logs to the next: where the second range ends no lower than the
/// first, its events are recorded no lower, and the two are recorded at the
/// same height only where the ranges end at the same slot.
pub proof fn lemma_event_heights_rise(first: FetchGetLogs, second: FetchGetLogs)
    requires
        first.to_slot <= second.to_slot,
    ensures
        first.event_height().at_most(second.event_height()),
        first.event_height() == second.event_height() <==> first.to_slot == second.to_slot,
        first.to_slot < second.to_slot ==> first.event_height().before(second.event_height()),
{
}

} // verus!
