//! The terms of the relay queue: what the relayer fetches, waits for, joins
//! and reacts to while it carries handshakes and packets between two chains.

pub mod aggregate;
pub mod event;
pub mod fetch;
pub mod soundness;
pub mod wait;

use crate::queue_msg::QueueMsgTypes;
use vstd::prelude::*;

verus! {

/// A payload together with the chain it is about.
#[derive(Debug, Clone, PartialEq, Eq)]
pub struct Identified<T> {
    pub chain_id: String,
    pub t: T,
}

/// Tags `t` with the chain it is about.
pub fn id<T>(chain_id: String, t: T) -> (r: Identified<T>)
    ensures
        r == (Identified { chain_id, t }),
{
    Identified { chain_id, t }
}

/// The payload types of the relay queue.
#[derive(Debug, Clone, PartialEq, Eq)]
pub struct RelayerMsgTypes;

impl QueueMsgTypes for RelayerMsgTypes {
    type Event = Identified<event::Event>;

    type Data = Identified<crate::data::Data>;

    type Fetch = Identified<fetch::Fetch>;

    type Effect = Identified<crate::effect::Effect>;

    type Wait = Identified<wait::Wait>;

    type Aggregate = Identified<aggregate::Aggregate>;
}

} // verus!
