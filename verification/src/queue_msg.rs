//! The queue algebra: the terms that the relayer's queue holds.
//!
//! A term is a unit of work. Leaves name one thing to do on one chain: fetch
//! something, wait for something, react to an event, submit a transaction.
//! Inner terms order their children: one after the other, side by side, again
//! and again, until a deadline, or until the data they yield can be joined.

pub mod aggregation;
pub mod reduce;
pub mod route;

use std::collections::VecDeque;
use vstd::prelude::*;

verus! {

/// The payload types of one family of queue terms.
pub trait QueueMsgTypes {
    /// Something that happened and asks for a reaction.
    type Event: core::fmt::Debug + PartialEq + Eq + Clone;

    /// What a fetch or an effect hands back.
    type Data: aggregation::Kinded + core::fmt::Debug + PartialEq + Eq + Clone;

    /// A request to read from a chain.
    type Fetch: core::fmt::Debug + PartialEq + Eq + Clone;

    /// A transaction to submit.
    type Effect: core::fmt::Debug + PartialEq + Eq + Clone;

    /// A barrier on a height or on time.
    type Wait: core::fmt::Debug + PartialEq + Eq + Clone;

    /// What receives the data that an aggregate has collected.
    type Aggregate: aggregation::Receiver<Self::Data> + core::fmt::Debug + PartialEq + Eq + Clone;
}

/// A term of the queue.
#[derive(Debug, PartialEq, Eq)]
pub enum QueueMsg<T: QueueMsgTypes> {
    /// Nothing left to do.
    Noop,
    /// React to an event.
    Event(T::Event),
    /// Hand a piece of data to whatever waits for it.
    Data(T::Data),
    /// Read from a chain.
    Fetch(T::Fetch),
    /// Submit a transaction.
    Effect(T::Effect),
    /// Hold until a condition is met.
    Wait(T::Wait),
    /// Run `queue`, collect what it yields into `data`, then hand the data to
    /// `receiver`.
    Aggregate { queue: Vec<QueueMsg<T>>, data: VecDeque<T::Data>, receiver: T::Aggregate },
    /// Run the terms one after the other, each only once the one before is done.
    Sequence(Vec<QueueMsg<T>>),
    /// Run the terms independently of each other.
    Concurrent(Vec<QueueMsg<T>>),
    /// Run the term, and once it is done, run it again.
    Repeat(Box<QueueMsg<T>>),
    /// Run the term unless the wall clock has passed `deadline`.
    Timeout { deadline: u64, msg: Box<QueueMsg<T>> },
}

/// A queue term as a mathematical value: the same tree with sequences for
/// its lists. The payloads stand for themselves.
pub ghost enum QueueTerm<T: QueueMsgTypes> {
    Noop,
    Event(T::Event),
    Data(T::Data),
    Fetch(T::Fetch),
    Effect(T::Effect),
    Wait(T::Wait),
    Aggregate { queue: Seq<QueueTerm<T>>, data: Seq<T::Data>, receiver: T::Aggregate },
    Sequence(Seq<QueueTerm<T>>),
    Concurrent(Seq<QueueTerm<T>>),
    Repeat(Box<QueueTerm<T>>),
    Timeout { deadline: u64, msg: Box<QueueTerm<T>> },
}

impl<T: QueueMsgTypes> QueueMsg<T> {
    /// The mathematical value of this term.
    pub open spec fn term(self) -> QueueTerm<T>
        decreases self,
    {
        match self {
            QueueMsg::Noop => QueueTerm::Noop,
            QueueMsg::Event(e) => QueueTerm::Event(e),
            QueueMsg::Data(d) => QueueTerm::Data(d),
            QueueMsg::Fetch(f) => QueueTerm::Fetch(f),
            QueueMsg::Effect(e) => QueueTerm::Effect(e),
            QueueMsg::Wait(w) => QueueTerm::Wait(w),
            QueueMsg::Aggregate { queue, data, receiver } => QueueTerm::Aggregate {
                queue: Seq::new(
                    queue@.len(),
                    |i: int|
                        if 0 <= i < queue@.len() {
                            queue@[i].term()
                        } else {
                            QueueTerm::Noop
                        },
                ),
                data: data@,
                receiver,
            },
            QueueMsg::Sequence(msgs) => QueueTerm::Sequence(
                Seq::new(
                    msgs@.len(),
                    |i: int|
                        if 0 <= i < msgs@.len() {
                            msgs@[i].term()
                        } else {
                            QueueTerm::Noop
                        },
                ),
            ),
            QueueMsg::Concurrent(msgs) => QueueTerm::Concurrent(
                Seq::new(
                    msgs@.len(),
                    |i: int|
                        if 0 <= i < msgs@.len() {
                            msgs@[i].term()
                        } else {
                            QueueTerm::Noop
                        },
                ),
            ),
            QueueMsg::Repeat(msg) => QueueTerm::Repeat(Box::new(msg.term())),
            QueueMsg::Timeout { deadline, msg } => QueueTerm::Timeout {
                deadline,
                msg: Box::new(msg.term()),
            },
        }
    }
}

impl<T: QueueMsgTypes> View for QueueMsg<T> {
    type V = QueueTerm<T>;

    open spec fn view(&self) -> QueueTerm<T> {
        self.term()
    }
}

/// The values of a list of terms, in order.
pub open spec fn terms<T: QueueMsgTypes>(msgs: Seq<QueueMsg<T>>) -> Seq<QueueTerm<T>> {
    Seq::new(msgs.len(), |i: int| msgs[i]@)
}

/// The term with nothing to do.
pub fn noop<T: QueueMsgTypes>() -> (r: QueueMsg<T>)
    ensures
        r@ == QueueTerm::<T>::Noop,
{
    QueueMsg::Noop
}

/// The term that reacts to `t`.
pub fn event<T: QueueMsgTypes>(t: T::Event) -> (r: QueueMsg<T>)
    ensures
        r@ == QueueTerm::<T>::Event(t),
{
    QueueMsg::Event(t)
}

/// The term that hands on the piece of data `t`.
pub fn data<T: QueueMsgTypes>(t: T::Data) -> (r: QueueMsg<T>)
    ensures
        r@ == QueueTerm::<T>::Data(t),
{
    QueueMsg::Data(t)
}

/// The term that fetches `t`.
pub fn fetch<T: QueueMsgTypes>(t: T::Fetch) -> (r: QueueMsg<T>)
    ensures
        r@ == QueueTerm::<T>::Fetch(t),
{
    QueueMsg::Fetch(t)
}

/// The term that submits `t`.
pub fn effect<T: QueueMsgTypes>(t: T::Effect) -> (r: QueueMsg<T>)
    ensures
        r@ == QueueTerm::<T>::Effect(t),
{
    QueueMsg::Effect(t)
}

/// The term that waits for `t`.
pub fn wait<T: QueueMsgTypes>(t: T::Wait) -> (r: QueueMsg<T>)
    ensures
        r@ == QueueTerm::<T>::Wait(t),
{
    QueueMsg::Wait(t)
}

/// The term that runs `msgs` one after the other.
pub fn seq<T: QueueMsgTypes>(msgs: Vec<QueueMsg<T>>) -> (r: QueueMsg<T>)
    ensures
        r@ == QueueTerm::<T>::Sequence(terms(msgs@)),
{
    let r = QueueMsg::Sequence(msgs);
    assert(r@->Sequence_0 =~= terms(msgs@));
    r
}

/// The term that runs `msgs` side by side.
pub fn conc<T: QueueMsgTypes>(msgs: Vec<QueueMsg<T>>) -> (r: QueueMsg<T>)
    ensures
        r@ == QueueTerm::<T>::Concurrent(terms(msgs@)),
{
    let r = QueueMsg::Concurrent(msgs);
    assert(r@->Concurrent_0 =~= terms(msgs@));
    r
}

/// The term that runs `queue`, starting from the data already in `data`, and
/// hands what was collected to `receiver`.
pub fn aggregate<T: QueueMsgTypes>(
    queue: Vec<QueueMsg<T>>,
    data: VecDeque<T::Data>,
    receiver: T::Aggregate,
) -> (r: QueueMsg<T>)
    ensures
        r@ == (QueueTerm::<T>::Aggregate { queue: terms(queue@), data: data@, receiver }),
{
    let r = QueueMsg::Aggregate { queue, data, receiver };
    assert(r@->queue =~= terms(queue@));
    r
}

/// The term that runs `msg` again each time it is done.
pub fn repeat<T: QueueMsgTypes>(msg: QueueMsg<T>) -> (r: QueueMsg<T>)
    ensures
        r@ == QueueTerm::<T>::Repeat(Box::new(msg@)),
{
    QueueMsg::Repeat(Box::new(msg))
}

/// The term that runs `msg` as long as the wall clock has not passed `deadline`.
pub fn timeout<T: QueueMsgTypes>(deadline: u64, msg: QueueMsg<T>) -> (r: QueueMsg<T>)
    ensures
        r@ == (QueueTerm::<T>::Timeout { deadline, msg: Box::new(msg@) }),
{
    QueueMsg::Timeout { deadline, msg: Box::new(msg) }
}

} // verus!
