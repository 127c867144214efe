//! The reduction rules of the queue algebra.
//!
//! Reducing a term either replaces it by another term, with no work done
//! outside, or comes to a leaf that asks for work outside: a fetch, a wait,
//! an event, an effect, a receiver to hand data to, or data to wait for. The
//! leaf comes with the context it stands in, and once the work has yielded a
//! term, `resume` puts that term in the place of the leaf.
//!
//! Data that stands in a term goes up to the innermost aggregate around it.
//! Where there is none, reducing the term hands the data out, for an
//! aggregate that waits elsewhere.

use crate::queue_msg::aggregation::{join, match_data, Kinded, Receiver};
use crate::queue_msg::{terms, QueueMsg, QueueMsgTypes, QueueTerm};
use vstd::pervasive::cloned;
use std::collections::VecDeque;
use vstd::prelude::*;

verus! {

/// Work to be done outside the queue.
#[derive(Debug, PartialEq, Eq)]
pub enum Leaf<T: QueueMsgTypes> {
    /// Lower an event.
    Event(T::Event),
    /// Read from a chain.
    Fetch(T::Fetch),
    /// Submit a transaction.
    Effect(T::Effect),
    /// Test a barrier.
    Wait(T::Wait),
    /// Hand `data` to `receiver`: it is what the receiver asks for, one item
    /// for each kind and in the order of the kinds.
    Fire { receiver: T::Aggregate, data: VecDeque<T::Data> },
    /// Keep the aggregate of `receiver` until more data has come: `data`
    /// does not hold what the receiver asks for, and nothing is left to run
    /// that could yield it.
    AwaitData { receiver: T::Aggregate, data: VecDeque<T::Data> },
}

/// One layer of the context of a leaf: the term it stands in, without the
/// child that holds the leaf.
#[derive(Debug, PartialEq, Eq)]
pub enum Frame<T: QueueMsgTypes> {
    /// The head of a sequence with this tail.
    Sequence(Vec<QueueMsg<T>>),
    /// The first of the terms of a concurrent term with these others.
    Concurrent(Vec<QueueMsg<T>>),
    /// The term under a timeout with this deadline.
    Timeout(u64),
    /// The first term of the queue of an aggregate, with the rest of it.
    Aggregate { queue: Vec<QueueMsg<T>>, data: VecDeque<T::Data>, receiver: T::Aggregate },
    /// The continuation of an aggregate that fired and left this data over.
    Fired(VecDeque<T::Data>),
}

/// What reducing a term comes to.
#[derive(Debug, PartialEq, Eq)]
pub enum Reduction<T: QueueMsgTypes> {
    /// The term is replaced by this one.
    Replaced(QueueMsg<T>),
    /// Work is due outside. `context` holds the layers around the leaf, the
    /// innermost first.
    Perform { leaf: Leaf<T>, context: Vec<Frame<T>> },
    /// The deadline of a timeout around the work that is due has passed: the
    /// term is dropped as a whole.
    TimedOut,
    /// A piece of data came up to the top of the term, past every layer that
    /// could have collected it. `left` is the term without it. The data is
    /// for an aggregate outside the term to take.
    Emitted { data: T::Data, left: QueueMsg<T> },
}

/// A leaf as a mathematical value.
pub ghost enum LeafView<T: QueueMsgTypes> {
    Event(T::Event),
    Fetch(T::Fetch),
    Effect(T::Effect),
    Wait(T::Wait),
    Fire { receiver: T::Aggregate, data: Seq<T::Data> },
    AwaitData { receiver: T::Aggregate, data: Seq<T::Data> },
}

/// A frame as a mathematical value.
pub ghost enum FrameView<T: QueueMsgTypes> {
    Sequence(Seq<QueueTerm<T>>),
    Concurrent(Seq<QueueTerm<T>>),
    Timeout(u64),
    Aggregate { queue: Seq<QueueTerm<T>>, data: Seq<T::Data>, receiver: T::Aggregate },
    Fired(Seq<T::Data>),
}

/// A reduction as a mathematical value.
pub ghost enum ReductionView<T: QueueMsgTypes> {
    Replaced(QueueTerm<T>),
    Perform { leaf: LeafView<T>, context: Seq<FrameView<T>> },
    TimedOut,
    Emitted { data: T::Data, left: QueueTerm<T> },
}

impl<T: QueueMsgTypes> View for Leaf<T> {
    type V = LeafView<T>;

    open spec fn view(&self) -> LeafView<T> {
        match self {
            Leaf::Event(e) => LeafView::Event(*e),
            Leaf::Fetch(f) => LeafView::Fetch(*f),
            Leaf::Effect(e) => LeafView::Effect(*e),
            Leaf::Wait(w) => LeafView::Wait(*w),
            Leaf::Fire { receiver, data } => LeafView::Fire { receiver: *receiver, data: data@ },
            Leaf::AwaitData { receiver, data } => LeafView::AwaitData {
                receiver: *receiver,
                data: data@,
            },
        }
    }
}

impl<T: QueueMsgTypes> View for Frame<T> {
    type V = FrameView<T>;

    open spec fn view(&self) -> FrameView<T> {
        match self {
            Frame::Sequence(tail) => FrameView::Sequence(crate::queue_msg::terms(tail@)),
            Frame::Concurrent(others) => FrameView::Concurrent(crate::queue_msg::terms(others@)),
            Frame::Timeout(deadline) => FrameView::Timeout(*deadline),
            Frame::Aggregate { queue, data, receiver } => FrameView::Aggregate {
                queue: crate::queue_msg::terms(queue@),
                data: data@,
                receiver: *receiver,
            },
            Frame::Fired(rest) => FrameView::Fired(rest@),
        }
    }
}

/// The values of a list of frames, in order.
pub open spec fn frames<T: QueueMsgTypes>(context: Seq<Frame<T>>) -> Seq<FrameView<T>> {
    Seq::new(context.len(), |i: int| context[i]@)
}

impl<T: QueueMsgTypes> View for Reduction<T> {
    type V = ReductionView<T>;

    open spec fn view(&self) -> ReductionView<T> {
        match self {
            Reduction::Replaced(msg) => ReductionView::Replaced(msg@),
            Reduction::Perform { leaf, context } => ReductionView::Perform {
                leaf: leaf@,
                context: frames(context@),
            },
            Reduction::TimedOut => ReductionView::TimedOut,
            Reduction::Emitted { data, left } => ReductionView::Emitted { data: *data, left: left@ },
        }
    }
}

/// The pieces of data `data` as terms that hand them on.
pub open spec fn as_data_terms<T: QueueMsgTypes>(data: Seq<T::Data>) -> Seq<QueueTerm<T>> {
    Seq::new(data.len(), |i: int| QueueTerm::Data(data[i]))
}

/// The term that stands where the child of `frame` stood, once that child
/// has been replaced by `r`.
///
/// A sequence goes on with its tail once its head is done, and keeps a head
/// that is not. A concurrent term drops a child that is done, and moves one
/// that is not behind the others. A timeout is done with its term. An
/// aggregate drops a child that is done, takes the data that a child hands
/// on, and moves any other child to the end of its queue. What an aggregate
/// left over when it fired goes on beside its continuation.
pub open spec fn plug<T: QueueMsgTypes>(frame: FrameView<T>, r: QueueTerm<T>) -> QueueTerm<T> {
    match frame {
        FrameView::Sequence(tail) => if r is Noop {
            QueueTerm::Sequence(tail)
        } else {
            QueueTerm::Sequence(seq![r] + tail)
        },
        FrameView::Concurrent(others) => if r is Noop {
            QueueTerm::Concurrent(others)
        } else {
            QueueTerm::Concurrent(others.push(r))
        },
        FrameView::Timeout(deadline) => if r is Noop {
            QueueTerm::Noop
        } else {
            QueueTerm::Timeout { deadline, msg: Box::new(r) }
        },
        FrameView::Aggregate { queue, data, receiver } => match r {
            QueueTerm::Noop => QueueTerm::Aggregate { queue, data, receiver },
            QueueTerm::Data(d) => QueueTerm::Aggregate { queue, data: data.push(d), receiver },
            _ => QueueTerm::Aggregate { queue: queue.push(r), data, receiver },
        },
        FrameView::Fired(rest) => if rest.len() == 0 {
            r
        } else {
            QueueTerm::Concurrent(seq![r] + as_data_terms(rest))
        },
    }
}

/// The term that stands where the leaf of `context` stood, once the work
/// has yielded `r`: `r` plugged into the layers from the innermost out.
pub open spec fn resumed<T: QueueMsgTypes>(context: Seq<FrameView<T>>, r: QueueTerm<T>) -> QueueTerm<
    T,
>
    decreases context.len(),
{
    if context.len() == 0 {
        r
    } else {
        resumed(context.drop_first(), plug(context[0], r))
    }
}

/// What the reduction of a term comes to, given that the reduction of its
/// child under `frame` comes to `inner`.
///
/// Data that the child hands up passes every layer but an aggregate: the
/// aggregate takes it into its data, and what is left of the child goes
/// back into its queue.
pub open spec fn under<T: QueueMsgTypes>(frame: FrameView<T>, inner: ReductionView<T>) -> ReductionView<
    T,
> {
    match inner {
        ReductionView::Replaced(r) => ReductionView::Replaced(plug(frame, r)),
        ReductionView::Perform { leaf, context } => ReductionView::Perform {
            leaf,
            context: context.push(frame),
        },
        ReductionView::TimedOut => ReductionView::TimedOut,
        ReductionView::Emitted { data: handed_up, left } => match frame {
            FrameView::Aggregate { queue, data, receiver } => ReductionView::Replaced(
                plug(FrameView::Aggregate { queue, data: data.push(handed_up), receiver }, left),
            ),
            _ => ReductionView::Emitted { data: handed_up, left: plug(frame, left) },
        },
    }
}

/// What reducing `term` comes to when the wall clock shows `now`.
///
/// - Nothing to do stays nothing to do.
/// - An event, a fetch, an effect and a wait are work outside.
/// - Data is handed up, and leaves nothing behind. It goes up through
///   sequences, concurrent terms and timeouts to the innermost aggregate
///   around it, or out of the term where there is none.
/// - An empty sequence and an empty concurrent term are done. Otherwise
///   their first term is reduced.
/// - A repeat becomes a sequence of its term and itself.
/// - A timeout whose deadline has passed drops its term. Otherwise its
///   term is reduced.
/// - An aggregate with a queue reduces the first term of the queue, and
///   takes the data that it hands up. An aggregate without a queue
///   fires if its data holds what the receiver asks for, and waits for
///   data if not.
pub open spec fn reduction<T: QueueMsgTypes>(term: QueueTerm<T>, now: u64) -> ReductionView<T>
    decreases term,
{
    match term {
        QueueTerm::Noop => ReductionView::Replaced(QueueTerm::Noop),
        QueueTerm::Event(e) => ReductionView::Perform {
            leaf: LeafView::Event(e),
            context: Seq::empty(),
        },
        QueueTerm::Data(d) => ReductionView::Emitted { data: d, left: QueueTerm::Noop },
        QueueTerm::Fetch(f) => ReductionView::Perform {
            leaf: LeafView::Fetch(f),
            context: Seq::empty(),
        },
        QueueTerm::Effect(e) => ReductionView::Perform {
            leaf: LeafView::Effect(e),
            context: Seq::empty(),
        },
        QueueTerm::Wait(w) => ReductionView::Perform {
            leaf: LeafView::Wait(w),
            context: Seq::empty(),
        },
        QueueTerm::Sequence(msgs) => if msgs.len() == 0 {
            ReductionView::Replaced(QueueTerm::Noop)
        } else {
            under(FrameView::Sequence(msgs.drop_first()), reduction(msgs[0], now))
        },
        QueueTerm::Concurrent(msgs) => if msgs.len() == 0 {
            ReductionView::Replaced(QueueTerm::Noop)
        } else {
            under(FrameView::Concurrent(msgs.drop_first()), reduction(msgs[0], now))
        },
        QueueTerm::Repeat(msg) => ReductionView::Replaced(
            QueueTerm::Sequence(seq![*msg, QueueTerm::Repeat(msg)]),
        ),
        QueueTerm::Timeout { deadline, msg } => if now > deadline {
            ReductionView::TimedOut
        } else {
            under(FrameView::Timeout(deadline), reduction(*msg, now))
        },
        QueueTerm::Aggregate { queue, data, receiver } => if queue.len() > 0 {
            under(
                FrameView::Aggregate { queue: queue.drop_first(), data, receiver },
                reduction(queue[0], now),
            )
        } else {
            match join(data, receiver.expects()) {
                Some((matched, rest)) => ReductionView::Perform {
                    leaf: LeafView::Fire { receiver, data: matched },
                    context: seq![FrameView::Fired(rest)],
                },
                None => ReductionView::Perform {
                    leaf: LeafView::AwaitData { receiver, data },
                    context: Seq::empty(),
                },
            }
        },
    }
}

/// Whether `copy` is `source` or a copy of it: the same tree, with a
/// clone in the place of each payload.
pub open spec fn copy_of<T: QueueMsgTypes>(source: QueueTerm<T>, copy: QueueTerm<T>) -> bool
    decreases source,
{
    match source {
        QueueTerm::Noop => copy is Noop,
        QueueTerm::Event(a) => copy matches QueueTerm::Event(b) && cloned(a, b),
        QueueTerm::Data(a) => copy matches QueueTerm::Data(b) && cloned(a, b),
        QueueTerm::Fetch(a) => copy matches QueueTerm::Fetch(b) && cloned(a, b),
        QueueTerm::Effect(a) => copy matches QueueTerm::Effect(b) && cloned(a, b),
        QueueTerm::Wait(a) => copy matches QueueTerm::Wait(b) && cloned(a, b),
        QueueTerm::Aggregate { queue, data, receiver } => {
            &&& copy matches QueueTerm::Aggregate { queue: queue2, data: data2, receiver: receiver2 }
            &&& queue.len() == queue2.len()
            &&& forall|i: int| 0 <= i < queue.len() ==> copy_of(queue[i], #[trigger] queue2[i])
            &&& data.len() == data2.len()
            &&& forall|i: int| 0 <= i < data.len() ==> cloned(data[i], #[trigger] data2[i])
            &&& cloned(receiver, receiver2)
        },
        QueueTerm::Sequence(msgs) => {
            &&& copy matches QueueTerm::Sequence(msgs2)
            &&& msgs.len() == msgs2.len()
            &&& forall|i: int| 0 <= i < msgs.len() ==> copy_of(msgs[i], #[trigger] msgs2[i])
        },
        QueueTerm::Concurrent(msgs) => {
            &&& copy matches QueueTerm::Concurrent(msgs2)
            &&& msgs.len() == msgs2.len()
            &&& forall|i: int| 0 <= i < msgs.len() ==> copy_of(msgs[i], #[trigger] msgs2[i])
        },
        QueueTerm::Repeat(msg) => copy matches QueueTerm::Repeat(msg2) && copy_of(*msg, *msg2),
        QueueTerm::Timeout { deadline, msg } => {
            &&& copy matches QueueTerm::Timeout { deadline: deadline2, msg: msg2 }
            &&& deadline == deadline2
            &&& copy_of(*msg, *msg2)
        },
    }
}

/// Whether `actual` is what the rules ask for: `expected` itself, or, where
/// a term is replaced, a copy of the term that replaces it.
pub open spec fn follows<T: QueueMsgTypes>(
    expected: ReductionView<T>,
    actual: ReductionView<T>,
) -> bool {
    match expected {
        ReductionView::Replaced(term) => actual matches ReductionView::Replaced(copy) && copy_of(
            term,
            copy,
        ),
        _ => actual == expected,
    }
}

/// Every term is a copy of itself.
pub proof fn lemma_copy_reflexive<T: QueueMsgTypes>(term: QueueTerm<T>)
    ensures
        copy_of(term, term),
    decreases term,
{
    match term {
        QueueTerm::Aggregate { queue, data, receiver } => {
            assert forall|i: int| 0 <= i < queue.len() implies copy_of(
                queue[i],
                #[trigger] queue[i],
            ) by {
                lemma_copy_reflexive(queue[i]);
            }
        },
        QueueTerm::Sequence(msgs) => {
            assert forall|i: int| 0 <= i < msgs.len() implies copy_of(
                msgs[i],
                #[trigger] msgs[i],
            ) by {
                lemma_copy_reflexive(msgs[i]);
            }
        },
        QueueTerm::Concurrent(msgs) => {
            assert forall|i: int| 0 <= i < msgs.len() implies copy_of(
                msgs[i],
                #[trigger] msgs[i],
            ) by {
                lemma_copy_reflexive(msgs[i]);
            }
        },
        QueueTerm::Repeat(msg) => {
            lemma_copy_reflexive(*msg);
        },
        QueueTerm::Timeout { deadline, msg } => {
            lemma_copy_reflexive(*msg);
        },
        _ => {},
    }
}

/// Plugging a copy into a frame gives a copy of what plugging the source
/// gives.
pub proof fn lemma_copy_plug<T: QueueMsgTypes>(
    frame: FrameView<T>,
    source: QueueTerm<T>,
    copy: QueueTerm<T>,
)
    requires
        copy_of(source, copy),
    ensures
        copy_of(plug(frame, source), plug(frame, copy)),
{
    match frame {
        FrameView::Sequence(tail) => {
            let a = seq![source] + tail;
            let b = seq![copy] + tail;
            assert forall|i: int| 0 <= i < a.len() implies copy_of(a[i], #[trigger] b[i]) by {
                if i > 0 {
                    lemma_copy_reflexive(tail[i - 1]);
                }
            }
            assert forall|i: int| 0 <= i < tail.len() implies copy_of(
                tail[i],
                #[trigger] tail[i],
            ) by {
                lemma_copy_reflexive(tail[i]);
            }
        },
        FrameView::Concurrent(others) => {
            let a = others.push(source);
            let b = others.push(copy);
            assert forall|i: int| 0 <= i < a.len() implies copy_of(a[i], #[trigger] b[i]) by {
                if i < others.len() {
                    lemma_copy_reflexive(others[i]);
                }
            }
            assert forall|i: int| 0 <= i < others.len() implies copy_of(
                others[i],
                #[trigger] others[i],
            ) by {
                lemma_copy_reflexive(others[i]);
            }
        },
        FrameView::Timeout(deadline) => {},
        FrameView::Aggregate { queue, data, receiver } => {
            assert forall|i: int| 0 <= i < queue.len() implies copy_of(
                queue[i],
                #[trigger] queue[i],
            ) by {
                lemma_copy_reflexive(queue[i]);
            }
            let a = queue.push(source);
            let b = queue.push(copy);
            assert forall|i: int| 0 <= i < a.len() implies copy_of(a[i], #[trigger] b[i]) by {
                if i < queue.len() {
                    lemma_copy_reflexive(queue[i]);
                }
            }
        },
        FrameView::Fired(rest) => {
            if rest.len() > 0 {
                let a = seq![source] + as_data_terms::<T>(rest);
                let b = seq![copy] + as_data_terms::<T>(rest);
                assert forall|i: int| 0 <= i < a.len() implies copy_of(a[i], #[trigger] b[i]) by {
                    if i > 0 {
                        lemma_copy_reflexive(a[i]);
                    }
                }
            }
        },
    }
}

/// What follows the rules under a frame follows them with the frame around.
pub proof fn lemma_follows_under<T: QueueMsgTypes>(
    frame: FrameView<T>,
    expected: ReductionView<T>,
    actual: ReductionView<T>,
)
    requires
        follows(expected, actual),
    ensures
        follows(under(frame, expected), under(frame, actual)),
{
    match expected {
        ReductionView::Replaced(term) => {
            lemma_copy_plug(frame, term, actual->Replaced_0);
        },
        ReductionView::Emitted { .. } => {
            if let ReductionView::Replaced(term) = under(frame, expected) {
                lemma_copy_reflexive(term);
            }
        },
        _ => {},
    }
}

/// A copy of each of `msgs`, in order.
fn duplicate_all<T: QueueMsgTypes>(msgs: &Vec<QueueMsg<T>>) -> (r: Vec<QueueMsg<T>>)
    ensures
        r@.len() == msgs@.len(),
        forall|i: int| 0 <= i < msgs@.len() ==> copy_of(msgs@[i]@, #[trigger] r@[i]@),
    decreases msgs,
{
    let mut r: Vec<QueueMsg<T>> = Vec::new();
    let mut i: usize = 0;
    while i < msgs.len()
        invariant
            i <= msgs@.len(),
            r@.len() == i,
            forall|j: int| 0 <= j < i ==> copy_of(msgs@[j]@, #[trigger] r@[j]@),
        decreases msgs@.len() - i,
    {
        let copy = duplicate(&msgs[i]);
        r.push(copy);
        i = i + 1;
    }
    r
}

/// A copy of `data`.
fn duplicate_data<D: Clone>(data: &VecDeque<D>) -> (r: VecDeque<D>)
    ensures
        r@.len() == data@.len(),
        forall|i: int| 0 <= i < data@.len() ==> cloned(data@[i], #[trigger] r@[i]),
{
    let mut r: VecDeque<D> = VecDeque::new();
    let mut i: usize = 0;
    while i < data.len()
        invariant
            i <= data@.len(),
            r@.len() == i,
            forall|j: int| 0 <= j < i ==> cloned(data@[j], #[trigger] r@[j]),
        decreases data@.len() - i,
    {
        r.push_back(data[i].clone());
        i = i + 1;
    }
    r
}

/// A copy of `msg`: the same tree, with a clone in the place of each payload.
pub fn duplicate<T: QueueMsgTypes>(msg: &QueueMsg<T>) -> (r: QueueMsg<T>)
    ensures
        copy_of(msg@, r@),
    decreases msg,
{
    match msg {
        QueueMsg::Noop => QueueMsg::Noop,
        QueueMsg::Event(e) => QueueMsg::Event(e.clone()),
        QueueMsg::Data(d) => QueueMsg::Data(d.clone()),
        QueueMsg::Fetch(f) => QueueMsg::Fetch(f.clone()),
        QueueMsg::Effect(e) => QueueMsg::Effect(e.clone()),
        QueueMsg::Wait(w) => QueueMsg::Wait(w.clone()),
        QueueMsg::Aggregate { queue, data, receiver } => {
            let copies = duplicate_all(queue);
            let r = QueueMsg::Aggregate {
                queue: copies,
                data: duplicate_data(data),
                receiver: receiver.clone(),
            };
            proof {
                assert forall|i: int| 0 <= i < queue@.len() implies copy_of(
                    msg@->queue[i],
                    #[trigger] r@->queue[i],
                ) by {
                    assert(copy_of(queue@[i]@, copies@[i]@));
                }
            }
            r
        },
        QueueMsg::Sequence(msgs) => {
            let copies = duplicate_all(msgs);
            let r = QueueMsg::Sequence(copies);
            proof {
                assert forall|i: int| 0 <= i < msgs@.len() implies copy_of(
                    msg@->Sequence_0[i],
                    #[trigger] r@->Sequence_0[i],
                ) by {
                    assert(copy_of(msgs@[i]@, copies@[i]@));
                }
            }
            r
        },
        QueueMsg::Concurrent(msgs) => {
            let copies = duplicate_all(msgs);
            let r = QueueMsg::Concurrent(copies);
            proof {
                assert forall|i: int| 0 <= i < msgs@.len() implies copy_of(
                    msg@->Concurrent_0[i],
                    #[trigger] r@->Concurrent_0[i],
                ) by {
                    assert(copy_of(msgs@[i]@, copies@[i]@));
                }
            }
            r
        },
        QueueMsg::Repeat(inner) => QueueMsg::Repeat(Box::new(duplicate(inner))),
        QueueMsg::Timeout { deadline, msg: inner } => QueueMsg::Timeout {
            deadline: *deadline,
            msg: Box::new(duplicate(inner)),
        },
    }
}

impl<T: QueueMsgTypes> Clone for QueueMsg<T> {
    fn clone(&self) -> (r: Self)
        ensures
            copy_of(self@, r@),
    {
        duplicate(self)
    }
}

/// Puts `r` where the child of `frame` stood.
fn plug_frame<T: QueueMsgTypes>(frame: Frame<T>, r: QueueMsg<T>) -> (term: QueueMsg<T>)
    ensures
        term@ == plug(frame@, r@),
{
    match frame {
        Frame::Sequence(tail) => {
            let mut msgs = tail;
            match r {
                QueueMsg::Noop => {},
                r => {
                    msgs.insert(0, r);
                    assert(terms(msgs@) =~= seq![r@] + terms(tail@));
                },
            }
            crate::queue_msg::seq(msgs)
        },
        Frame::Concurrent(others) => {
            let mut msgs = others;
            match r {
                QueueMsg::Noop => {},
                r => {
                    msgs.push(r);
                    assert(terms(msgs@) =~= terms(others@).push(r@));
                },
            }
            crate::queue_msg::conc(msgs)
        },
        Frame::Timeout(deadline) => match r {
            QueueMsg::Noop => QueueMsg::Noop,
            r => crate::queue_msg::timeout(deadline, r),
        },
        Frame::Aggregate { queue, data, receiver } => {
            let mut queue = queue;
            let mut data = data;
            let ghost before = terms(queue@);
            match r {
                QueueMsg::Noop => {},
                QueueMsg::Data(d) => {
                    data.push_back(d);
                },
                r => {
                    queue.push(r);
                    assert(terms(queue@) =~= before.push(r@));
                },
            }
            crate::queue_msg::aggregate(queue, data, receiver)
        },
        Frame::Fired(rest) => {
            if rest.len() == 0 {
                r
            } else {
                let mut rest = rest;
                let ghost all = rest@;
                let mut msgs: Vec<QueueMsg<T>> = Vec::new();
                msgs.push(r);
                while rest.len() > 0
                    invariant
                        msgs@.len() + rest@.len() == all.len() + 1,
                        msgs@.len() >= 1,
                        msgs@[0]@ == r@,
                        forall|j: int|
                            1 <= j < msgs@.len() ==> (#[trigger] msgs@[j])@ == QueueTerm::<T>::Data(
                                all[j - 1],
                            ),
                        forall|j: int|
                            0 <= j < rest@.len() ==> rest@[j] == all[msgs@.len() - 1 + j],
                    decreases rest@.len(),
                {
                    match rest.pop_front() {
                        Some(d) => msgs.push(QueueMsg::Data(d)),
                        None => {},
                    }
                }
                assert(terms(msgs@) =~= seq![r@] + as_data_terms::<T>(all));
                crate::queue_msg::conc(msgs)
            }
        },
    }
}

/// Puts the frame around what the reduction of its child came to.
fn wrap<T: QueueMsgTypes>(frame: Frame<T>, inner: Reduction<T>) -> (r: Reduction<T>)
    ensures
        r@ == under(frame@, inner@),
{
    match inner {
        Reduction::Replaced(term) => Reduction::Replaced(plug_frame(frame, term)),
        Reduction::Perform { leaf, context } => {
            let mut context = context;
            let ghost before = frames(context@);
            context.push(frame);
            assert(frames(context@) =~= before.push(frame@));
            Reduction::Perform { leaf, context }
        },
        Reduction::TimedOut => Reduction::TimedOut,
        Reduction::Emitted { data: handed_up, left } => match frame {
            Frame::Aggregate { queue, data, receiver } => {
                let mut data = data;
                data.push_back(handed_up);
                Reduction::Replaced(plug_frame(Frame::Aggregate { queue, data, receiver }, left))
            },
            frame => Reduction::Emitted { data: handed_up, left: plug_frame(frame, left) },
        },
    }
}

/// Reduces `msg` by one step, with the wall clock at `now`.
///
/// The result follows the rules of `reduction`. Where the rules replace the
/// term and a repeat is unrolled on the way, the replacement holds a copy
/// of the repeated term; in every other respect it is what the rules give.
pub fn reduce<T: QueueMsgTypes>(msg: QueueMsg<T>, now: u64) -> (r: Reduction<T>)
    ensures
        follows(reduction(msg@, now), r@),
    decreases msg,
{
    match msg {
        QueueMsg::Noop => Reduction::Replaced(QueueMsg::Noop),
        QueueMsg::Event(e) => {
            let context: Vec<Frame<T>> = Vec::new();
            assert(frames(context@) =~= Seq::<FrameView<T>>::empty());
            Reduction::Perform { leaf: Leaf::Event(e), context }
        },
        QueueMsg::Data(d) => Reduction::Emitted { data: d, left: QueueMsg::Noop },
        QueueMsg::Fetch(f) => {
            let context: Vec<Frame<T>> = Vec::new();
            assert(frames(context@) =~= Seq::<FrameView<T>>::empty());
            Reduction::Perform { leaf: Leaf::Fetch(f), context }
        },
        QueueMsg::Effect(e) => {
            let context: Vec<Frame<T>> = Vec::new();
            assert(frames(context@) =~= Seq::<FrameView<T>>::empty());
            Reduction::Perform { leaf: Leaf::Effect(e), context }
        },
        QueueMsg::Wait(w) => {
            let context: Vec<Frame<T>> = Vec::new();
            assert(frames(context@) =~= Seq::<FrameView<T>>::empty());
            Reduction::Perform { leaf: Leaf::Wait(w), context }
        },
        QueueMsg::Sequence(msgs) => {
            let mut msgs = msgs;
            if msgs.len() == 0 {
                proof {
                    assert(msg@->Sequence_0.len() == 0);
                }
                Reduction::Replaced(QueueMsg::Noop)
            } else {
                let ghost all = terms(msgs@);
                proof {
                    assert(msg@->Sequence_0 =~= all);
                }
                let head = msgs.remove(0);
                let inner = reduce(head, now);
                let frame = Frame::Sequence(msgs);
                proof {
                    assert(head@ == all[0]);
                    assert(terms(msgs@) =~= all.drop_first());
                    lemma_follows_under(frame@, reduction(head@, now), inner@);
                }
                wrap(frame, inner)
            }
        },
        QueueMsg::Concurrent(msgs) => {
            let mut msgs = msgs;
            if msgs.len() == 0 {
                proof {
                    assert(msg@->Concurrent_0.len() == 0);
                }
                Reduction::Replaced(QueueMsg::Noop)
            } else {
                let ghost all = terms(msgs@);
                proof {
                    assert(msg@->Concurrent_0 =~= all);
                }
                let head = msgs.remove(0);
                let inner = reduce(head, now);
                let frame = Frame::Concurrent(msgs);
                proof {
                    assert(head@ == all[0]);
                    assert(terms(msgs@) =~= all.drop_first());
                    lemma_follows_under(frame@, reduction(head@, now), inner@);
                }
                wrap(frame, inner)
            }
        },
        QueueMsg::Repeat(inner) => {
            let copy = duplicate(&inner);
            let ghost source = inner@;
            let again = QueueMsg::Repeat(inner);
            let mut msgs: Vec<QueueMsg<T>> = Vec::new();
            msgs.push(copy);
            msgs.push(again);
            let r = crate::queue_msg::seq(msgs);
            proof {
                lemma_copy_reflexive(again@);
                let expected = seq![source, again@];
                assert(terms(msgs@) =~= seq![copy@, again@]);
                assert forall|i: int| 0 <= i < expected.len() implies copy_of(
                    expected[i],
                    #[trigger] terms(msgs@)[i],
                ) by {}
            }
            Reduction::Replaced(r)
        },
        QueueMsg::Timeout { deadline, msg: inner } => {
            if now > deadline {
                Reduction::TimedOut
            } else {
                let ghost child = inner@;
                let reduced = reduce(*inner, now);
                let frame = Frame::Timeout(deadline);
                proof {
                    lemma_follows_under(frame@, reduction(child, now), reduced@);
                }
                wrap(frame, reduced)
            }
        },
        QueueMsg::Aggregate { queue, data, receiver } => {
            let mut queue = queue;
            let mut data = data;
            if queue.len() > 0 {
                let ghost all = terms(queue@);
                proof {
                    assert(msg@->queue =~= all);
                }
                let head = queue.remove(0);
                proof {
                    assert(head@ == all[0]);
                    assert(terms(queue@) =~= all.drop_first());
                }
                let inner = reduce(head, now);
                let frame = Frame::Aggregate { queue, data, receiver };
                proof {
                    lemma_follows_under(frame@, reduction(head@, now), inner@);
                }
                wrap(frame, inner)
            } else {
                proof {
                    assert(msg@->queue =~= Seq::<QueueTerm<T>>::empty());
                }
                let expected = receiver.expected();
                match match_data(&expected, data) {
                    Ok((matched, rest)) => {
                        let mut context: Vec<Frame<T>> = Vec::new();
                        context.push(Frame::Fired(rest));
                        assert(frames(context@) =~= seq![FrameView::<T>::Fired(rest@)]);
                        Reduction::Perform { leaf: Leaf::Fire { receiver, data: matched }, context }
                    },
                    Err(pool) => {
                        let context: Vec<Frame<T>> = Vec::new();
                        assert(frames(context@) =~= Seq::<FrameView<T>>::empty());
                        Reduction::Perform { leaf: Leaf::AwaitData { receiver, data: pool }, context }
                    },
                }
            }
        },
    }
}

/// Puts `r`, which the work outside has yielded, where the leaf stood:
/// into the layers of `context` from the innermost out.
pub fn resume<T: QueueMsgTypes>(context: Vec<Frame<T>>, r: QueueMsg<T>) -> (term: QueueMsg<T>)
    ensures
        term@ == resumed(frames(context@), r@),
{
    let mut context = context;
    let mut term = r;
    let ghost all = frames(context@);
    while context.len() > 0
        invariant
            resumed(all, r@) == resumed(frames(context@), term@),
        decreases context@.len(),
    {
        let ghost before = frames(context@);
        let frame = context.remove(0);
        term = plug_frame(frame, term);
        proof {
            assert(frames(context@) =~= before.drop_first());
        }
    }
    term
}

/// The terms that `term` is scheduled as: each term of a concurrent term by
/// itself, and any other term as it is.
pub open spec fn scheduled<T: QueueMsgTypes>(term: QueueTerm<T>) -> Seq<QueueTerm<T>> {
    match term {
        QueueTerm::Concurrent(msgs) => msgs,
        other => seq![other],
    }
}

/// Splits a term that stands by itself on the queue into the terms that
/// are scheduled independently of each other: the terms of a concurrent
/// term, in their order, and any other term alone.
pub fn split<T: QueueMsgTypes>(msg: QueueMsg<T>) -> (r: Vec<QueueMsg<T>>)
    ensures
        terms(r@) == scheduled(msg@),
{
    match msg {
        QueueMsg::Concurrent(msgs) => {
            assert(terms(msgs@) =~= msg@->Concurrent_0);
            msgs
        },
        other => {
            let mut r: Vec<QueueMsg<T>> = Vec::new();
            r.push(other);
            assert(terms(r@) =~= seq![other@]);
            r
        },
    }
}

/// How the submission of a transaction ended.
#[derive(Debug, Clone, Copy, PartialEq, Eq, Structural)]
pub enum EffectOutcome {
    /// The chain took the transaction.
    Included,
    /// The chain refused the transaction because what it asks for has been
    /// done already.
    AlreadyProcessed,
    /// The chain could not be reached, or not in time.
    Transient,
    /// The chain refused the transaction for good.
    Permanent,
}

/// What stands in the place of an effect once its submission has ended: nothing
/// where the chain took the transaction or had taken it before, the effect
/// again where the chain could not be reached, and no term at all where the
/// chain refused for good.
pub open spec fn effect_settled<T: QueueMsgTypes>(
    effect: T::Effect,
    outcome: EffectOutcome,
) -> Option<QueueTerm<T>> {
    match outcome {
        EffectOutcome::Included | EffectOutcome::AlreadyProcessed => Some(QueueTerm::Noop),
        EffectOutcome::Transient => Some(QueueTerm::Effect(effect)),
        EffectOutcome::Permanent => None,
    }
}

/// Decides what stands in the place of an effect once its submission has
/// ended. A transaction that the chain had taken before counts as taken.
pub fn after_effect<T: QueueMsgTypes>(effect: T::Effect, outcome: EffectOutcome) -> (r: Option<
    QueueMsg<T>,
>)
    ensures
        match r {
            Some(msg) => effect_settled::<T>(effect, outcome) == Some(msg@),
            None => effect_settled::<T>(effect, outcome) is None,
        },
{
    match outcome {
        EffectOutcome::Included => Some(QueueMsg::Noop),
        EffectOutcome::AlreadyProcessed => Some(QueueMsg::Noop),
        EffectOutcome::Transient => Some(QueueMsg::Effect(effect)),
        EffectOutcome::Permanent => None,
    }
}

/// Decides what stands in the place of a wait once its condition has been
/// tested: nothing where it is met, and the wait as it was where it is not.
pub fn after_wait<T: QueueMsgTypes>(wait: T::Wait, met: bool) -> (r: QueueMsg<T>)
    ensures
        met ==> r@ == QueueTerm::<T>::Noop,
        !met ==> r@ == QueueTerm::<T>::Wait(wait),
{
    if met {
        QueueMsg::Noop
    } else {
        QueueMsg::Wait(wait)
    }
}

/// The aggregate of `receiver` with `extra` added to the data it holds: what
/// an aggregate that waits for data is resumed with when data comes.
pub fn with_data<T: QueueMsgTypes>(
    receiver: T::Aggregate,
    data: VecDeque<T::Data>,
    extra: T::Data,
) -> (r: QueueMsg<T>)
    ensures
        r@ == (QueueTerm::<T>::Aggregate {
            queue: Seq::empty(),
            data: data@.push(extra),
            receiver,
        }),
{
    let mut data = data;
    data.push_back(extra);
    let queue: Vec<QueueMsg<T>> = Vec::new();
    assert(terms(queue@) =~= Seq::<QueueTerm<T>>::empty());
    crate::queue_msg::aggregate(queue, data, receiver)
}

/// A sequence runs its terms in order: whatever reducing a sequence comes
/// to, it is what reducing its head comes to, with the tail kept aside
/// untouched. Work outside is always work of the head, data that comes out
/// is data of the head, and the tail takes over only once the head has been
/// reduced to nothing.
pub proof fn lemma_sequence_order<T: QueueMsgTypes>(
    head: QueueTerm<T>,
    tail: Seq<QueueTerm<T>>,
    now: u64,
)
    ensures
        match reduction(QueueTerm::Sequence(seq![head] + tail), now) {
            ReductionView::Perform { leaf, context } => reduction(head, now)
                == (ReductionView::Perform { leaf, context: context.drop_last() })
                && context.len() > 0 && context.last() == FrameView::Sequence(tail),
            ReductionView::Replaced(term) => reduction(head, now) matches ReductionView::Replaced(
                r,
            ) && term == (if r is Noop {
                QueueTerm::Sequence(tail)
            } else {
                QueueTerm::Sequence(seq![r] + tail)
            }),
            ReductionView::TimedOut => reduction(head, now) is TimedOut,
            ReductionView::Emitted { data, left } => reduction(head, now) matches ReductionView::Emitted {
                data: handed_up,
                left: of_head,
            } && data == handed_up && left == plug(FrameView::Sequence(tail), of_head),
        },
{
    let msgs = seq![head] + tail;
    assert(msgs[0] == head);
    assert(msgs.drop_first() =~= tail);
    if let ReductionView::Perform { leaf, context } = reduction(head, now) {
        assert(context.push(FrameView::Sequence(tail)).drop_last() =~= context);
    }
}

/// A timeout whose deadline has passed drops its term, whatever the term
/// is; one whose deadline has not passed reduces its term under itself.
pub proof fn lemma_timeout<T: QueueMsgTypes>(deadline: u64, msg: QueueTerm<T>, now: u64)
    ensures
        now > deadline ==> reduction(QueueTerm::Timeout { deadline, msg: Box::new(msg) }, now)
            == ReductionView::<T>::TimedOut,
        now <= deadline ==> reduction(QueueTerm::Timeout { deadline, msg: Box::new(msg) }, now)
            == under(FrameView::Timeout(deadline), reduction(msg, now)),
{
}

/// Reducing a term again gives the same again: two results that follow
/// the rules for one term and one time are the same, or copies of the same
/// replacement.
pub proof fn lemma_reduction_idempotent<T: QueueMsgTypes>(
    term: QueueTerm<T>,
    now: u64,
    first: ReductionView<T>,
    second: ReductionView<T>,
)
    requires
        follows(reduction(term, now), first),
        follows(reduction(term, now), second),
    ensures
        match reduction(term, now) {
            ReductionView::Replaced(replacement) => {
                &&& first matches ReductionView::Replaced(a)
                &&& second matches ReductionView::Replaced(b)
                &&& copy_of(replacement, a)
                &&& copy_of(replacement, b)
            },
            _ => first == second,
        },
{
}

/// An aggregate with nothing left to run fires exactly if its data holds
/// what its receiver asks for, with the data that the join binds and the
/// rest kept aside; else it waits with its data as it is.
pub proof fn lemma_aggregate_fires<T: QueueMsgTypes>(
    data: Seq<T::Data>,
    receiver: T::Aggregate,
    now: u64,
)
    ensures
        match join(data, receiver.expects()) {
            Some((matched, rest)) => reduction(
                QueueTerm::<T>::Aggregate { queue: Seq::empty(), data, receiver },
                now,
            ) == (ReductionView::<T>::Perform {
                leaf: LeafView::Fire { receiver, data: matched },
                context: seq![FrameView::<T>::Fired(rest)],
            }),
            None => reduction(
                QueueTerm::<T>::Aggregate { queue: Seq::empty(), data, receiver },
                now,
            ) == (ReductionView::<T>::Perform {
                leaf: LeafView::AwaitData { receiver, data },
                context: Seq::empty(),
            }),
        },
{
}

/// Data that comes up from the first term of an aggregate's queue goes into
/// the aggregate's data, whatever stands between the two, and what is left
/// of that term goes back into the queue.
pub proof fn lemma_aggregate_collects<T: QueueMsgTypes>(
    queue: Seq<QueueTerm<T>>,
    data: Seq<T::Data>,
    receiver: T::Aggregate,
    now: u64,
)
    requires
        queue.len() > 0,
        reduction(queue[0], now) is Emitted,
    ensures
        reduction(QueueTerm::<T>::Aggregate { queue, data, receiver }, now) == ReductionView::<
            T,
        >::Replaced(
            plug(
                FrameView::Aggregate {
                    queue: queue.drop_first(),
                    data: data.push(reduction(queue[0], now)->data),
                    receiver,
                },
                reduction(queue[0], now)->left,
            ),
        ),
{
}

/// Data hands itself up, and a sequence or a concurrent term hands on what
/// its first term hands up: the data leaves, and the layer stays around
/// what is left.
pub proof fn lemma_data_passes_up<T: QueueMsgTypes>(frame: FrameView<T>, child: QueueTerm<T>, now: u64)
    requires
        reduction(child, now) is Emitted,
        !(frame is Aggregate),
    ensures
        under(frame, reduction(child, now)) == (ReductionView::<T>::Emitted {
            data: reduction(child, now)->data,
            left: plug(frame, reduction(child, now)->left),
        }),
        forall|d: T::Data| #[trigger]
            reduction(QueueTerm::<T>::Data(d), now) == (ReductionView::<T>::Emitted {
                data: d,
                left: QueueTerm::Noop,
            }),
{
}

} // verus!
