//! Where a piece of data goes: to the first waiting aggregate that it is
//! meant for and that still lacks an item of its kind.

use crate::queue_msg::aggregation::{
    asked, join, lemma_position_of_kind, of_kind, position, Kinded, Receiver,
};
use crate::queue_msg::reduce::{
    frames, lemma_aggregate_fires, reduction, resume, resumed, Frame, LeafView, ReductionView,
};
use crate::queue_msg::{terms, QueueMsg, QueueMsgTypes, QueueTerm};
use std::collections::VecDeque;
use vstd::prelude::*;

verus! {

/// Whether a receiver that asks for `expected` and holds `pool` is short of
/// the kind `kind`: whether it asks for more items of that kind than it
/// holds.
pub open spec fn short_of<U: Kinded>(pool: Seq<U>, expected: Seq<U::Kind>, kind: U::Kind) -> bool {
    of_kind(pool, kind).len() < asked::<U>(expected, kind)
}

/// Whether a receiver that asks for `expected` and holds `pool` still lacks
/// an item of the kind of `item`.
pub open spec fn lacks<U: Kinded>(pool: Seq<U>, expected: Seq<U::Kind>, item: U) -> bool {
    short_of(pool, expected, item.kind_of())
}

/// A receiver has to wait exactly as long as it is short of some kind: the
/// join binds nothing if and only if the pool holds fewer items of some
/// kind than the receiver asks for.
pub proof fn lemma_waits_while_short<U: Kinded>(pool: Seq<U>, expected: Seq<U::Kind>)
    ensures
        join(pool, expected) is None <==> exists|kind: U::Kind| short_of(pool, expected, kind),
    decreases expected.len(),
{
    if expected.len() > 0 {
        let first = expected[0];
        let others = expected.drop_first();
        lemma_position_of_kind(pool, first, first);
        match position(pool, first) {
            None => {
                assert(short_of(pool, expected, first));
            },
            Some(at) => {
                let less = pool.remove(at);
                lemma_waits_while_short(less, others);
                assert forall|kind: U::Kind|
                    short_of(less, others, kind) == #[trigger] short_of(pool, expected, kind) by {
                    lemma_position_of_kind(pool, first, kind);
                }
                if join(less, others) is None {
                    let kind = choose|kind: U::Kind| short_of(less, others, kind);
                    assert(short_of(pool, expected, kind));
                } else if exists|kind: U::Kind| short_of(pool, expected, kind) {
                    let kind = choose|kind: U::Kind| short_of(pool, expected, kind);
                    assert(short_of(less, others, kind));
                }
            },
        }
    } else {
        assert forall|kind: U::Kind| !short_of(pool, expected, kind) by {}
    }
}

/// How many of `expected` are the kind of `item`.
fn count_asked<U: Kinded>(expected: &Vec<U::Kind>, item: &U) -> (n: usize)
    ensures
        n == asked::<U>(expected@, item.kind_of()),
{
    let mut n: usize = 0;
    let mut i: usize = expected.len();
    while i > 0
        invariant
            i <= expected@.len(),
            expected@.len() <= usize::MAX,
            n <= expected@.len() - i,
            n == asked::<U>(expected@.subrange(i as int, expected@.len() as int), item.kind_of()),
        decreases i,
    {
        i -= 1;
        proof {
            let from = expected@.subrange(i as int, expected@.len() as int);
            assert(from.drop_first() =~= expected@.subrange(i + 1, expected@.len() as int));
        }
        if item.is_kind(&expected[i]) {
            n += 1;
        }
    }
    assert(expected@.subrange(0, expected@.len() as int) =~= expected@);
    n
}

/// How many items of `pool` are of the kind of `item`.
fn count_held<U: Kinded>(pool: &VecDeque<U>, kind: &U::Kind) -> (n: usize)
    ensures
        n == of_kind(pool@, *kind).len(),
{
    let mut n: usize = 0;
    let mut i: usize = pool.len();
    while i > 0
        invariant
            i <= pool@.len(),
            pool@.len() <= usize::MAX,
            n <= pool@.len() - i,
            n == of_kind(pool@.subrange(i as int, pool@.len() as int), *kind).len(),
        decreases i,
    {
        i -= 1;
        proof {
            let from = pool@.subrange(i as int, pool@.len() as int);
            assert(from.drop_first() =~= pool@.subrange(i + 1, pool@.len() as int));
        }
        if pool[i].is_kind(kind) {
            n += 1;
        }
    }
    assert(pool@.subrange(0, pool@.len() as int) =~= pool@);
    n
}

/// The first of `expected` that is the kind of `item`.
fn kind_among<'a, U: Kinded>(expected: &'a Vec<U::Kind>, item: &U) -> (r: Option<&'a U::Kind>)
    ensures
        match r {
            Some(kind) => *kind == item.kind_of(),
            None => asked::<U>(expected@, item.kind_of()) == 0,
        },
{
    let mut i: usize = expected.len();
    while i > 0
        invariant
            i <= expected@.len(),
            asked::<U>(expected@.subrange(i as int, expected@.len() as int), item.kind_of()) == 0,
        decreases i,
    {
        i -= 1;
        proof {
            let from = expected@.subrange(i as int, expected@.len() as int);
            assert(from.drop_first() =~= expected@.subrange(i + 1, expected@.len() as int));
        }
        if item.is_kind(&expected[i]) {
            return Some(&expected[i]);
        }
    }
    assert(expected@.subrange(0, expected@.len() as int) =~= expected@);
    None
}

/// Whether a receiver that asks for `expected` and holds `pool` still lacks
/// an item of the kind of `item`.
pub fn is_lacking<U: Kinded>(expected: &Vec<U::Kind>, pool: &VecDeque<U>, item: &U) -> (b: bool)
    ensures
        b == lacks(pool@, expected@, *item),
{
    match kind_among(expected, item) {
        Some(kind) => count_held(pool, kind) < count_asked(expected, item),
        None => false,
    }
}

/// The first item of `pool` that is of the kind `kind`.
fn first_of_kind<'a, U: Kinded>(pool: &'a VecDeque<U>, kind: &U::Kind) -> (r: Option<&'a U>)
    ensures
        match r {
            Some(item) => item.kind_of() == *kind,
            None => of_kind(pool@, *kind).len() == 0,
        },
{
    let mut i: usize = pool.len();
    while i > 0
        invariant
            i <= pool@.len(),
            of_kind(pool@.subrange(i as int, pool@.len() as int), *kind).len() == 0,
        decreases i,
    {
        i -= 1;
        proof {
            let from = pool@.subrange(i as int, pool@.len() as int);
            assert(from.drop_first() =~= pool@.subrange(i + 1, pool@.len() as int));
        }
        if pool[i].is_kind(kind) {
            return Some(&pool[i]);
        }
    }
    assert(pool@.subrange(0, pool@.len() as int) =~= pool@);
    None
}

/// Only the kinds that are asked for are asked for at least once.
pub proof fn lemma_asked_kinds<U: Kinded>(expected: Seq<U::Kind>, kind: U::Kind)
    ensures
        asked::<U>(expected, kind) > 0 <==> expected.contains(kind),
    decreases expected.len(),
{
    if expected.len() > 0 {
        let others = expected.drop_first();
        lemma_asked_kinds::<U>(others, kind);
        if expected[0] == kind {
            assert(expected.contains(kind));
        } else if others.contains(kind) {
            let i = choose|i: int| 0 <= i < others.len() && others[i] == kind;
            assert(expected[i + 1] == kind);
        } else if expected.contains(kind) {
            let i = choose|i: int| 0 <= i < expected.len() && expected[i] == kind;
            assert(others[i - 1] == kind);
        }
    }
}

/// Whether `pool` holds what the kinds `expected` ask for: whether the join
/// binds an item to every kind.
pub fn is_satisfied<U: Kinded>(expected: &Vec<U::Kind>, pool: &VecDeque<U>) -> (b: bool)
    ensures
        b == join(pool@, expected@) is Some,
{
    proof {
        lemma_waits_while_short(pool@, expected@);
    }
    let mut i: usize = 0;
    while i < expected.len()
        invariant
            i <= expected@.len(),
            join(pool@, expected@) is None <==> exists|kind: U::Kind|
                short_of(pool@, expected@, kind),
            forall|j: int| 0 <= j < i ==> !short_of(pool@, expected@, #[trigger] expected@[j]),
        decreases expected@.len() - i,
    {
        proof {
            lemma_asked_kinds::<U>(expected@, expected@[i as int]);
        }
        match first_of_kind(pool, &expected[i]) {
            None => {
                assert(short_of(pool@, expected@, expected@[i as int]));
                return false;
            },
            Some(item) => {
                if count_held(pool, &expected[i]) < count_asked(expected, item) {
                    assert(short_of(pool@, expected@, expected@[i as int]));
                    return false;
                }
            },
        }
        i += 1;
    }
    proof {
        assert forall|kind: U::Kind| !short_of(pool@, expected@, kind) by {
            lemma_asked_kinds::<U>(expected@, kind);
            if expected@.contains(kind) {
                let j = choose|j: int| 0 <= j < expected@.len() && expected@[j] == kind;
                assert(!short_of(pool@, expected@, expected@[j]));
            }
        }
    }
    true
}

/// An aggregate that waits for data, with the layers that it stands in.
pub struct Waiting<T: QueueMsgTypes> {
    pub receiver: T::Aggregate,
    pub data: VecDeque<T::Data>,
    pub context: Vec<Frame<T>>,
}

impl<T: QueueMsgTypes> Waiting<T> {
    /// Whether this aggregate takes `item`: whether the item is meant for
    /// its receiver, and the receiver still lacks an item of that kind.
    pub open spec fn takes(&self, item: &T::Data) -> bool {
        self.receiver.serves(item) && lacks(self.data@, self.receiver.expects(), *item)
    }

    /// Whether this aggregate takes `item`.
    pub fn accepts(&self, item: &T::Data) -> (b: bool)
        ensures
            b == self.takes(item),
    {
        if self.receiver.can_serve(item) {
            let expected = self.receiver.expected();
            is_lacking(&expected, &self.data, item)
        } else {
            false
        }
    }

    /// Whether this aggregate holds what its receiver asks for.
    pub open spec fn satisfied(&self) -> bool {
        join(self.data@, self.receiver.expects()) is Some
    }

    /// Takes `item` into the data of this aggregate, and says whether the
    /// aggregate holds what its receiver asks for now: whether it is to go
    /// on, or to wait for more.
    pub fn take(&mut self, item: T::Data) -> (ready: bool)
        ensures
            final(self).receiver == old(self).receiver,
            final(self).context == old(self).context,
            final(self).data@ == old(self).data@.push(item),
            ready == final(self).satisfied(),
    {
        self.data.push_back(item);
        let expected = self.receiver.expected();
        is_satisfied(&expected, &self.data)
    }

    /// The term that this aggregate is: the aggregate with its data, and
    /// nothing left to run, in its layers.
    pub open spec fn term(self) -> QueueTerm<T> {
        resumed(
            frames(self.context@),
            QueueTerm::Aggregate { queue: Seq::empty(), data: self.data@, receiver: self.receiver },
        )
    }

    /// The term that this aggregate is.
    pub fn into_term(self) -> (r: QueueMsg<T>)
        ensures
            r@ == self.term(),
    {
        let queue: Vec<QueueMsg<T>> = Vec::new();
        assert(terms(queue@) =~= Seq::<QueueTerm<T>>::empty());
        resume(self.context, crate::queue_msg::aggregate(queue, self.data, self.receiver))
    }
}

/// Where `item` goes among the aggregates that wait, oldest first: to the
/// first that takes it. `None` where none of them does: the item is then
/// without a destination.
pub fn route<T: QueueMsgTypes>(waiting: &Vec<Waiting<T>>, item: &T::Data) -> (r: Option<usize>)
    ensures
        match r {
            Some(at) => {
                &&& at < waiting@.len()
                &&& waiting@[at as int].takes(item)
                &&& forall|i: int| 0 <= i < at ==> !(#[trigger] waiting@[i]).takes(item)
            },
            None => forall|i: int| 0 <= i < waiting@.len() ==> !(#[trigger] waiting@[i]).takes(item),
        },
{
    let mut at: usize = 0;
    while at < waiting.len()
        invariant
            at <= waiting@.len(),
            forall|i: int| 0 <= i < at ==> !(#[trigger] waiting@[i]).takes(item),
        decreases waiting@.len() - at,
    {
        if waiting[at].accepts(item) {
            return Some(at);
        }
        at += 1;
    }
    None
}

/// An aggregate with nothing left to run waits exactly while it is short of
/// some kind. So an aggregate that is handed the last item it was short of
/// fires when it is reduced next, and one that is still short of a kind
/// waits on.
pub proof fn lemma_waits_for_what_it_lacks<T: QueueMsgTypes>(
    data: Seq<T::Data>,
    receiver: T::Aggregate,
    now: u64,
)
    ensures
        match reduction(QueueTerm::<T>::Aggregate { queue: Seq::empty(), data, receiver }, now) {
            ReductionView::Perform { leaf: LeafView::AwaitData { .. }, .. } => exists|
                kind: <T::Data as Kinded>::Kind,
            | short_of(data, receiver.expects(), kind),
            ReductionView::Perform { leaf: LeafView::Fire { .. }, .. } => forall|
                kind: <T::Data as Kinded>::Kind,
            | !short_of(data, receiver.expects(), kind),
            _ => false,
        },
{
    lemma_aggregate_fires::<T>(data, receiver, now);
    lemma_waits_while_short(data, receiver.expects());
}

} // verus!
