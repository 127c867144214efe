//! The aggregation join: matching a pool of data against the kinds of data
//! that a receiver asks for.
//!
//! A receiver names the kinds it consumes, in order. For each kind in turn,
//! the join takes the first item of that kind out of the pool. Either every
//! kind finds its item, and what is left of the pool goes back to where it
//! came from, or the pool stays as it was.

use crate::queue_msg::{QueueMsg, QueueMsgTypes, QueueTerm};
use std::collections::VecDeque;
use std::ops::ControlFlow;
use vstd::prelude::*;

verus! {

/// A value that is of one of several kinds.
pub trait Kinded {
    /// What tells the kinds apart.
    type Kind;

    /// The kind of this value.
    spec fn kind_of(&self) -> Self::Kind;

    /// Whether this value is of the kind `kind`.
    fn is_kind(&self, kind: &Self::Kind) -> (b: bool)
        ensures
            b == (self.kind_of() == *kind),
    ;
}

/// The index of the first item of `pool` that is of the kind `kind`.
pub open spec fn position<U: Kinded>(pool: Seq<U>, kind: U::Kind) -> Option<int>
    decreases pool.len(),
{
    if pool.len() == 0 {
        None
    } else if pool[0].kind_of() == kind {
        Some(0)
    } else {
        match position(pool.drop_first(), kind) {
            Some(i) => Some(i + 1),
            None => None,
        }
    }
}

/// What the join makes of `pool` for the kinds `expected`: the items bound
/// to the kinds, in the order of the kinds, and the rest of the pool in its
/// own order; or nothing, when some kind finds no item.
pub open spec fn join<U: Kinded>(pool: Seq<U>, expected: Seq<U::Kind>) -> Option<
    (Seq<U>, Seq<U>),
>
    decreases expected.len(),
{
    if expected.len() == 0 {
        Some((Seq::empty(), pool))
    } else {
        match position(pool, expected[0]) {
            None => None,
            Some(i) => match join(pool.remove(i), expected.drop_first()) {
                None => None,
                Some((matched, rest)) => Some((seq![pool[i]] + matched, rest)),
            },
        }
    }
}

/// `position` finds the least index that holds an item of the kind, and
/// finds none only where no item is of the kind.
pub proof fn lemma_position<U: Kinded>(pool: Seq<U>, kind: U::Kind)
    ensures
        match position(pool, kind) {
            Some(i) => {
                &&& 0 <= i < pool.len()
                &&& pool[i].kind_of() == kind
                &&& forall|j: int| 0 <= j < i ==> pool[j].kind_of() != kind
            },
            None => forall|j: int| 0 <= j < pool.len() ==> pool[j].kind_of() != kind,
        },
    decreases pool.len(),
{
    if pool.len() > 0 && pool[0].kind_of() != kind {
        let tail = pool.drop_first();
        lemma_position(tail, kind);
        match position(tail, kind) {
            Some(i) => {
                assert forall|j: int| 0 <= j < i + 1 implies pool[j].kind_of() != kind by {
                    if j > 0 {
                        assert(pool[j] == tail[j - 1]);
                    }
                }
            },
            None => {
                assert forall|j: int| 0 <= j < pool.len() implies pool[j].kind_of() != kind by {
                    if j > 0 {
                        assert(pool[j] == tail[j - 1]);
                    }
                }
            },
        }
    }
}

/// An index that holds an item of the kind, with none before it, is what
/// `position` finds.
pub proof fn lemma_position_is<U: Kinded>(pool: Seq<U>, kind: U::Kind, i: int)
    requires
        0 <= i < pool.len(),
        pool[i].kind_of() == kind,
        forall|j: int| 0 <= j < i ==> pool[j].kind_of() != kind,
    ensures
        position(pool, kind) == Some(i),
{
    lemma_position(pool, kind);
}

/// A pool without an item of the kind has no position for it.
pub proof fn lemma_position_none<U: Kinded>(pool: Seq<U>, kind: U::Kind)
    requires
        forall|j: int| 0 <= j < pool.len() ==> pool[j].kind_of() != kind,
    ensures
        position(pool, kind) is None,
{
    lemma_position(pool, kind);
}

/// What the join binds has the expected kinds, one item for each, and
/// together with the rest it is as long as the pool was.
pub proof fn lemma_join_kinds<U: Kinded>(pool: Seq<U>, expected: Seq<U::Kind>)
    ensures
        join(pool, expected) matches Some((matched, rest)) ==> {
            &&& matched.len() == expected.len()
            &&& matched.len() + rest.len() == pool.len()
            &&& forall|i: int| 0 <= i < expected.len() ==> matched[i].kind_of() == expected[i]
        },
    decreases expected.len(),
{
    if expected.len() > 0 {
        lemma_position(pool, expected[0]);
        if let Some(i) = position(pool, expected[0]) {
            lemma_join_kinds(pool.remove(i), expected.drop_first());
            if let Some((matched, rest)) = join(pool.remove(i), expected.drop_first()) {
                let all = seq![pool[i]] + matched;
                assert forall|k: int| 0 <= k < expected.len() implies all[k].kind_of()
                    == expected[k] by {
                    if k > 0 {
                        assert(all[k] == matched[k - 1]);
                        assert(expected[k] == expected.drop_first()[k - 1]);
                    }
                }
            }
        }
    }
}

/// The items of `pool` that are of the kind `kind`, in their order.
pub open spec fn of_kind<U: Kinded>(pool: Seq<U>, kind: U::Kind) -> Seq<U>
    decreases pool.len(),
{
    if pool.len() == 0 {
        Seq::empty()
    } else if pool[0].kind_of() == kind {
        seq![pool[0]] + of_kind(pool.drop_first(), kind)
    } else {
        of_kind(pool.drop_first(), kind)
    }
}

/// Whether two pools hold, for every kind, the same items of that kind in
/// the same order. Items of different kinds may be interleaved differently.
pub open spec fn same_by_kind<U: Kinded>(a: Seq<U>, b: Seq<U>) -> bool {
    forall|kind: U::Kind| #[trigger] of_kind(a, kind) == of_kind(b, kind)
}

/// What taking the first item of a kind out of a pool does to the items of
/// each kind: the items of that kind lose their first, which is the item
/// taken, and the items of every other kind stay as they are. Where the
/// pool has no position for the kind, it has no item of the kind.
pub proof fn lemma_position_of_kind<U: Kinded>(pool: Seq<U>, kind: U::Kind, other: U::Kind)
    ensures
        match position(pool, kind) {
            Some(i) => {
                &&& 0 <= i < pool.len()
                &&& of_kind(pool, kind).len() > 0
                &&& of_kind(pool, kind)[0] == pool[i]
                &&& of_kind(pool.remove(i), kind) == of_kind(pool, kind).drop_first()
                &&& other != kind ==> of_kind(pool.remove(i), other) == of_kind(pool, other)
            },
            None => of_kind(pool, kind).len() == 0,
        },
    decreases pool.len(),
{
    if pool.len() > 0 {
        let tail = pool.drop_first();
        if pool[0].kind_of() == kind {
            assert(pool.remove(0) =~= tail);
            assert(of_kind(pool, kind).drop_first() =~= of_kind(tail, kind));
        } else {
            lemma_position_of_kind(tail, kind, other);
            if let Some(j) = position(tail, kind) {
                let i = j + 1;
                let removed = pool.remove(i);
                assert(removed[0] == pool[0]);
                assert(removed.drop_first() =~= tail.remove(j));
                assert(pool[i] == tail[j]);
                if other != kind && pool[0].kind_of() == other {
                    assert(of_kind(removed, other) =~= of_kind(pool, other));
                }
            }
        }
    }
}

/// The join looks at each kind by itself: two pools that hold, for every
/// kind, the same items of that kind in the same order give the same
/// outcome, whatever the order of their items across kinds. Either both
/// are satisfied, and the same items are bound, or neither is.
pub proof fn lemma_join_by_kind<U: Kinded>(a: Seq<U>, b: Seq<U>, expected: Seq<U::Kind>)
    requires
        same_by_kind(a, b),
    ensures
        join(a, expected) is Some <==> join(b, expected) is Some,
        join(a, expected) matches Some((matched, _)) ==> join(b, expected) matches Some(
            (other, _),
        ) && matched == other,
        join(a, expected) matches Some((_, rest_a)) ==> join(b, expected) matches Some(
            (_, rest_b),
        ) && same_by_kind(rest_a, rest_b),
    decreases expected.len(),
{
    if expected.len() > 0 {
        let kind = expected[0];
        lemma_position_of_kind(a, kind, kind);
        lemma_position_of_kind(b, kind, kind);
        assert(of_kind(a, kind) == of_kind(b, kind));
        if let Some(i) = position(a, kind) {
            let j = position(b, kind)->Some_0;
            assert(a[i] == b[j]);
            assert forall|k: U::Kind| #[trigger]
                of_kind(a.remove(i), k) == of_kind(b.remove(j), k) by {
                lemma_position_of_kind(a, kind, k);
                lemma_position_of_kind(b, kind, k);
                assert(of_kind(a, k) == of_kind(b, k));
            }
            lemma_join_by_kind(a.remove(i), b.remove(j), expected.drop_first());
        }
    }
}

/// How many items of the kind `kind` the kinds `expected` ask for.
pub open spec fn asked<U: Kinded>(expected: Seq<U::Kind>, kind: U::Kind) -> nat
    decreases expected.len(),
{
    if expected.len() == 0 {
        0
    } else if expected[0] == kind {
        1 + asked::<U>(expected.drop_first(), kind)
    } else {
        asked::<U>(expected.drop_first(), kind)
    }
}

/// The first `n` items of `s`, or all of them where there are no more.
pub open spec fn first_n<U>(s: Seq<U>, n: nat) -> Seq<U> {
    if s.len() <= n {
        s
    } else {
        s.subrange(0, n as int)
    }
}

/// The items of `pool` that the join can bind to the kind `kind`: of the
/// items of that kind, as many of the first as `expected` asks for.
pub open spec fn candidates<U: Kinded>(
    pool: Seq<U>,
    expected: Seq<U::Kind>,
    kind: U::Kind,
) -> Seq<U> {
    first_n(of_kind(pool, kind), asked::<U>(expected, kind))
}

/// Whether two pools offer the join the same items: for every kind, the
/// same candidates in the same order. What stands around the candidates,
/// and where, makes no difference.
pub open spec fn same_candidates<U: Kinded>(a: Seq<U>, b: Seq<U>, expected: Seq<U::Kind>) -> bool {
    forall|kind: U::Kind| #[trigger]
        candidates(a, expected, kind) == candidates(b, expected, kind)
}

/// Dropping the first item and asking for one less comes to the same as
/// asking and then dropping the first.
proof fn lemma_first_n_drop<U>(s: Seq<U>, n: nat)
    requires
        s.len() > 0,
        n >= 1,
    ensures
        first_n(s.drop_first(), (n - 1) as nat) == first_n(s, n).drop_first(),
{
    if s.len() <= n {
    } else {
        assert(s.drop_first().subrange(0, n - 1) =~= s.subrange(0, n as int).drop_first());
    }
}

/// What the join binds depends on the kinds asked for and on the candidates
/// alone: two pools that offer the same candidates are both satisfied, with
/// the same items bound, or both not. Items that the join does not bind
/// may stand anywhere and be of any number.
pub proof fn lemma_join_purity<U: Kinded>(a: Seq<U>, b: Seq<U>, expected: Seq<U::Kind>)
    requires
        same_candidates(a, b, expected),
    ensures
        join(a, expected) is Some <==> join(b, expected) is Some,
        join(a, expected) matches Some((matched, _)) ==> join(b, expected) matches Some(
            (other, _),
        ) && matched == other,
    decreases expected.len(),
{
    if expected.len() > 0 {
        let kind = expected[0];
        let rest = expected.drop_first();
        let n = asked::<U>(expected, kind);
        assert(n == 1 + asked::<U>(rest, kind));
        lemma_position_of_kind(a, kind, kind);
        lemma_position_of_kind(b, kind, kind);
        let ka = of_kind(a, kind);
        let kb = of_kind(b, kind);
        assert(candidates(a, expected, kind) == candidates(b, expected, kind));
        assert(first_n(ka, n) == first_n(kb, n));
        if ka.len() == 0 {
            assert(first_n(kb, n).len() == 0);
            assert(kb.len() == 0);
        } else {
            assert(first_n(ka, n).len() >= 1);
            assert(kb.len() > 0);
            assert(first_n(ka, n)[0] == ka[0]);
            assert(first_n(kb, n)[0] == kb[0]);
            let i = position(a, kind)->Some_0;
            let j = position(b, kind)->Some_0;
            assert(a[i] == b[j]);
            assert forall|k: U::Kind| #[trigger]
                candidates(a.remove(i), rest, k) == candidates(b.remove(j), rest, k) by {
                lemma_position_of_kind(a, kind, k);
                lemma_position_of_kind(b, kind, k);
                assert(candidates(a, expected, k) == candidates(b, expected, k));
                if k == kind {
                    lemma_first_n_drop(ka, n);
                    lemma_first_n_drop(kb, n);
                } else {
                    assert(asked::<U>(expected, k) == asked::<U>(rest, k));
                }
            }
            lemma_join_purity(a.remove(i), b.remove(j), rest);
        }
    }
}

/// Takes the first item of the kind `kind` out of `vec`.
///
/// Where there is one, the result is a break with the other items, in their
/// order, and the item. Where there is none, it is a continue with all the
/// items, in their order.
pub fn pluck<U: Kinded>(vec: VecDeque<U>, kind: &U::Kind) -> (r: ControlFlow<
    (VecDeque<U>, U),
    VecDeque<U>,
>)
    ensures
        match r {
            ControlFlow::Break((rest, found)) => {
                &&& position(vec@, *kind) matches Some(i)
                &&& found == vec@[i]
                &&& rest@ == vec@.remove(i)
            },
            ControlFlow::Continue(rest) => {
                &&& position(vec@, *kind) is None
                &&& rest@ == vec@
            },
        },
{
    match pluck_at(vec, kind) {
        ControlFlow::Break((rest, found, _)) => ControlFlow::Break((rest, found)),
        ControlFlow::Continue(rest) => ControlFlow::Continue(rest),
    }
}

/// As `pluck`, and says where the item stood.
fn pluck_at<U: Kinded>(vec: VecDeque<U>, kind: &U::Kind) -> (r: ControlFlow<
    (VecDeque<U>, U, usize),
    VecDeque<U>,
>)
    ensures
        match r {
            ControlFlow::Break((rest, found, at)) => {
                &&& position(vec@, *kind) == Some(at as int)
                &&& at < vec@.len()
                &&& found == vec@[at as int]
                &&& rest@ == vec@.remove(at as int)
            },
            ControlFlow::Continue(rest) => {
                &&& position(vec@, *kind) is None
                &&& rest@ == vec@
            },
        },
{
    let ghost orig = vec@;
    let mut queue = vec;
    let mut new_vec: VecDeque<U> = VecDeque::new();
    loop
        invariant
            orig == vec@,
            new_vec@ + queue@ == orig,
            forall|j: int| 0 <= j < new_vec@.len() ==> new_vec@[j].kind_of() != *kind,
        decreases queue@.len(),
    {
        let ghost before = queue@;
        let ghost seen = new_vec@;
        match queue.pop_front() {
            Some(data) => {
                if data.is_kind(kind) {
                    let at = new_vec.len();
                    new_vec.append(&mut queue);
                    proof {
                        assert(orig[at as int] == before[0]);
                        assert forall|j: int| 0 <= j < at implies orig[j].kind_of() != *kind by {
                            assert(orig[j] == seen[j]);
                        }
                        lemma_position_is(orig, *kind, at as int);
                        assert(new_vec@ =~= orig.remove(at as int));
                    }
                    return ControlFlow::Break((new_vec, data, at));
                } else {
                    new_vec.push_back(data);
                    proof {
                        assert(new_vec@ + queue@ =~= seen + before);
                    }
                }
            },
            None => {
                proof {
                    assert(new_vec@ =~= orig);
                    lemma_position_none(orig, *kind);
                }
                return ControlFlow::Continue(new_vec);
            },
        }
    }
}

/// Matches the pool `data` against the kinds `expected`.
///
/// Where every kind finds its item, the result holds the items bound, in
/// the order of the kinds, and what is left of the pool, in its own order.
/// Where some kind finds none, the result is the pool as it was.
pub fn match_data<U: Kinded>(expected: &Vec<U::Kind>, data: VecDeque<U>) -> (r: Result<
    (VecDeque<U>, VecDeque<U>),
    VecDeque<U>,
>)
    ensures
        match r {
            Ok((matched, rest)) => join(data@, expected@) == Some((matched@, rest@)),
            Err(pool) => join(data@, expected@) is None && pool@ == data@,
        },
{
    proof {
        assert(expected@.subrange(0, expected@.len() as int) =~= expected@);
    }
    match_from(expected, 0, data)
}

/// Matches the pool `data` against the kinds `expected[from..]`.
fn match_from<U: Kinded>(expected: &Vec<U::Kind>, from: usize, data: VecDeque<U>) -> (r: Result<
    (VecDeque<U>, VecDeque<U>),
    VecDeque<U>,
>)
    requires
        from <= expected@.len(),
    ensures
        match r {
            Ok((matched, rest)) => join(
                data@,
                expected@.subrange(from as int, expected@.len() as int),
            ) == Some((matched@, rest@)),
            Err(pool) => join(data@, expected@.subrange(from as int, expected@.len() as int))
                is None && pool@ == data@,
        },
    decreases expected@.len() - from,
{
    let ghost kinds = expected@.subrange(from as int, expected@.len() as int);
    if from == expected.len() {
        return Ok((VecDeque::new(), data));
    }
    proof {
        assert(kinds[0] == expected@[from as int]);
        assert(kinds.drop_first() =~= expected@.subrange(from + 1, expected@.len() as int));
    }
    match pluck_at(data, &expected[from]) {
        ControlFlow::Continue(pool) => Err(pool),
        ControlFlow::Break((others, found, at)) => match match_from(expected, from + 1, others) {
            Ok((matched, rest)) => {
                let mut matched = matched;
                matched.push_front(found);
                Ok((matched, rest))
            },
            Err(pool) => {
                let mut pool = pool;
                pool.insert(at, found);
                proof {
                    assert(pool@ =~= data@);
                }
                Err(pool)
            },
        },
    }
}

/// A type whose values are the items of one kind of `U`.
pub trait Variant<U: Kinded>: Sized {
    /// The kind of the items that this type holds.
    spec fn kind() -> U::Kind;

    /// The item that a value of this type is.
    spec fn item(self) -> U;

    /// The value of this type that an item of the kind is.
    spec fn of_item(item: U) -> Self;

    /// A value is the value that its item is: the item says all of it.
    proof fn lemma_of_item(self)
        ensures
            Self::of_item(self.item()) == self,
    ;

    /// The kind of the items that this type holds.
    fn kind_tag() -> (k: U::Kind)
        ensures
            k == Self::kind(),
    ;

    /// Takes an item as a value of this type if it is of the kind, and
    /// hands it back as it is if not.
    fn try_from_item(item: U) -> (r: Result<Self, U>)
        ensures
            match r {
                Ok(value) => item.kind_of() == Self::kind() && value == Self::of_item(item)
                    && value.item() == item,
                Err(back) => item.kind_of() != Self::kind() && back == item,
            },
    ;
}

/// A typed list of items that can be taken out of a pool: the empty list
/// `()`, and a pair of a first item and the list of the others.
pub trait HListTryFromIterator<U: Kinded>: Sized {
    /// The kinds of the items of the list, in order.
    spec fn kinds() -> Seq<U::Kind>;

    /// The items of the list, in order.
    spec fn items(self) -> Seq<U>;

    /// The list that items of the kinds of the list, in their order, make.
    spec fn of_items(items: Seq<U>) -> Self;

    /// A list is the list that its items make.
    proof fn lemma_of_items(self)
        ensures
            Self::of_items(self.items()) == self,
    ;

    /// The kinds of the items of the list, in order.
    fn kind_tags() -> (r: Vec<U::Kind>)
        ensures
            r@ == Self::kinds(),
    ;

    /// Takes the items, which are of the kinds of the list and in their
    /// order, as the list.
    fn from_items(items: VecDeque<U>) -> (r: Self)
        requires
            items@.len() == Self::kinds().len(),
            forall|i: int| 0 <= i < items@.len() ==> items@[i].kind_of() == Self::kinds()[i],
        ensures
            r == Self::of_items(items@),
            r.items() == items@,
    ;

    /// Takes the list out of the pool `vec`.
    ///
    /// Succeeds where every kind finds its item: with the list of the items
    /// that the join binds, and with what is left of the pool, in its own
    /// order, to go back to where the pool came from. Fails where some kind
    /// finds no item, with the pool as it was.
    fn try_from_iter(vec: VecDeque<U>) -> (r: Result<(Self, VecDeque<U>), VecDeque<U>>)
        ensures
            match join(vec@, Self::kinds()) {
                Some((matched, rest)) => {
                    &&& r matches Ok((list, left))
                    &&& list == Self::of_items(matched)
                    &&& list.items() == matched
                    &&& left@ == rest
                },
                None => r matches Err(pool) && pool@ == vec@,
            },
    ;
}

impl<U: Kinded> HListTryFromIterator<U> for () {
    open spec fn kinds() -> Seq<U::Kind> {
        Seq::empty()
    }

    open spec fn items(self) -> Seq<U> {
        Seq::empty()
    }

    open spec fn of_items(items: Seq<U>) -> () {
        ()
    }

    proof fn lemma_of_items(self) {
    }

    fn kind_tags() -> (r: Vec<U::Kind>) {
        Vec::new()
    }

    fn from_items(items: VecDeque<U>) -> (r: ()) {
        assert(items@ =~= Seq::<U>::empty());
        ()
    }

    fn try_from_iter(vec: VecDeque<U>) -> (r: Result<((), VecDeque<U>), VecDeque<U>>) {
        Ok(((), vec))
    }
}

impl<U: Kinded, T: Variant<U>, Tail: HListTryFromIterator<U>> HListTryFromIterator<U> for (
    T,
    Tail,
) {
    open spec fn kinds() -> Seq<U::Kind> {
        seq![T::kind()] + Tail::kinds()
    }

    open spec fn items(self) -> Seq<U> {
        seq![self.0.item()] + self.1.items()
    }

    open spec fn of_items(items: Seq<U>) -> (T, Tail) {
        (T::of_item(items[0]), Tail::of_items(items.drop_first()))
    }

    proof fn lemma_of_items(self) {
        self.0.lemma_of_item();
        self.1.lemma_of_items();
        assert(self.items().drop_first() =~= self.1.items());
    }

    fn kind_tags() -> (r: Vec<U::Kind>) {
        let mut r: Vec<U::Kind> = Vec::new();
        r.push(T::kind_tag());
        let mut tail = Tail::kind_tags();
        r.append(&mut tail);
        assert(r@ =~= Self::kinds());
        r
    }

    fn from_items(items: VecDeque<U>) -> (r: (T, Tail)) {
        let mut items = items;
        let ghost all = items@;
        let first = match items.pop_front() {
            Some(first) => first,
            None => unreached(),
        };
        assert(first.kind_of() == Self::kinds()[0]);
        let head = match T::try_from_item(first) {
            Ok(head) => head,
            Err(_) => unreached(),
        };
        assert forall|i: int| 0 <= i < items@.len() implies items@[i].kind_of()
            == Tail::kinds()[i] by {
            assert(items@[i] == all[i + 1]);
            assert(Self::kinds()[i + 1] == Tail::kinds()[i]);
        }
        assert(items@ =~= all.drop_first());
        let tail = Tail::from_items(items);
        assert(seq![head.item()] + tail.items() =~= all);
        (head, tail)
    }

    fn try_from_iter(vec: VecDeque<U>) -> (r: Result<((T, Tail), VecDeque<U>), VecDeque<U>>) {
        let expected = Self::kind_tags();
        proof {
            lemma_join_kinds(vec@, expected@);
        }
        match match_data(&expected, vec) {
            Ok((matched, rest)) => Ok((Self::from_items(matched), rest)),
            Err(pool) => Err(pool),
        }
    }
}

/// The items of a typed list fix the list: two lists of one type with the
/// same items are the same list. So what a receiver is handed depends on
/// the items that the join binds and on nothing else.
pub proof fn lemma_items_fix_the_list<U: Kinded, L: HListTryFromIterator<U>>(a: L, b: L)
    requires
        a.items() == b.items(),
    ensures
        a == b,
{
    a.lemma_of_items();
    b.lemma_of_items();
}

/// What names the kinds of data that it consumes, in order.
pub trait Receiver<D: Kinded> {
    /// The kinds of data that this receiver consumes, in order.
    spec fn expects(&self) -> Seq<D::Kind>;

    /// The kinds of data that this receiver consumes, in order.
    fn expected(&self) -> (r: Vec<D::Kind>)
        ensures
            r@ == self.expects(),
    ;

    /// Whether `item` is meant for this receiver, whatever its kind: whether
    /// the two are about the same chain, where they say which chain they
    /// are about.
    spec fn serves(&self, item: &D) -> bool;

    /// Whether `item` is meant for this receiver, whatever its kind.
    fn can_serve(&self, item: &D) -> (b: bool)
        ensures
            b == self.serves(item),
    ;
}

/// What receives the data of an aggregate: the typed list of data it
/// consumes, and what is to be done with it.
pub trait UseAggregate<T: QueueMsgTypes>: Sized {
    /// The data that this receiver consumes.
    type AggregatedData: HListTryFromIterator<T::Data>;

    /// The term that this receiver continues with, given its data.
    spec fn continuation(self, data: Self::AggregatedData) -> QueueTerm<T>;

    /// Continues with the data that was asked for.
    fn aggregate(this: Self, data: Self::AggregatedData) -> (r: QueueMsg<T>)
        ensures
            r@ == this.continuation(data),
    ;
}

/// Whether the pool `data` holds what a receiver of the type `R` asks for.
pub open spec fn satisfies<T: QueueMsgTypes, R: UseAggregate<T>>(data: Seq<T::Data>) -> bool {
    join(data, R::AggregatedData::kinds()) is Some
}

/// The typed list that a receiver of the type `R` is handed out of the
/// pool `data`: the list made of the items that the join binds.
pub open spec fn handed_over<T: QueueMsgTypes, R: UseAggregate<T>>(
    data: Seq<T::Data>,
) -> R::AggregatedData {
    R::AggregatedData::of_items(join(data, R::AggregatedData::kinds())->Some_0.0)
}

/// Hands to `event` the data it asks for out of the pool `data`, and returns
/// the term it continues with, together with what is left of the pool.
///
/// The data handed over is what the join binds: for each kind that the
/// receiver asks for, in order, the first item of that kind in the pool.
/// The term is a function of the receiver and the pool: handing the same
/// pool to the same receiver again gives the same term again.
pub fn do_aggregate<T: QueueMsgTypes, R: UseAggregate<T>>(event: R, data: VecDeque<T::Data>) -> (r:
    (QueueMsg<T>, VecDeque<T::Data>))
    requires
        satisfies::<T, R>(data@),
    ensures
        r.0@ == event.continuation(handed_over::<T, R>(data@)),
        handed_over::<T, R>(data@).items() == join(data@, R::AggregatedData::kinds())->Some_0.0,
        r.1@ == join(data@, R::AggregatedData::kinds())->Some_0.1,
{
    match R::AggregatedData::try_from_iter(data) {
        Ok((list, rest)) => (R::aggregate(event, list), rest),
        Err(_) => unreached(),
    }
}

} // verus!
