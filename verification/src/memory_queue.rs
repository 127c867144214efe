//! A queue that lives in memory and keeps the contract of the durable queue.
//!
//! An item is ready until a worker pops it. From then on it is in flight,
//! and the queue still holds it: the worker got a copy. The item leaves the
//! queue when the worker commits what came of it, or is parked until
//! something wakes it. What is in flight when the process stops is ready
//! again when the queue recovers.

use std::collections::VecDeque;
use vstd::pervasive::cloned;
use vstd::prelude::*;

verus! {

/// What names an item on the queue. Tickets are handed out in rising order.
pub type Ticket = u64;

/// A queue of items that are ready to be worked on, of items that are being
/// worked on, and of items that are parked until something wakes them.
pub struct MemoryQueue<Item> {
    next: u64,
    ready: VecDeque<(u64, Item)>,
    in_flight: Vec<(u64, Item)>,
    parked: Vec<(u64, Item)>,
}

/// A queue as a mathematical value.
pub ghost struct MemoryQueueView<Item> {
    /// The ticket that the next item gets.
    pub next: u64,
    /// The items that are ready, the one to be worked on next first.
    pub ready: Seq<(u64, Item)>,
    /// The items that are being worked on, in the order they were popped in.
    pub in_flight: Seq<(u64, Item)>,
    /// The items that are parked, in the order they were parked in.
    pub parked: Seq<(u64, Item)>,
}

/// Why a commit or a park was refused. The queue stays as it was.
#[derive(Debug, Clone, Copy, PartialEq, Eq, Structural)]
pub enum Refused {
    /// No item is in flight under the ticket.
    NotInFlight,
    /// The tickets do not suffice for what was produced.
    OutOfTickets,
}

/// The items of `produced` with tickets from `next` on.
pub open spec fn ticketed<Item>(next: u64, produced: Seq<Item>) -> Seq<(u64, Item)> {
    Seq::new(produced.len(), |i: int| ((next + i) as u64, produced[i]))
}

/// The index of the first of `entries` that goes under `ticket`.
pub open spec fn place<Item>(entries: Seq<(u64, Item)>, ticket: u64) -> Option<int>
    decreases entries.len(),
{
    if entries.len() == 0 {
        None
    } else if entries[0].0 == ticket {
        Some(0)
    } else {
        match place(entries.drop_first(), ticket) {
            Some(i) => Some(i + 1),
            None => None,
        }
    }
}

/// The items of `parked` whose ticket is among `tickets` if `woken`, and
/// the others if not, in their order.
pub open spec fn chosen<Item>(parked: Seq<(u64, Item)>, tickets: Seq<u64>, woken: bool) -> Seq<
    (u64, Item),
>
    decreases parked.len(),
{
    if parked.len() == 0 {
        Seq::empty()
    } else if tickets.contains(parked.last().0) == woken {
        chosen(parked.drop_last(), tickets, woken).push(parked.last())
    } else {
        chosen(parked.drop_last(), tickets, woken)
    }
}

/// Whether every ticket of `entries` lies below `next`.
pub open spec fn below<Item>(entries: Seq<(u64, Item)>, next: u64) -> bool {
    forall|i: int| 0 <= i < entries.len() ==> (#[trigger] entries[i]).0 < next
}

impl<Item> MemoryQueueView<Item> {
    /// The queue once the first of its ready items has been popped.
    pub open spec fn popped(self) -> Self {
        MemoryQueueView {
            ready: self.ready.drop_first(),
            in_flight: self.in_flight.push(self.ready[0]),
            ..self
        }
    }

    /// The queue once it has taken up after a stop.
    pub open spec fn recovered(self) -> Self {
        MemoryQueueView { ready: self.in_flight + self.ready, in_flight: Seq::empty(), ..self }
    }

    /// Whether every ticket on the queue has been handed out already.
    pub open spec fn well_formed(self) -> bool {
        &&& below(self.ready, self.next)
        &&& below(self.in_flight, self.next)
        &&& below(self.parked, self.next)
    }
}

impl<Item> View for MemoryQueue<Item> {
    type V = MemoryQueueView<Item>;

    closed spec fn view(&self) -> MemoryQueueView<Item> {
        MemoryQueueView {
            next: self.next,
            ready: self.ready@,
            in_flight: self.in_flight@,
            parked: self.parked@,
        }
    }
}

/// `place` finds an entry under the ticket, within the entries.
proof fn lemma_place<Item>(entries: Seq<(u64, Item)>, ticket: u64)
    ensures
        match place(entries, ticket) {
            Some(i) => 0 <= i < entries.len() && entries[i].0 == ticket && forall|j: int|
                0 <= j < i ==> (#[trigger] entries[j]).0 != ticket,
            None => forall|j: int| 0 <= j < entries.len() ==> (#[trigger] entries[j]).0 != ticket,
        },
    decreases entries.len(),
{
    if entries.len() > 0 && entries[0].0 != ticket {
        let tail = entries.drop_first();
        lemma_place(tail, ticket);
        match place(tail, ticket) {
            Some(i) => {
                assert forall|j: int| 0 <= j < i + 1 implies (#[trigger] entries[j]).0
                    != ticket by {
                    if j > 0 {
                        assert(entries[j] == tail[j - 1]);
                    }
                }
            },
            None => {
                assert forall|j: int| 0 <= j < entries.len() implies (#[trigger] entries[j]).0
                    != ticket by {
                    if j > 0 {
                        assert(entries[j] == tail[j - 1]);
                    }
                }
            },
        }
    }
}

/// Entries with an entry taken out have no ticket that they had not before.
proof fn lemma_below_remove<Item>(entries: Seq<(u64, Item)>, i: int, next: u64)
    requires
        below(entries, next),
        0 <= i < entries.len(),
    ensures
        below(entries.remove(i), next),
{
    let rest = entries.remove(i);
    assert forall|k: int| 0 <= k < rest.len() implies (#[trigger] rest[k]).0 < next by {
        if k < i {
            assert(rest[k] == entries[k]);
        } else {
            assert(rest[k] == entries[k + 1]);
        }
    }
}

/// Entries put one after the other have the tickets of both.
proof fn lemma_below_concat<Item>(a: Seq<(u64, Item)>, b: Seq<(u64, Item)>, next: u64)
    requires
        below(a, next),
        below(b, next),
    ensures
        below(a + b, next),
{
    let all = a + b;
    assert forall|k: int| 0 <= k < all.len() implies (#[trigger] all[k]).0 < next by {
        if k < a.len() {
            assert(all[k] == a[k]);
        } else {
            assert(all[k] == b[k - a.len()]);
        }
    }
}

/// What is chosen among the parked items has tickets of parked items.
proof fn lemma_below_chosen<Item>(
    parked: Seq<(u64, Item)>,
    tickets: Seq<u64>,
    woken: bool,
    next: u64,
)
    requires
        below(parked, next),
    ensures
        below(chosen(parked, tickets, woken), next),
    decreases parked.len(),
{
    if parked.len() > 0 {
        let head = parked.drop_last();
        assert forall|k: int| 0 <= k < head.len() implies (#[trigger] head[k]).0 < next by {
            assert(head[k] == parked[k]);
        }
        lemma_below_chosen(head, tickets, woken, next);
        let all = chosen(parked, tickets, woken);
        assert forall|k: int| 0 <= k < all.len() implies (#[trigger] all[k]).0 < next by {
            if k < chosen(head, tickets, woken).len() {
                assert(all[k] == chosen(head, tickets, woken)[k]);
            } else {
                assert(all[k] == parked[parked.len() - 1]);
            }
        }
    }
}

impl<Item> MemoryQueue<Item> {
    /// Every ticket on the queue has been handed out already.
    #[verifier::type_invariant]
    closed spec fn tickets_handed_out(self) -> bool {
        self@.well_formed()
    }

    /// Takes the queue out of its place, and leaves an empty queue there.
    fn take(&mut self) -> (r: Self)
        ensures
            r == *old(self),
    {
        let mut taken = MemoryQueue::new();
        core::mem::swap(self, &mut taken);
        taken
    }

    /// An empty queue.
    pub fn new() -> (r: Self)
        ensures
            r@.next == 0,
            r@.ready.len() == 0,
            r@.in_flight.len() == 0,
            r@.parked.len() == 0,
    {
        MemoryQueue { next: 0, ready: VecDeque::new(), in_flight: Vec::new(), parked: Vec::new() }
    }

    /// Puts `item` at the end of the ready items, under a ticket above the
    /// tickets of all items on the queue. Fails, and hands the item back,
    /// once every ticket has been handed out.
    pub fn push(&mut self, item: Item) -> (r: Result<Ticket, Item>)
        ensures
            final(self)@.well_formed(),
            match r {
                Ok(ticket) => {
                    &&& old(self)@.next < u64::MAX
                    &&& ticket == old(self)@.next
                    &&& old(self)@.well_formed()
                    &&& final(self)@ == (MemoryQueueView {
                        next: (ticket + 1) as u64,
                        ready: old(self)@.ready.push((ticket, item)),
                        ..old(self)@
                    })
                },
                Err(back) => old(self)@.next == u64::MAX && back == item && final(self)@
                    == old(self)@,
            },
    {
        proof {
            use_type_invariant(&*self);
        }
        if self.next == u64::MAX {
            return Err(item);
        }
        let ghost start = self@;
        let MemoryQueue { next: ticket, ready, in_flight, parked } = self.take();
        let mut ready = ready;
        ready.push_back((ticket, item));
        proof {
            assert(ready@ =~= start.ready + seq![(ticket, item)]);
            lemma_below_concat(start.ready, seq![(ticket, item)], (ticket + 1) as u64);
        }
        *self = MemoryQueue { next: ticket + 1, ready, in_flight, parked };
        Ok(ticket)
    }

    /// Hands out a copy of the first of the ready items, which is in flight
    /// from now on.
    pub fn pop_ready(&mut self) -> (r: Option<(Ticket, Item)>) where Item: Clone
        ensures
            final(self)@.well_formed(),
            match r {
                Some((ticket, item)) => {
                    &&& old(self)@.ready.len() > 0
                    &&& ticket == old(self)@.ready[0].0
                    &&& cloned(old(self)@.ready[0].1, item)
                    &&& final(self)@ == old(self)@.popped()
                },
                None => old(self)@.ready.len() == 0 && final(self)@ == old(self)@,
            },
    {
        proof {
            use_type_invariant(&*self);
        }
        let ghost start = self@;
        let MemoryQueue { next, ready, in_flight, parked } = self.take();
        let mut ready = ready;
        let mut in_flight = in_flight;
        match ready.pop_front() {
            Some((ticket, item)) => {
                let copy = item.clone();
                in_flight.push((ticket, item));
                proof {
                    assert(ready@ =~= start.ready.drop_first());
                    assert(start.ready.drop_first() =~= start.ready.remove(0));
                    lemma_below_remove(start.ready, 0, next);
                    assert(in_flight@ =~= start.in_flight + seq![start.ready[0]]);
                    lemma_below_concat(start.in_flight, seq![start.ready[0]], next);
                }
                *self = MemoryQueue { next, ready, in_flight, parked };
                Some((ticket, copy))
            },
            None => {
                *self = MemoryQueue { next, ready, in_flight, parked };
                None
            },
        }
    }

    /// Ends the work on the item under `ticket`: takes it off the queue and
    /// puts the items `produced` at the end of the ready items, in their
    /// order and under fresh tickets. Either all of this happens, or, where
    /// it is refused, nothing.
    pub fn commit(&mut self, ticket: Ticket, produced: Vec<Item>) -> (r: Result<(), Refused>)
        ensures
            final(self)@.well_formed(),
            match r {
                Ok(()) => {
                    &&& place(old(self)@.in_flight, ticket) matches Some(i)
                    &&& old(self)@.next + produced@.len() <= u64::MAX
                    &&& final(self)@ == (MemoryQueueView {
                        next: (old(self)@.next + produced@.len()) as u64,
                        ready: old(self)@.ready + ticketed(old(self)@.next, produced@),
                        in_flight: old(self)@.in_flight.remove(i),
                        parked: old(self)@.parked,
                    })
                },
                Err(Refused::NotInFlight) => place(old(self)@.in_flight, ticket) is None
                    && final(self)@ == old(self)@,
                Err(Refused::OutOfTickets) => place(old(self)@.in_flight, ticket) is Some && old(
                    self,
                )@.next + produced@.len() > u64::MAX && final(self)@ == old(self)@,
            },
    {
        proof {
            use_type_invariant(&*self);
        }
        let at = match find(&self.in_flight, ticket) {
            Some(at) => at,
            None => {
                return Err(Refused::NotInFlight);
            },
        };
        let count = produced.len();
        if count as u64 > u64::MAX - self.next {
            return Err(Refused::OutOfTickets);
        }
        let ghost all = produced@;
        let ghost start = self@;
        let MemoryQueue { next, ready, in_flight, parked } = self.take();
        let mut ready = ready;
        let mut in_flight = in_flight;
        let mut produced = produced;
        let mut next = next;
        let mut i: usize = 0;
        in_flight.remove(at);
        proof {
            lemma_below_remove(start.in_flight, at as int, start.next);
            assert(ready@ =~= start.ready + ticketed(start.next, all.subrange(0, 0)));
        }
        while i < count
            invariant
                i <= count,
                count == all.len(),
                start.next + count <= u64::MAX,
                next == start.next + i,
                produced@ == all.subrange(i as int, count as int),
                ready@ == start.ready + ticketed(start.next, all.subrange(0, i as int)),
            decreases count - i,
        {
            let item = produced.remove(0);
            ready.push_back((next, item));
            next = next + 1;
            i = i + 1;
            proof {
                assert(produced@ =~= all.subrange(i as int, count as int));
                assert(item == all[i - 1]);
                assert(ready@ =~= start.ready + ticketed(start.next, all.subrange(0, i as int)));
            }
        }
        proof {
            assert(all.subrange(0, count as int) =~= all);
            let fresh = ticketed(start.next, all);
            assert forall|k: int| 0 <= k < fresh.len() implies (#[trigger] fresh[k]).0 < next by {}
            assert forall|k: int| 0 <= k < start.ready.len() implies (#[trigger] start.ready[k]).0
                < next by {}
            lemma_below_concat(start.ready, fresh, next);
            assert forall|k: int| 0 <= k < in_flight@.len() implies (#[trigger] in_flight@[k]).0
                < next by {}
            assert forall|k: int| 0 <= k < parked@.len() implies (#[trigger] parked@[k]).0
                < next by {}
        }
        *self = MemoryQueue { next, ready, in_flight, parked };
        Ok(())
    }

    /// Parks the item that is in flight under `ticket`, in the state
    /// `state` that the work has brought it to.
    pub fn park(&mut self, ticket: Ticket, state: Item) -> (r: Result<(), Item>)
        ensures
            final(self)@.well_formed(),
            match r {
                Ok(()) => {
                    &&& place(old(self)@.in_flight, ticket) matches Some(i)
                    &&& final(self)@ == (MemoryQueueView {
                        in_flight: old(self)@.in_flight.remove(i),
                        parked: old(self)@.parked.push((ticket, state)),
                        ..old(self)@
                    })
                },
                Err(back) => place(old(self)@.in_flight, ticket) is None && back == state
                    && final(self)@ == old(self)@,
            },
    {
        proof {
            use_type_invariant(&*self);
        }
        let at = match find(&self.in_flight, ticket) {
            Some(at) => at,
            None => {
                return Err(state);
            },
        };
        let ghost start = self@;
        let MemoryQueue { next, ready, in_flight, parked } = self.take();
        let mut in_flight = in_flight;
        let mut parked = parked;
        in_flight.remove(at);
        parked.push((ticket, state));
        proof {
            lemma_below_remove(start.in_flight, at as int, next);
            lemma_place(start.in_flight, ticket);
            assert(start.in_flight[at as int].0 < next);
            let one = seq![(ticket, state)];
            assert forall|k: int| 0 <= k < one.len() implies (#[trigger] one[k]).0 < next by {}
            assert(parked@ =~= start.parked + one);
            lemma_below_concat(start.parked, one, next);
        }
        *self = MemoryQueue { next, ready, in_flight, parked };
        Ok(())
    }

    /// Keeps the item that is parked under `ticket` parked, in the state
    /// `state` that it has come to meanwhile. It keeps its place.
    pub fn park_again(&mut self, ticket: Ticket, state: Item) -> (r: Result<(), Item>)
        ensures
            final(self)@.well_formed(),
            match r {
                Ok(()) => {
                    &&& place(old(self)@.parked, ticket) matches Some(i)
                    &&& final(self)@ == (MemoryQueueView {
                        parked: old(self)@.parked.update(i, (ticket, state)),
                        ..old(self)@
                    })
                },
                Err(back) => place(old(self)@.parked, ticket) is None && back == state
                    && final(self)@ == old(self)@,
            },
    {
        proof {
            use_type_invariant(&*self);
        }
        let at = match find(&self.parked, ticket) {
            Some(at) => at,
            None => {
                return Err(state);
            },
        };
        let ghost start = self@;
        let MemoryQueue { next, ready, in_flight, parked } = self.take();
        let mut parked = parked;
        parked.set(at, (ticket, state));
        proof {
            lemma_place(start.parked, ticket);
            assert(start.parked[at as int].0 < next);
            assert forall|k: int| 0 <= k < parked@.len() implies (#[trigger] parked@[k]).0
                < next by {
                if k != at {
                    assert(parked@[k] == start.parked[k]);
                }
            }
        }
        *self = MemoryQueue { next, ready, in_flight, parked };
        Ok(())
    }

    /// Makes the item that is parked under `ticket` ready again, in the
    /// state `state` that what it waited for has brought it to. It goes to
    /// the end of the ready items.
    pub fn wake_as(&mut self, ticket: Ticket, state: Item) -> (r: Result<(), Item>)
        ensures
            final(self)@.well_formed(),
            match r {
                Ok(()) => {
                    &&& place(old(self)@.parked, ticket) matches Some(i)
                    &&& final(self)@ == (MemoryQueueView {
                        parked: old(self)@.parked.remove(i),
                        ready: old(self)@.ready.push((ticket, state)),
                        ..old(self)@
                    })
                },
                Err(back) => place(old(self)@.parked, ticket) is None && back == state
                    && final(self)@ == old(self)@,
            },
    {
        proof {
            use_type_invariant(&*self);
        }
        let at = match find(&self.parked, ticket) {
            Some(at) => at,
            None => {
                return Err(state);
            },
        };
        let ghost start = self@;
        let MemoryQueue { next, ready, in_flight, parked } = self.take();
        let mut ready = ready;
        let mut parked = parked;
        parked.remove(at);
        ready.push_back((ticket, state));
        proof {
            lemma_below_remove(start.parked, at as int, next);
            lemma_place(start.parked, ticket);
            assert(start.parked[at as int].0 < next);
            let one = seq![(ticket, state)];
            assert forall|k: int| 0 <= k < one.len() implies (#[trigger] one[k]).0 < next by {}
            assert(ready@ =~= start.ready + one);
            lemma_below_concat(start.ready, one, next);
        }
        *self = MemoryQueue { next, ready, in_flight, parked };
        Ok(())
    }

    /// Moves the parked items whose ticket is among `tickets` to the end of
    /// the ready items, in the order they were parked in. The others stay
    /// parked.
    pub fn wake(&mut self, tickets: &Vec<Ticket>)
        ensures
            final(self)@.well_formed(),
            final(self)@ == (MemoryQueueView {
                ready: old(self)@.ready + chosen(old(self)@.parked, tickets@, true),
                parked: chosen(old(self)@.parked, tickets@, false),
                ..old(self)@
            }),
    {
        proof {
            use_type_invariant(&*self);
        }
        let ghost start = self@;
        let MemoryQueue { next, ready, in_flight, parked } = self.take();
        let mut ready = ready;
        let mut rest = parked;
        let mut kept: Vec<(u64, Item)> = Vec::new();
        let mut i: usize = 0;
        let total = rest.len();
        proof {
            assert(start.parked.subrange(0, 0) =~= Seq::<(u64, Item)>::empty());
            assert(ready@ =~= start.ready + chosen(start.parked.subrange(0, 0), tickets@, true));
        }
        while rest.len() > 0
            invariant
                i + rest@.len() == total,
                total == start.parked.len(),
                rest@ == start.parked.subrange(i as int, total as int),
                ready@ == start.ready + chosen(
                    start.parked.subrange(0, i as int),
                    tickets@,
                    true,
                ),
                kept@ == chosen(start.parked.subrange(0, i as int), tickets@, false),
            decreases rest@.len(),
        {
            let entry = rest.remove(0);
            proof {
                let upto = start.parked.subrange(0, i + 1);
                assert(upto.drop_last() =~= start.parked.subrange(0, i as int));
                assert(upto.last() == entry);
                assert(rest@ =~= start.parked.subrange(i + 1, total as int));
            }
            if contains(tickets, entry.0) {
                ready.push_back(entry);
            } else {
                kept.push(entry);
            }
            i = i + 1;
            proof {
                assert(ready@ =~= start.ready + chosen(
                    start.parked.subrange(0, i as int),
                    tickets@,
                    true,
                ));
            }
        }
        proof {
            assert(start.parked.subrange(0, i as int) =~= start.parked);
            lemma_below_chosen(start.parked, tickets@, true, next);
            lemma_below_chosen(start.parked, tickets@, false, next);
            lemma_below_concat(start.ready, chosen(start.parked, tickets@, true), next);
        }
        *self = MemoryQueue { next, ready, in_flight, parked: kept };
    }

    /// Takes up after a stop: what was in flight is ready again, before
    /// everything that was ready, in the order it was popped in.
    pub fn recover(&mut self)
        ensures
            final(self)@.well_formed(),
            final(self)@ == old(self)@.recovered(),
    {
        proof {
            use_type_invariant(&*self);
        }
        let ghost start = self@;
        let MemoryQueue { next, ready, in_flight, parked } = self.take();
        let mut ready = ready;
        let mut in_flight = in_flight;
        while in_flight.len() > 0
            invariant
                in_flight@ + ready@ == start.in_flight + start.ready,
            decreases in_flight@.len(),
        {
            let ghost before = in_flight@;
            let ghost after = ready@;
            match in_flight.pop() {
                Some(entry) => {
                    ready.push_front(entry);
                    proof {
                        assert(in_flight@ + ready@ =~= before + after);
                    }
                },
                None => {},
            }
        }
        proof {
            assert(ready@ =~= start.in_flight + start.ready);
            assert(in_flight@ =~= Seq::<(u64, Item)>::empty());
            lemma_below_concat(start.in_flight, start.ready, next);
        }
        *self = MemoryQueue { next, ready, in_flight, parked };
    }

    /// The number of items that are ready.
    pub fn ready_len(&self) -> (n: usize)
        ensures
            n == self@.ready.len(),
    {
        self.ready.len()
    }

    /// The number of items that are in flight.
    pub fn in_flight_len(&self) -> (n: usize)
        ensures
            n == self@.in_flight.len(),
    {
        self.in_flight.len()
    }

    /// The number of items that are parked.
    pub fn parked_len(&self) -> (n: usize)
        ensures
            n == self@.parked.len(),
    {
        self.parked.len()
    }
}

/// Whether `ticket` is among `tickets`.
fn contains(tickets: &Vec<Ticket>, ticket: Ticket) -> (found: bool)
    ensures
        found == tickets@.contains(ticket),
{
    let mut i: usize = 0;
    while i < tickets.len()
        invariant
            i <= tickets@.len(),
            forall|j: int| 0 <= j < i ==> tickets@[j] != ticket,
        decreases tickets@.len() - i,
    {
        if tickets[i] == ticket {
            return true;
        }
        i = i + 1;
    }
    false
}

/// The index of the first of `entries` that goes under `ticket`.
fn find<Item>(entries: &Vec<(u64, Item)>, ticket: Ticket) -> (r: Option<usize>)
    ensures
        match r {
            Some(i) => place(entries@, ticket) == Some(i as int) && i < entries@.len(),
            None => place(entries@, ticket) is None,
        },
{
    let mut i: usize = 0;
    while i < entries.len()
        invariant
            i <= entries@.len(),
            forall|j: int| 0 <= j < i ==> (#[trigger] entries@[j]).0 != ticket,
        decreases entries@.len() - i,
    {
        if entries[i].0 == ticket {
            proof {
                lemma_place(entries@, ticket);
            }
            return Some(i);
        }
        i = i + 1;
    }
    proof {
        lemma_place(entries@, ticket);
    }
    None
}

/// An item that a worker popped and did not commit or park is worked on
/// again after a stop: once the queue has recovered, the item is the first
/// of the ready items again, and the queue is as it was before the pop.
pub proof fn lemma_recovered_item_is_ready_again<Item>(queue: MemoryQueueView<Item>)
    requires
        queue.ready.len() > 0,
        queue.in_flight.len() == 0,
    ensures
        queue.popped().recovered() == queue,
        queue.popped().recovered().ready[0] == queue.ready[0],
{
    assert(queue.popped().recovered().ready =~= queue.ready);
    assert(queue.in_flight =~= Seq::<(u64, Item)>::empty());
}

} // verus!
