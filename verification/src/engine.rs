//! What the driver of the queue keeps for each chain: how much work is in
//! flight, and how far the chain has been read.

use crate::height::Height;
use vstd::prelude::*;

verus! {

/// The work in flight on one chain.
///
/// At most one effect is in flight at a time, so that the transactions of
/// one signer reach the chain in order. Fetches run side by side, up to a
/// cap.
#[derive(Debug, Clone, Copy, PartialEq, Eq)]
pub struct ChainSlots {
    effect_in_flight: bool,
    fetches_in_flight: usize,
    fetch_cap: usize,
}

impl ChainSlots {
    /// No more fetches are in flight than the cap allows.
    #[verifier::type_invariant]
    closed spec fn within_cap(self) -> bool {
        self.fetches_in_flight <= self.fetch_cap
    }

    /// Whether an effect is in flight.
    pub closed spec fn effect_busy(self) -> bool {
        self.effect_in_flight
    }

    /// The number of fetches in flight.
    pub closed spec fn fetches(self) -> nat {
        self.fetches_in_flight as nat
    }

    /// The number of fetches that may be in flight at once.
    pub closed spec fn cap(self) -> nat {
        self.fetch_cap as nat
    }

    /// The slots of a chain on which nothing is in flight.
    pub fn new(fetch_cap: usize) -> (r: ChainSlots)
        ensures
            !r.effect_busy(),
            r.fetches() == 0,
            r.cap() == fetch_cap,
    {
        ChainSlots { effect_in_flight: false, fetches_in_flight: 0, fetch_cap }
    }

    /// Takes the effect slot if it is free, and says whether it did.
    pub fn try_start_effect(&mut self) -> (started: bool)
        ensures
            started == !old(self).effect_busy(),
            final(self).effect_busy() == busy_after(
                old(self).effect_busy(),
                seq![SlotEvent::TryStart],
            ),
            final(self).effect_busy(),
            final(self).fetches() == old(self).fetches(),
            final(self).cap() == old(self).cap(),
    {
        proof {
            use_type_invariant(&*self);
        }
        let started = !self.effect_in_flight;
        *self = ChainSlots {
            effect_in_flight: true,
            fetches_in_flight: self.fetches_in_flight,
            fetch_cap: self.fetch_cap,
        };
        started
    }

    /// Frees the effect slot.
    pub fn finish_effect(&mut self)
        ensures
            final(self).effect_busy() == busy_after(
                old(self).effect_busy(),
                seq![SlotEvent::Finish],
            ),
            !final(self).effect_busy(),
            final(self).fetches() == old(self).fetches(),
            final(self).cap() == old(self).cap(),
    {
        proof {
            use_type_invariant(&*self);
        }
        *self = ChainSlots {
            effect_in_flight: false,
            fetches_in_flight: self.fetches_in_flight,
            fetch_cap: self.fetch_cap,
        };
    }

    /// Takes a fetch slot if the cap allows one more, and says whether it did.
    pub fn try_start_fetch(&mut self) -> (started: bool)
        ensures
            started == (old(self).fetches() < old(self).cap()),
            final(self).fetches() == old(self).fetches() + (if started {
                1nat
            } else {
                0nat
            }),
            final(self).fetches() <= final(self).cap(),
            final(self).cap() == old(self).cap(),
            final(self).effect_busy() == old(self).effect_busy(),
    {
        proof {
            use_type_invariant(&*self);
        }
        if self.fetches_in_flight < self.fetch_cap {
            *self = ChainSlots {
                effect_in_flight: self.effect_in_flight,
                fetches_in_flight: self.fetches_in_flight + 1,
                fetch_cap: self.fetch_cap,
            };
            true
        } else {
            false
        }
    }

    /// Frees a fetch slot, if one is taken.
    pub fn finish_fetch(&mut self)
        ensures
            final(self).fetches() == (if old(self).fetches() > 0 {
                (old(self).fetches() - 1) as nat
            } else {
                0nat
            }),
            final(self).cap() == old(self).cap(),
            final(self).effect_busy() == old(self).effect_busy(),
    {
        proof {
            use_type_invariant(&*self);
        }
        if self.fetches_in_flight > 0 {
            *self = ChainSlots {
                effect_in_flight: self.effect_in_flight,
                fetches_in_flight: self.fetches_in_flight - 1,
                fetch_cap: self.fetch_cap,
            };
        }
    }
}

/// What happens to the effect slot of a chain.
pub ghost enum SlotEvent {
    /// An effect asks for the slot.
    TryStart,
    /// The effect that holds the slot is done.
    Finish,
}

/// Whether the effect slot is taken after `events`, having been `busy` before.
pub open spec fn busy_after(busy: bool, events: Seq<SlotEvent>) -> bool {
    if events.len() == 0 {
        busy
    } else {
        match events.last() {
            SlotEvent::TryStart => true,
            SlotEvent::Finish => false,
        }
    }
}

/// Whether the event at `i` is a request for the slot that is granted.
pub open spec fn granted(busy: bool, events: Seq<SlotEvent>, i: int) -> bool {
    &&& 0 <= i < events.len()
    &&& events[i] is TryStart
    &&& !busy_after(busy, events.subrange(0, i))
}

/// At most one effect is in flight on a chain at any time: between any two
/// requests for the slot that are granted, the effect that held the slot has
/// finished.
pub proof fn lemma_one_effect_in_flight(busy: bool, events: Seq<SlotEvent>, i: int, j: int)
    requires
        i < j,
        granted(busy, events, i),
        granted(busy, events, j),
    ensures
        exists|k: int| i < k < j && events[k] is Finish,
{
    let upto = events.subrange(0, j);
    assert(upto.len() == j);
    assert(upto.last() == events[j - 1]);
    if j - 1 == i {
        assert(busy_after(busy, upto));
    } else {
        assert(events[j - 1] is Finish);
    }
}

/// `base` doubled `times` times.
pub open spec fn doubled(base: nat, times: nat) -> nat
    decreases times,
{
    if times == 0 {
        base
    } else {
        2 * doubled(base, (times - 1) as nat)
    }
}

/// How long to wait before the retry after `attempt` failed attempts: `base`
/// doubled with every attempt, and never more than `cap`.
pub open spec fn backoff(base: nat, cap: nat, attempt: nat) -> nat {
    if doubled(base, attempt) < cap {
        doubled(base, attempt)
    } else {
        cap
    }
}

/// Doubling more often never gives less.
pub proof fn lemma_doubled_monotone(base: nat, fewer: nat, more: nat)
    requires
        fewer <= more,
    ensures
        doubled(base, fewer) <= doubled(base, more),
    decreases more,
{
    if fewer < more {
        lemma_doubled_monotone(base, fewer, (more - 1) as nat);
    }
}

/// The wait before a retry never goes down from one attempt to the next, and
/// never goes above the cap.
pub proof fn lemma_backoff_is_capped_and_monotone(base: nat, cap: nat, attempt: nat)
    ensures
        backoff(base, cap, attempt) <= cap,
        backoff(base, cap, attempt) <= backoff(base, cap, attempt + 1),
{
    lemma_doubled_monotone(base, attempt, attempt + 1);
}

/// How long to wait before the retry after `attempt` failed attempts.
pub fn retry_delay(base: u64, cap: u64, attempt: u32) -> (delay: u64)
    ensures
        delay == backoff(base as nat, cap as nat, attempt as nat),
{
    let mut delay: u64 = base;
    let mut i: u32 = 0;
    while i < attempt
        invariant
            i <= attempt,
            delay == doubled(base as nat, i as nat),
        decreases attempt - i,
    {
        if delay >= cap || delay >= cap - delay {
            proof {
                lemma_doubled_monotone(base as nat, (i + 1) as nat, attempt as nat);
                lemma_doubled_monotone(base as nat, i as nat, attempt as nat);
            }
            return cap;
        }
        delay = delay + delay;
        i = i + 1;
    }
    if delay < cap {
        delay
    } else {
        cap
    }
}

/// A wait between half of `delay` and all of it, picked by `roll`.
pub open spec fn jittered(delay: nat, roll: nat) -> nat {
    delay / 2 + roll % (delay / 2 + 1)
}

/// Spreads retries out: a wait between half of `delay` and all of it,
/// picked by `roll`, which the caller draws at random.
pub fn with_jitter(delay: u64, roll: u64) -> (r: u64)
    ensures
        r == jittered(delay as nat, roll as nat),
        delay / 2 <= r <= delay,
{
    let half = delay / 2;
    half + roll % (half + 1)
}

/// The highest event height that has been seen on one chain.
#[derive(Debug, Clone, Copy, PartialEq, Eq)]
pub struct EventCursor {
    highest: Option<Height>,
}

impl EventCursor {
    /// The highest height seen so far, if any was.
    pub closed spec fn highest_seen(self) -> Option<Height> {
        self.highest
    }

    /// Whether `height` is no higher than what has been seen.
    pub open spec fn covers(self, height: Height) -> bool {
        self.highest_seen() matches Some(h) && height.at_most(h)
    }

    /// A cursor that has seen nothing yet.
    pub fn new() -> (r: EventCursor)
        ensures
            r.highest_seen() is None,
    {
        EventCursor { highest: None }
    }

    /// A cursor that takes up where an earlier run left off: at the highest
    /// height that the earlier run had seen.
    pub fn restore(highest: Option<Height>) -> (r: EventCursor)
        ensures
            r.highest_seen() == highest,
    {
        EventCursor { highest }
    }

    /// The highest height seen so far, if any was.
    pub fn highest(&self) -> (r: Option<Height>)
        ensures
            r == self.highest_seen(),
    {
        self.highest
    }

    /// Takes note of an event at `height`. The highest height seen becomes
    /// the later of what it was and `height`: it never goes down.
    pub fn observe(&mut self, height: Height)
        ensures
            final(self).highest_seen() == highest_after(old(self).highest_seen(), seq![height]),
            final(self).covers(height),
            forall|h: Height| old(self).covers(h) ==> final(self).covers(h),
    {
        let highest = match self.highest {
            Some(h) => h.max(height),
            None => height,
        };
        proof {
            let one = seq![height];
            assert(one.drop_last() =~= Seq::<Height>::empty());
            assert(highest_after(self.highest, one.drop_last()) == self.highest);
        }
        self.highest = Some(highest);
    }
}

/// The highest height seen once the events at `heights` have been observed
/// in order, having seen `start` before.
pub open spec fn highest_after(start: Option<Height>, heights: Seq<Height>) -> Option<Height>
    decreases heights.len(),
{
    if heights.len() == 0 {
        start
    } else {
        Some(
            match highest_after(start, heights.drop_last()) {
                Some(h) => h.later_of(heights.last()),
                None => heights.last(),
            },
        )
    }
}

/// Whether `a` is no higher than `b`, where nothing seen is lower than
/// anything seen.
pub open spec fn no_higher(a: Option<Height>, b: Option<Height>) -> bool {
    match (a, b) {
        (None, _) => true,
        (Some(x), Some(y)) => x.at_most(y),
        (Some(_), None) => false,
    }
}

/// Progress is monotone: the highest height seen never goes down, whatever
/// is observed and in whatever order, and it makes no difference whether
/// the events were observed in one run or in two, the second run taking up
/// what the first had seen.
pub proof fn lemma_monotone_progress(start: Option<Height>, first: Seq<Height>, then: Seq<Height>)
    ensures
        no_higher(highest_after(start, first), highest_after(start, first + then)),
        highest_after(highest_after(start, first), then) == highest_after(start, first + then),
    decreases then.len(),
{
    if then.len() == 0 {
        assert(first + then =~= first);
        if let Some(h) = highest_after(start, first) {
            assert(h.at_most(h));
        }
    } else {
        lemma_monotone_progress(start, first, then.drop_last());
        assert((first + then).drop_last() =~= first + then.drop_last());
        assert((first + then).last() == then.last());
    }
}

} // verus!
