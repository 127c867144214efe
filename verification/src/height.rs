//! Chain heights and their order.

use crate::protos;
use std::cmp::Ordering;
use vstd::prelude::*;

verus! {

/// A height on one chain: a revision and a block height within it.
///
/// Heights of one chain are ordered by revision first, then by block height.
/// Heights of different chains are never compared.
#[derive(Debug, Clone, Copy, PartialEq, Eq, Hash, Structural)]
pub struct Height {
    pub revision_number: u64,
    pub revision_height: u64,
}

impl Height {
    /// Whether `self` comes strictly before `other`.
    pub open spec fn before(self, other: Height) -> bool {
        self.revision_number < other.revision_number || (self.revision_number
            == other.revision_number && self.revision_height < other.revision_height)
    }

    /// Whether `self` comes before `other` or is `other`.
    pub open spec fn at_most(self, other: Height) -> bool {
        self.before(other) || self == other
    }

    /// How `self` stands to `other`.
    pub open spec fn ordering(self, other: Height) -> Ordering {
        if self.before(other) {
            Ordering::Less
        } else if self == other {
            Ordering::Equal
        } else {
            Ordering::Greater
        }
    }

    /// The later of two heights.
    pub open spec fn later_of(self, other: Height) -> Height {
        if self.before(other) {
            other
        } else {
            self
        }
    }

    /// Takes a wire message as it is: every message is a height.
    pub fn from(value: protos::Height) -> (r: Height)
        ensures
            r.revision_number == value.revision_number,
            r.revision_height == value.revision_height,
    {
        Height { revision_number: value.revision_number, revision_height: value.revision_height }
    }

    /// The wire message that stands for this height.
    pub fn into_raw(self) -> (r: protos::Height)
        ensures
            r.revision_number == self.revision_number,
            r.revision_height == self.revision_height,
    {
        protos::Height {
            revision_number: self.revision_number,
            revision_height: self.revision_height,
        }
    }

    /// The later of two heights.
    pub fn max(self, other: Height) -> (r: Height)
        ensures
            r == self.later_of(other),
            self.at_most(r),
            other.at_most(r),
            r == self || r == other,
    {
        if self < other {
            other
        } else {
            self
        }
    }
}

impl PartialOrd for Height {
    fn partial_cmp(&self, other: &Height) -> (r: Option<Ordering>) {
        if self.revision_number < other.revision_number {
            Some(Ordering::Less)
        } else if self.revision_number > other.revision_number {
            Some(Ordering::Greater)
        } else if self.revision_height < other.revision_height {
            Some(Ordering::Less)
        } else if self.revision_height > other.revision_height {
            Some(Ordering::Greater)
        } else {
            Some(Ordering::Equal)
        }
    }
}

impl vstd::std_specs::cmp::PartialOrdSpecImpl for Height {
    open spec fn obeys_partial_cmp_spec() -> bool {
        true
    }

    open spec fn partial_cmp_spec(&self, other: &Height) -> Option<Ordering> {
        Some(self.ordering(*other))
    }
}

/// The order of heights is total: of two heights one comes before the other,
/// or they are the same, and never two of these at once.
pub proof fn lemma_height_order_total(a: Height, b: Height)
    ensures
        a.before(b) || a == b || b.before(a),
        !(a.before(b) && b.before(a)),
        !(a.before(b) && a == b),
{
}

/// The order of heights is transitive.
pub proof fn lemma_height_order_transitive(a: Height, b: Height, c: Height)
    requires
        a.at_most(b),
        b.at_most(c),
    ensures
        a.at_most(c),
        a.before(b) || b.before(c) ==> a.before(c),
{
}

/// Two heights that each come no later than the other are the same.
pub proof fn lemma_height_order_antisymmetric(a: Height, b: Height)
    requires
        a.at_most(b),
        b.at_most(a),
    ensures
        a == b,
{
}

} // verus!
