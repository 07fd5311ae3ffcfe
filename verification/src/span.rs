//! Source locations.

use vstd::prelude::*;

verus! {

/// A half-open range `[lo, hi)` of byte offsets into the source text.
#[derive(Clone, Copy, Debug, PartialEq, Eq, Hash, Structural)]
pub struct Span {
    pub lo: u32,
    pub hi: u32,
}

impl Span {
    /// A span is ordered when its start does not lie behind its end.
    pub open spec fn ordered(self) -> bool {
        self.lo <= self.hi
    }

    /// Whether every offset of `inner` lies within `self`.
    pub open spec fn encloses(self, inner: Span) -> bool {
        self.lo <= inner.lo && inner.hi <= self.hi
    }

    /// The smallest span that encloses both `self` and `end`.
    pub open spec fn cover(self, end: Span) -> Span {
        Span {
            lo: if self.lo <= end.lo { self.lo } else { end.lo },
            hi: if self.hi >= end.hi { self.hi } else { end.hi },
        }
    }

    /// The span from `lo` to `hi`.
    pub fn new(lo: u32, hi: u32) -> (span: Span)
        ensures
            span == (Span { lo, hi }),
    {
        Span { lo, hi }
    }

    /// Extends `self` so that it reaches over `end` as well.
    pub fn to(self, end: Span) -> (span: Span)
        ensures
            span == self.cover(end),
    {
        Span {
            lo: if self.lo <= end.lo { self.lo } else { end.lo },
            hi: if self.hi >= end.hi { self.hi } else { end.hi },
        }
    }
}

/// The cover of two spans encloses both, and is enclosed by every span that
/// encloses both: it is their least upper bound.
pub proof fn lemma_cover_is_least(a: Span, b: Span, c: Span)
    ensures
        a.cover(b).encloses(a),
        a.cover(b).encloses(b),
        c.encloses(a) && c.encloses(b) ==> c.encloses(a.cover(b)),
        a.ordered() || b.ordered() ==> a.cover(b).ordered(),
{
}

/// Covering forgets the order and the grouping of its operands, and a span
/// covered with itself is unchanged.
pub proof fn lemma_cover_semilattice(a: Span, b: Span, c: Span)
    ensures
        a.cover(b) == b.cover(a),
        a.cover(b).cover(c) == a.cover(b.cover(c)),
        a.cover(a) == a,
{
}

} // verus!
