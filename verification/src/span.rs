//! The mathematical model of an interval: its two bounds, and what each
//! operation of the library makes of them.
//!
//! Everything here is specification. The executable `Interval` has a `Span`
//! as its view, and its contracts say which `Span` comes out.

use crate::bound::Bound;
use crate::order::{le, lt};
use vstd::prelude::*;

verus! {

/// The two bounds of an interval.
pub struct Span<T> {
    /// The lower bound.
    pub left: Bound<T>,
    /// The upper bound.
    pub right: Bound<T>,
}

impl<T> Span<T> where T: PartialOrd + PartialEq + Clone {
    /// What the general constructor stores. Given one bound, both ends are
    /// that bound. Given two, the bound at the lesser point becomes the left
    /// end and the other the right end, in whichever order they come; where
    /// both stand at one point, each end includes the point if either bound
    /// does.
    pub open spec fn new(start: Bound<T>, end: Option<Bound<T>>) -> Self {
        match end {
            Some(end) => Span {
                left: start.spec_union_or_least(end),
                right: start.spec_union_or_greatest(end),
            },
            None => Span { left: start, right: start },
        }
    }

    /// The invariant of every interval that the library hands out: the left
    /// point does not lie after the right point.
    pub open spec fn valid(self) -> bool {
        le(*self.left.point(), *self.right.point())
    }

    /// The left point lies before the right point, or the two bounds are one
    /// and the same: a span of a single point is closed at both ends, or
    /// empty. The constructors and the set operations hand out such spans
    /// only. A span that has had one end moved onto the other may be valid
    /// without being proper.
    pub open spec fn proper(self) -> bool {
        lt(*self.left.point(), *self.right.point()) || self.left == self.right
    }

    /// The span holds no point: its bounds are the same, and exclusive.
    pub open spec fn is_empty(self) -> bool {
        self.left == self.right && self.left is Excluded
    }

    /// The point `p` lies strictly between the two end points, or is an end
    /// point that its bound includes.
    pub open spec fn contains(self, p: T) -> bool {
        ||| lt(*self.left.point(), p) && lt(p, *self.right.point())
        ||| p == *self.left.point() && self.left is Included
        ||| p == *self.right.point() && self.right is Included
    }

    /// `self` ends at a point before the one at which `other` starts.
    pub open spec fn ends_before(self, other: Self) -> bool {
        lt(*self.right.point(), *other.left.point())
    }

    /// `self` ends at the very point at which `other` starts.
    pub open spec fn meets(self, other: Self) -> bool {
        self.right.point() == other.left.point()
    }

    /// `self` ends before `other` starts, or ends at the very point at which
    /// `other` starts while either of the two excludes that point.
    pub open spec fn apart_from(self, other: Self) -> bool {
        ||| self.ends_before(other)
        ||| self.meets(other) && (self.right is Excluded || other.left is Excluded)
    }

    /// `self` ends before `other` starts, or ends at the very point at which
    /// `other` starts while both exclude that point.
    pub open spec fn gap_before(self, other: Self) -> bool {
        ||| self.ends_before(other)
        ||| self.meets(other) && self.right is Excluded && other.left is Excluded
    }

    /// The two spans do not overlap: the one that starts no later than the
    /// other is apart from it. Where both start at one point, either may be
    /// taken for the first, and it is enough that one of them is apart from
    /// the other.
    pub open spec fn disjoint_from(self, other: Self) -> bool {
        ||| le(*self.left.point(), *other.left.point()) && self.apart_from(other)
        ||| le(*other.left.point(), *self.left.point()) && other.apart_from(self)
    }

    /// The two spans do not join: the one that starts no later than the other
    /// leaves a gap before it. Where both start at one point, either may be
    /// taken for the first, and it is enough that one of them leaves a gap.
    pub open spec fn split_from(self, other: Self) -> bool {
        ||| le(*self.left.point(), *other.left.point()) && self.gap_before(other)
        ||| le(*other.left.point(), *self.left.point()) && other.gap_before(self)
    }

    /// What two spans that overlap have in common: it starts at the later of
    /// the left bounds and ends at the earlier of the right bounds.
    pub open spec fn overlap(self, other: Self) -> Self {
        Span {
            left: self.left.spec_intersect_or_greatest(other.left),
            right: self.right.spec_intersect_or_least(other.right),
        }
    }

    /// What the two spans cover together, and whatever lies between them: it
    /// starts at the earlier of the left bounds and ends at the later of the
    /// right bounds.
    pub open spec fn cover(self, other: Self) -> Self {
        Span {
            left: self.left.spec_union_or_least(other.left),
            right: self.right.spec_union_or_greatest(other.right),
        }
    }

    /// The intersection: none if either span is empty or the two do not
    /// overlap, and what they have in common otherwise.
    pub open spec fn intersect(self, other: Self) -> Option<Self> {
        if self.is_empty() || other.is_empty() || self.disjoint_from(other) {
            None
        } else {
            Some(self.overlap(other))
        }
    }

    /// The union, where it is one contiguous range: none if both spans are
    /// empty, the other span if one is empty, none if the two do not join,
    /// and what they cover together otherwise.
    pub open spec fn union(self, other: Self) -> Option<Self> {
        if self.is_empty() && other.is_empty() {
            None
        } else if self.is_empty() {
            Some(other)
        } else if other.is_empty() {
            Some(self)
        } else if self.split_from(other) {
            None
        } else {
            Some(self.cover(other))
        }
    }

    /// The hull of all spans of `s` that are not empty: what they cover
    /// together, taken from the first to the last; none if there is no such
    /// span.
    pub open spec fn enclose(s: Seq<Self>) -> Option<Self>
        decreases s.len(),
    {
        if s.len() == 0 {
            None
        } else {
            let before = Self::enclose(s.drop_last());
            let x = s.last();
            if x.is_empty() {
                before
            } else {
                match before {
                    Some(acc) => Some(acc.cover(x)),
                    None => Some(x),
                }
            }
        }
    }

    /// Some span of `s` holds the point `p`.
    pub open spec fn some_holds(s: Seq<Self>, p: T) -> bool {
        exists|i: int| 0 <= i < s.len() && (#[trigger] s[i]).contains(p)
    }

    /// The index of the first span of `out` whose union with `x` is one
    /// range, if there is any.
    pub open spec fn first_joinable(out: Seq<Self>, x: Self) -> Option<int>
        decreases out.len(),
    {
        if out.len() == 0 {
            None
        } else {
            match Self::first_joinable(out.drop_last(), x) {
                Some(i) => Some(i),
                None => if out.last().union(x) is Some {
                    Some(out.len() - 1)
                } else {
                    None
                },
            }
        }
    }

    /// `out` after it has taken in `x`: the first span that can be joined
    /// with `x` is replaced by their union; if there is none, `x` is added at
    /// the end.
    pub open spec fn absorb(out: Seq<Self>, x: Self) -> Seq<Self> {
        match Self::first_joinable(out, x) {
            Some(i) => out.update(i, out[i].union(x)->0),
            None => out.push(x),
        }
    }

    /// What is left of `s` once every span that is not empty has been taken
    /// in, one after the other in the order of `s`, starting from nothing.
    pub open spec fn normalize(s: Seq<Self>) -> Seq<Self>
        decreases s.len(),
    {
        if s.len() == 0 {
            Seq::empty()
        } else {
            let before = Self::normalize(s.drop_last());
            let x = s.last();
            if x.is_empty() {
                before
            } else {
                Self::absorb(before, x)
            }
        }
    }

    /// The span with its left bound moved to the point `p`. The bound keeps
    /// its kind and the right bound stays as it is, unless `p` lies beyond
    /// the right point: then the two change places.
    pub open spec fn with_left_at(self, p: T) -> Self {
        if lt(*self.right.point(), p) {
            Span { left: self.right, right: self.left.at(p) }
        } else {
            Span { left: self.left.at(p), right: self.right }
        }
    }

    /// The span with its right bound moved to the point `p`. The bound keeps
    /// its kind and the left bound stays as it is, unless `p` lies before
    /// the left point: then the two change places.
    pub open spec fn with_right_at(self, p: T) -> Self {
        if lt(p, *self.left.point()) {
            Span { left: self.right.at(p), right: self.left }
        } else {
            Span { left: self.left, right: self.right.at(p) }
        }
    }
}

} // verus!
