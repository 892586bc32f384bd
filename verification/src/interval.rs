//! The interval type and its operations. Each contract says which `Span`
//! the result has as its view.

use crate::bound::Bound;
use crate::laws::{
    all_valid, lemma_enclose_valid, lemma_first_joinable_found, lemma_intersect_valid,
    lemma_new_proper, lemma_normalize_keeps_valid, lemma_union_valid,
};
use crate::order::{
    can_add, can_sub, can_sub_clones, faithful_clone, lemma_trichotomy, obeys_point_laws,
    total_order,
};
use crate::span::Span;
use crate::text::{notation, spec_notation};
use core::fmt::Display;
use core::ops::{Add, Sub};
use vstd::prelude::*;
use vstd::std_specs::cmp::PartialEqSpec;
use vstd::std_specs::convert::FromSpecImpl;
use vstd::std_specs::iter::IteratorSpec;
use vstd::std_specs::ops::{AddSpec, SubSpec};
use vstd::string::to_string_from_display_ensures;

verus! {

/// A contiguous range of points of the type `T`, which may include or exclude
/// either of its end points.
#[derive(Debug, Eq, Hash, Copy)]
pub struct Interval<T> {
    /// The start of the interval.
    start: Bound<T>,
    /// The end of the interval.
    end: Bound<T>,
}

impl<T> View for Interval<T> {
    type V = Span<T>;

    /// The two bounds that the interval holds.
    closed spec fn view(&self) -> Span<T> {
        Span { left: self.start, right: self.end }
    }
}

impl<T> DeepView for Interval<T> {
    type V = Span<T>;

    open spec fn deep_view(&self) -> Span<T> {
        self@
    }
}

impl<T: Clone> Clone for Interval<T> {
    /// An interval whose bounds are clones of the bounds.
    fn clone(&self) -> (r: Self)
        ensures
            r@.left.is_clone_of(self@.left),
            r@.right.is_clone_of(self@.right),
            faithful_clone::<T>() ==> r@ == self@,
    {
        Interval { start: self.start.clone(), end: self.end.clone() }
    }
}

impl<T: PartialEq> PartialEq for Interval<T> {
    /// Two intervals are equal when their bounds are.
    fn eq(&self, other: &Self) -> (r: bool) {
        self.start == other.start && self.end == other.end
    }
}

impl<T: PartialEq> vstd::std_specs::cmp::PartialEqSpecImpl for Interval<T> {
    open spec fn obeys_eq_spec() -> bool {
        T::obeys_eq_spec()
    }

    open spec fn eq_spec(&self, other: &Self) -> bool {
        &&& PartialEqSpec::eq_spec(&self@.left, &other@.left)
        &&& PartialEqSpec::eq_spec(&self@.right, &other@.right)
    }
}

impl<T> Default for Interval<T> where T: Default + PartialOrd + PartialEq + Clone {
    /// The default interval is the single closed point at the default point:
    /// both ends are one default bound.
    fn default() -> (r: Self)
        ensures
            r@.left is Included,
            r@.right is Included,
            call_ensures(T::default, (), *r@.right.point()),
            cloned::<T>(*r@.right.point(), *r@.left.point()),
            obeys_point_laws::<T>() ==> r@ == Span::new(r@.right, None),
            obeys_point_laws::<T>() ==> r@.proper() && r@.valid(),
    {
        Interval::new(Bound::default(), None)
    }
}

impl<T> From<T> for Interval<T> where T: PartialOrd + PartialEq + Clone {
    /// A point becomes the closed interval that holds that point alone.
    fn from(t: T) -> (r: Self)
        ensures
            obeys_point_laws::<T>() ==> r@ == Span::new(Bound::Included(t), None),
            obeys_point_laws::<T>() ==> r@.proper() && r@.valid(),
    {
        Interval::closed(t.clone(), t)
    }
}

impl<T> FromSpecImpl<T> for Interval<T> where T: PartialOrd + PartialEq + Clone {
    open spec fn obeys_from_spec() -> bool {
        obeys_point_laws::<T>()
    }

    closed spec fn from_spec(t: T) -> Self {
        Interval { start: Bound::Included(t), end: Bound::Included(t) }
    }
}

impl<T> Interval<T> where T: PartialOrd + PartialEq + Clone {
    /// Creates an interval from the given bounds. With one bound, the
    /// interval is that single point, or empty if the bound excludes it. With
    /// two, they are put in order; where both stand at one point, the
    /// interval includes the point if either bound does.
    pub fn new(start: Bound<T>, end: Option<Bound<T>>) -> (r: Self)
        ensures
            obeys_point_laws::<T>() ==> r@ == Span::new(start, end),
            obeys_point_laws::<T>() ==> r@.proper() && r@.valid(),
            end is None ==> r@.right == start && r@.left.is_clone_of(start),
    {
        proof {
            if obeys_point_laws::<T>() {
                lemma_new_proper(start, end);
            }
        }
        match end {
            Some(end_bound) => Interval {
                start: start.union_or_least(&end_bound),
                end: start.union_or_greatest(&end_bound),
            },
            None => Interval { start: start.clone(), end: start },
        }
    }

    /// Creates the interval between two points that excludes both.
    pub fn open(start: T, end: T) -> (r: Self)
        ensures
            obeys_point_laws::<T>() ==> r@ == Span::new(
                Bound::Excluded(start),
                Some(Bound::Excluded(end)),
            ),
            obeys_point_laws::<T>() ==> r@.proper() && r@.valid(),
    {
        Interval::new(Bound::Excluded(start), Some(Bound::Excluded(end)))
    }

    /// Creates the interval between two points that includes both.
    pub fn closed(start: T, end: T) -> (r: Self)
        ensures
            obeys_point_laws::<T>() ==> r@ == Span::new(
                Bound::Included(start),
                Some(Bound::Included(end)),
            ),
            obeys_point_laws::<T>() ==> r@.proper() && r@.valid(),
    {
        Interval::new(Bound::Included(start), Some(Bound::Included(end)))
    }

    /// Creates the interval between two points that excludes the first and
    /// includes the second.
    pub fn left_open(start: T, end: T) -> (r: Self)
        ensures
            obeys_point_laws::<T>() ==> r@ == Span::new(
                Bound::Excluded(start),
                Some(Bound::Included(end)),
            ),
            obeys_point_laws::<T>() ==> r@.proper() && r@.valid(),
    {
        Interval::new(Bound::Excluded(start), Some(Bound::Included(end)))
    }

    /// Creates the interval between two points that includes the first and
    /// excludes the second.
    pub fn right_open(start: T, end: T) -> (r: Self)
        ensures
            obeys_point_laws::<T>() ==> r@ == Span::new(
                Bound::Included(start),
                Some(Bound::Excluded(end)),
            ),
            obeys_point_laws::<T>() ==> r@.proper() && r@.valid(),
    {
        Interval::new(Bound::Included(start), Some(Bound::Excluded(end)))
    }

    /// Returns the least point of the interval's range, which the interval
    /// holds only if it is closed on the left.
    pub fn left_point(&self) -> (r: T)
        ensures
            cloned::<T>(*self@.left.point(), r),
    {
        self.start.point().clone()
    }

    /// Returns the greatest point of the interval's range, which the interval
    /// holds only if it is closed on the right.
    pub fn right_point(&self) -> (r: T)
        ensures
            cloned::<T>(*self@.right.point(), r),
    {
        self.end.point().clone()
    }

    /// Returns the left bound of the interval.
    pub fn left_bound(&self) -> (r: Bound<T>)
        ensures
            r.is_clone_of(self@.left),
    {
        self.start.clone()
    }

    /// Returns the right bound of the interval.
    pub fn right_bound(&self) -> (r: Bound<T>)
        ensures
            r.is_clone_of(self@.right),
    {
        self.end.clone()
    }

    /// Returns whether the interval holds no point at all.
    pub fn is_empty(&self) -> (r: bool)
        ensures
            total_order::<T>() ==> r == self@.is_empty(),
    {
        self.start == self.end && self.start.is_open()
    }

    /// Returns the interval itself, or `None` if it is empty.
    pub fn into_non_empty(self) -> (r: Option<Self>)
        ensures
            total_order::<T>() ==> r == if self@.is_empty() {
                None
            } else {
                Some(self)
            },
    {
        if self.is_empty() {
            None
        } else {
            Some(self)
        }
    }

    /// Returns whether the given point lies in the interval.
    pub fn contains(&self, point: &T) -> (r: bool)
        ensures
            total_order::<T>() ==> r == self@.contains(*point),
    {
        *point > *self.start.point() && *point < *self.end.point()
            || *point == *self.start.point() && self.start.is_closed()
            || *point == *self.end.point() && self.end.is_closed()
    }

    /// Tells whether the interval ends before the given one starts, or ends
    /// where it starts while either of the two excludes that point.
    fn apart_from(&self, other: &Self) -> (r: bool)
        ensures
            total_order::<T>() ==> r == self@.apart_from(other@),
    {
        *self.end.point() < *other.start.point() || (*self.end.point() == *other.start.point()
            && (self.end.is_open() || other.start.is_open()))
    }

    /// Tells whether the interval ends before the given one starts, or ends
    /// where it starts while both exclude that point.
    fn gap_before(&self, other: &Self) -> (r: bool)
        ensures
            total_order::<T>() ==> r == self@.gap_before(other@),
    {
        *self.end.point() < *other.start.point() || (*self.end.point() == *other.start.point()
            && self.end.is_open() && other.start.is_open())
    }

    /// Returns the intersection of the interval with the given interval, or
    /// `None` if either is empty or the two do not overlap: if the one that
    /// starts first ends before the other starts, or ends where the other
    /// starts while either of them excludes that point. Where both start at
    /// one point, this is tried with each of them as the first. What is
    /// returned starts at the later left bound and ends at the earlier right
    /// bound.
    pub fn intersect(&self, other: &Self) -> (r: Option<Self>)
        ensures
            obeys_point_laws::<T>() ==> r.deep_view() == self@.intersect(other@),
            obeys_point_laws::<T>() && self@.valid() && other@.valid() ==> (r matches Some(i)
                ==> i@.valid()),
    {
        if self.is_empty() || other.is_empty() {
            return None;
        }
        proof {
            if obeys_point_laws::<T>() {
                lemma_trichotomy(*self@.left.point(), *other@.left.point());
                if self@.valid() && other@.valid() {
                    lemma_intersect_valid(self@, other@);
                }
            }
        }
        let apart = if *self.start.point() < *other.start.point() {
            self.apart_from(other)
        } else if *other.start.point() < *self.start.point() {
            other.apart_from(self)
        } else {
            self.apart_from(other) || other.apart_from(self)
        };
        if apart {
            None
        } else {
            Some(
                Interval {
                    start: self.start.intersect_or_greatest(&other.start),
                    end: self.end.intersect_or_least(&other.end),
                },
            )
        }
    }

    /// Returns the union of the interval with the given interval, or `None`
    /// if the union is not one contiguous range: if both are empty, or if the
    /// one that starts first ends before the other starts, or ends where the
    /// other starts while both exclude that point. Where both start at one
    /// point, this is tried with each of them as the first. An empty operand
    /// leaves the other as it is.
    pub fn union(&self, other: &Self) -> (r: Option<Self>)
        ensures
            obeys_point_laws::<T>() ==> r.deep_view() == self@.union(other@),
            obeys_point_laws::<T>() && self@.valid() && other@.valid() ==> (r matches Some(i)
                ==> i@.valid()),
    {
        if self.is_empty() && other.is_empty() {
            return None;
        } else if self.is_empty() {
            return Some(other.clone());
        } else if other.is_empty() {
            return Some(self.clone());
        }
        proof {
            if obeys_point_laws::<T>() {
                lemma_trichotomy(*self@.left.point(), *other@.left.point());
                if self@.valid() && other@.valid() {
                    lemma_union_valid(self@, other@);
                }
            }
        }
        let split = if *self.start.point() < *other.start.point() {
            self.gap_before(other)
        } else if *other.start.point() < *self.start.point() {
            other.gap_before(self)
        } else {
            self.gap_before(other) || other.gap_before(self)
        };
        if split {
            None
        } else {
            Some(
                Interval {
                    start: self.start.union_or_least(&other.start),
                    end: self.end.union_or_greatest(&other.end),
                },
            )
        }
    }

    /// The spans of a sequence of intervals, one for one.
    pub open spec fn views(s: Seq<Self>) -> Seq<Span<T>> {
        s.map_values(|i: Self| i@)
    }

    /// Two intervals with the same bounds are the same interval.
    pub proof fn lemma_view_injective(self, other: Self)
        ensures
            self@ == other@ <==> self == other,
    {
    }

    /// Where `done` and `ahead` make up `all`, they still do once the first
    /// of `ahead` has gone over to the end of `done`.
    proof fn lemma_one_taken(done: Seq<Self>, ahead: Seq<Self>, all: Seq<Self>)
        requires
            done + ahead == all,
            ahead.len() > 0,
        ensures
            done.push(ahead[0]) + ahead.drop_first() == all,
            Self::views(done.push(ahead[0])).drop_last() == Self::views(done),
            Self::views(done.push(ahead[0])).last() == ahead[0]@,
    {
        let longer = done.push(ahead[0]);
        assert(longer + ahead.drop_first() =~= done + ahead);
        assert(longer.drop_last() == done);
        assert(Self::views(longer).drop_last() == Self::views(done));
    }

    /// Returns the smallest interval that holds every point of the given
    /// intervals, or `None` if all of them are empty. Empty intervals are
    /// passed over; the others are taken in one by one, each widening what
    /// has been found so far.
    pub fn enclose<I>(intervals: I) -> (r: Option<Interval<T>>) where
        I: Iterator<Item = Interval<T>>,

        requires
            intervals.obeys_prophetic_iter_laws(),
            intervals.decrease() is Some,
        ensures
            obeys_point_laws::<T>() ==> r.deep_view() == Span::enclose(
                Self::views(intervals.remaining()),
            ),
            obeys_point_laws::<T>() && all_valid(Self::views(intervals.remaining())) ==> (
                r matches Some(e) ==> e@.valid()
            ),
    {
        let ghost all = intervals.remaining();
        let ghost mut done: Seq<Self> = Seq::empty();
        let mut rest = intervals;
        let mut found: Option<Interval<T>> = None;
        loop
            invariant
                rest.obeys_prophetic_iter_laws(),
                rest.decrease() is Some,
                all == intervals.remaining(),
                done + rest.remaining() == all,
                obeys_point_laws::<T>() ==> found.deep_view() == Span::enclose(Self::views(done)),
            decreases rest.decrease()->0,
        {
            let ghost ahead = rest.remaining();
            match rest.next() {
                None => {
                    assert(done == all);
                    assert(obeys_point_laws::<T>() && all_valid(Self::views(all)) ==> (
                        found matches Some(e) ==> e@.valid()
                    )) by {
                        if obeys_point_laws::<T>() && all_valid(Self::views(all)) {
                            lemma_enclose_valid(Self::views(all));
                        }
                    }
                    return found;
                },
                Some(next) => {
                    assert(done.push(next) + rest.remaining() == all && Self::views(
                        done.push(next),
                    ).drop_last() == Self::views(done)) by {
                        Self::lemma_one_taken(done, ahead, all);
                    }
                    proof {
                        done = done.push(next);
                    }
                    if !next.is_empty() {
                        found = match found {
                            None => Some(next),
                            Some(acc) => Some(
                                Interval {
                                    start: acc.start.union_or_least(&next.start),
                                    end: acc.end.union_or_greatest(&next.end),
                                },
                            ),
                        };
                    }
                },
            }
        }
    }

    /// Takes one interval into a list of intervals: the first entry whose
    /// union with it is one range is replaced by that union; if there is no
    /// such entry, the interval is added at the end.
    fn absorb(out: &mut Vec<Interval<T>>, x: Interval<T>)
        ensures
            obeys_point_laws::<T>() ==> Self::views(final(out)@) == Span::absorb(
                Self::views(old(out)@),
                x@,
            ),
    {
        let mut i: usize = 0;
        while i < out.len()
            invariant
                i <= out.len(),
                *out == *old(out),
                obeys_point_laws::<T>() ==> Span::first_joinable(
                    Self::views(out@).take(i as int),
                    x@,
                ) is None,
            decreases out.len() - i,
        {
            let joined = out[i].union(&x);
            if let Some(val) = joined {
                proof {
                    if obeys_point_laws::<T>() {
                        lemma_first_joinable_found(Self::views(out@), x@, i as int);
                        assert(Self::views(out@.update(i as int, val)) == Self::views(
                            out@,
                        ).update(i as int, val@));
                    }
                }
                out[i] = val;
                return ;
            }
            proof {
                let v = Self::views(out@);
                assert(v.take(i + 1).drop_last() == v.take(i as int));
            }
            i += 1;
        }
        proof {
            let v = Self::views(out@);
            assert(v.take(i as int) == v);
            assert(Self::views(out@.push(x)) == v.push(x@));
        }
        out.push(x);
    }

    /// Reduces a collection of intervals by joining those that can be joined.
    /// Empty intervals are dropped. Each of the others, in the order given,
    /// is joined with the first interval of the result so far with which it
    /// forms one range, or is added to the result if there is none. The
    /// result depends on the order of the input, and need be neither sorted
    /// nor as small as possible.
    pub fn normalize<I>(intervals: I) -> (r: Vec<Interval<T>>) where
        I: Iterator<Item = Interval<T>>,

        requires
            intervals.obeys_prophetic_iter_laws(),
            intervals.decrease() is Some,
        ensures
            obeys_point_laws::<T>() ==> Self::views(r@) == Span::normalize(
                Self::views(intervals.remaining()),
            ),
            obeys_point_laws::<T>() && all_valid(Self::views(intervals.remaining())) ==> all_valid(
                Self::views(r@),
            ),
    {
        let ghost all = intervals.remaining();
        let ghost mut done: Seq<Self> = Seq::empty();
        let mut rest = intervals;
        let mut out: Vec<Interval<T>> = Vec::new();
        proof {
            assert(Self::views(out@) == Seq::<Span<T>>::empty());
        }
        loop
            invariant
                rest.obeys_prophetic_iter_laws(),
                rest.decrease() is Some,
                all == intervals.remaining(),
                done + rest.remaining() == all,
                obeys_point_laws::<T>() ==> Self::views(out@) == Span::normalize(
                    Self::views(done),
                ),
            decreases rest.decrease()->0,
        {
            let ghost ahead = rest.remaining();
            match rest.next() {
                None => {
                    assert(done == all);
                    assert(obeys_point_laws::<T>() && all_valid(Self::views(all)) ==> all_valid(
                        Self::views(out@),
                    )) by {
                        if obeys_point_laws::<T>() && all_valid(Self::views(all)) {
                            lemma_normalize_keeps_valid(Self::views(all));
                        }
                    }
                    return out;
                },
                Some(next) => {
                    assert(done.push(next) + rest.remaining() == all && Self::views(
                        done.push(next),
                    ).drop_last() == Self::views(done)) by {
                        Self::lemma_one_taken(done, ahead, all);
                    }
                    proof {
                        done = done.push(next);
                    }
                    if !next.is_empty() {
                        Self::absorb(&mut out, next);
                    }
                },
            }
        }
    }

    /// Returns the width of the interval: its right point less its left
    /// point.
    pub fn width(&self) -> (r: <T as Sub>::Output) where T: Sub
        requires
            can_sub_clones(*self@.right.point(), *self@.left.point()),
        ensures
            T::obeys_sub_spec() && faithful_clone::<T>() ==> r == self@.right.point().sub_spec(
                *self@.left.point(),
            ),
    {
        self.end.point().clone() - self.start.point().clone()
    }

    /// Moves the left bound up by the given amount. The bound keeps its
    /// kind, and the right bound stays as it is. Should the left bound come
    /// to stand beyond the right bound, the two change places, so that the
    /// interval stays in order.
    pub fn left_crop(&mut self, amount: T) where T: Add<Output = T>
        requires
            can_add(*old(self)@.left.point(), amount),
        ensures
            obeys_point_laws::<T>() && T::obeys_add_spec() ==> final(self)@ == old(
                self,
            )@.with_left_at(old(self)@.left.point().add_spec(amount)),
            obeys_point_laws::<T>() ==> final(self)@.valid(),
    {
        let moved = match &self.start {
            Bound::Included(t) => Bound::Included(t.clone() + amount),
            Bound::Excluded(t) => Bound::Excluded(t.clone() + amount),
        };
        let kept = self.end.clone();
        proof {
            if obeys_point_laws::<T>() {
                lemma_trichotomy(*kept.point(), *moved.point());
            }
        }
        if *kept.point() < *moved.point() {
            *self = Interval { start: kept, end: moved };
        } else {
            *self = Interval { start: moved, end: kept };
        }
    }

    /// Moves the right bound down by the given amount. The bound keeps its
    /// kind, and the left bound stays as it is. Should the right bound come
    /// to stand before the left bound, the two change places, so that the
    /// interval stays in order.
    pub fn right_crop(&mut self, amount: T) where T: Sub<Output = T>
        requires
            can_sub(*old(self)@.right.point(), amount),
        ensures
            obeys_point_laws::<T>() && T::obeys_sub_spec() ==> final(self)@ == old(
                self,
            )@.with_right_at(old(self)@.right.point().sub_spec(amount)),
            obeys_point_laws::<T>() ==> final(self)@.valid(),
    {
        let moved = match &self.end {
            Bound::Included(t) => Bound::Included(t.clone() - amount),
            Bound::Excluded(t) => Bound::Excluded(t.clone() - amount),
        };
        let kept = self.start.clone();
        proof {
            if obeys_point_laws::<T>() {
                lemma_trichotomy(*kept.point(), *moved.point());
            }
        }
        if *moved.point() < *kept.point() {
            *self = Interval { start: moved, end: kept };
        } else {
            *self = Interval { start: kept, end: moved };
        }
    }

    /// Moves the left bound down by the given amount. The bound keeps its
    /// kind, and the right bound stays as it is. Should the left bound come
    /// to stand beyond the right bound, the two change places, so that the
    /// interval stays in order.
    pub fn left_extend(&mut self, amount: T) where T: Sub<Output = T>
        requires
            can_sub(*old(self)@.left.point(), amount),
        ensures
            obeys_point_laws::<T>() && T::obeys_sub_spec() ==> final(self)@ == old(
                self,
            )@.with_left_at(old(self)@.left.point().sub_spec(amount)),
            obeys_point_laws::<T>() ==> final(self)@.valid(),
    {
        let moved = match &self.start {
            Bound::Included(t) => Bound::Included(t.clone() - amount),
            Bound::Excluded(t) => Bound::Excluded(t.clone() - amount),
        };
        let kept = self.end.clone();
        proof {
            if obeys_point_laws::<T>() {
                lemma_trichotomy(*kept.point(), *moved.point());
            }
        }
        if *kept.point() < *moved.point() {
            *self = Interval { start: kept, end: moved };
        } else {
            *self = Interval { start: moved, end: kept };
        }
    }

    /// Moves the right bound up by the given amount. The bound keeps its
    /// kind, and the left bound stays as it is. Should the right bound come
    /// to stand before the left bound, the two change places, so that the
    /// interval stays in order.
    pub fn right_extend(&mut self, amount: T) where T: Add<Output = T>
        requires
            can_add(*old(self)@.right.point(), amount),
        ensures
            obeys_point_laws::<T>() && T::obeys_add_spec() ==> final(self)@ == old(
                self,
            )@.with_right_at(old(self)@.right.point().add_spec(amount)),
            obeys_point_laws::<T>() ==> final(self)@.valid(),
    {
        let moved = match &self.end {
            Bound::Included(t) => Bound::Included(t.clone() + amount),
            Bound::Excluded(t) => Bound::Excluded(t.clone() + amount),
        };
        let kept = self.start.clone();
        proof {
            if obeys_point_laws::<T>() {
                lemma_trichotomy(*kept.point(), *moved.point());
            }
        }
        if *moved.point() < *kept.point() {
            *self = Interval { start: moved, end: kept };
        } else {
            *self = Interval { start: kept, end: moved };
        }
    }

    /// Writes the interval in the usual notation, such as `[0, 2)`, with each
    /// point written as its `Display` writes it.
    pub fn to_string(&self) -> (s: String) where T: Display
        ensures
            exists|left: String, right: String|
                {
                    &&& to_string_from_display_ensures::<T>(self@.left.point(), left)
                    &&& to_string_from_display_ensures::<T>(self@.right.point(), right)
                    &&& s@ == #[trigger] spec_notation(
                        self@.left is Included,
                        left@,
                        right@,
                        self@.right is Included,
                    )
                },
    {
        let left = self.start.point().to_string();
        let right = self.end.point().to_string();
        notation(self.start.is_closed(), left.as_str(), right.as_str(), self.end.is_closed())
    }
}

} // verus!
