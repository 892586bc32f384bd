//! One endpoint of an interval, and the four ways of combining two endpoints
//! on which the interval operations rest.

use crate::order::{lt, obeys_point_laws};
use vstd::prelude::*;
use vstd::std_specs::cmp::{PartialEqSpec, PartialEqSpecImpl};
use vstd::std_specs::convert::FromSpecImpl;

verus! {

/// One endpoint of an interval: a point, and whether the point itself belongs
/// to the interval.
#[derive(Debug, PartialOrd, Ord, Eq, Hash, Copy)]
pub enum Bound<T> {
    /// The boundary includes the point.
    Included(T),
    /// The boundary excludes the point.
    Excluded(T),
}

impl<T> Bound<T> {
    /// The point at which the bound stands.
    pub open spec fn spec_point(&self) -> &T {
        match self {
            Bound::Included(p) => p,
            Bound::Excluded(p) => p,
        }
    }

    /// The bound includes its point.
    pub open spec fn spec_is_closed(&self) -> bool {
        *self is Included
    }

    /// The bound excludes its point.
    pub open spec fn spec_is_open(&self) -> bool {
        *self is Excluded
    }

    /// The bound of the same kind at the point `p`.
    pub open spec fn at(self, p: T) -> Self {
        match self {
            Bound::Included(_) => Bound::Included(p),
            Bound::Excluded(_) => Bound::Excluded(p),
        }
    }

    /// `self` may be what `clone` returns for `source`: a bound of the same
    /// kind, at a clone of its point.
    pub open spec fn is_clone_of(self, source: Self) -> bool
        where T: Clone
    {
        &&& self is Included <==> source is Included
        &&& cloned::<T>(*source.point(), *self.point())
    }

    /// Returns the point at which the bound stands, included or not.
    #[verifier::when_used_as_spec(spec_point)]
    pub fn point(&self) -> (r: &T)
        ensures
            r == self.spec_point(),
    {
        match self {
            Bound::Included(p) => p,
            Bound::Excluded(p) => p,
        }
    }

    /// Returns whether the bound includes its point.
    #[verifier::when_used_as_spec(spec_is_closed)]
    pub fn is_closed(&self) -> (r: bool)
        ensures
            r == self.spec_is_closed(),
    {
        match self {
            Bound::Included(_) => true,
            Bound::Excluded(_) => false,
        }
    }

    /// Returns whether the bound excludes its point.
    #[verifier::when_used_as_spec(spec_is_open)]
    pub fn is_open(&self) -> (r: bool)
        ensures
            r == self.spec_is_open(),
    {
        !self.is_closed()
    }
}

impl<T: Clone> Clone for Bound<T> {
    /// A bound of the same kind at a clone of the point.
    fn clone(&self) -> (r: Self)
        ensures
            r.is_clone_of(*self),
    {
        match self {
            Bound::Included(p) => Bound::Included(p.clone()),
            Bound::Excluded(p) => Bound::Excluded(p.clone()),
        }
    }
}

impl<T: PartialEq> PartialEq for Bound<T> {
    /// Two bounds are equal when they are of one kind and stand at equal
    /// points.
    fn eq(&self, other: &Self) -> (r: bool) {
        match (self, other) {
            (Bound::Included(a), Bound::Included(b)) => *a == *b,
            (Bound::Excluded(a), Bound::Excluded(b)) => *a == *b,
            _ => false,
        }
    }
}

impl<T: PartialEq> PartialEqSpecImpl for Bound<T> {
    open spec fn obeys_eq_spec() -> bool {
        T::obeys_eq_spec()
    }

    open spec fn eq_spec(&self, other: &Self) -> bool {
        &&& *self is Included <==> *other is Included
        &&& self.point().eq_spec(other.point())
    }
}

impl<T: Default> Default for Bound<T> {
    /// The default bound is closed, at a default point.
    fn default() -> (r: Self)
        ensures
            r is Included,
            call_ensures(T::default, (), *r.point()),
    {
        Bound::Included(T::default())
    }
}

impl<T> From<T> for Bound<T> {
    /// A point becomes the closed bound at that point.
    fn from(t: T) -> (r: Self) {
        Bound::Included(t)
    }
}

impl<T> FromSpecImpl<T> for Bound<T> {
    open spec fn obeys_from_spec() -> bool {
        true
    }

    open spec fn from_spec(t: T) -> Self {
        Bound::Included(t)
    }
}

impl<T> Bound<T> where T: PartialOrd + PartialEq + Clone {
    /// The bound that limits the overlap of two ranges from above, given the
    /// upper bounds of both: the one at the lesser point. Where both stand at
    /// one point, that point is included only if both include it.
    pub open spec fn spec_intersect_or_least(self, other: Self) -> Self {
        if self.point() == other.point() {
            if self is Included && other is Included {
                self
            } else {
                Bound::Excluded(*self.point())
            }
        } else if lt(*self.point(), *other.point()) {
            self
        } else {
            other
        }
    }

    /// The bound that limits the overlap of two ranges from below, given the
    /// lower bounds of both: the one at the greater point. Where both stand at
    /// one point, that point is included only if both include it.
    pub open spec fn spec_intersect_or_greatest(self, other: Self) -> Self {
        if self.point() == other.point() {
            if self is Included && other is Included {
                self
            } else {
                Bound::Excluded(*self.point())
            }
        } else if lt(*other.point(), *self.point()) {
            self
        } else {
            other
        }
    }

    /// The lower bound of what two ranges cover together, given the lower
    /// bounds of both: the one at the lesser point. Where both stand at one
    /// point, that point is included if either includes it.
    pub open spec fn spec_union_or_least(self, other: Self) -> Self {
        if self.point() == other.point() {
            if self is Excluded && other is Excluded {
                self
            } else {
                Bound::Included(*self.point())
            }
        } else if lt(*self.point(), *other.point()) {
            self
        } else {
            other
        }
    }

    /// The upper bound of what two ranges cover together, given the upper
    /// bounds of both: the one at the greater point. Where both stand at one
    /// point, that point is included if either includes it.
    pub open spec fn spec_union_or_greatest(self, other: Self) -> Self {
        if self.point() == other.point() {
            if self is Excluded && other is Excluded {
                self
            } else {
                Bound::Included(*self.point())
            }
        } else if lt(*other.point(), *self.point()) {
            self
        } else {
            other
        }
    }

    /// As a lower bound, `self` admits every point that `other` admits: it
    /// stands at a lesser point, or at the same point without being the
    /// stricter of the two.
    pub open spec fn starts_no_later_than(self, other: Self) -> bool {
        ||| lt(*self.point(), *other.point())
        ||| self.point() == other.point() && (self is Included || other is Excluded)
    }

    /// As an upper bound, `self` admits every point that `other` admits: it
    /// stands at a greater point, or at the same point without being the
    /// stricter of the two.
    pub open spec fn ends_no_earlier_than(self, other: Self) -> bool {
        ||| lt(*other.point(), *self.point())
        ||| self.point() == other.point() && (self is Included || other is Excluded)
    }

    /// Returns the intersection of two bounds at one point, or the bound at
    /// the lesser point.
    pub fn intersect_or_least(&self, other: &Self) -> (r: Self)
        ensures
            obeys_point_laws::<T>() ==> r == self.spec_intersect_or_least(*other),
    {
        if *self.point() == *other.point() {
            if self.is_closed() && other.is_closed() {
                self.clone()
            } else {
                Bound::Excluded(self.point().clone())
            }
        } else if *self.point() < *other.point() {
            self.clone()
        } else {
            other.clone()
        }
    }

    /// Returns the intersection of two bounds at one point, or the bound at
    /// the greater point.
    pub fn intersect_or_greatest(&self, other: &Self) -> (r: Self)
        ensures
            obeys_point_laws::<T>() ==> r == self.spec_intersect_or_greatest(*other),
    {
        if *self.point() == *other.point() {
            if self.is_closed() && other.is_closed() {
                self.clone()
            } else {
                Bound::Excluded(self.point().clone())
            }
        } else if *self.point() > *other.point() {
            self.clone()
        } else {
            other.clone()
        }
    }

    /// Returns the union of two bounds at one point, or the bound at the
    /// lesser point.
    pub fn union_or_least(&self, other: &Self) -> (r: Self)
        ensures
            obeys_point_laws::<T>() ==> r == self.spec_union_or_least(*other),
    {
        if *self.point() == *other.point() {
            if self.is_open() && other.is_open() {
                self.clone()
            } else {
                Bound::Included(self.point().clone())
            }
        } else if *self.point() < *other.point() {
            self.clone()
        } else {
            other.clone()
        }
    }

    /// Returns the union of two bounds at one point, or the bound at the
    /// greater point.
    pub fn union_or_greatest(&self, other: &Self) -> (r: Self)
        ensures
            obeys_point_laws::<T>() ==> r == self.spec_union_or_greatest(*other),
    {
        if *self.point() == *other.point() {
            if self.is_open() && other.is_open() {
                self.clone()
            } else {
                Bound::Included(self.point().clone())
            }
        } else if *self.point() > *other.point() {
            self.clone()
        } else {
            other.clone()
        }
    }
}

} // verus!
