//! What the library asks of a point type `T`: comparison operators that form
//! a strict total order and agree with equality, and a `clone` that gives
//! back an equal value. For the operations that move or measure an interval,
//! also when a sum or a difference of two points can be taken.
//!
//! The executable functions of this crate accept every `T` that has the
//! operators. What they promise, they promise for the types that keep these
//! laws: the built-in integers do, and a type of the caller's does once its
//! own comparison and `clone` are specified.

use core::cmp::Ordering;
use core::ops::{Add, Sub};
use vstd::prelude::*;
use vstd::std_specs::cmp::{PartialEqSpec, PartialOrdSpec};
use vstd::std_specs::ops::{AddSpec, SubSpec};

verus! {

/// `a` lies strictly before `b` in the order of `T`.
pub open spec fn lt<T: PartialOrd>(a: T, b: T) -> bool {
    a.partial_cmp_spec(&b) == Some(Ordering::Less)
}

/// `a` lies before `b`, or is `b`.
pub open spec fn le<T: PartialOrd>(a: T, b: T) -> bool {
    lt(a, b) || a == b
}

/// The comparison operators of `T` do what their specifications say, `==` is
/// equality of values, and `<` is a strict total order of which `>` is the
/// converse.
pub open spec fn total_order<T: PartialOrd>() -> bool {
    &&& T::obeys_eq_spec()
    &&& T::obeys_partial_cmp_spec()
    &&& forall|a: T, b: T| #[trigger] a.eq_spec(&b) <==> a == b
    &&& forall|a: T, b: T|
        #[trigger] a.partial_cmp_spec(&b) == Some(Ordering::Equal) <==> a == b
    &&& forall|a: T, b: T| (#[trigger] a.partial_cmp_spec(&b)) is Some
    &&& forall|a: T, b: T|
        #[trigger] a.partial_cmp_spec(&b) == Some(Ordering::Greater) <==> lt(b, a)
    &&& forall|a: T, b: T, c: T| #[trigger] lt(a, b) && #[trigger] lt(b, c) ==> lt(a, c)
}

/// Every clone of a `T` equals the value it was made from.
pub open spec fn faithful_clone<T: Clone>() -> bool {
    forall|a: T, b: T| #[trigger] call_ensures(T::clone, (&a,), b) ==> a == b
}

/// `T` keeps both laws: it is totally ordered and clones faithfully.
pub open spec fn obeys_point_laws<T: PartialOrd + Clone>() -> bool {
    total_order::<T>() && faithful_clone::<T>()
}

/// The sum of `a` and `b` can be taken, whichever clone of `a` stands for it:
/// for the integers, the sum is in the range of the type.
pub open spec fn can_add<T: Clone + Add>(a: T, b: T) -> bool {
    forall|c: T| cloned::<T>(a, c) ==> #[trigger] c.add_req(b)
}

/// The difference of `a` and `b` can be taken, whichever clone of `a` stands
/// for it: for the integers, the difference is in the range of the type.
pub open spec fn can_sub<T: Clone + Sub>(a: T, b: T) -> bool {
    forall|c: T| cloned::<T>(a, c) ==> #[trigger] c.sub_req(b)
}

/// The difference of `a` and `b` can be taken, whichever clones stand for
/// the two.
pub open spec fn can_sub_clones<T: Clone + Sub>(a: T, b: T) -> bool {
    forall|c: T, d: T| cloned::<T>(a, c) && cloned::<T>(b, d) ==> #[trigger] c.sub_req(d)
}

/// Of two points exactly one holds: the first lies before the second, they
/// are equal, or the second lies before the first.
pub proof fn lemma_trichotomy<T: PartialOrd>(a: T, b: T)
    requires
        total_order::<T>(),
    ensures
        lt(a, b) || a == b || lt(b, a),
        !(lt(a, b) && a == b),
        !(lt(a, b) && lt(b, a)),
        !(a == b && lt(b, a)),
{
    match a.partial_cmp_spec(&b) {
        Some(Ordering::Less) => {},
        Some(Ordering::Equal) => {},
        Some(Ordering::Greater) => {},
        None => {},
    }
    assert(b.partial_cmp_spec(&a) is Some);
}

/// `le` is a total order: reflexive, antisymmetric, transitive and total.
pub proof fn lemma_le_total_order<T: PartialOrd>(a: T, b: T, c: T)
    requires
        total_order::<T>(),
    ensures
        le(a, a),
        le(a, b) && le(b, a) ==> a == b,
        le(a, b) && le(b, c) ==> le(a, c),
        le(a, b) || le(b, a),
        le(a, b) <==> !lt(b, a),
{
    lemma_trichotomy(a, b);
    lemma_trichotomy(b, c);
    lemma_trichotomy(a, c);
}

} // verus!
