//! What holds of the operations on spans, for every point type that is
//! totally ordered.

use crate::bound::Bound;
use crate::order::{le, lemma_trichotomy, lt, total_order};
use crate::span::Span;
use vstd::prelude::*;

verus! {

/// None of the four ways of combining two bounds depends on the order in
/// which the bounds are given.
pub proof fn lemma_combinators_commute<T: PartialOrd + PartialEq + Clone>(a: Bound<T>, b: Bound<T>)
    requires
        total_order::<T>(),
    ensures
        a.spec_intersect_or_least(b) == b.spec_intersect_or_least(a),
        a.spec_intersect_or_greatest(b) == b.spec_intersect_or_greatest(a),
        a.spec_union_or_least(b) == b.spec_union_or_least(a),
        a.spec_union_or_greatest(b) == b.spec_union_or_greatest(a),
{
    lemma_trichotomy(*a.point(), *b.point());
}

/// Each combinator gives back one of its two bounds, unless they stand at one
/// point and differ in kind. The two that take the lesser point give a bound
/// at a point that is no greater than either, the two that take the greater
/// point one that is no less. Where the bounds stand at one point, the
/// intersecting ones include it if both do, the uniting ones if either does.
pub proof fn lemma_combinators_by_point<T: PartialOrd + PartialEq + Clone>(a: Bound<T>, b: Bound<T>)
    requires
        total_order::<T>(),
    ensures
        ({
            let r = a.spec_intersect_or_least(b);
            &&& r.point() == a.point() || r.point() == b.point()
            &&& le(*r.point(), *a.point()) && le(*r.point(), *b.point())
            &&& r is Included <==> (r.point() == a.point() ==> a is Included) && (r.point()
                == b.point() ==> b is Included)
        }),
        ({
            let r = a.spec_intersect_or_greatest(b);
            &&& r.point() == a.point() || r.point() == b.point()
            &&& le(*a.point(), *r.point()) && le(*b.point(), *r.point())
            &&& r is Included <==> (r.point() == a.point() ==> a is Included) && (r.point()
                == b.point() ==> b is Included)
        }),
        ({
            let r = a.spec_union_or_least(b);
            &&& r == a || r == b
            &&& r.starts_no_later_than(a) && r.starts_no_later_than(b)
        }),
        ({
            let r = a.spec_union_or_greatest(b);
            &&& r == a || r == b
            &&& r.ends_no_earlier_than(a) && r.ends_no_earlier_than(b)
        }),
{
    lemma_trichotomy(*a.point(), *b.point());
}

/// The order of lower bounds and the order of upper bounds are transitive:
/// where `a` starts no later than `b` and `b` no later than `c`, `a` starts
/// no later than `c`; where `c` ends no earlier than `b` and `b` no earlier
/// than `a`, `c` ends no earlier than `a`.
pub proof fn lemma_bound_order_transitive<T: PartialOrd + PartialEq + Clone>(
    a: Bound<T>,
    b: Bound<T>,
    c: Bound<T>,
)
    requires
        total_order::<T>(),
    ensures
        a.starts_no_later_than(b) && b.starts_no_later_than(c) ==> a.starts_no_later_than(c),
        c.ends_no_earlier_than(b) && b.ends_no_earlier_than(a) ==> c.ends_no_earlier_than(a),
{
    lemma_trichotomy(*a.point(), *b.point());
    lemma_trichotomy(*b.point(), *c.point());
    lemma_trichotomy(*a.point(), *c.point());
}

/// A proper span is valid. A valid span is one whose right point does not lie
/// before its left point, and it is proper if its two points differ.
pub proof fn lemma_proper_is_valid<T: PartialOrd + PartialEq + Clone>(a: Span<T>)
    requires
        total_order::<T>(),
    ensures
        a.proper() ==> a.valid(),
        a.valid() <==> !lt(*a.right.point(), *a.left.point()),
        a.valid() && a.left.point() != a.right.point() ==> a.proper(),
{
    lemma_trichotomy(*a.left.point(), *a.right.point());
}

/// Whatever bounds the general constructor is given, what it stores is
/// proper, and so valid.
pub proof fn lemma_new_proper<T: PartialOrd + PartialEq + Clone>(
    start: Bound<T>,
    end: Option<Bound<T>>,
)
    requires
        total_order::<T>(),
    ensures
        Span::new(start, end).proper(),
        Span::new(start, end).valid(),
{
    if let Some(e) = end {
        lemma_trichotomy(*start.point(), *e.point());
    }
}

/// A span with one end moved is valid, wherever the end is moved to. The
/// moved bound keeps its kind and the other bound stays as it is; the two
/// change places exactly if the point lies beyond the other end. The span
/// is proper unless the end has been moved onto the other.
pub proof fn lemma_moved_end<T: PartialOrd + PartialEq + Clone>(a: Span<T>, p: T)
    requires
        total_order::<T>(),
    ensures
        a.with_left_at(p).valid(),
        a.with_right_at(p).valid(),
        le(p, *a.right.point()) ==> a.with_left_at(p) == (Span {
            left: a.left.at(p),
            right: a.right,
        }),
        lt(*a.right.point(), p) ==> a.with_left_at(p) == (Span {
            left: a.right,
            right: a.left.at(p),
        }),
        le(*a.left.point(), p) ==> a.with_right_at(p) == (Span {
            left: a.left,
            right: a.right.at(p),
        }),
        lt(p, *a.left.point()) ==> a.with_right_at(p) == (Span {
            left: a.right.at(p),
            right: a.left,
        }),
        p != *a.right.point() ==> a.with_left_at(p).proper(),
        p != *a.left.point() ==> a.with_right_at(p).proper(),
{
    lemma_trichotomy(p, *a.left.point());
    lemma_trichotomy(p, *a.right.point());
}

/// An empty span holds no point.
pub proof fn lemma_empty_holds_no_point<T: PartialOrd + PartialEq + Clone>(a: Span<T>, p: T)
    requires
        total_order::<T>(),
        a.is_empty(),
    ensures
        !a.contains(p),
{
    lemma_trichotomy(*a.left.point(), p);
}

/// The intersection of two spans does not depend on their order.
pub proof fn lemma_intersect_commutes<T: PartialOrd + PartialEq + Clone>(a: Span<T>, b: Span<T>)
    requires
        total_order::<T>(),
    ensures
        a.intersect(b) == b.intersect(a),
{
    lemma_combinators_commute(a.left, b.left);
    lemma_combinators_commute(a.right, b.right);
}

/// Two spans have no intersection exactly if one of them is empty, or the one
/// that starts no later than the other ends before the other starts, or ends
/// where the other starts while either of them excludes that point. Where
/// they have one, its bounds are what the two intersecting combinators make
/// of the left bounds and of the right bounds.
pub proof fn lemma_intersect_none<T: PartialOrd + PartialEq + Clone>(a: Span<T>, b: Span<T>)
    requires
        total_order::<T>(),
    ensures
        a.intersect(b) is None <==> {
            ||| a.is_empty()
            ||| b.is_empty()
            ||| le(*a.left.point(), *b.left.point()) && a.apart_from(b)
            ||| le(*b.left.point(), *a.left.point()) && b.apart_from(a)
        },
        a.intersect(b) matches Some(i) ==> i.left == a.left.spec_intersect_or_greatest(b.left)
            && i.right == a.right.spec_intersect_or_least(b.right),
{
}

/// The intersection of two valid spans is valid, and that of two proper
/// spans is proper. It is never empty.
pub proof fn lemma_intersect_valid<T: PartialOrd + PartialEq + Clone>(a: Span<T>, b: Span<T>)
    requires
        total_order::<T>(),
        a.valid(),
        b.valid(),
    ensures
        a.intersect(b) matches Some(i) ==> i.valid() && !i.is_empty(),
        a.proper() && b.proper() ==> (a.intersect(b) matches Some(i) ==> i.proper()),
{
    lemma_points_in_order(a, b);
}

/// What two proper spans have in common is what their intersection holds: a
/// point lies in the intersection exactly if it lies in both. So there is no
/// intersection exactly if no point lies in both.
pub proof fn lemma_intersect_holds_common_points<T: PartialOrd + PartialEq + Clone>(
    a: Span<T>,
    b: Span<T>,
    p: T,
)
    requires
        total_order::<T>(),
        a.proper(),
        b.proper(),
    ensures
        (a.intersect(b) matches Some(i) && i.contains(p)) <==> (a.contains(p) && b.contains(p)),
{
    lemma_points_in_order(a, b);
    lemma_point_among(a, b, p);
}

/// The union of two spans does not depend on their order.
pub proof fn lemma_union_commutes<T: PartialOrd + PartialEq + Clone>(a: Span<T>, b: Span<T>)
    requires
        total_order::<T>(),
    ensures
        a.union(b) == b.union(a),
{
    lemma_combinators_commute(a.left, b.left);
    lemma_combinators_commute(a.right, b.right);
}

/// The union of two valid spans, where there is one, is valid and not empty,
/// and that of two proper spans is proper.
pub proof fn lemma_union_valid<T: PartialOrd + PartialEq + Clone>(a: Span<T>, b: Span<T>)
    requires
        total_order::<T>(),
        a.valid(),
        b.valid(),
    ensures
        a.union(b) matches Some(u) ==> u.valid() && !u.is_empty(),
        a.proper() && b.proper() ==> (a.union(b) matches Some(u) ==> u.proper()),
{
    lemma_points_in_order(a, b);
}

/// Where two proper spans have a union, a point lies in it exactly if it lies
/// in one of the two.
pub proof fn lemma_union_holds_points_of_either<T: PartialOrd + PartialEq + Clone>(
    a: Span<T>,
    b: Span<T>,
    p: T,
)
    requires
        total_order::<T>(),
        a.proper(),
        b.proper(),
        a.union(b) is Some,
    ensures
        a.union(b)->0.contains(p) <==> (a.contains(p) || b.contains(p)),
{
    lemma_points_in_order(a, b);
    lemma_point_among(a, b, p);
}

/// Where two proper spans, not both of them empty, have no union, neither is
/// empty, and no point lies in both.
pub proof fn lemma_no_union_means_apart<T: PartialOrd + PartialEq + Clone>(
    a: Span<T>,
    b: Span<T>,
    p: T,
)
    requires
        total_order::<T>(),
        a.proper(),
        b.proper(),
        !a.is_empty() || !b.is_empty(),
        a.union(b) is None,
    ensures
        !a.is_empty(),
        !b.is_empty(),
        !(a.contains(p) && b.contains(p)),
{
    lemma_points_in_order(a, b);
    lemma_point_among(a, b, p);
}

/// What two valid spans cover together is valid. Where the two are proper,
/// it is proper too, and holds every point of either.
pub proof fn lemma_cover_holds_points<T: PartialOrd + PartialEq + Clone>(
    a: Span<T>,
    b: Span<T>,
    p: T,
)
    requires
        total_order::<T>(),
        a.valid(),
        b.valid(),
    ensures
        a.cover(b).valid(),
        a.proper() && b.proper() ==> a.cover(b).proper(),
        a.proper() && b.proper() && (a.contains(p) || b.contains(p)) ==> a.cover(b).contains(p),
{
    lemma_points_in_order(a, b);
    lemma_point_among(a, b, p);
}

/// Every span of the sequence is valid.
pub open spec fn all_valid<T: PartialOrd + PartialEq + Clone>(s: Seq<Span<T>>) -> bool {
    forall|k: int| 0 <= k < s.len() ==> (#[trigger] s[k]).valid()
}

/// Every span of the sequence is proper.
pub open spec fn all_proper<T: PartialOrd + PartialEq + Clone>(s: Seq<Span<T>>) -> bool {
    forall|k: int| 0 <= k < s.len() ==> (#[trigger] s[k]).proper()
}

/// No span of the sequence is empty.
pub open spec fn none_empty<T: PartialOrd + PartialEq + Clone>(s: Seq<Span<T>>) -> bool {
    forall|k: int| 0 <= k < s.len() ==> !(#[trigger] s[k]).is_empty()
}

/// What holds of all spans of a sequence that is not empty holds of its last
/// span and of all that come before it.
proof fn lemma_all_but_last<T: PartialOrd + PartialEq + Clone>(s: Seq<Span<T>>)
    requires
        total_order::<T>(),
        s.len() > 0,
    ensures
        all_valid(s) ==> all_valid(s.drop_last()) && s.last().valid(),
        all_proper(s) ==> all_proper(s.drop_last()) && s.last().proper() && all_valid(s),
{
    let before = s.drop_last();
    if all_valid(s) {
        assert(s[s.len() - 1].valid());
        assert forall|k: int| 0 <= k < before.len() implies (#[trigger] before[k]).valid() by {
            assert(before[k] == s[k]);
        }
    }
    if all_proper(s) {
        assert(s[s.len() - 1].proper());
        assert forall|k: int| 0 <= k < before.len() implies (#[trigger] before[k]).proper() by {
            assert(before[k] == s[k]);
        }
        assert forall|k: int| 0 <= k < s.len() implies (#[trigger] s[k]).valid() by {
            lemma_proper_is_valid(s[k]);
        }
    }
}

/// The hull of a sequence is none exactly if every span in it is empty.
pub proof fn lemma_enclose_none<T: PartialOrd + PartialEq + Clone>(s: Seq<Span<T>>)
    ensures
        Span::enclose(s) is None <==> forall|i: int| 0 <= i < s.len() ==> s[i].is_empty(),
    decreases s.len(),
{
    if s.len() > 0 {
        lemma_enclose_none(s.drop_last());
        if Span::enclose(s) is None {
            assert forall|i: int| 0 <= i < s.len() implies s[i].is_empty() by {
                if i < s.len() - 1 {
                    assert(s.drop_last()[i] == s[i]);
                }
            }
        } else if s.last().is_empty() {
            let j = choose|j: int| 0 <= j < s.drop_last().len() && !s.drop_last()[j].is_empty();
            assert(!s[j].is_empty());
        }
    }
}

/// The hull of a sequence of valid spans is valid, and that of proper spans
/// is proper.
pub proof fn lemma_enclose_valid<T: PartialOrd + PartialEq + Clone>(s: Seq<Span<T>>)
    requires
        total_order::<T>(),
        all_valid(s),
    ensures
        Span::enclose(s) matches Some(e) ==> e.valid(),
        all_proper(s) ==> (Span::enclose(s) matches Some(e) ==> e.proper()),
    decreases s.len(),
{
    if s.len() > 0 {
        let before = s.drop_last();
        let x = s.last();
        lemma_all_but_last(s);
        lemma_enclose_valid(before);
        if let Some(acc) = Span::enclose(before) {
            lemma_cover_holds_points(acc, x, *x.left.point());
        }
    }
}

/// The hull of a sequence of proper spans holds every point of every span of
/// the sequence.
pub proof fn lemma_enclose_holds_points<T: PartialOrd + PartialEq + Clone>(
    s: Seq<Span<T>>,
    i: int,
    p: T,
)
    requires
        total_order::<T>(),
        all_proper(s),
        0 <= i < s.len(),
        s[i].contains(p),
    ensures
        Span::enclose(s) matches Some(e) && e.contains(p),
    decreases s.len(),
{
    let n = s.len() - 1;
    let before = s.drop_last();
    let x = s[n];
    lemma_all_but_last(s);
    lemma_enclose_valid(before);
    if i < n {
        assert(before[i] == s[i]);
        lemma_enclose_holds_points(before, i, p);
    }
    if x.is_empty() {
        lemma_empty_holds_no_point(x, p);
    }
    if let Some(acc) = Span::enclose(before) {
        lemma_proper_is_valid(acc);
        lemma_cover_holds_points(acc, x, p);
    }
}

/// The span at the index `i` of `s` is not empty, and the hull `e` starts
/// with its left bound.
pub open spec fn starts_hull<T: PartialOrd + PartialEq + Clone>(
    s: Seq<Span<T>>,
    e: Span<T>,
    i: int,
) -> bool {
    0 <= i < s.len() && !s[i].is_empty() && s[i].left == e.left
}

/// The span at the index `i` of `s` is not empty, and the hull `e` ends with
/// its right bound.
pub open spec fn ends_hull<T: PartialOrd + PartialEq + Clone>(
    s: Seq<Span<T>>,
    e: Span<T>,
    i: int,
) -> bool {
    0 <= i < s.len() && !s[i].is_empty() && s[i].right == e.right
}

/// The span `x` is empty, or the hull `e` starts no later and ends no earlier
/// than `x` does.
pub open spec fn within_hull<T: PartialOrd + PartialEq + Clone>(x: Span<T>, e: Span<T>) -> bool {
    x.is_empty() || (e.left.starts_no_later_than(x.left) && e.right.ends_no_earlier_than(
        x.right,
    ))
}

/// The hull of a sequence is the smallest span that covers every span of the
/// sequence that is not empty: its left bound is the left bound of one of
/// them and starts no later than that of any of them, and its right bound is
/// the right bound of one of them and ends no earlier than that of any of
/// them.
pub proof fn lemma_enclose_is_tight<T: PartialOrd + PartialEq + Clone>(s: Seq<Span<T>>)
    requires
        total_order::<T>(),
    ensures
        Span::enclose(s) matches Some(e) ==> {
            &&& exists|i: int| starts_hull(s, e, i)
            &&& exists|i: int| ends_hull(s, e, i)
            &&& forall|k: int| 0 <= k < s.len() ==> #[trigger] within_hull(s[k], e)
        },
    decreases s.len(),
{
    if s.len() > 0 {
        let n = s.len() - 1;
        let before = s.drop_last();
        let x = s[n];
        lemma_enclose_is_tight(before);
        lemma_trichotomy(*x.left.point(), *x.right.point());
        match Span::enclose(before) {
            Some(acc) => {
                let i = choose|i: int| starts_hull(before, acc, i);
                let j = choose|j: int| ends_hull(before, acc, j);
                assert(s[i] == before[i] && s[j] == before[j]);
                if x.is_empty() {
                    assert(starts_hull(s, acc, i) && ends_hull(s, acc, j));
                    assert forall|k: int| 0 <= k < s.len() implies #[trigger] within_hull(
                        s[k],
                        acc,
                    ) by {
                        if k < n {
                            assert(within_hull(before[k], acc));
                        }
                    }
                } else {
                    let e = acc.cover(x);
                    lemma_combinators_by_point(acc.left, x.left);
                    lemma_combinators_by_point(acc.right, x.right);
                    assert(starts_hull(s, e, i) || starts_hull(s, e, n));
                    assert(ends_hull(s, e, j) || ends_hull(s, e, n));
                    assert forall|k: int| 0 <= k < s.len() implies #[trigger] within_hull(
                        s[k],
                        e,
                    ) by {
                        if k < n {
                            assert(within_hull(before[k], acc));
                            lemma_bound_order_transitive(e.left, acc.left, s[k].left);
                            lemma_bound_order_transitive(s[k].right, acc.right, e.right);
                        }
                    }
                }
            },
            None => {
                lemma_enclose_none(before);
                if !x.is_empty() {
                    assert(starts_hull(s, x, n) && ends_hull(s, x, n));
                    assert forall|k: int| 0 <= k < s.len() implies #[trigger] within_hull(
                        s[k],
                        x,
                    ) by {
                        if k < n {
                            assert(before[k].is_empty());
                        }
                    }
                }
            },
        }
    }
}

/// The index that `first_joinable` gives is that of a span that can be
/// joined with `x`, and no span before it can; where it gives none, no span
/// of `out` can be joined with `x`.
pub proof fn lemma_first_joinable_is_first<T: PartialOrd + PartialEq + Clone>(
    out: Seq<Span<T>>,
    x: Span<T>,
)
    ensures
        match Span::first_joinable(out, x) {
            Some(i) => {
                &&& 0 <= i < out.len()
                &&& out[i].union(x) is Some
                &&& forall|j: int| 0 <= j < i ==> (#[trigger] out[j]).union(x) is None
            },
            None => forall|j: int| 0 <= j < out.len() ==> (#[trigger] out[j]).union(x) is None,
        },
    decreases out.len(),
{
    if out.len() > 0 {
        let before = out.drop_last();
        lemma_first_joinable_is_first(before, x);
        match Span::first_joinable(before, x) {
            Some(i) => {
                assert(before[i] == out[i]);
                assert forall|j: int| 0 <= j < i implies (#[trigger] out[j]).union(x) is None by {
                    assert(before[j] == out[j]);
                }
            },
            None => {
                assert forall|j: int| 0 <= j < out.len() - 1 implies (#[trigger] out[j]).union(
                    x,
                ) is None by {
                    assert(before[j] == out[j]);
                }
            },
        }
    }
}

/// Where no span of `out` before the index `i` can be joined with `x`, and
/// the one at `i` can, `i` is the first index at which `x` can be joined.
pub proof fn lemma_first_joinable_found<T: PartialOrd + PartialEq + Clone>(
    out: Seq<Span<T>>,
    x: Span<T>,
    i: int,
)
    requires
        0 <= i < out.len(),
        Span::first_joinable(out.take(i), x) is None,
        out[i].union(x) is Some,
    ensures
        Span::first_joinable(out, x) == Some(i),
    decreases out.len(),
{
    if out.len() == i + 1 {
        assert(out.drop_last() == out.take(i));
    } else {
        assert(out.drop_last().take(i) == out.take(i));
        lemma_first_joinable_found(out.drop_last(), x, i);
    }
}

/// Taking a valid span that is not empty into a sequence of such spans
/// leaves a sequence of such spans, as long as before or longer by one.
/// Where all of them are proper, they are so afterwards.
pub proof fn lemma_absorb_keeps_valid<T: PartialOrd + PartialEq + Clone>(
    out: Seq<Span<T>>,
    x: Span<T>,
)
    requires
        total_order::<T>(),
        all_valid(out),
        none_empty(out),
        x.valid(),
        !x.is_empty(),
    ensures
        all_valid(Span::absorb(out, x)),
        none_empty(Span::absorb(out, x)),
        all_proper(out) && x.proper() ==> all_proper(Span::absorb(out, x)),
        out.len() <= Span::absorb(out, x).len() <= out.len() + 1,
{
    lemma_first_joinable_is_first(out, x);
    if let Some(i) = Span::first_joinable(out, x) {
        assert(out[i].valid() && !out[i].is_empty());
        lemma_union_valid(out[i], x);
        if all_proper(out) {
            assert(out[i].proper());
        }
    }
}

/// What `normalize` makes of valid spans are valid spans, none of them
/// empty, and no more of them than it was given. Where all that it was given
/// are proper, so are all that it gives.
pub proof fn lemma_normalize_keeps_valid<T: PartialOrd + PartialEq + Clone>(s: Seq<Span<T>>)
    requires
        total_order::<T>(),
        all_valid(s),
    ensures
        all_valid(Span::normalize(s)),
        none_empty(Span::normalize(s)),
        all_proper(s) ==> all_proper(Span::normalize(s)),
        Span::normalize(s).len() <= s.len(),
    decreases s.len(),
{
    if s.len() > 0 {
        let before = s.drop_last();
        lemma_all_but_last(s);
        lemma_normalize_keeps_valid(before);
        if !s.last().is_empty() {
            lemma_absorb_keeps_valid(Span::normalize(before), s.last());
        }
    }
}

/// What a sequence of proper spans holds after it has taken in a further
/// proper span is what it held before, and what that span holds.
pub proof fn lemma_absorb_holds_same_points<T: PartialOrd + PartialEq + Clone>(
    out: Seq<Span<T>>,
    x: Span<T>,
    p: T,
)
    requires
        total_order::<T>(),
        all_proper(out),
        x.proper(),
    ensures
        Span::some_holds(Span::absorb(out, x), p) <==> (Span::some_holds(out, p) || x.contains(p)),
{
    let after = Span::absorb(out, x);
    lemma_first_joinable_is_first(out, x);
    match Span::first_joinable(out, x) {
        Some(i) => {
            assert(out[i].proper());
            lemma_union_holds_points_of_either(out[i], x, p);
            if Span::some_holds(after, p) {
                let j = choose|j: int| 0 <= j < after.len() && (#[trigger] after[j]).contains(p);
                if j != i {
                    assert(out[j].contains(p));
                }
            }
            if x.contains(p) {
                assert(after[i].contains(p));
            }
            if Span::some_holds(out, p) {
                let j = choose|j: int| 0 <= j < out.len() && (#[trigger] out[j]).contains(p);
                assert(after[j].contains(p));
            }
        },
        None => {
            if Span::some_holds(after, p) {
                let j = choose|j: int| 0 <= j < after.len() && (#[trigger] after[j]).contains(p);
                if j < out.len() {
                    assert(out[j].contains(p));
                }
            }
            if x.contains(p) {
                assert(after[out.len() as int].contains(p));
            }
            if Span::some_holds(out, p) {
                let j = choose|j: int| 0 <= j < out.len() && (#[trigger] out[j]).contains(p);
                assert(after[j].contains(p));
            }
        },
    }
}

/// `normalize` neither loses nor adds a point: what it makes of proper spans
/// holds exactly the points that the spans held.
pub proof fn lemma_normalize_holds_same_points<T: PartialOrd + PartialEq + Clone>(
    s: Seq<Span<T>>,
    p: T,
)
    requires
        total_order::<T>(),
        all_proper(s),
    ensures
        Span::some_holds(Span::normalize(s), p) <==> Span::some_holds(s, p),
    decreases s.len(),
{
    if s.len() > 0 {
        let before = s.drop_last();
        let x = s.last();
        let n = s.len() - 1;
        lemma_all_but_last(s);
        lemma_normalize_holds_same_points(before, p);
        lemma_normalize_keeps_valid(before);
        if x.is_empty() {
            lemma_empty_holds_no_point(x, p);
        } else {
            lemma_absorb_holds_same_points(Span::normalize(before), x, p);
        }
        if Span::some_holds(s, p) {
            let j = choose|j: int| 0 <= j < s.len() && (#[trigger] s[j]).contains(p);
            if j < n {
                assert(before[j].contains(p));
            }
        }
        if Span::some_holds(before, p) {
            let j = choose|j: int| 0 <= j < before.len() && (#[trigger] before[j]).contains(p);
            assert(s[j].contains(p));
        }
        if x.contains(p) {
            assert(s[n].contains(p));
        }
    }
}

/// Exactly one of `x` before `y`, `x` equal to `y`, `y` before `x` holds.
spec fn points_compare<T: PartialOrd>(x: T, y: T) -> bool {
    &&& lt(x, y) || x == y || lt(y, x)
    &&& !(lt(x, y) && x == y)
    &&& !(lt(x, y) && lt(y, x))
    &&& !(x == y && lt(y, x))
}

/// How the four end points of two spans stand to each other: of any two of
/// them, exactly one comes first or they are equal.
proof fn lemma_points_in_order<T: PartialOrd + PartialEq + Clone>(a: Span<T>, b: Span<T>)
    requires
        total_order::<T>(),
    ensures
        points_compare(*a.left.point(), *a.right.point()),
        points_compare(*a.left.point(), *b.left.point()),
        points_compare(*a.left.point(), *b.right.point()),
        points_compare(*a.right.point(), *b.left.point()),
        points_compare(*a.right.point(), *b.right.point()),
        points_compare(*b.left.point(), *b.right.point()),
{
    lemma_trichotomy(*a.left.point(), *a.right.point());
    lemma_trichotomy(*a.left.point(), *b.left.point());
    lemma_trichotomy(*a.left.point(), *b.right.point());
    lemma_trichotomy(*a.right.point(), *b.left.point());
    lemma_trichotomy(*a.right.point(), *b.right.point());
    lemma_trichotomy(*b.left.point(), *b.right.point());
}

/// How a point stands to each of the four end points of two spans.
proof fn lemma_point_among<T: PartialOrd + PartialEq + Clone>(a: Span<T>, b: Span<T>, p: T)
    requires
        total_order::<T>(),
    ensures
        points_compare(p, *a.left.point()),
        points_compare(p, *a.right.point()),
        points_compare(p, *b.left.point()),
        points_compare(p, *b.right.point()),
{
    lemma_trichotomy(p, *a.left.point());
    lemma_trichotomy(p, *a.right.point());
    lemma_trichotomy(p, *b.left.point());
    lemma_trichotomy(p, *b.right.point());
}

} // verus!
