use interval::Bound;

#[test]
fn point_is_given_for_both_kinds() {
    let b1 = Bound::Included(0);
    let b2 = Bound::Excluded(1);
    assert_eq!(b1.point(), &0);
    assert_eq!(b2.point(), &1);
}

#[test]
fn is_closed_tells_the_kind() {
    let b1 = Bound::Included(0);
    let b2 = Bound::Excluded(1);
    assert!(b1.is_closed());
    assert!(!b2.is_closed());
}

#[test]
fn is_open_is_the_opposite_of_is_closed() {
    let b1 = Bound::Included(0);
    let b2 = Bound::Excluded(1);
    assert!(!b1.is_open());
    assert!(b2.is_open());
    assert_ne!(b1.is_open(), b1.is_closed());
    assert_ne!(b2.is_open(), b2.is_closed());
}

#[test]
fn intersect_or_least_at_one_point_is_open_unless_both_closed() {
    let b1 = Bound::Included(0);
    let b2 = Bound::Excluded(0);
    assert_eq!(b1.intersect_or_least(&b2), b2);
    assert_eq!(b2.intersect_or_least(&b1), Bound::Excluded(0));
    assert_eq!(b1.intersect_or_least(&b1), Bound::Included(0));
    assert_eq!(b2.intersect_or_least(&b2), Bound::Excluded(0));
}

#[test]
fn intersect_or_least_takes_the_lesser_point_with_its_kind() {
    assert_eq!(Bound::Included(1).intersect_or_least(&Bound::Excluded(5)), Bound::Included(1));
    assert_eq!(Bound::Included(5).intersect_or_least(&Bound::Excluded(1)), Bound::Excluded(1));
    assert_eq!(Bound::Excluded(-3).intersect_or_least(&Bound::Excluded(2)), Bound::Excluded(-3));
}

#[test]
fn intersect_or_greatest_at_one_point_is_open_unless_both_closed() {
    let b1 = Bound::Included(0);
    let b2 = Bound::Excluded(0);
    assert_eq!(b1.intersect_or_greatest(&b2), b2);
    assert_eq!(b2.intersect_or_greatest(&b1), Bound::Excluded(0));
    assert_eq!(b1.intersect_or_greatest(&b1), Bound::Included(0));
}

#[test]
fn intersect_or_greatest_takes_the_greater_point_with_its_kind() {
    assert_eq!(Bound::Included(1).intersect_or_greatest(&Bound::Excluded(5)), Bound::Excluded(5));
    assert_eq!(Bound::Included(5).intersect_or_greatest(&Bound::Excluded(1)), Bound::Included(5));
}

#[test]
fn union_or_least_at_one_point_is_closed_if_either_is() {
    let b1 = Bound::Included(0);
    let b2 = Bound::Excluded(0);
    assert_eq!(b1.union_or_least(&b2), b1);
    assert_eq!(b2.union_or_least(&b1), Bound::Included(0));
    assert_eq!(b2.union_or_least(&b2), Bound::Excluded(0));
    assert_eq!(b1.union_or_least(&b1), Bound::Included(0));
}

#[test]
fn union_or_least_takes_the_lesser_point_with_its_kind() {
    assert_eq!(Bound::Included(1).union_or_least(&Bound::Excluded(5)), Bound::Included(1));
    assert_eq!(Bound::Included(5).union_or_least(&Bound::Excluded(1)), Bound::Excluded(1));
}

#[test]
fn union_or_greatest_at_one_point_is_closed_if_either_is() {
    let b1 = Bound::Included(0);
    let b2 = Bound::Excluded(0);
    assert_eq!(b1.union_or_greatest(&b2), b1);
    assert_eq!(b2.union_or_greatest(&b1), Bound::Included(0));
    assert_eq!(b2.union_or_greatest(&b2), Bound::Excluded(0));
}

#[test]
fn union_or_greatest_takes_the_greater_point_with_its_kind() {
    assert_eq!(Bound::Included(1).union_or_greatest(&Bound::Excluded(5)), Bound::Excluded(5));
    assert_eq!(Bound::Included(5).union_or_greatest(&Bound::Excluded(1)), Bound::Included(5));
}

#[test]
fn boundary_tie_break() {
    assert_eq!(Bound::Included(0).intersect_or_least(&Bound::Excluded(0)), Bound::Excluded(0));
    assert_eq!(Bound::Included(0).union_or_least(&Bound::Excluded(0)), Bound::Included(0));
}

#[test]
fn combinators_do_not_depend_on_the_order_of_their_operands() {
    let bounds = [
        Bound::Included(0),
        Bound::Excluded(0),
        Bound::Included(1),
        Bound::Excluded(1),
        Bound::Included(2),
    ];
    for a in bounds.iter() {
        for b in bounds.iter() {
            assert_eq!(a.intersect_or_least(b), b.intersect_or_least(a));
            assert_eq!(a.intersect_or_greatest(b), b.intersect_or_greatest(a));
            assert_eq!(a.union_or_least(b), b.union_or_least(a));
            assert_eq!(a.union_or_greatest(b), b.union_or_greatest(a));
        }
    }
}

#[test]
fn combinators_work_on_floats() {
    assert_eq!(
        Bound::Included(0.5).intersect_or_least(&Bound::Excluded(0.5)),
        Bound::Excluded(0.5)
    );
    assert_eq!(Bound::Included(0.5).union_or_greatest(&Bound::Excluded(1.5)), Bound::Excluded(1.5));
}

#[test]
fn default_bound_is_closed_at_the_default_point() {
    let b: Bound<i32> = Bound::default();
    assert_eq!(b, Bound::Included(0));
}

#[test]
fn bound_from_point_is_closed() {
    let b: Bound<i32> = Bound::from(7);
    assert_eq!(b, Bound::Included(7));
    let c: Bound<u8> = 3.into();
    assert_eq!(c, Bound::Included(3));
}

#[test]
fn bound_clone_and_equality() {
    let b = Bound::Excluded(String::from("m"));
    let c = b.clone();
    assert_eq!(b, c);
    assert_ne!(b, Bound::Included(String::from("m")));
    assert_ne!(b, Bound::Excluded(String::from("n")));
}

#[test]
fn bound_order_puts_included_first_then_goes_by_point() {
    assert!(Bound::Included(5) < Bound::Excluded(0));
    assert!(Bound::Included(1) < Bound::Included(2));
    assert!(Bound::Excluded(1) < Bound::Excluded(2));
}
