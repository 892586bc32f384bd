use interval::{Bound, Interval};

fn to_floats(i: &Interval<i32>) -> Interval<f64> {
    let left = match i.left_bound() {
        Bound::Included(p) => Bound::Included(f64::from(p)),
        Bound::Excluded(p) => Bound::Excluded(f64::from(p)),
    };
    let right = match i.right_bound() {
        Bound::Included(p) => Bound::Included(f64::from(p)),
        Bound::Excluded(p) => Bound::Excluded(f64::from(p)),
    };
    Interval::new(left, Some(right))
}

fn moved_onto_an_end() -> Vec<Interval<i32>> {
    let mut all = Vec::new();
    for p in 0..3 {
        let mut a = Interval::right_open(p, p + 2);
        a.left_crop(2);
        all.push(a);
        let mut b = Interval::left_open(p, p + 2);
        b.left_crop(2);
        all.push(b);
        let mut c = Interval::left_open(p + 2, p + 4);
        c.right_crop(2);
        all.push(c);
    }
    all
}

fn samples() -> Vec<Interval<i32>> {
    let mut all = Vec::new();
    for a in 0..4 {
        for b in a..4 {
            all.push(Interval::open(a, b));
            all.push(Interval::closed(a, b));
            all.push(Interval::left_open(a, b));
            all.push(Interval::right_open(a, b));
        }
    }
    all
}

#[test]
fn intersect_of_right_open_and_closed() {
    assert_eq!(
        Interval::right_open(0.0, 2.0).intersect(&Interval::closed(1.0, 3.0)),
        Some(Interval::right_open(1.0, 2.0))
    );
}

#[test]
fn union_of_left_open_and_closed() {
    assert_eq!(
        Interval::left_open(0.0, 2.0).union(&Interval::closed(1.0, 3.0)),
        Some(Interval::left_open(0.0, 3.0))
    );
}

#[test]
fn enclose_passes_over_empty_intervals() {
    let res = Interval::enclose(
        vec![
            Interval::open(1.0, 2.0),
            Interval::open(2.0, 3.0),
            Interval::open(2.5, 3.5),
            Interval::closed(3.0, 3.0),
            Interval::open(0.0, 1.5),
            Interval::open(6.0, 6.0),
        ]
        .into_iter(),
    );
    assert_eq!(res, Some(Interval::open(0.0, 3.5)));
}

#[test]
fn normalize_joins_what_can_be_joined() {
    let ints = Interval::normalize(
        vec![
            Interval::open(1.0, 2.0),
            Interval::open(2.0, 3.0),
            Interval::open(2.5, 3.5),
            Interval::closed(3.0, 3.0),
            Interval::open(0.0, 1.5),
            Interval::open(6.0, 6.0),
        ]
        .into_iter(),
    );
    assert_eq!(&ints[..], &[Interval::open(0.0, 2.0), Interval::open(2.0, 3.5)]);
}

#[test]
fn intersect_of_an_empty_interval_is_none() {
    let e = Interval::open(1, 1);
    let a = Interval::closed(0, 2);
    assert_eq!(e.intersect(&a), None);
    assert_eq!(a.intersect(&e), None);
    assert_eq!(e.intersect(&e), None);
}

#[test]
fn intersect_of_disjoint_intervals_is_none() {
    assert_eq!(Interval::closed(0, 1).intersect(&Interval::closed(2, 3)), None);
    assert_eq!(Interval::closed(2, 3).intersect(&Interval::closed(0, 1)), None);
}

#[test]
fn intersect_of_touching_intervals() {
    assert_eq!(
        Interval::closed(0, 2).intersect(&Interval::closed(2, 3)),
        Some(Interval::closed(2, 2))
    );
    assert_eq!(Interval::right_open(0, 2).intersect(&Interval::closed(2, 3)), None);
    assert_eq!(Interval::closed(0, 2).intersect(&Interval::left_open(2, 3)), None);
    assert_eq!(Interval::right_open(0, 2).intersect(&Interval::left_open(2, 3)), None);
}

#[test]
fn intersect_of_nested_intervals_is_the_inner_one() {
    assert_eq!(
        Interval::closed(0, 10).intersect(&Interval::open(2, 5)),
        Some(Interval::open(2, 5))
    );
    assert_eq!(
        Interval::open(2, 5).intersect(&Interval::closed(0, 10)),
        Some(Interval::open(2, 5))
    );
}

#[test]
fn intersect_with_equal_ends_is_closed_only_where_both_are() {
    assert_eq!(
        Interval::closed(0, 5).intersect(&Interval::open(0, 5)),
        Some(Interval::open(0, 5))
    );
    assert_eq!(
        Interval::left_open(0, 5).intersect(&Interval::right_open(0, 5)),
        Some(Interval::open(0, 5))
    );
    assert_eq!(
        Interval::closed(0, 5).intersect(&Interval::closed(0, 5)),
        Some(Interval::closed(0, 5))
    );
}

#[test]
fn intersect_is_commutative() {
    let all = samples();
    for a in all.iter() {
        for b in all.iter() {
            assert_eq!(a.intersect(b), b.intersect(a));
        }
    }
}

#[test]
fn intersect_of_a_point_and_an_open_start_is_none() {
    let point = Interval::closed(0, 0);
    assert_eq!(point.intersect(&Interval::left_open(0, 5)), None);
    assert_eq!(Interval::left_open(0, 5).intersect(&point), None);
    assert_eq!(point.intersect(&Interval::open(0, 1)), None);
    assert_eq!(Interval::open(0, 1).intersect(&point), None);
}

#[test]
fn intersect_of_a_point_and_a_closed_start_is_the_point() {
    let point = Interval::closed(0, 0);
    assert_eq!(point.intersect(&Interval::closed(0, 5)), Some(point));
    assert_eq!(Interval::closed(0, 5).intersect(&point), Some(point));
    assert_eq!(point.intersect(&point), Some(point));
}

#[test]
fn intersect_is_none_exactly_if_no_point_is_shared() {
    let all = samples();
    for a in all.iter() {
        for b in all.iter() {
            let mut shared = false;
            for twice in -2..10 {
                let p = f64::from(twice) / 2.0;
                let in_a = to_floats(a).contains(&p);
                let in_b = to_floats(b).contains(&p);
                shared = shared || (in_a && in_b);
                match a.intersect(b) {
                    Some(r) => assert_eq!(to_floats(&r).contains(&p), in_a && in_b),
                    None => assert!(!(in_a && in_b)),
                }
            }
            assert_eq!(a.intersect(b).is_some(), shared);
        }
    }
}

#[test]
fn intersect_holds_the_points_of_both() {
    let a = Interval::right_open(0, 4);
    let b = Interval::left_open(2, 6);
    let both = a.intersect(&b).unwrap();
    for p in -1..8 {
        assert_eq!(both.contains(&p), a.contains(&p) && b.contains(&p));
    }
}

#[test]
fn union_of_empty_intervals() {
    let e = Interval::open(1, 1);
    let f = Interval::open(7, 7);
    let a = Interval::closed(3, 4);
    assert_eq!(e.union(&f), None);
    assert_eq!(e.union(&a), Some(a));
    assert_eq!(a.union(&e), Some(a));
}

#[test]
fn union_of_disjoint_intervals_is_none() {
    assert_eq!(Interval::closed(0, 1).union(&Interval::closed(2, 3)), None);
    assert_eq!(Interval::closed(2, 3).union(&Interval::closed(0, 1)), None);
}

#[test]
fn union_of_touching_intervals_needs_one_closed_side() {
    assert_eq!(Interval::right_open(0, 2).union(&Interval::left_open(2, 3)), None);
    assert_eq!(
        Interval::closed(0, 2).union(&Interval::left_open(2, 3)),
        Some(Interval::closed(0, 3))
    );
    assert_eq!(
        Interval::right_open(0, 2).union(&Interval::closed(2, 3)),
        Some(Interval::closed(0, 3))
    );
    assert_eq!(
        Interval::open(0, 2).union(&Interval::right_open(2, 3)),
        Some(Interval::open(0, 3))
    );
}

#[test]
fn union_with_equal_ends_is_closed_where_either_is() {
    assert_eq!(
        Interval::closed(0, 5).union(&Interval::open(0, 5)),
        Some(Interval::closed(0, 5))
    );
    assert_eq!(
        Interval::left_open(0, 5).union(&Interval::right_open(0, 5)),
        Some(Interval::closed(0, 5))
    );
}

#[test]
fn union_is_commutative() {
    let all = samples();
    for a in all.iter() {
        for b in all.iter() {
            assert_eq!(a.union(b), b.union(a));
        }
    }
}

#[test]
fn union_holds_the_points_of_either() {
    let a = Interval::right_open(0, 4);
    let b = Interval::left_open(2, 6);
    let either = a.union(&b).unwrap();
    for p in -1..8 {
        assert_eq!(either.contains(&p), a.contains(&p) || b.contains(&p));
    }
}

#[test]
fn results_keep_their_bounds_in_order() {
    let all = samples();
    for a in all.iter() {
        for b in all.iter() {
            for r in [a.intersect(b), a.union(b)].iter().flatten() {
                assert!(
                    r.left_point() < r.right_point() || r.left_bound() == r.right_bound()
                );
            }
        }
    }
}

#[test]
fn enclose_of_nothing_or_of_empty_intervals_is_none() {
    let none: Vec<Interval<i32>> = Vec::new();
    assert_eq!(Interval::enclose(none.into_iter()), None);
    assert_eq!(
        Interval::enclose(vec![Interval::open(1, 1), Interval::open(2, 2)].into_iter()),
        None
    );
}

#[test]
fn enclose_spans_gaps() {
    assert_eq!(
        Interval::enclose(vec![Interval::closed(5, 6), Interval::open(0, 1)].into_iter()),
        Some(Interval::left_open(0, 6))
    );
}

#[test]
fn enclose_of_one_interval_is_that_interval() {
    assert_eq!(
        Interval::enclose(vec![Interval::open(9, 9), Interval::right_open(2, 3)].into_iter()),
        Some(Interval::right_open(2, 3))
    );
}

#[test]
fn enclose_holds_every_point_of_every_interval() {
    let all = vec![Interval::open(1, 3), Interval::closed(7, 8), Interval::left_open(-2, 0)];
    let hull = Interval::enclose(all.clone().into_iter()).unwrap();
    assert_eq!(hull, Interval::left_open(-2, 8));
    for p in -4..10 {
        if all.iter().any(|i| i.contains(&p)) {
            assert!(hull.contains(&p));
        }
    }
}

#[test]
fn normalize_of_nothing_is_nothing() {
    let none: Vec<Interval<i32>> = Vec::new();
    assert_eq!(Interval::normalize(none.into_iter()), vec![]);
    assert_eq!(Interval::normalize(vec![Interval::open(1, 1)].into_iter()), vec![]);
}

#[test]
fn normalize_keeps_disjoint_intervals_in_their_order() {
    let out = Interval::normalize(
        vec![Interval::closed(5, 6), Interval::open(3, 3), Interval::closed(0, 1)].into_iter(),
    );
    assert_eq!(out, vec![Interval::closed(5, 6), Interval::closed(0, 1)]);
}

#[test]
fn normalize_joins_with_the_first_entry_that_fits() {
    let out = Interval::normalize(
        vec![Interval::closed(0, 2), Interval::closed(4, 6), Interval::closed(1, 5)].into_iter(),
    );
    assert_eq!(out, vec![Interval::closed(0, 5), Interval::closed(4, 6)]);
}

#[test]
fn normalize_depends_on_the_order_of_its_input() {
    let out = Interval::normalize(
        vec![Interval::closed(1, 5), Interval::closed(0, 2), Interval::closed(4, 6)].into_iter(),
    );
    assert_eq!(out, vec![Interval::closed(0, 6)]);
}

#[test]
fn normalize_holds_the_points_of_its_input() {
    let input = vec![
        Interval::open(1, 3),
        Interval::closed(7, 8),
        Interval::open(4, 4),
        Interval::left_open(2, 5),
        Interval::right_open(8, 9),
        Interval::closed(-3, -2),
    ];
    let out = Interval::normalize(input.clone().into_iter());
    assert_eq!(
        out,
        vec![Interval::left_open(1, 5), Interval::right_open(7, 9), Interval::closed(-3, -2)]
    );
    for p in -5..12 {
        assert_eq!(out.iter().any(|i| i.contains(&p)), input.iter().any(|i| i.contains(&p)));
    }
    for i in out.iter() {
        assert!(!i.is_empty());
    }
}

#[test]
fn enclose_takes_its_bounds_from_the_outermost_intervals() {
    let input = vec![
        Interval::left_open(2, 5),
        Interval::open(0, 0),
        Interval::right_open(2, 4),
        Interval::open(3, 5),
    ];
    let hull = Interval::enclose(input.into_iter()).unwrap();
    assert_eq!(hull.left_bound(), Bound::Included(2));
    assert_eq!(hull.right_bound(), Bound::Included(5));
}

#[test]
fn intersect_and_union_are_commutative_after_an_end_was_moved_onto_the_other() {
    let mut all = samples();
    all.extend(moved_onto_an_end());
    for a in all.iter() {
        for b in all.iter() {
            assert_eq!(a.intersect(b), b.intersect(a));
            assert_eq!(a.union(b), b.union(a));
            for r in [a.intersect(b), a.union(b)].iter().flatten() {
                assert!(r.left_point() <= r.right_point());
                assert!(!r.is_empty());
            }
        }
    }
}

#[test]
fn union_of_an_end_moved_onto_the_other_and_an_open_start() {
    let mut point = Interval::right_open(0, 2);
    point.left_crop(2);
    let after = Interval::open(2, 3);
    assert_eq!(point.union(&after), None);
    assert_eq!(after.union(&point), None);
    let closed = Interval::closed(2, 3);
    assert_eq!(point.union(&closed), Some(Interval::closed(2, 3)));
    assert_eq!(closed.union(&point), Some(Interval::closed(2, 3)));
}
