use treesize::stats::Stats;

#[test]
fn default_is_empty() {
    let s = Stats::default();
    assert_eq!(s.size, 0);
    assert_eq!(s.count, 0);
}

#[test]
fn from_file_counts_one_item() {
    assert_eq!(Stats::from_file(4096), Stats { size: 4096, count: 1 });
    assert_eq!(Stats::from_file(0), Stats { size: 0, count: 1 });
}

#[test]
fn add_file_adds_size_and_one_item() {
    let mut s = Stats { size: 10, count: 1 };
    assert!(s.can_add_file(20));
    s.add_file(20);
    assert_eq!(s, Stats { size: 30, count: 2 });
}

#[test]
fn can_add_file_refuses_at_the_limits() {
    assert!(!Stats { size: u64::MAX, count: 0 }.can_add_file(1));
    assert!(!Stats { size: 0, count: i32::MAX }.can_add_file(0));
    assert!(Stats { size: u64::MAX - 1, count: i32::MAX - 1 }.can_add_file(1));
}

#[test]
fn add_assign_adds_both_fields() {
    let mut s = Stats { size: 5, count: 2 };
    s.add_assign(Stats { size: 7, count: 1 });
    assert_eq!(s, Stats { size: 12, count: 3 });
}

#[test]
fn merging_with_the_empty_total_changes_nothing() {
    let a = Stats { size: 123, count: 4 };
    let mut left = a;
    assert!(left.can_merge(&Stats::default()));
    left.add_assign(Stats::default());
    assert_eq!(left, a);
    let mut right = Stats::default();
    right.add_assign(a);
    assert_eq!(right, a);
}

#[test]
fn merging_is_associative_and_commutative() {
    let a = Stats { size: 10, count: 1 };
    let b = Stats { size: 200, count: 20 };
    let c = Stats { size: 3000, count: 300 };

    let mut ab_c = a;
    ab_c.add_assign(b);
    ab_c.add_assign(c);

    let mut bc = b;
    bc.add_assign(c);
    let mut a_bc = a;
    a_bc.add_assign(bc);

    let mut ba_c = b;
    ba_c.add_assign(a);
    ba_c.add_assign(c);

    assert_eq!(ab_c, Stats { size: 3210, count: 321 });
    assert_eq!(a_bc, ab_c);
    assert_eq!(ba_c, ab_c);
}

#[test]
fn can_merge_tells_overflow_of_either_field() {
    let big = Stats { size: u64::MAX, count: 0 };
    assert!(!big.can_merge(&Stats { size: 1, count: 0 }));
    assert!(big.can_merge(&Stats { size: 0, count: 5 }));
    let many = Stats { size: 0, count: i32::MAX };
    assert!(!many.can_merge(&Stats { size: 0, count: 1 }));
    assert!(many.can_merge(&Stats { size: 0, count: -1 }));
    let few = Stats { size: 0, count: i32::MIN };
    assert!(!few.can_merge(&Stats { size: 0, count: -1 }));
}

#[test]
fn sum_of_nothing_is_empty() {
    assert_eq!(Stats::sum(&Vec::new()), Some(Stats { size: 0, count: 0 }));
}

#[test]
fn sum_adds_every_part() {
    let parts = vec![
        Stats { size: 10, count: 1 },
        Stats { size: 50, count: 2 },
        Stats { size: 90, count: 2 },
    ];
    assert_eq!(Stats::sum(&parts), Some(Stats { size: 150, count: 5 }));
}

#[test]
fn sum_out_of_range_is_none() {
    let bytes = vec![Stats { size: u64::MAX, count: 1 }, Stats { size: 1, count: 1 }];
    assert_eq!(Stats::sum(&bytes), None);
    let items = vec![Stats { size: 1, count: i32::MAX }, Stats { size: 1, count: 1 }];
    assert_eq!(Stats::sum(&items), None);
}

#[test]
fn sum_goes_by_the_grand_total_alone() {
    let parts = vec![
        Stats { size: 0, count: i32::MAX },
        Stats { size: 0, count: 1 },
        Stats { size: 0, count: -1 },
    ];
    assert_eq!(Stats::sum(&parts), Some(Stats { size: 0, count: i32::MAX }));
}

#[test]
fn sum_does_not_depend_on_the_order() {
    let a = Stats { size: 10, count: 1 };
    let b = Stats { size: 200, count: 20 };
    let c = Stats { size: 3000, count: 300 };
    let expected = Some(Stats { size: 3210, count: 321 });
    assert_eq!(Stats::sum(&vec![a, b, c]), expected);
    assert_eq!(Stats::sum(&vec![c, a, b]), expected);
    assert_eq!(Stats::sum(&vec![b, c, a]), expected);
}

#[test]
fn sum_of_two_pieces_is_the_sum_of_their_sums() {
    let front = vec![Stats { size: 1, count: 1 }, Stats { size: 2, count: 1 }];
    let back = vec![Stats { size: 4, count: 2 }];
    let mut all = front.clone();
    all.extend(back.iter().copied());
    let pieces = vec![Stats::sum(&front).unwrap(), Stats::sum(&back).unwrap()];
    assert_eq!(Stats::sum(&pieces), Stats::sum(&all));
    assert_eq!(Stats::sum(&all), Some(Stats { size: 7, count: 4 }));
}
