use play_nice::Depth;

#[test]
fn whole_depth_has_no_fraction() {
    let d = Depth::whole(7);
    assert_eq!(d, Depth { base: 7, num: 0, den: 1 });
}

#[test]
fn zero_depth_is_recognised() {
    assert!(Depth::whole(0).is_zero());
    assert!(!Depth::whole(5).is_zero());
    assert!(!Depth { base: 0, num: 1, den: 2 }.is_zero());
}

#[test]
fn fractions_with_one_denominator_order_by_numerator() {
    let a = Depth { base: 20, num: 1, den: 3 };
    let b = Depth { base: 20, num: 2, den: 3 };
    assert!(a.is_lt(&b));
    assert!(!b.is_lt(&a));
}

#[test]
fn bases_decide_across_layers() {
    // The largest possible offset never reaches the next integer base.
    let a = Depth { base: 1, num: 9999, den: 10000 };
    let b = Depth { base: 2, num: 0, den: 10000 };
    assert!(a.is_lt(&b));
    assert!(!b.is_lt(&a));
}

#[test]
fn equal_rationals_compare_equal_under_lt() {
    // 1/2 and 2/4 denote the same offset: neither is below the other.
    let a = Depth { base: 3, num: 1, den: 2 };
    let b = Depth { base: 3, num: 2, den: 4 };
    assert!(!a.is_lt(&b));
    assert!(!b.is_lt(&a));
}

#[test]
fn cross_multiplied_fractions_order_exactly() {
    // 2/5 < 1/2.
    let a = Depth { base: 0, num: 2, den: 5 };
    let b = Depth { base: 0, num: 1, den: 2 };
    assert!(a.is_lt(&b));
    assert!(!b.is_lt(&a));
}
