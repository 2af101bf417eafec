use token_vesting::fraction::{Fraction, BASIS_POINTS};

fn bps(value: u16) -> Fraction {
    Fraction::new(value).unwrap()
}

#[test]
fn one_whole_is_ten_thousand_basis_points() {
    assert_eq!(BASIS_POINTS, 10_000);
    assert_eq!(Fraction::one().bps(), 10_000);
    assert_eq!(Fraction::zero().bps(), 0);
}

#[test]
fn new_accepts_up_to_one_whole() {
    assert_eq!(Fraction::new(0).map(|f| f.bps()), Some(0));
    assert_eq!(Fraction::new(1).map(|f| f.bps()), Some(1));
    assert_eq!(Fraction::new(10_000).map(|f| f.bps()), Some(10_000));
    assert_eq!(Fraction::new(10_001), None);
    assert_eq!(Fraction::new(u16::MAX), None);
}

#[test]
fn new_keeps_the_value() {
    assert_eq!(bps(2_500).bps(), 2_500);
    assert_eq!(bps(10_000), Fraction::one());
    assert_eq!(bps(0), Fraction::zero());
}

#[test]
fn from_ratio_rounds_down() {
    assert_eq!(Fraction::from_ratio(1, 3).map(|f| f.bps()), Some(3_333));
    assert_eq!(Fraction::from_ratio(2, 3).map(|f| f.bps()), Some(6_666));
    assert_eq!(Fraction::from_ratio(1, 2).map(|f| f.bps()), Some(5_000));
    assert_eq!(Fraction::from_ratio(1, 10_001).map(|f| f.bps()), Some(0));
    assert_eq!(Fraction::from_ratio(0, 7).map(|f| f.bps()), Some(0));
    assert_eq!(Fraction::from_ratio(7, 7).map(|f| f.bps()), Some(10_000));
}

#[test]
fn from_ratio_refuses_what_is_no_fraction() {
    assert_eq!(Fraction::from_ratio(1, 0), None);
    assert_eq!(Fraction::from_ratio(0, 0), None);
    assert_eq!(Fraction::from_ratio(6, 5), None);
}

#[test]
fn from_ratio_at_the_edge_of_u64() {
    assert_eq!(Fraction::from_ratio(u64::MAX, u64::MAX).map(|f| f.bps()), Some(10_000));
    assert_eq!(Fraction::from_ratio(u64::MAX - 1, u64::MAX).map(|f| f.bps()), Some(9_999));
    assert_eq!(Fraction::from_ratio(1, u64::MAX).map(|f| f.bps()), Some(0));
}

#[test]
fn of_rounds_down() {
    assert_eq!(bps(5_000).of(8_000_000), 4_000_000);
    assert_eq!(bps(3_333).of(10), 3);
    assert_eq!(bps(1).of(9_999), 0);
    assert_eq!(bps(1).of(10_000), 1);
    assert_eq!(bps(9_999).of(1), 0);
}

#[test]
fn of_zero_and_one() {
    assert_eq!(Fraction::zero().of(u64::MAX), 0);
    assert_eq!(Fraction::one().of(u64::MAX), u64::MAX);
    assert_eq!(Fraction::one().of(0), 0);
    assert_eq!(bps(5_000).of(u64::MAX), u64::MAX / 2);
}

#[test]
fn of_never_exceeds_the_amount() {
    let amounts: [u64; 5] = [0, 1, 9_999, 123_456_789, u64::MAX];
    let fractions: [u16; 5] = [0, 1, 3_333, 9_999, 10_000];
    for amount in amounts {
        let mut last: u64 = 0;
        for fraction in fractions {
            let part = bps(fraction).of(amount);
            assert!(part <= amount);
            assert!(part >= last);
            last = part;
        }
    }
}
