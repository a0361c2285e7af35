use fixed::types::I40F24;
use satellite_planner::quantity::{Quantity, COUNT_LIMIT, UNITS_PER_ONE};

#[test]
fn it_works() {
    assert_eq!(2 + 2, 4);
}

#[test]
fn one_is_two_to_the_24_units() {
    assert_eq!(UNITS_PER_ONE, 1 << 24);
    assert_eq!(Quantity::one().to_bits(), 1 << 24);
    assert_eq!(Quantity::zero().to_bits(), 0);
    assert_eq!(Quantity::from_count(1), Some(Quantity::one()));
    assert_eq!(Quantity::from_count(0), Some(Quantity::zero()));
    assert_eq!(Quantity::one().to_bits(), I40F24::from_num(1).to_bits());
}

#[test]
fn from_count_agrees_with_the_fixed_point_format() {
    for n in [0u64, 1, 2, 7, 1000, 123_456_789, COUNT_LIMIT - 1] {
        let q = Quantity::from_count(n).unwrap();
        assert_eq!(q.to_bits(), (n as i64) << 24);
        assert_eq!(I40F24::from_bits(q.to_bits()), I40F24::from_num(n));
    }
}

#[test]
fn from_count_refuses_what_does_not_fit() {
    assert_eq!(COUNT_LIMIT, 1 << 39);
    assert_eq!(Quantity::from_count(COUNT_LIMIT), None);
    assert_eq!(Quantity::from_count(COUNT_LIMIT + 1), None);
    assert_eq!(Quantity::from_count(u64::MAX), None);
}

#[test]
fn checked_add_adds_the_raw_bits() {
    let a = Quantity::from_bits(5 << 23);
    let b = Quantity::from_bits(3 << 24);
    assert_eq!(a.checked_add(b), Some(Quantity::from_bits((5 << 23) + (3 << 24))));
    assert_eq!(
        I40F24::from_bits(a.checked_add(b).unwrap().to_bits()),
        I40F24::from_num(2.5) + I40F24::from_num(3)
    );
    assert_eq!(Quantity::from_bits(-7).checked_add(Quantity::from_bits(7)), Some(Quantity::zero()));
}

#[test]
fn checked_add_refuses_overflow() {
    let max = Quantity::from_bits(i64::MAX);
    let min = Quantity::from_bits(i64::MIN);
    assert_eq!(max.checked_add(Quantity::from_bits(1)), None);
    assert_eq!(min.checked_add(Quantity::from_bits(-1)), None);
    assert_eq!(max.checked_add(Quantity::zero()), Some(max));
    assert_eq!(max.checked_add(min), Some(Quantity::from_bits(-1)));
}

#[test]
fn checked_sub_subtracts_the_raw_bits() {
    let a = Quantity::from_count(10).unwrap();
    let b = Quantity::from_count(4).unwrap();
    assert_eq!(a.checked_sub(b), Quantity::from_count(6));
    assert_eq!(b.checked_sub(a), Some(Quantity::from_bits(-(6 << 24))));
    assert_eq!(a.checked_sub(a), Some(Quantity::zero()));
}

#[test]
fn checked_sub_refuses_overflow() {
    let max = Quantity::from_bits(i64::MAX);
    let min = Quantity::from_bits(i64::MIN);
    assert_eq!(min.checked_sub(Quantity::from_bits(1)), None);
    assert_eq!(max.checked_sub(Quantity::from_bits(-1)), None);
    assert_eq!(Quantity::zero().checked_sub(min), None);
    assert_eq!(Quantity::from_bits(-1).checked_sub(min), Some(max));
}

#[test]
fn at_least_compares_as_the_numbers_do() {
    let small = Quantity::from_bits(-3);
    let large = Quantity::from_bits(4);
    assert!(large.at_least(small));
    assert!(!small.at_least(large));
    assert!(small.at_least(small));
    assert!(Quantity::from_bits(i64::MAX).at_least(Quantity::from_bits(i64::MIN)));
    assert!(!Quantity::from_bits(i64::MIN).at_least(Quantity::from_bits(i64::MAX)));
}
