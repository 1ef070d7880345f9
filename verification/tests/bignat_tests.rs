use idle_fighter::bignat::BigNat;

fn value(n: &BigNat) -> u128 {
    let digits = n.to_digits();
    let mut v: u128 = 0;
    for d in digits.iter().rev() {
        v = (v << 32) + (*d as u128);
    }
    v
}

#[test]
fn bignat_from_u32_and_zero() {
    assert_eq!(value(&BigNat::zero()), 0);
    assert_eq!(value(&BigNat::from_u32(100)), 100);
    assert_eq!(BigNat::zero().to_digits(), Vec::<u32>::new());
}

#[test]
fn bignat_add_carries_into_a_new_digit() {
    let n = BigNat::from_u32(u32::MAX).add_u32(1);
    assert_eq!(n.to_digits(), vec![0, 1]);
    assert_eq!(value(&n), 1u128 << 32);
}

#[test]
fn bignat_sub_min_lt() {
    let a = BigNat::from_digits(vec![5, 1]);
    let b = BigNat::from_u32(7);
    assert_eq!(value(&a.sub(&b)), (1u128 << 32) + 5 - 7);
    assert!(b.lt(&a));
    assert!(!a.lt(&b));
    assert!(!a.lt(&a));
    assert_eq!(value(&a.min(&b)), 7);
    assert_eq!(value(&b.min(&a)), 7);
}

#[test]
fn bignat_div_by_three() {
    assert_eq!(value(&BigNat::from_u32(100).div_u32(3)), 33);
    assert_eq!(value(&BigNat::from_u32(2).div_u32(3)), 0);
}

#[test]
fn bignat_to_u32_fits_or_not() {
    assert_eq!(BigNat::from_u32(42).to_u32(), Some(42));
    assert_eq!(BigNat::from_digits(vec![0, 1]).to_u32(), None);
    assert_eq!(BigNat::from_digits(vec![0, 1]).to_u32_saturating(), u32::MAX);
    assert_eq!(BigNat::from_u32(7).to_u32_saturating(), 7);
}

#[test]
fn bignat_parse_decimal() {
    assert_eq!(BigNat::parse_decimal("123").map(|n| value(&n)), Some(123));
    assert_eq!(BigNat::parse_decimal("+1_000").map(|n| value(&n)), Some(1000));
    assert_eq!(BigNat::parse_decimal("4294967296").map(|n| n.to_digits()), Some(vec![0, 1]));
    assert!(BigNat::parse_decimal("").is_none());
    assert!(BigNat::parse_decimal("+").is_none());
    assert!(BigNat::parse_decimal("++1").is_none());
    assert!(BigNat::parse_decimal("_1").is_none());
    assert!(BigNat::parse_decimal("12a").is_none());
    assert!(BigNat::parse_decimal("-3").is_none());
}

#[test]
fn bignat_equality_is_value_equality() {
    let a = BigNat::from_digits(vec![5, 0, 0]);
    assert_eq!(a.to_digits(), vec![5]);
    assert_eq!(a, BigNat::from_u32(5));
    assert_eq!(BigNat::from_digits(vec![0, 0]), BigNat::zero());
    assert_eq!(BigNat::from_u32(u32::MAX).add_u32(1).sub(&BigNat::from_u32(1)), BigNat::from_u32(u32::MAX));
    assert_ne!(BigNat::from_u32(4), BigNat::from_u32(5));
}
