use idle_fighter::bignat::BigNat;
use idle_fighter::transfer::{shift_biguint_to_u32, shift_u32_to_biguint};

#[test]
fn shift_to_u32_moves_at_most_what_is_there() {
    let mut from = BigNat::from_u32(10);
    let mut to: u32 = 5;
    shift_biguint_to_u32(&mut from, &mut to, &BigNat::from_u32(3));
    assert_eq!(from.to_u32(), Some(7));
    assert_eq!(to, 8);
    shift_biguint_to_u32(&mut from, &mut to, &BigNat::from_u32(100));
    assert_eq!(from.to_u32(), Some(0));
    assert_eq!(to, 15);
}

#[test]
fn shift_to_biguint_moves_at_most_what_is_there() {
    let mut from: u32 = 4;
    let mut to = BigNat::from_u32(1);
    shift_u32_to_biguint(&mut from, &mut to, 3);
    assert_eq!((from, to.to_u32()), (1, Some(4)));
    shift_u32_to_biguint(&mut from, &mut to, u32::MAX);
    assert_eq!((from, to.to_u32()), (0, Some(5)));
}

#[test]
fn shift_there_and_back_restores_both_sides() {
    let mut pool = BigNat::from_u32(50);
    let mut skill: u32 = 20;
    shift_biguint_to_u32(&mut pool, &mut skill, &BigNat::from_u32(30));
    shift_u32_to_biguint(&mut skill, &mut pool, 30);
    assert_eq!(pool.to_u32(), Some(50));
    assert_eq!(skill, 20);
}
