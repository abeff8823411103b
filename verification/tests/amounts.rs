use ledger_engine::amount::{Amount, MAX_MANTISSA, MAX_SCALE};

fn amount(mantissa: i128, scale: u32) -> Amount {
    Amount::new(mantissa, scale).unwrap()
}

#[test]
fn new_keeps_mantissa_and_scale() {
    let a = amount(-12345678, 7);
    assert_eq!(a.mantissa(), -12345678);
    assert_eq!(a.scale(), 7);
}

#[test]
fn new_takes_the_largest_mantissa_and_scale() {
    assert!(Amount::new(MAX_MANTISSA, MAX_SCALE).is_some());
    assert!(Amount::new(-MAX_MANTISSA, 0).is_some());
}

#[test]
fn new_refuses_a_mantissa_of_more_than_96_bits() {
    assert!(Amount::new(MAX_MANTISSA + 1, 0).is_none());
    assert!(Amount::new(-MAX_MANTISSA - 1, 0).is_none());
    assert!(Amount::new(i128::MAX, 0).is_none());
    assert!(Amount::new(i128::MIN, 0).is_none());
}

#[test]
fn new_refuses_a_scale_above_28() {
    assert!(Amount::new(1, 29).is_none());
    assert!(Amount::new(0, u32::MAX).is_none());
}

#[test]
fn zero_is_zero() {
    assert_eq!(Amount::zero().mantissa(), 0);
    assert_eq!(Amount::zero().scale(), 0);
    assert_eq!(Amount::default(), Amount::zero());
}

#[test]
fn equality_is_by_value() {
    assert_eq!(amount(15, 1), amount(150, 2));
    assert_eq!(amount(0, 0), amount(0, 28));
    assert_ne!(amount(15, 1), amount(15, 2));
    assert_ne!(amount(1, 0), amount(-1, 0));
}

#[test]
fn lt_orders_by_value() {
    assert!(amount(15, 1).lt(&amount(151, 2)));
    assert!(!amount(151, 2).lt(&amount(15, 1)));
    assert!(!amount(15, 1).lt(&amount(150, 2)));
    assert!(amount(-1, 28).lt(&Amount::zero()));
    assert!(!Amount::zero().lt(&amount(0, 5)));
    assert!(amount(-5, 0).lt(&amount(-49, 1)));
    assert!(amount(MAX_MANTISSA, 28).lt(&amount(8, 0)));
    assert!(amount(7, 0).lt(&amount(MAX_MANTISSA, 28)));
}

#[test]
fn checked_add_is_exact() {
    let sum = amount(50, 1).checked_add(amount(300, 2)).unwrap();
    assert_eq!(sum, amount(8, 0));
    assert_ne!(sum, amount(50, 1));
    let sum = amount(12345, 4).checked_add(amount(-2345, 4)).unwrap();
    assert_eq!(sum, amount(1, 0));
    let sum = amount(1, 28).checked_add(amount(1, 0)).unwrap();
    assert_eq!(sum, amount(10_000_000_000_000_000_000_000_000_001, 28));
}

#[test]
fn checked_add_with_zero_gives_the_other() {
    assert_eq!(Amount::zero().checked_add(amount(50, 1)).unwrap(), amount(5, 0));
    assert_eq!(amount(50, 1).checked_add(amount(0, 3)).unwrap(), amount(5, 0));
}

#[test]
fn checked_add_reaches_the_largest_mantissa() {
    let sum = amount(MAX_MANTISSA - 1, 0).checked_add(amount(1, 0)).unwrap();
    assert_eq!(sum.mantissa(), MAX_MANTISSA);
    assert_eq!(sum.scale(), 0);
}

#[test]
fn checked_add_refuses_a_sum_beyond_the_mantissa() {
    assert!(amount(MAX_MANTISSA, 0).checked_add(amount(1, 0)).is_none());
    assert!(amount(-MAX_MANTISSA, 3).checked_add(amount(-1, 3)).is_none());
}

#[test]
fn checked_add_refuses_a_sum_of_too_many_digits() {
    let large = amount(100_000_000_000_000_000_000, 0);
    assert!(large.checked_add(amount(1, 28)).is_none());
    assert!(amount(1, 28).checked_add(large).is_none());
    assert!(amount(MAX_MANTISSA, 0).checked_add(amount(1, 1)).is_none());
    assert!(amount(10, 0).checked_add(amount(1, 28)).is_none());
}

#[test]
fn checked_add_takes_zero_at_any_scale() {
    let ten = amount(100, 1);
    for scale in [0, 1, 4, 27, 28] {
        let zero = amount(0, scale);
        assert_eq!(zero.checked_add(ten).unwrap(), ten);
        assert_eq!(ten.checked_add(zero).unwrap(), ten);
        assert_eq!(zero.checked_add(zero).unwrap(), Amount::zero());
    }
    let largest = amount(MAX_MANTISSA, 0);
    assert_eq!(largest.checked_add(amount(0, 28)).unwrap(), largest);
    assert_eq!(amount(0, 1).checked_add(largest).unwrap(), largest);
    let smallest = amount(1, 28);
    assert_eq!(smallest.checked_add(amount(0, 0)).unwrap(), smallest);
}

#[test]
fn checked_add_looks_through_trailing_zeros() {
    let two = amount(20_000_000_000_000_000_000_000_000_000, 28);
    assert_eq!(amount(10, 0).checked_add(two).unwrap(), amount(12, 0));
    assert_eq!(two.checked_add(amount(10, 0)).unwrap(), amount(12, 0));
    let large = amount(10_000_000_000_000_000_000_000_000_000, 0);
    assert_eq!(
        large.checked_add(amount(10, 1)).unwrap(),
        amount(10_000_000_000_000_000_000_000_000_001, 0)
    );
    assert_eq!(
        amount(7_000_000_000_000_000_000_000_000_000, 0)
            .checked_add(amount(1_500, 3))
            .unwrap(),
        amount(70_000_000_000_000_000_000_000_000_015, 1)
    );
}

#[test]
fn checked_sub_takes_zero_at_any_scale() {
    let ten = amount(10, 0);
    for scale in [0, 1, 4, 27, 28] {
        let zero = amount(0, scale);
        assert_eq!(ten.checked_sub(zero).unwrap(), ten);
        assert_eq!(zero.checked_sub(ten).unwrap(), amount(-10, 0));
        assert_eq!(zero.checked_sub(zero).unwrap(), Amount::zero());
    }
    let largest = amount(MAX_MANTISSA, 0);
    assert_eq!(largest.checked_sub(amount(0, 28)).unwrap(), largest);
    assert_eq!(amount(0, 28).checked_sub(largest).unwrap(), amount(-MAX_MANTISSA, 0));
}

#[test]
fn checked_sub_looks_through_trailing_zeros() {
    let two = amount(20_000_000_000_000_000_000_000_000_000, 28);
    assert_eq!(amount(10, 0).checked_sub(two).unwrap(), amount(8, 0));
    assert_eq!(two.checked_sub(amount(10, 0)).unwrap(), amount(-8, 0));
    let ten = amount(10_000_000_000_000_000_000_000_000_000, 27);
    assert_eq!(ten.checked_sub(amount(100, 1)).unwrap(), Amount::zero());
}

#[test]
fn a_sum_can_be_taken_off_again() {
    let pairs = [
        (amount(0, 28), amount(100, 1)),
        (amount(1, 28), amount(1, 0)),
        (amount(12345, 4), amount(-2345, 2)),
        (amount(10, 0), amount(20_000_000_000_000_000_000_000_000_000, 28)),
        (amount(MAX_MANTISSA, 3), amount(0, 0)),
    ];
    for (a, b) in pairs {
        let sum = a.checked_add(b).unwrap();
        assert_eq!(sum.checked_sub(b).unwrap(), a);
        assert_eq!(sum.checked_sub(a).unwrap(), b);
    }
}

#[test]
fn checked_sub_is_exact() {
    let difference = amount(50, 1).checked_sub(amount(300, 2)).unwrap();
    assert_eq!(difference, amount(2, 0));
    let difference = amount(1, 0).checked_sub(amount(1, 4)).unwrap();
    assert_eq!(difference, amount(9999, 4));
    let difference = amount(1, 2).checked_sub(amount(1, 0)).unwrap();
    assert_eq!(difference, amount(-99, 2));
    let difference = Amount::zero().checked_sub(amount(25, 1)).unwrap();
    assert_eq!(difference, amount(-25, 1));
}

#[test]
fn checked_sub_refuses_a_difference_beyond_the_mantissa() {
    assert!(amount(MAX_MANTISSA, 0).checked_sub(amount(-1, 0)).is_none());
    assert!(amount(-MAX_MANTISSA, 0).checked_sub(amount(1, 0)).is_none());
    let large = amount(100_000_000_000_000_000_000, 0);
    assert!(large.checked_sub(amount(1, 28)).is_none());
}

#[test]
fn checked_sub_of_itself_is_zero() {
    let a = amount(MAX_MANTISSA, 11);
    assert_eq!(a.checked_sub(a).unwrap(), Amount::zero());
}

#[test]
fn round_to_leaves_fewer_digits_alone() {
    let a = amount(25, 1).round_to(4);
    assert_eq!(a.mantissa(), 25);
    assert_eq!(a.scale(), 1);
    let b = amount(12345, 4).round_to(4);
    assert_eq!(b.mantissa(), 12345);
    assert_eq!(b.scale(), 4);
}

#[test]
fn round_to_rounds_to_the_nearest() {
    let a = amount(123454, 5).round_to(4);
    assert_eq!((a.mantissa(), a.scale()), (12345, 4));
    let b = amount(123456, 5).round_to(4);
    assert_eq!((b.mantissa(), b.scale()), (12346, 4));
    let c = amount(1234549999, 9).round_to(4);
    assert_eq!((c.mantissa(), c.scale()), (12345, 4));
}

#[test]
fn round_to_rounds_a_tie_away_from_zero() {
    let a = amount(123455, 5).round_to(4);
    assert_eq!((a.mantissa(), a.scale()), (12346, 4));
    let b = amount(-123455, 5).round_to(4);
    assert_eq!((b.mantissa(), b.scale()), (-12346, 4));
    let c = amount(5, 1).round_to(0);
    assert_eq!((c.mantissa(), c.scale()), (1, 0));
    let d = amount(25, 1).round_to(0);
    assert_eq!((d.mantissa(), d.scale()), (3, 0));
}

#[test]
fn round_to_rounds_small_values_to_zero() {
    let a = amount(49999, 9).round_to(4);
    assert_eq!((a.mantissa(), a.scale()), (0, 4));
    let b = amount(-1, 28).round_to(4);
    assert_eq!((b.mantissa(), b.scale()), (0, 4));
    let c = amount(0, 20).round_to(4);
    assert_eq!((c.mantissa(), c.scale()), (0, 4));
}

#[test]
fn round_to_handles_the_largest_mantissa() {
    let a = amount(MAX_MANTISSA, 28).round_to(4);
    assert_eq!((a.mantissa(), a.scale()), (79228, 4));
    let b = amount(MAX_MANTISSA, 5).round_to(4);
    assert_eq!((b.mantissa(), b.scale()), (7_922_816_251_426_433_759_354_395_034, 4));
}
