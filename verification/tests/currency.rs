//! Currency: the named amounts and the arithmetic.

use eco_chess::Currency;

#[test]
fn named_amounts() {
    assert_eq!(Currency::zero().get_amount(), 0);
    assert_eq!(Currency::penny().get_amount(), 1);
    assert_eq!(Currency::doubloon().get_amount(), 10);
    assert_eq!(Currency::default(), Currency::zero());
    assert_eq!(Currency::new(-7).get_amount(), -7);
}

#[test]
fn debt_and_surplus() {
    assert!(Currency::zero().is_zero());
    assert!(!Currency::zero().is_debt());
    assert!(!Currency::zero().is_surplus());
    assert!(Currency::penny().is_surplus());
    assert!(!Currency::penny().is_debt());
    assert!(!Currency::penny().is_zero());
    assert!(Currency::new(-1).is_debt());
    assert!(!Currency::new(-1).is_surplus());
}

#[test]
fn sums_differences_products_and_quotients() {
    let ten = Currency::doubloon();
    let one = Currency::penny();
    assert_eq!(ten + one, Currency::new(11));
    assert_eq!(one - ten, Currency::new(-9));
    assert_eq!(ten * 3i32, Currency::new(30));
    assert_eq!(ten * -3i32, Currency::new(-30));
    assert_eq!(ten * 4u32, Currency::new(40));
    assert_eq!(Currency::new(7) / 2i32, Currency::new(3));
    assert_eq!(Currency::new(-7) / 2i32, Currency::new(-3));
    assert_eq!(Currency::new(7) / -2i32, Currency::new(-3));
    assert_eq!(Currency::new(-7) / -2i32, Currency::new(3));
    assert_eq!(Currency::new(7) / 2u32, Currency::new(3));
    assert_eq!(Currency::new(i32::MAX) + Currency::new(0), Currency::new(i32::MAX));
    assert_eq!(Currency::new(i32::MIN) / 1i32, Currency::new(i32::MIN));
}

#[test]
fn amounts_are_ordered() {
    assert!(Currency::penny() < Currency::doubloon());
    assert!(Currency::new(-1) < Currency::zero());
    assert!(Currency::doubloon() >= Currency::new(10));
    assert_eq!(Currency::penny().max(Currency::doubloon()), Currency::doubloon());
}
