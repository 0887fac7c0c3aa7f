use adtensor::adscalar::ADScalar;
use adtensor::scalar::Scalar;

#[test]
fn scalar_new_and_from() {
    assert_eq!(Scalar::new(3).v, 3);
    assert_eq!(Scalar::from(2.5).v(), 2.5);
    assert_eq!(Scalar::<i32>::default().v, 0);
}

#[test]
fn scalar_arithmetic() {
    let a = Scalar::new(6.0);
    let b = Scalar::new(3.0);
    assert_eq!(a + b, Scalar::new(9.0));
    assert_eq!(a - b, Scalar::new(3.0));
    assert_eq!(a * b, Scalar::new(18.0));
    assert_eq!(a / b, Scalar::new(2.0));
    assert_eq!(-a, Scalar::new(-6.0));
}

#[test]
fn adscalar_new_is_a_variable() {
    let x = ADScalar::new(3.0);
    assert_eq!(x.v(), 3.0);
    assert_eq!(x.d(), 1.0);
}

#[test]
fn adscalar_constant_has_no_derivative() {
    let c = ADScalar::constant(3.0);
    assert_eq!(c.v(), 3.0);
    assert_eq!(c.d(), 0.0);
    let w = ADScalar::with(2, 5);
    assert_eq!((w.v(), w.d()), (2, 5));
}

#[test]
fn adscalar_sum_and_difference() {
    let x = ADScalar::with(3.0, 1.0);
    let y = ADScalar::with(5.0, 2.0);
    assert_eq!(x + y, ADScalar::with(8.0, 3.0));
    assert_eq!(x - y, ADScalar::with(-2.0, -1.0));
    assert_eq!(x + Scalar::new(4.0), ADScalar::with(7.0, 1.0));
    assert_eq!(x - Scalar::new(4.0), ADScalar::with(-1.0, 1.0));
    assert_eq!(Scalar::new(4.0) + y, ADScalar::with(9.0, 2.0));
}

#[test]
fn adscalar_product_rule() {
    let x = ADScalar::with(3.0, 1.0);
    let y = ADScalar::with(5.0, 2.0);
    assert_eq!(x * y, ADScalar::with(15.0, 11.0));
    assert_eq!(x * Scalar::new(4.0), ADScalar::with(12.0, 4.0));
    assert_eq!(Scalar::new(4.0) * y, ADScalar::with(20.0, 8.0));
    let sq = ADScalar::new(7) * ADScalar::new(7);
    assert_eq!(sq, ADScalar::with(49, 14));
}

#[test]
fn adscalar_quotient_rule() {
    let x = ADScalar::with(6.0, 1.0);
    let y = ADScalar::with(2.0, 3.0);
    assert_eq!(x / y, ADScalar::with(3.0, -4.0));
    assert_eq!(x / Scalar::new(4.0), ADScalar::with(1.5, 0.25));
    assert_eq!(Scalar::new(8.0) / y, ADScalar::with(4.0, -6.0));
}

#[test]
fn adscalar_negative() {
    assert_eq!(-ADScalar::with(3.0, 1.0), ADScalar::with(-3.0, -1.0));
}
