use gfxcore::scalar::{lerp, Scalar};

#[test]
fn integer_arithmetic_is_exact() {
    assert_eq!(Scalar::add(3i64, 4), 7);
    assert_eq!(Scalar::sub(3i64, 4), -1);
    assert_eq!(Scalar::mul(-3i64, 4), -12);
    assert_eq!(Scalar::neg(5i64), -5);
    assert_eq!(<i64 as Scalar>::zero(), 0);
    assert_eq!(<i64 as Scalar>::one(), 1);
}

#[test]
fn integer_division_truncates_toward_zero() {
    assert_eq!(Scalar::div(7i64, 2), 3);
    assert_eq!(Scalar::div(-7i64, 2), -3);
    assert_eq!(Scalar::div(7i64, -2), -3);
    assert_eq!(Scalar::div(-7i64, -2), 3);
}

#[test]
fn integer_square_root_is_the_floor() {
    assert_eq!(Scalar::sqrt(0i64), 0);
    assert_eq!(Scalar::sqrt(1i64), 1);
    assert_eq!(Scalar::sqrt(15i64), 3);
    assert_eq!(Scalar::sqrt(16i64), 4);
    assert_eq!(Scalar::sqrt(17i64), 4);
    assert_eq!(Scalar::sqrt(1_000_000i64), 1000);
}

#[test]
fn integer_transcendentals_read_at_zero() {
    assert_eq!(Scalar::sin(123i64), 0);
    assert_eq!(Scalar::cos(123i64), 1);
    assert_eq!(Scalar::tan(123i64), 0);
    assert_eq!(Scalar::acos(123i64), 0);
    assert_eq!(Scalar::exp(123i64), 1);
}

#[test]
fn lerp_at_the_endpoints_and_between() {
    assert_eq!(lerp(2i64, 10, 0), 2);
    assert_eq!(lerp(2i64, 10, 1), 10);
    // lhs * (1 - t) + rhs * t, exactly.
    assert_eq!(lerp(2i64, 10, 3), 2 * (1 - 3) + 10 * 3);
}
