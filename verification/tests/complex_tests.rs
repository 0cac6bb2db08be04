use gfxcore::complex::Complex;

fn c(x: i64, y: i64) -> Complex<i64> {
    Complex::new_from(x, y)
}

fn parts(z: Complex<i64>) -> (i64, i64) {
    (z.x, z.y)
}

#[test]
fn complex_new_is_zero() {
    assert_eq!(parts(Complex::<i64>::new()), (0, 0));
}

#[test]
fn conjugate_negates_the_imaginary_part() {
    assert_eq!(parts(c(3, 4).conjugate()), (3, -4));
}

#[test]
fn multiplication_squares_the_imaginary_unit_to_minus_one() {
    let i = c(0, 1);
    assert_eq!(parts(i.mul_c(&i)), (-1, 0));
    // (1 + 2i)(3 + 4i) = 3 - 8 + (4 + 6)i = -5 + 10i.
    assert_eq!(parts(c(1, 2).mul_c(&c(3, 4))), (-5, 10));
}

#[test]
fn dot_and_abs() {
    assert_eq!(c(3, 4).dot(&c(3, 4)), 25);
    assert_eq!(c(3, 4).abs(), 5);
}

#[test]
fn complex_inverse_of_a_unit() {
    assert_eq!(parts(c(0, 1).inverse()), (0, -1));
    // A unit times its inverse is one.
    let i = c(0, 1);
    assert_eq!(parts(i.mul_c(&i.inverse())), (1, 0));
}

#[test]
fn complex_normalize_scales_to_unit_norm() {
    assert_eq!(parts(c(0, 5).normalize()), (0, 1));
    assert_eq!(parts(c(-3, 0).normalize()), (-1, 0));
}

#[test]
fn exp_follows_the_euler_formula() {
    // Over the exact integer scalar, cos is one, sin is zero and exp is
    // one, so exp(x + yi) = (cos y + sin y i) * exp(x) = 1.
    assert_eq!(parts(c(2, 3).exp()), (1, 0));
}

#[test]
fn complex_lerp_at_the_endpoints() {
    let a = c(1, 2);
    let b = c(30, 40);
    assert_eq!(parts(a.lerp(&b, 0)), (1, 2));
    assert_eq!(parts(a.lerp(&b, 1)), (30, 40));
}

#[test]
fn complex_nlerp_normalizes() {
    assert_eq!(parts(c(2, 0).nlerp(&c(8, 0), 1)), (1, 0));
}

#[test]
fn partwise_and_scalar_arithmetic() {
    let a = c(1, 2);
    let b = c(10, 20);
    assert_eq!(parts(a.add_c(&b)), (11, 22));
    assert_eq!(parts(b.sub_c(&a)), (9, 18));
    assert_eq!(parts(a.mul_scalar(3)), (3, 6));
    assert_eq!(parts(b.div_scalar(10)), (1, 2));
    assert_eq!(parts(a.add_scalar(5)), (6, 2));
    assert_eq!(parts(a.sub_scalar(1)), (0, 2));
    assert_eq!(parts(a.neg()), (-1, -2));
}

#[test]
fn complex_division_multiplies_by_the_inverse() {
    let a = c(3, 4);
    let i = c(0, 1);
    assert_eq!(parts(a.div_c(&i)), parts(a.mul_c(&c(0, -1))));
}
