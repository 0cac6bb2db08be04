use gfxcore::complex::Complex;
use gfxcore::quaternion::Quaternion;

fn q(a: i64, b: i64, c: i64, d: i64) -> Quaternion<i64> {
    Quaternion::new_from(a, b, c, d)
}

fn parts(x: Quaternion<i64>) -> (i64, i64, i64, i64) {
    (x.a, x.b, x.c, x.d)
}

#[test]
fn quaternion_new_is_zero() {
    assert_eq!(parts(Quaternion::<i64>::new()), (0, 0, 0, 0));
}

#[test]
fn conjugate_negates_the_vector_part() {
    assert_eq!(parts(q(1, 2, 3, 4).conjugate()), (1, -2, -3, -4));
}

#[test]
fn quaternion_dot_product() {
    assert_eq!(q(1, 2, 3, 4).dot(&q(5, 6, 7, 8)), 5 + 12 + 21 + 32);
}

#[test]
fn hamilton_product_of_the_units() {
    let i = q(0, 1, 0, 0);
    let j = q(0, 0, 1, 0);
    let k = q(0, 0, 0, 1);
    assert_eq!(parts(i.mul_q(&j)), parts(k));
    // The product is not commutative: j * i is minus k.
    assert_eq!(parts(j.mul_q(&i)), (0, 0, 0, -1));
    assert_eq!(parts(i.mul_q(&i)), (-1, 0, 0, 0));
}

#[test]
fn abs_is_the_norm() {
    assert_eq!(q(2, 0, 0, 0).abs(), 2);
    assert_eq!(q(1, 1, 1, 1).abs(), 2);
}

#[test]
fn quaternion_times_inverse_is_the_identity() {
    // For unit quaternions the inverse is exact over the integers.
    for unit in [q(1, 0, 0, 0), q(0, 1, 0, 0), q(0, 0, 1, 0), q(0, 0, 0, 1), q(0, -1, 0, 0)] {
        let product = unit.mul_q(&unit.inverse());
        assert_eq!(parts(product), (1, 0, 0, 0));
    }
}

#[test]
fn quaternion_inverse_of_a_unit() {
    assert_eq!(parts(q(0, 1, 0, 0).inverse()), (0, -1, 0, 0));
}

#[test]
fn rotate_conjugates_by_the_rotor() {
    // Conjugating by the identity rotor leaves the quaternion as it is.
    let v = q(0, 3, 4, 5);
    assert_eq!(parts(v.rotate(&q(1, 0, 0, 0))), (0, 3, 4, 5));
    // Conjugating i by the rotor k flips its sign: k^-1 * i * k = -i.
    let i = q(0, 1, 0, 0);
    assert_eq!(parts(i.rotate(&q(0, 0, 0, 1))), (0, -1, 0, 0));
}

#[test]
fn decompose_splits_scalar_and_vector() {
    let (s, v) = q(7, 1, 2, 3).decompose();
    assert_eq!(s, 7);
    assert_eq!(v.flatten(), vec![1, 2, 3]);
}

#[test]
fn quaternion_normalize_scales_to_unit_norm() {
    assert_eq!(parts(q(3, 0, 0, 0).normalize()), (1, 0, 0, 0));
}

#[test]
fn quaternion_lerp_at_the_endpoints() {
    let a = q(1, 2, 3, 4);
    let b = q(5, 6, 7, 8);
    assert_eq!(parts(a.lerp(&b, 0)), (1, 2, 3, 4));
    assert_eq!(parts(a.lerp(&b, 1)), (5, 6, 7, 8));
}

#[test]
fn quaternion_nlerp_normalizes() {
    let a = q(2, 0, 0, 0);
    let b = q(6, 0, 0, 0);
    assert_eq!(parts(a.nlerp(&b, 1)), (1, 0, 0, 0));
}

#[test]
fn componentwise_and_scalar_arithmetic() {
    let a = q(1, 2, 3, 4);
    let b = q(10, 20, 30, 40);
    assert_eq!(parts(a.add_q(&b)), (11, 22, 33, 44));
    assert_eq!(parts(b.sub_q(&a)), (9, 18, 27, 36));
    assert_eq!(parts(a.mul_scalar(2)), (2, 4, 6, 8));
    assert_eq!(parts(b.div_scalar(10)), (1, 2, 3, 4));
    // Adding or subtracting a scalar touches the scalar part only.
    assert_eq!(parts(a.add_scalar(5)), (6, 2, 3, 4));
    assert_eq!(parts(a.sub_scalar(1)), (0, 2, 3, 4));
}

#[test]
fn quaternion_division_multiplies_by_the_inverse() {
    let a = q(0, 3, 4, 5);
    let i = q(0, 1, 0, 0);
    // a / i = a * inverse(i) = a * (0, -1, 0, 0).
    assert_eq!(parts(a.div_q(&i)), parts(a.mul_q(&q(0, -1, 0, 0))));
}

#[test]
fn from_complex_embeds_the_plane() {
    let z = Complex::new_from(3, 4);
    assert_eq!(parts(Quaternion::from_complex(&z)), (3, 4, 0, 0));
}
