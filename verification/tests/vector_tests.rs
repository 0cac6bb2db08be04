use gfxcore::matrix::TMat;
use gfxcore::vector::{Vec2, Vec3, Vec3i, Vec3u, Vec4};

fn v3(x: i64, y: i64, z: i64) -> Vec3<i64> {
    TMat::try_from(vec![x, y, z]).unwrap()
}

#[test]
fn dot_product() {
    let a = v3(1, 2, 3);
    let b = v3(4, 5, 6);
    assert_eq!(a.dot(&b), 4 + 10 + 18);
}

#[test]
fn sum_of_entries() {
    let a = v3(1, -2, 7);
    assert_eq!(a.sum(), 6);
}

#[test]
fn length_of_integer_vector() {
    let a = v3(3, 4, 0);
    assert_eq!(a.length_squared(), 25);
    assert_eq!(a.length(), 5);
    // The floor square root of a non-square.
    let b = v3(1, 1, 1);
    assert_eq!(b.length(), 1);
}

#[test]
fn normalize_divides_by_length() {
    let a = v3(0, 5, 0);
    assert_eq!(a.normalize().flatten(), vec![0, 1, 0]);
    // Integer division truncates component-wise.
    let b = v3(3, 4, 0);
    assert_eq!(b.normalize().flatten(), vec![0, 0, 0]);
}

#[test]
fn normalized_exact_vector_has_unit_length() {
    // When the length is exact — it divides every entry — normalizing
    // gives a vector of length exactly one.
    let v = v3(0, -7, 0);
    assert_eq!(v.length(), 7);
    let w = v.normalize();
    assert_eq!(w.flatten(), vec![0, -1, 0]);
    assert_eq!(w.length(), 1);
}

#[test]
fn lerp_at_the_endpoints() {
    let a = v3(1, 2, 3);
    let b = v3(10, 20, 30);
    assert_eq!(a.lerp(&b, 0).flatten(), vec![1, 2, 3]);
    assert_eq!(a.lerp(&b, 1).flatten(), vec![10, 20, 30]);
}

#[test]
fn nlerp_normalizes_the_interpolation() {
    let a = v3(2, 0, 0);
    let b = v3(0, 7, 0);
    assert_eq!(a.nlerp(&b, 1).flatten(), vec![0, 1, 0]);
}

#[test]
fn cross_product() {
    let x = v3(1, 0, 0);
    let y = v3(0, 1, 0);
    assert_eq!(x.cross(&y).flatten(), vec![0, 0, 1]);
    assert_eq!(y.cross(&x).flatten(), vec![0, 0, -1]);
    let a = v3(1, 2, 3);
    let b = v3(4, 5, 6);
    // (2*6-3*5, 3*4-1*6, 1*5-2*4) = (-3, 6, -3).
    assert_eq!(a.cross(&b).flatten(), vec![-3, 6, -3]);
}

#[test]
fn thirty_two_bit_vectors() {
    let a: Vec3i = TMat::try_from(vec![3i32, 4, 0]).unwrap();
    assert_eq!(a.length(), 5);
    let b: Vec3i = TMat::try_from(vec![0i32, 1, 0]).unwrap();
    assert_eq!(a.cross(&b).flatten(), vec![0, 0, 3]);
}

#[test]
fn thirty_two_bit_unsigned_vectors() {
    let a: Vec3u = TMat::try_from(vec![3u32, 4, 0]).unwrap();
    assert_eq!(a.length(), 5);
    assert_eq!(a.sum(), 7);
    let b: Vec3u = TMat::try_from(vec![0u32, 5, 0]).unwrap();
    assert_eq!(b.normalize().flatten(), vec![0, 1, 0]);
}

#[test]
fn component_accessors() {
    let v2: Vec2<i64> = TMat::try_from(vec![10, 20]).unwrap();
    assert_eq!(v2.x(), 10);
    assert_eq!(v2.y(), 20);
    let v = v3(1, 2, 3);
    assert_eq!((v.x(), v.y(), v.z()), (1, 2, 3));
    let v4: Vec4<i64> = TMat::try_from(vec![1, 2, 3, 4]).unwrap();
    assert_eq!((v4.x(), v4.y(), v4.z(), v4.w()), (1, 2, 3, 4));
}

#[test]
fn mutable_component_accessors() {
    let mut v2: Vec2<i64> = TMat::try_from(vec![10, 20]).unwrap();
    *v2.x_mut() = 11;
    *v2.y_mut() = 21;
    assert_eq!(v2.flatten(), vec![11, 21]);
    let mut v = v3(1, 2, 3);
    *v.x_mut() = -1;
    *v.y_mut() = -2;
    *v.z_mut() = -3;
    assert_eq!(v.flatten(), vec![-1, -2, -3]);
    let mut v4: Vec4<i64> = TMat::try_from(vec![1, 2, 3, 4]).unwrap();
    *v4.x_mut() = 5;
    *v4.y_mut() = 6;
    *v4.z_mut() = 7;
    *v4.w_mut() = 8;
    assert_eq!(v4.flatten(), vec![5, 6, 7, 8]);
}
