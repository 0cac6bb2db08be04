use gfxcore::gfx::Transform;
use gfxcore::matrix::TMat;
use gfxcore::quaternion::Quaternion;
use gfxcore::vector::{Mat4, Vec3, Vec4};

fn v3(x: i64, y: i64, z: i64) -> Vec3<i64> {
    TMat::try_from(vec![x, y, z]).unwrap()
}

fn identity_flat() -> Vec<i64> {
    vec![1, 0, 0, 0, 0, 1, 0, 0, 0, 0, 1, 0, 0, 0, 0, 1]
}

#[test]
fn identity_matrix() {
    assert_eq!(Mat4::<i64>::identity().flatten(), identity_flat());
}

#[test]
fn elementary_rotations_at_the_integer_angle() {
    // Over the exact integer scalar every angle has cosine one and sine
    // zero, so each elementary rotation is the identity.
    assert_eq!(Mat4::<i64>::rotation_x(5).flatten(), identity_flat());
    assert_eq!(Mat4::<i64>::rotation_y(-3).flatten(), identity_flat());
    assert_eq!(Mat4::<i64>::rotation_z(0).flatten(), identity_flat());
}

#[test]
fn composed_rotations() {
    let angles = v3(1, 2, 3);
    assert_eq!(Mat4::<i64>::rotation_xyz(angles.clone()).flatten(), identity_flat());
    assert_eq!(Mat4::<i64>::rotation_xzy(angles.clone()).flatten(), identity_flat());
    assert_eq!(Mat4::<i64>::rotation_yxz(angles.clone()).flatten(), identity_flat());
    assert_eq!(Mat4::<i64>::rotation_yzx(angles.clone()).flatten(), identity_flat());
    assert_eq!(Mat4::<i64>::rotation_zyx(angles.clone()).flatten(), identity_flat());
    assert_eq!(Mat4::<i64>::rotation_zxy(angles).flatten(), identity_flat());
}

#[test]
fn rotation_about_an_axis_fixes_the_axis() {
    // cos 1, sin 0: the Rodrigues matrix collapses to the identity, and
    // the axis is carried to itself exactly.
    let axis = v3(1, 0, 0);
    let m = Mat4::<i64>::rotation_axis(axis, 7);
    assert_eq!(m.flatten(), identity_flat());
    let p: Vec4<i64> = TMat::try_from(vec![5, 0, 0, 1]).unwrap();
    let image: Vec4<i64> = m.mm(&p);
    assert_eq!(image.flatten(), vec![5, 0, 0, 1]);
}

#[test]
fn rotation_of_the_identity_quaternion() {
    let m = Mat4::<i64>::rotation_qua(Quaternion::new_from(1, 0, 0, 0));
    assert_eq!(m.flatten(), identity_flat());
    // The quaternion i gives a half turn about the first axis.
    let m = Mat4::<i64>::rotation_qua(Quaternion::new_from(0, 1, 0, 0));
    assert_eq!(m.flatten(), vec![1, 0, 0, 0, 0, -1, 0, 0, 0, 0, -1, 0, 0, 0, 0, 1]);
}

#[test]
fn translation_fills_the_fourth_column() {
    let expected = vec![1, 0, 0, 0, 0, 1, 0, 0, 0, 0, 1, 0, 7, -8, 9, 1];
    assert_eq!(Mat4::<i64>::translation(v3(7, -8, 9)).flatten(), expected);
    assert_eq!(Mat4::<i64>::translation_xyz(7, -8, 9).flatten(), expected);
    // Translating a point adds the offset.
    let p: Vec4<i64> = TMat::try_from(vec![1, 2, 3, 1]).unwrap();
    let moved: Vec4<i64> = Mat4::<i64>::translation_xyz(7, -8, 9).mm(&p);
    assert_eq!(moved.flatten(), vec![8, -6, 12, 1]);
}

#[test]
fn scale_fills_the_diagonal() {
    let expected = vec![2, 0, 0, 0, 0, 3, 0, 0, 0, 0, 4, 0, 0, 0, 0, 1];
    assert_eq!(Mat4::<i64>::scale(v3(2, 3, 4)).flatten(), expected);
    assert_eq!(Mat4::<i64>::scale_xyz(2, 3, 4).flatten(), expected);
}

#[test]
fn ortho_of_the_unit_box() {
    let m = Mat4::<i64>::ortho(0, 1, 0, 1, 0, 1);
    assert_eq!(m.flatten(), vec![2, 0, 0, 0, 0, 2, 0, 0, 0, 0, -2, 0, -1, -1, -1, 1]);
    // The far upper-right corner of the viewing box, at eye depth
    // minus far, lands on the corner (1, 1, 1) of the clip cube.
    let corner: Vec4<i64> = TMat::try_from(vec![1, 1, -1, 1]).unwrap();
    let clip: Vec4<i64> = m.mm(&corner);
    assert_eq!(clip.flatten(), vec![1, 1, 1, 1]);
    // The near lower-left corner lands on (-1, -1, -1).
    let corner: Vec4<i64> = TMat::try_from(vec![0, 0, 0, 1]).unwrap();
    let clip: Vec4<i64> = m.mm(&corner);
    assert_eq!(clip.flatten(), vec![-1, -1, -1, 1]);
}

#[test]
fn transform_accumulates_by_matrix_product() {
    let mut t = Transform::<i64>::new();
    assert_eq!(t.model.flatten(), identity_flat());
    t.transform(Mat4::<i64>::translation_xyz(1, 2, 3));
    assert_eq!(t.model.flatten(), Mat4::<i64>::translation_xyz(1, 2, 3).flatten());
    t.transform(Mat4::<i64>::scale_xyz(2, 2, 2));
    // Translation times scale keeps the offset and scales the axes.
    assert_eq!(t.model.flatten(), vec![2, 0, 0, 0, 0, 2, 0, 0, 0, 0, 2, 0, 1, 2, 3, 1]);
}
