//! Graphics transform constructors: rotation, translation, scale and
//! projection matrices of order four, in the column-major convention.

use vstd::prelude::*;

use crate::matrix::{mmseq, mmseq_req, TMat};
use crate::quaternion::Quaternion;
use crate::scalar::Scalar;
use crate::vector::Vec3;

verus! {

/// Two, as a scalar: one plus one.
pub open spec fn two_val<T: Scalar>() -> T {
    T::one_val().add_val(T::one_val())
}

/// Whether one plus one is defined.
pub open spec fn two_req<T: Scalar>() -> bool {
    T::one_val().add_req(T::one_val())
}

/// The identity matrix of order four, stored column-major.
pub open spec fn identity_val<T: Scalar>() -> Seq<T> {
    let o = T::one_val();
    let z = T::zero_val();
    seq![o, z, z, z, z, o, z, z, z, z, o, z, z, z, z, o]
}

/// The rotation about the first axis by `rad` radians, stored
/// column-major.
pub open spec fn rot_x_val<T: Scalar>(rad: T) -> Seq<T> {
    let o = T::one_val();
    let z = T::zero_val();
    let c = rad.cos_val();
    let s = rad.sin_val();
    seq![o, z, z, z, z, c, s, z, z, s.neg_val(), c, z, z, z, z, o]
}

/// On which angles `rotation_x` is defined.
pub open spec fn rot_x_req<T: Scalar>(rad: T) -> bool {
    rad.cos_req() && rad.sin_req() && rad.sin_val().neg_req()
}

/// The rotation about the second axis by `rad` radians.
pub open spec fn rot_y_val<T: Scalar>(rad: T) -> Seq<T> {
    let o = T::one_val();
    let z = T::zero_val();
    let c = rad.cos_val();
    let s = rad.sin_val();
    seq![c, z, s.neg_val(), z, z, o, z, z, s, z, c, z, z, z, z, o]
}

/// On which angles `rotation_y` is defined.
pub open spec fn rot_y_req<T: Scalar>(rad: T) -> bool {
    rad.cos_req() && rad.sin_req() && rad.sin_val().neg_req()
}

/// The rotation about the third axis by `rad` radians.
pub open spec fn rot_z_val<T: Scalar>(rad: T) -> Seq<T> {
    let o = T::one_val();
    let z = T::zero_val();
    let c = rad.cos_val();
    let s = rad.sin_val();
    seq![c, s, z, z, s.neg_val(), c, z, z, z, z, o, z, z, z, z, o]
}

/// On which angles `rotation_z` is defined.
pub open spec fn rot_z_req<T: Scalar>(rad: T) -> bool {
    rad.cos_req() && rad.sin_req() && rad.sin_val().neg_req()
}

/// The Rodrigues rotation matrix about the unit axis `(rx, ry, rz)` by
/// the angle `theta`.
pub open spec fn rot_axis_val<T: Scalar>(rx: T, ry: T, rz: T, theta: T) -> Seq<T> {
    let o = T::one_val();
    let z = T::zero_val();
    let c1 = theta.cos_val();
    let c2 = T::one_val().sub_val(c1);
    let s1 = theta.sin_val();
    seq![
        c1.add_val(rx.mul_val(rx).mul_val(c2)),
        ry.mul_val(rx).mul_val(c2).add_val(rz.mul_val(s1)),
        rz.mul_val(rx).mul_val(c2).sub_val(ry.mul_val(s1)),
        z,
        rx.mul_val(ry).mul_val(c2).sub_val(rz.mul_val(s1)),
        c1.add_val(ry.mul_val(ry).mul_val(c2)),
        rz.mul_val(ry).mul_val(c2).add_val(rx.mul_val(s1)),
        z,
        rx.mul_val(rz).mul_val(c2).add_val(ry.mul_val(s1)),
        ry.mul_val(rz).mul_val(c2).sub_val(rx.mul_val(s1)),
        c1.add_val(rz.mul_val(rz).mul_val(c2)),
        z,
        z,
        z,
        z,
        o,
    ]
}

/// On which operands `rotation_axis` is defined.
pub open spec fn rot_axis_req<T: Scalar>(rx: T, ry: T, rz: T, theta: T) -> bool {
    let c1 = theta.cos_val();
    let c2 = T::one_val().sub_val(c1);
    let s1 = theta.sin_val();
    &&& theta.cos_req() && T::one_val().sub_req(c1) && theta.sin_req()
    &&& rx.mul_req(rx) && rx.mul_val(rx).mul_req(c2) && c1.add_req(rx.mul_val(rx).mul_val(c2))
    &&& ry.mul_req(rx) && ry.mul_val(rx).mul_req(c2) && rz.mul_req(s1) && ry.mul_val(rx).mul_val(
        c2,
    ).add_req(rz.mul_val(s1))
    &&& rz.mul_req(rx) && rz.mul_val(rx).mul_req(c2) && ry.mul_req(s1) && rz.mul_val(rx).mul_val(
        c2,
    ).sub_req(ry.mul_val(s1))
    &&& rx.mul_req(ry) && rx.mul_val(ry).mul_req(c2) && rx.mul_val(ry).mul_val(c2).sub_req(
        rz.mul_val(s1),
    )
    &&& ry.mul_req(ry) && ry.mul_val(ry).mul_req(c2) && c1.add_req(ry.mul_val(ry).mul_val(c2))
    &&& rz.mul_req(ry) && rz.mul_val(ry).mul_req(c2) && rx.mul_req(s1) && rz.mul_val(ry).mul_val(
        c2,
    ).add_req(rx.mul_val(s1))
    &&& rx.mul_req(rz) && rx.mul_val(rz).mul_req(c2) && rx.mul_val(rz).mul_val(c2).add_req(
        ry.mul_val(s1),
    )
    &&& ry.mul_req(rz) && ry.mul_val(rz).mul_req(c2) && ry.mul_val(rz).mul_val(c2).sub_req(
        rx.mul_val(s1),
    )
    &&& rz.mul_req(rz) && rz.mul_val(rz).mul_req(c2) && c1.add_req(rz.mul_val(rz).mul_val(c2))
}

/// The rotation matrix of a quaternion `a + b*i + c*j + d*k`, read with
/// scalar part `w = a` and vector part `(x, y, z) = (b, c, d)`. The
/// matrix is the transpose of the more common textbook form: it matches
/// the library's own conjugation direction, where `rotate` conjugates
/// as `inverse(p) * q * p`.
pub open spec fn rot_qua_val<T: Scalar>(q: Quaternion<T>) -> Seq<T> {
    let o = T::one_val();
    let zr = T::zero_val();
    let two = two_val::<T>();
    let x = q.b;
    let y = q.c;
    let z = q.d;
    let w = q.a;
    let xx = x.mul_val(x);
    let yy = y.mul_val(y);
    let zz = z.mul_val(z);
    let xy = x.mul_val(y);
    let xz = x.mul_val(z);
    let yz = y.mul_val(z);
    let wx = w.mul_val(x);
    let wy = w.mul_val(y);
    let wz = w.mul_val(z);
    seq![
        o.sub_val(two.mul_val(yy.add_val(zz))),
        two.mul_val(xy.sub_val(wz)),
        two.mul_val(xz.add_val(wy)),
        zr,
        two.mul_val(xy.add_val(wz)),
        o.sub_val(two.mul_val(xx.add_val(zz))),
        two.mul_val(yz.sub_val(wx)),
        zr,
        two.mul_val(xz.sub_val(wy)),
        two.mul_val(yz.add_val(wx)),
        o.sub_val(two.mul_val(xx.add_val(yy))),
        zr,
        zr,
        zr,
        zr,
        o,
    ]
}

/// On which quaternions `rotation_qua` is defined.
pub open spec fn rot_qua_req<T: Scalar>(q: Quaternion<T>) -> bool {
    let o = T::one_val();
    let two = two_val::<T>();
    let x = q.b;
    let y = q.c;
    let z = q.d;
    let w = q.a;
    let xx = x.mul_val(x);
    let yy = y.mul_val(y);
    let zz = z.mul_val(z);
    let xy = x.mul_val(y);
    let xz = x.mul_val(z);
    let yz = y.mul_val(z);
    let wx = w.mul_val(x);
    let wy = w.mul_val(y);
    let wz = w.mul_val(z);
    &&& two_req::<T>()
    &&& x.mul_req(x) && y.mul_req(y) && z.mul_req(z)
    &&& x.mul_req(y) && x.mul_req(z) && y.mul_req(z)
    &&& w.mul_req(x) && w.mul_req(y) && w.mul_req(z)
    &&& yy.add_req(zz) && two.mul_req(yy.add_val(zz)) && o.sub_req(two.mul_val(yy.add_val(zz)))
    &&& xy.sub_req(wz) && two.mul_req(xy.sub_val(wz))
    &&& xz.add_req(wy) && two.mul_req(xz.add_val(wy))
    &&& xy.add_req(wz) && two.mul_req(xy.add_val(wz))
    &&& xx.add_req(zz) && two.mul_req(xx.add_val(zz)) && o.sub_req(two.mul_val(xx.add_val(zz)))
    &&& yz.sub_req(wx) && two.mul_req(yz.sub_val(wx))
    &&& xz.sub_req(wy) && two.mul_req(xz.sub_val(wy))
    &&& yz.add_req(wx) && two.mul_req(yz.add_val(wx))
    &&& xx.add_req(yy) && two.mul_req(xx.add_val(yy)) && o.sub_req(two.mul_val(xx.add_val(yy)))
}

/// The translation by `(x, y, z)`: the identity with the offset in the
/// fourth column.
pub open spec fn translation_val<T: Scalar>(x: T, y: T, z: T) -> Seq<T> {
    let o = T::one_val();
    let zr = T::zero_val();
    seq![o, zr, zr, zr, zr, o, zr, zr, zr, zr, o, zr, x, y, z, o]
}

/// The scale by `(x, y, z)`: the diagonal matrix of the three factors
/// and one.
pub open spec fn scale_val<T: Scalar>(x: T, y: T, z: T) -> Seq<T> {
    let o = T::one_val();
    let zr = T::zero_val();
    seq![x, zr, zr, zr, zr, y, zr, zr, zr, zr, z, zr, zr, zr, zr, o]
}

/// The orthographic projection of the box `[left, right] x [bottom,
/// top] x [near, far]` onto the cube from minus one to one, in the
/// standard right-handed derivation.
pub open spec fn ortho_val<T: Scalar>(left: T, right: T, bottom: T, top: T, near: T, far: T) -> Seq<
    T,
> {
    let o = T::one_val();
    let zr = T::zero_val();
    let two = two_val::<T>();
    let rl = o.div_val(right.sub_val(left));
    let tb = o.div_val(top.sub_val(bottom));
    let fnf = o.div_val(far.sub_val(near));
    seq![
        two.mul_val(rl),
        zr,
        zr,
        zr,
        zr,
        two.mul_val(tb),
        zr,
        zr,
        zr,
        zr,
        two.neg_val().mul_val(fnf),
        zr,
        right.add_val(left).neg_val().mul_val(rl),
        top.add_val(bottom).neg_val().mul_val(tb),
        far.add_val(near).neg_val().mul_val(fnf),
        o,
    ]
}

/// On which operands `ortho` is defined. A degenerate box (an empty
/// axis whose reciprocal cannot divide) is the caller's responsibility,
/// exactly as the scalar's division states it.
pub open spec fn ortho_req<T: Scalar>(left: T, right: T, bottom: T, top: T, near: T, far: T) -> bool {
    let o = T::one_val();
    let two = two_val::<T>();
    let rl = o.div_val(right.sub_val(left));
    let tb = o.div_val(top.sub_val(bottom));
    let fnf = o.div_val(far.sub_val(near));
    &&& two_req::<T>()
    &&& right.sub_req(left) && o.div_req(right.sub_val(left)) && two.mul_req(rl)
    &&& top.sub_req(bottom) && o.div_req(top.sub_val(bottom)) && two.mul_req(tb)
    &&& far.sub_req(near) && o.div_req(far.sub_val(near)) && two.neg_req() && two.neg_val().mul_req(
        fnf,
    )
    &&& right.add_req(left) && right.add_val(left).neg_req() && right.add_val(left).neg_val().mul_req(
        rl,
    )
    &&& top.add_req(bottom) && top.add_val(bottom).neg_req() && top.add_val(bottom).neg_val().mul_req(
        tb,
    )
    &&& far.add_req(near) && far.add_val(near).neg_req() && far.add_val(near).neg_val().mul_req(fnf)
}

/// The perspective projection with vertical field of view `fov` (in
/// radians), aspect ratio `aspect`, and the near and far clip planes,
/// in the standard right-handed derivation.
pub open spec fn perspective_val<T: Scalar>(fov: T, aspect: T, near: T, far: T) -> Seq<T> {
    let o = T::one_val();
    let zr = T::zero_val();
    let two = two_val::<T>();
    let f = o.div_val(fov.div_val(two).tan_val());
    let nf = o.div_val(near.sub_val(far));
    seq![
        f.div_val(aspect),
        zr,
        zr,
        zr,
        zr,
        f,
        zr,
        zr,
        zr,
        zr,
        far.add_val(near).mul_val(nf),
        o.neg_val(),
        zr,
        zr,
        two.mul_val(far).mul_val(near).mul_val(nf),
        zr,
    ]
}

/// On which operands `perspective` is defined. A flat field of view
/// (one whose tangent cannot divide) is the caller's responsibility,
/// exactly as the scalar's division states it.
pub open spec fn perspective_req<T: Scalar>(fov: T, aspect: T, near: T, far: T) -> bool {
    let o = T::one_val();
    let two = two_val::<T>();
    let f = o.div_val(fov.div_val(two).tan_val());
    let nf = o.div_val(near.sub_val(far));
    &&& two_req::<T>()
    &&& fov.div_req(two) && fov.div_val(two).tan_req() && o.div_req(fov.div_val(two).tan_val())
    &&& f.div_req(aspect)
    &&& near.sub_req(far) && o.div_req(near.sub_val(far))
    &&& far.add_req(near) && far.add_val(near).mul_req(nf)
    &&& o.neg_req()
    &&& two.mul_req(far) && two.mul_val(far).mul_req(near) && two.mul_val(far).mul_val(
        near,
    ).mul_req(nf)
}

/// A model transform carried by a node: the matrix accumulated so far.
pub struct Transform<T> {
    pub model: TMat<T, 4, 4>,
}

impl<T: Scalar> Transform<T> {
    /// A fresh transform: the identity matrix.
    pub fn new() -> (t: Self)
        ensures
            t.model.wf(),
            t.model@ == identity_val::<T>(),
    {
        Transform { model: TMat::<T, 4, 4>::identity() }
    }

    /// Accumulates one more transform: the model matrix becomes the
    /// matrix product of the old model with `t`.
    pub fn transform(&mut self, t: TMat<T, 4, 4>)
        requires
            old(self).model.wf(),
            t.wf(),
            mmseq_req(old(self).model@, t@, 4, 4, 4),
        ensures
            final(self).model.wf(),
            final(self).model@ == mmseq(old(self).model@, t@, 4, 4, 4),
    {
        let updated = self.model.mm(&t);
        self.model = updated;
    }
}

impl<T: Scalar> TMat<T, 4, 4> {
    /// The identity matrix.
    pub fn identity() -> (m: Self)
        ensures
            m.wf(),
            m@ == identity_val::<T>(),
    {
        let o = T::one();
        let z = T::zero();
        let mut data: Vec<T> = Vec::new();
        data.push(o);
        data.push(z);
        data.push(z);
        data.push(z);
        data.push(z);
        data.push(o);
        data.push(z);
        data.push(z);
        data.push(z);
        data.push(z);
        data.push(o);
        data.push(z);
        data.push(z);
        data.push(z);
        data.push(z);
        data.push(o);
        let m = Self::from_flat_unchecked(data);
        proof {
            assert(m@ =~= identity_val::<T>());
        }
        m
    }

    /// The rotation about the first axis by `rad` radians.
    pub fn rotation_x(rad: T) -> (m: Self)
        requires
            rot_x_req(rad),
        ensures
            m.wf(),
            m@ == rot_x_val(rad),
    {
        let o = T::one();
        let z = T::zero();
        let c = rad.cos();
        let s = rad.sin();
        let mut data: Vec<T> = Vec::new();
        data.push(o);
        data.push(z);
        data.push(z);
        data.push(z);
        data.push(z);
        data.push(c);
        data.push(s);
        data.push(z);
        data.push(z);
        data.push(s.neg());
        data.push(c);
        data.push(z);
        data.push(z);
        data.push(z);
        data.push(z);
        data.push(o);
        let m = Self::from_flat_unchecked(data);
        proof {
            assert(m@ =~= rot_x_val(rad));
        }
        m
    }

    /// The rotation about the second axis by `rad` radians.
    pub fn rotation_y(rad: T) -> (m: Self)
        requires
            rot_y_req(rad),
        ensures
            m.wf(),
            m@ == rot_y_val(rad),
    {
        let o = T::one();
        let z = T::zero();
        let c = rad.cos();
        let s = rad.sin();
        let mut data: Vec<T> = Vec::new();
        data.push(c);
        data.push(z);
        data.push(s.neg());
        data.push(z);
        data.push(z);
        data.push(o);
        data.push(z);
        data.push(z);
        data.push(s);
        data.push(z);
        data.push(c);
        data.push(z);
        data.push(z);
        data.push(z);
        data.push(z);
        data.push(o);
        let m = Self::from_flat_unchecked(data);
        proof {
            assert(m@ =~= rot_y_val(rad));
        }
        m
    }

    /// The rotation about the third axis by `rad` radians.
    pub fn rotation_z(rad: T) -> (m: Self)
        requires
            rot_z_req(rad),
        ensures
            m.wf(),
            m@ == rot_z_val(rad),
    {
        let o = T::one();
        let z = T::zero();
        let c = rad.cos();
        let s = rad.sin();
        let mut data: Vec<T> = Vec::new();
        data.push(c);
        data.push(s);
        data.push(z);
        data.push(z);
        data.push(s.neg());
        data.push(c);
        data.push(z);
        data.push(z);
        data.push(z);
        data.push(z);
        data.push(o);
        data.push(z);
        data.push(z);
        data.push(z);
        data.push(z);
        data.push(o);
        let m = Self::from_flat_unchecked(data);
        proof {
            assert(m@ =~= rot_z_val(rad));
        }
        m
    }

    /// The composition of the three elementary rotations applied in the
    /// order of the name: first about the first axis, then the second,
    /// then the third.
    pub fn rotation_xyz(rotation: Vec3<T>) -> (m: Self)
        requires
            rotation.wf(),
            rot_x_req(rotation@[0]),
            rot_y_req(rotation@[1]),
            rot_z_req(rotation@[2]),
            mmseq_req(rot_x_val(rotation@[0]), rot_y_val(rotation@[1]), 4, 4, 4),
            mmseq_req(
                mmseq(rot_x_val(rotation@[0]), rot_y_val(rotation@[1]), 4, 4, 4),
                rot_z_val(rotation@[2]),
                4,
                4,
                4,
            ),
        ensures
            m.wf(),
            m@ == mmseq(
                mmseq(rot_x_val(rotation@[0]), rot_y_val(rotation@[1]), 4, 4, 4),
                rot_z_val(rotation@[2]),
                4,
                4,
                4,
            ),
    {
        Self::rotation_x(rotation.x()).mm(&Self::rotation_y(rotation.y())).mm(
            &Self::rotation_z(rotation.z()),
        )
    }

    /// The elementary rotations applied first about the first axis,
    /// then the third, then the second.
    pub fn rotation_xzy(rotation: Vec3<T>) -> (m: Self)
        requires
            rotation.wf(),
            rot_x_req(rotation@[0]),
            rot_y_req(rotation@[1]),
            rot_z_req(rotation@[2]),
            mmseq_req(rot_x_val(rotation@[0]), rot_z_val(rotation@[2]), 4, 4, 4),
            mmseq_req(
                mmseq(rot_x_val(rotation@[0]), rot_z_val(rotation@[2]), 4, 4, 4),
                rot_y_val(rotation@[1]),
                4,
                4,
                4,
            ),
        ensures
            m.wf(),
            m@ == mmseq(
                mmseq(rot_x_val(rotation@[0]), rot_z_val(rotation@[2]), 4, 4, 4),
                rot_y_val(rotation@[1]),
                4,
                4,
                4,
            ),
    {
        Self::rotation_x(rotation.x()).mm(&Self::rotation_z(rotation.z())).mm(
            &Self::rotation_y(rotation.y()),
        )
    }

    /// The elementary rotations applied first about the second axis,
    /// then the first, then the third.
    pub fn rotation_yxz(rotation: Vec3<T>) -> (m: Self)
        requires
            rotation.wf(),
            rot_x_req(rotation@[0]),
            rot_y_req(rotation@[1]),
            rot_z_req(rotation@[2]),
            mmseq_req(rot_y_val(rotation@[1]), rot_x_val(rotation@[0]), 4, 4, 4),
            mmseq_req(
                mmseq(rot_y_val(rotation@[1]), rot_x_val(rotation@[0]), 4, 4, 4),
                rot_z_val(rotation@[2]),
                4,
                4,
                4,
            ),
        ensures
            m.wf(),
            m@ == mmseq(
                mmseq(rot_y_val(rotation@[1]), rot_x_val(rotation@[0]), 4, 4, 4),
                rot_z_val(rotation@[2]),
                4,
                4,
                4,
            ),
    {
        Self::rotation_y(rotation.y()).mm(&Self::rotation_x(rotation.x())).mm(
            &Self::rotation_z(rotation.z()),
        )
    }

    /// The elementary rotations applied first about the second axis,
    /// then the third, then the first.
    pub fn rotation_yzx(rotation: Vec3<T>) -> (m: Self)
        requires
            rotation.wf(),
            rot_x_req(rotation@[0]),
            rot_y_req(rotation@[1]),
            rot_z_req(rotation@[2]),
            mmseq_req(rot_y_val(rotation@[1]), rot_z_val(rotation@[2]), 4, 4, 4),
            mmseq_req(
                mmseq(rot_y_val(rotation@[1]), rot_z_val(rotation@[2]), 4, 4, 4),
                rot_x_val(rotation@[0]),
                4,
                4,
                4,
            ),
        ensures
            m.wf(),
            m@ == mmseq(
                mmseq(rot_y_val(rotation@[1]), rot_z_val(rotation@[2]), 4, 4, 4),
                rot_x_val(rotation@[0]),
                4,
                4,
                4,
            ),
    {
        Self::rotation_y(rotation.y()).mm(&Self::rotation_z(rotation.z())).mm(
            &Self::rotation_x(rotation.x()),
        )
    }

    /// The elementary rotations applied first about the third axis,
    /// then the second, then the first.
    pub fn rotation_zyx(rotation: Vec3<T>) -> (m: Self)
        requires
            rotation.wf(),
            rot_x_req(rotation@[0]),
            rot_y_req(rotation@[1]),
            rot_z_req(rotation@[2]),
            mmseq_req(rot_z_val(rotation@[2]), rot_y_val(rotation@[1]), 4, 4, 4),
            mmseq_req(
                mmseq(rot_z_val(rotation@[2]), rot_y_val(rotation@[1]), 4, 4, 4),
                rot_x_val(rotation@[0]),
                4,
                4,
                4,
            ),
        ensures
            m.wf(),
            m@ == mmseq(
                mmseq(rot_z_val(rotation@[2]), rot_y_val(rotation@[1]), 4, 4, 4),
                rot_x_val(rotation@[0]),
                4,
                4,
                4,
            ),
    {
        Self::rotation_z(rotation.z()).mm(&Self::rotation_y(rotation.y())).mm(
            &Self::rotation_x(rotation.x()),
        )
    }

    /// The elementary rotations applied first about the third axis,
    /// then the first, then the second.
    pub fn rotation_zxy(rotation: Vec3<T>) -> (m: Self)
        requires
            rotation.wf(),
            rot_x_req(rotation@[0]),
            rot_y_req(rotation@[1]),
            rot_z_req(rotation@[2]),
            mmseq_req(rot_z_val(rotation@[2]), rot_x_val(rotation@[0]), 4, 4, 4),
            mmseq_req(
                mmseq(rot_z_val(rotation@[2]), rot_x_val(rotation@[0]), 4, 4, 4),
                rot_y_val(rotation@[1]),
                4,
                4,
                4,
            ),
        ensures
            m.wf(),
            m@ == mmseq(
                mmseq(rot_z_val(rotation@[2]), rot_x_val(rotation@[0]), 4, 4, 4),
                rot_y_val(rotation@[1]),
                4,
                4,
                4,
            ),
    {
        Self::rotation_z(rotation.z()).mm(&Self::rotation_x(rotation.x())).mm(
            &Self::rotation_y(rotation.y()),
        )
    }

    /// The rotation about an arbitrary unit axis by `theta` radians,
    /// by Rodrigues' formula.
    pub fn rotation_axis(axis: Vec3<T>, theta: T) -> (m: Self)
        requires
            axis.wf(),
            rot_axis_req(axis@[0], axis@[1], axis@[2], theta),
        ensures
            m.wf(),
            m@ == rot_axis_val(axis@[0], axis@[1], axis@[2], theta),
    {
        let o = T::one();
        let z = T::zero();
        let rx = axis.x();
        let ry = axis.y();
        let rz = axis.z();
        let c1 = theta.cos();
        let c2 = T::one().sub(c1);
        let s1 = theta.sin();
        let mut data: Vec<T> = Vec::new();
        data.push(c1.add(rx.mul(rx).mul(c2)));
        data.push(ry.mul(rx).mul(c2).add(rz.mul(s1)));
        data.push(rz.mul(rx).mul(c2).sub(ry.mul(s1)));
        data.push(z);
        data.push(rx.mul(ry).mul(c2).sub(rz.mul(s1)));
        data.push(c1.add(ry.mul(ry).mul(c2)));
        data.push(rz.mul(ry).mul(c2).add(rx.mul(s1)));
        data.push(z);
        data.push(rx.mul(rz).mul(c2).add(ry.mul(s1)));
        data.push(ry.mul(rz).mul(c2).sub(rx.mul(s1)));
        data.push(c1.add(rz.mul(rz).mul(c2)));
        data.push(z);
        data.push(z);
        data.push(z);
        data.push(z);
        data.push(o);
        let m = Self::from_flat_unchecked(data);
        proof {
            assert(m@ =~= rot_axis_val(axis@[0], axis@[1], axis@[2], theta));
        }
        m
    }

    /// The rotation matrix of a quaternion.
    pub fn rotation_qua(rotation: Quaternion<T>) -> (m: Self)
        requires
            rot_qua_req(rotation),
        ensures
            m.wf(),
            m@ == rot_qua_val(rotation),
    {
        let o = T::one();
        let zr = T::zero();
        let two = T::one().add(T::one());
        let x = rotation.b;
        let y = rotation.c;
        let z = rotation.d;
        let w = rotation.a;
        let xx = x.mul(x);
        let yy = y.mul(y);
        let zz = z.mul(z);
        let xy = x.mul(y);
        let xz = x.mul(z);
        let yz = y.mul(z);
        let wx = w.mul(x);
        let wy = w.mul(y);
        let wz = w.mul(z);
        let mut data: Vec<T> = Vec::new();
        data.push(o.sub(two.mul(yy.add(zz))));
        data.push(two.mul(xy.sub(wz)));
        data.push(two.mul(xz.add(wy)));
        data.push(zr);
        data.push(two.mul(xy.add(wz)));
        data.push(o.sub(two.mul(xx.add(zz))));
        data.push(two.mul(yz.sub(wx)));
        data.push(zr);
        data.push(two.mul(xz.sub(wy)));
        data.push(two.mul(yz.add(wx)));
        data.push(o.sub(two.mul(xx.add(yy))));
        data.push(zr);
        data.push(zr);
        data.push(zr);
        data.push(zr);
        data.push(o);
        let m = Self::from_flat_unchecked(data);
        proof {
            assert(m@ =~= rot_qua_val(rotation));
        }
        m
    }

    /// The translation by the offsets held in `transform`.
    pub fn translation(transform: Vec3<T>) -> (m: Self)
        requires
            transform.wf(),
        ensures
            m.wf(),
            m@ == translation_val(transform@[0], transform@[1], transform@[2]),
    {
        Self::translation_xyz(transform.x(), transform.y(), transform.z())
    }

    /// The translation by `(x, y, z)`.
    pub fn translation_xyz(x: T, y: T, z: T) -> (m: Self)
        ensures
            m.wf(),
            m@ == translation_val(x, y, z),
    {
        let o = T::one();
        let zr = T::zero();
        let mut data: Vec<T> = Vec::new();
        data.push(o);
        data.push(zr);
        data.push(zr);
        data.push(zr);
        data.push(zr);
        data.push(o);
        data.push(zr);
        data.push(zr);
        data.push(zr);
        data.push(zr);
        data.push(o);
        data.push(zr);
        data.push(x);
        data.push(y);
        data.push(z);
        data.push(o);
        let m = Self::from_flat_unchecked(data);
        proof {
            assert(m@ =~= translation_val(x, y, z));
        }
        m
    }

    /// The scale by the factors held in `transform`.
    pub fn scale(transform: Vec3<T>) -> (m: Self)
        requires
            transform.wf(),
        ensures
            m.wf(),
            m@ == scale_val(transform@[0], transform@[1], transform@[2]),
    {
        Self::scale_xyz(transform.x(), transform.y(), transform.z())
    }

    /// The scale by `(x, y, z)`.
    pub fn scale_xyz(x: T, y: T, z: T) -> (m: Self)
        ensures
            m.wf(),
            m@ == scale_val(x, y, z),
    {
        let o = T::one();
        let zr = T::zero();
        let mut data: Vec<T> = Vec::new();
        data.push(x);
        data.push(zr);
        data.push(zr);
        data.push(zr);
        data.push(zr);
        data.push(y);
        data.push(zr);
        data.push(zr);
        data.push(zr);
        data.push(zr);
        data.push(z);
        data.push(zr);
        data.push(zr);
        data.push(zr);
        data.push(zr);
        data.push(o);
        let m = Self::from_flat_unchecked(data);
        proof {
            assert(m@ =~= scale_val(x, y, z));
        }
        m
    }

    /// The orthographic projection of the given box onto the clip cube.
    pub fn ortho(left: T, right: T, bottom: T, top: T, near: T, far: T) -> (m: Self)
        requires
            ortho_req(left, right, bottom, top, near, far),
        ensures
            m.wf(),
            m@ == ortho_val(left, right, bottom, top, near, far),
    {
        let o = T::one();
        let zr = T::zero();
        let two = T::one().add(T::one());
        let rl = T::one().div(right.sub(left));
        let tb = T::one().div(top.sub(bottom));
        let fnf = T::one().div(far.sub(near));
        let mut data: Vec<T> = Vec::new();
        data.push(two.mul(rl));
        data.push(zr);
        data.push(zr);
        data.push(zr);
        data.push(zr);
        data.push(two.mul(tb));
        data.push(zr);
        data.push(zr);
        data.push(zr);
        data.push(zr);
        data.push(two.neg().mul(fnf));
        data.push(zr);
        data.push(right.add(left).neg().mul(rl));
        data.push(top.add(bottom).neg().mul(tb));
        data.push(far.add(near).neg().mul(fnf));
        data.push(o);
        let m = Self::from_flat_unchecked(data);
        proof {
            assert(m@ =~= ortho_val(left, right, bottom, top, near, far));
        }
        m
    }

    /// The perspective projection with the given field of view, aspect
    /// ratio and clip planes. Only a scalar whose tangent is not
    /// constantly zero can meet the requirement: on the exact integer
    /// scalars the divisor `tan(fov / 2)` is always excluded, so no
    /// integer call is possible.
    pub fn perspective(fov: T, aspect: T, near: T, far: T) -> (m: Self)
        requires
            perspective_req(fov, aspect, near, far),
        ensures
            m.wf(),
            m@ == perspective_val(fov, aspect, near, far),
    {
        let o = T::one();
        let zr = T::zero();
        let two = T::one().add(T::one());
        let f = T::one().div(fov.div(two).tan());
        let nf = T::one().div(near.sub(far));
        let mut data: Vec<T> = Vec::new();
        data.push(f.div(aspect));
        data.push(zr);
        data.push(zr);
        data.push(zr);
        data.push(zr);
        data.push(f);
        data.push(zr);
        data.push(zr);
        data.push(zr);
        data.push(zr);
        data.push(far.add(near).mul(nf));
        data.push(o.neg());
        data.push(zr);
        data.push(zr);
        data.push(two.mul(far).mul(near).mul(nf));
        data.push(zr);
        let m = Self::from_flat_unchecked(data);
        proof {
            assert(m@ =~= perspective_val(fov, aspect, near, far));
        }
        m
    }
}

} // verus!
