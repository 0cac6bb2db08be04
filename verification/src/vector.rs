//! Vectors as single-column matrices, and their operations.

use vstd::prelude::*;

use crate::matrix::{dotp, dotp_req, TMat};
use crate::scalar::{lerp, lerp_req, lerp_val, Scalar};

verus! {

/// A vector of `L` scalars: a matrix with a single column.
pub type TVec<T, const L: usize> = TMat<T, L, 1>;

/// A vector of two scalars.
pub type Vec2<T> = TVec<T, 2>;

/// A vector of three scalars.
pub type Vec3<T> = TVec<T, 3>;

/// A vector of four scalars.
pub type Vec4<T> = TVec<T, 4>;

/// A square matrix of order two.
pub type Mat2<T> = TMat<T, 2, 2>;

/// A square matrix of order three.
pub type Mat3<T> = TMat<T, 3, 3>;

/// A square matrix of order four.
pub type Mat4<T> = TMat<T, 4, 4>;

/// A vector of two 32-bit integers.
pub type Vec2i = Vec2<i32>;

/// A vector of three 32-bit integers.
pub type Vec3i = Vec3<i32>;

/// A vector of four 32-bit integers.
pub type Vec4i = Vec4<i32>;

/// A square matrix of 32-bit integers, of order two.
pub type Mat2i = Mat2<i32>;

/// A square matrix of 32-bit integers, of order three.
pub type Mat3i = Mat3<i32>;

/// A square matrix of 32-bit integers, of order four.
pub type Mat4i = Mat4<i32>;

/// A vector of two 32-bit unsigned integers.
pub type Vec2u = Vec2<u32>;

/// A vector of three 32-bit unsigned integers.
pub type Vec3u = Vec3<u32>;

/// A vector of four 32-bit unsigned integers.
pub type Vec4u = Vec4<u32>;

/// A square matrix of 32-bit unsigned integers, of order two.
pub type Mat2u = Mat2<u32>;

/// A square matrix of 32-bit unsigned integers, of order three.
pub type Mat3u = Mat3<u32>;

/// A square matrix of 32-bit unsigned integers, of order four.
pub type Mat4u = Mat4<u32>;

/// The left fold that `sum` computes: the sum of the first `k` entries
/// of `a`, added up from the left starting at zero.
pub open spec fn sump<T: Scalar>(a: Seq<T>, k: int) -> T
    decreases k,
{
    if k <= 0 {
        T::zero_val()
    } else {
        sump(a, k - 1).add_val(a[k - 1])
    }
}

/// On which operands the sum fold of length `k` is defined.
pub open spec fn sump_req<T: Scalar>(a: Seq<T>, k: int) -> bool {
    forall|t: int| 0 <= t < k ==> sump(a, t).add_req(#[trigger] a[t])
}

/// What `length` returns: the square root of the dot product of the
/// vector with itself.
pub open spec fn length_val<T: Scalar>(v: Seq<T>) -> T {
    dotp(v, v, v.len() as int).sqrt_val()
}

/// On which vectors `length` is defined.
pub open spec fn length_req<T: Scalar>(v: Seq<T>) -> bool {
    dotp_req(v, v, v.len() as int) && dotp(v, v, v.len() as int).sqrt_req()
}

/// What `normalize` returns: every entry divided by the vector's
/// length.
pub open spec fn normalize_val<T: Scalar>(v: Seq<T>) -> Seq<T> {
    Seq::new(v.len(), |i: int| v[i].div_val(length_val(v)))
}

/// On which vectors `normalize` is defined. A vector whose length is a
/// scalar that cannot divide (a zero length, say) is the caller's
/// responsibility, exactly as the division operation of the scalar
/// states it.
pub open spec fn normalize_req<T: Scalar>(v: Seq<T>) -> bool {
    length_req(v) && forall|i: int| 0 <= i < v.len() ==> (#[trigger] v[i]).div_req(length_val(v))
}

/// What vector `lerp` returns: the entry-wise linear interpolation.
pub open spec fn vlerp_val<T: Scalar>(a: Seq<T>, b: Seq<T>, t: T) -> Seq<T> {
    Seq::new(a.len(), |i: int| lerp_val(a[i], b[i], t))
}

/// On which operands vector `lerp` is defined.
pub open spec fn vlerp_req<T: Scalar>(a: Seq<T>, b: Seq<T>, t: T) -> bool {
    forall|i: int| 0 <= i < a.len() ==> lerp_req(#[trigger] a[i], b[i], t)
}

/// The interpolation angle that `slerp` uses: the arc cosine of the dot
/// product of the two vectors.
pub open spec fn slerp_theta<T: Scalar>(a: Seq<T>, b: Seq<T>) -> T {
    dotp(a, b, a.len() as int).acos_val()
}

/// The weight of the first vector in `slerp`.
pub open spec fn slerp_alpha<T: Scalar>(a: Seq<T>, b: Seq<T>, t: T) -> T {
    T::one_val().sub_val(t).mul_val(slerp_theta(a, b)).sin_val().div_val(
        slerp_theta(a, b).sin_val(),
    )
}

/// The weight of the second vector in `slerp`.
pub open spec fn slerp_beta<T: Scalar>(a: Seq<T>, b: Seq<T>, t: T) -> T {
    t.mul_val(slerp_theta(a, b)).sin_val().div_val(slerp_theta(a, b).sin_val())
}

/// What `slerp` returns: `a` weighted by `alpha` plus `b` weighted by
/// `beta`, entry by entry.
pub open spec fn slerp_val<T: Scalar>(a: Seq<T>, b: Seq<T>, t: T) -> Seq<T> {
    Seq::new(
        a.len(),
        |i: int| a[i].mul_val(slerp_alpha(a, b, t)).add_val(b[i].mul_val(slerp_beta(a, b, t))),
    )
}

/// On which operands `slerp` is defined. Inputs on which the sine of
/// the angle cannot divide (equal or antipodal unit vectors) are the
/// caller's responsibility, exactly as the scalar's division states it.
pub open spec fn slerp_req<T: Scalar>(a: Seq<T>, b: Seq<T>, t: T) -> bool {
    &&& dotp_req(a, b, a.len() as int)
    &&& dotp(a, b, a.len() as int).acos_req()
    &&& slerp_theta(a, b).sin_req()
    &&& T::one_val().sub_req(t)
    &&& T::one_val().sub_val(t).mul_req(slerp_theta(a, b))
    &&& T::one_val().sub_val(t).mul_val(slerp_theta(a, b)).sin_req()
    &&& T::one_val().sub_val(t).mul_val(slerp_theta(a, b)).sin_val().div_req(
        slerp_theta(a, b).sin_val(),
    )
    &&& t.mul_req(slerp_theta(a, b))
    &&& t.mul_val(slerp_theta(a, b)).sin_req()
    &&& t.mul_val(slerp_theta(a, b)).sin_val().div_req(slerp_theta(a, b).sin_val())
    &&& forall|i: int|
        0 <= i < a.len() ==> (#[trigger] a[i]).mul_req(slerp_alpha(a, b, t)) && b[i].mul_req(
            slerp_beta(a, b, t),
        ) && a[i].mul_val(slerp_alpha(a, b, t)).add_req(b[i].mul_val(slerp_beta(a, b, t)))
}

/// What `cross` returns on three-dimensional vectors.
pub open spec fn cross_val<T: Scalar>(a: Seq<T>, b: Seq<T>) -> Seq<T> {
    seq![
        a[1].mul_val(b[2]).sub_val(a[2].mul_val(b[1])),
        a[2].mul_val(b[0]).sub_val(a[0].mul_val(b[2])),
        a[0].mul_val(b[1]).sub_val(a[1].mul_val(b[0])),
    ]
}

/// On which operands `cross` is defined.
pub open spec fn cross_req<T: Scalar>(a: Seq<T>, b: Seq<T>) -> bool {
    &&& a[1].mul_req(b[2]) && a[2].mul_req(b[1]) && a[1].mul_val(b[2]).sub_req(a[2].mul_val(b[1]))
    &&& a[2].mul_req(b[0]) && a[0].mul_req(b[2]) && a[2].mul_val(b[0]).sub_req(a[0].mul_val(b[2]))
    &&& a[0].mul_req(b[1]) && a[1].mul_req(b[0]) && a[0].mul_val(b[1]).sub_req(a[1].mul_val(b[0]))
}

impl<T: Scalar, const L: usize> TVec<T, L> {
    /// The dot product of two vectors of the same length, accumulated
    /// from the left.
    #[verifier::loop_isolation(false)]
    pub fn dot(&self, other: &Self) -> (r: T)
        requires
            self.wf(),
            other.wf(),
            dotp_req(self@, other@, L as int),
        ensures
            r == dotp(self@, other@, L as int),
    {
        let mut acc: T = T::zero();
        let mut k: usize = 0;
        while k < L
            invariant
                k <= L,
                acc == dotp(self@, other@, k as int),
            decreases L - k,
        {
            proof {
                assert(self@[k as int] == self.idx(k as int, 0));
                assert(other@[k as int] == other.idx(k as int, 0));
            }
            acc = acc.add(self.at(k, 0).mul(other.at(k, 0)));
            k = k + 1;
        }
        acc
    }

    /// The sum of the entries, accumulated from the left.
    #[verifier::loop_isolation(false)]
    pub fn sum(&self) -> (r: T)
        requires
            self.wf(),
            sump_req(self@, L as int),
        ensures
            r == sump(self@, L as int),
    {
        let mut acc: T = T::zero();
        let mut k: usize = 0;
        while k < L
            invariant
                k <= L,
                acc == sump(self@, k as int),
            decreases L - k,
        {
            proof {
                assert(self@[k as int] == self.idx(k as int, 0));
            }
            acc = acc.add(self.at(k, 0));
            k = k + 1;
        }
        acc
    }

    /// The dot product of the vector with itself.
    pub fn length_squared(&self) -> (r: T)
        requires
            self.wf(),
            dotp_req(self@, self@, L as int),
        ensures
            r == dotp(self@, self@, L as int),
    {
        self.dot(self)
    }

    /// The length of the vector: the square root of `length_squared`.
    pub fn length(&self) -> (r: T)
        requires
            self.wf(),
            length_req(self@),
        ensures
            r == length_val(self@),
    {
        self.length_squared().sqrt()
    }

    /// The vector scaled to length one: every entry divided by the
    /// length.
    #[verifier::loop_isolation(false)]
    pub fn normalize(&self) -> (r: Self)
        requires
            self.wf(),
            normalize_req(self@),
        ensures
            r.wf(),
            r@ == normalize_val(self@),
    {
        let len = self.length();
        let mut data: Vec<T> = Vec::new();
        let mut i: usize = 0;
        while i < L
            invariant
                i <= L,
                data@.len() == i,
                len == length_val(self@),
                forall|q: int| 0 <= q < i ==> data@[q] == self@[q].div_val(length_val(self@)),
            decreases L - i,
        {
            proof {
                assert(self@[i as int] == self.idx(i as int, 0));
            }
            data.push(self.at(i, 0).div(len));
            i = i + 1;
        }
        let r = TMat::<T, L, 1>::from_flat_unchecked(data);
        proof {
            assert(r@ =~= normalize_val(self@));
        }
        r
    }

    /// The entry-wise linear interpolation between two vectors: `self`
    /// at `t == 0`, `other` at `t == 1`.
    #[verifier::loop_isolation(false)]
    pub fn lerp(&self, other: &Self, t: T) -> (r: Self)
        requires
            self.wf(),
            other.wf(),
            vlerp_req(self@, other@, t),
        ensures
            r.wf(),
            r@ == vlerp_val(self@, other@, t),
    {
        let mut data: Vec<T> = Vec::new();
        let mut i: usize = 0;
        while i < L
            invariant
                i <= L,
                data@.len() == i,
                forall|q: int| 0 <= q < i ==> data@[q] == lerp_val(self@[q], other@[q], t),
            decreases L - i,
        {
            proof {
                assert(self@[i as int] == self.idx(i as int, 0));
                assert(other@[i as int] == other.idx(i as int, 0));
            }
            data.push(lerp(self.at(i, 0), other.at(i, 0), t));
            i = i + 1;
        }
        let r = TMat::<T, L, 1>::from_flat_unchecked(data);
        proof {
            assert(r@ =~= vlerp_val(self@, other@, t));
        }
        r
    }

    /// Linear interpolation followed by normalization.
    pub fn nlerp(&self, other: &Self, t: T) -> (r: Self)
        requires
            self.wf(),
            other.wf(),
            vlerp_req(self@, other@, t),
            normalize_req(vlerp_val(self@, other@, t)),
        ensures
            r.wf(),
            r@ == normalize_val(vlerp_val(self@, other@, t)),
    {
        self.lerp(other, t).normalize()
    }

    /// Spherical interpolation along the arc between two unit vectors,
    /// with constant angular velocity in `t`. Only a scalar whose sine
    /// is not constantly zero can meet the requirement: on the exact
    /// integer scalars the divisor `sin(theta)` is always excluded, so
    /// no integer call is possible.
    #[verifier::loop_isolation(false)]
    pub fn slerp(&self, other: &Self, t: T) -> (r: Self)
        requires
            self.wf(),
            other.wf(),
            slerp_req(self@, other@, t),
        ensures
            r.wf(),
            r@ == slerp_val(self@, other@, t),
    {
        let theta = self.dot(other).acos();
        let sin_theta = theta.sin();
        let alpha = T::one().sub(t).mul(theta).sin().div(sin_theta);
        let beta = t.mul(theta).sin().div(sin_theta);
        let mut data: Vec<T> = Vec::new();
        let mut i: usize = 0;
        while i < L
            invariant
                i <= L,
                data@.len() == i,
                alpha == slerp_alpha(self@, other@, t),
                beta == slerp_beta(self@, other@, t),
                forall|q: int|
                    0 <= q < i ==> data@[q] == self@[q].mul_val(
                        slerp_alpha(self@, other@, t),
                    ).add_val(other@[q].mul_val(slerp_beta(self@, other@, t))),
            decreases L - i,
        {
            proof {
                assert(self@[i as int] == self.idx(i as int, 0));
                assert(other@[i as int] == other.idx(i as int, 0));
            }
            data.push(self.at(i, 0).mul(alpha).add(other.at(i, 0).mul(beta)));
            i = i + 1;
        }
        let r = TMat::<T, L, 1>::from_flat_unchecked(data);
        proof {
            assert(r@ =~= slerp_val(self@, other@, t));
        }
        r
    }
}

impl<T: Scalar> Vec3<T> {
    /// The cross product of two three-dimensional vectors.
    pub fn cross(&self, other: &Self) -> (r: Self)
        requires
            self.wf(),
            other.wf(),
            cross_req(self@, other@),
        ensures
            r.wf(),
            r@ == cross_val(self@, other@),
    {
        let (x1, y1, z1) = (self.x(), self.y(), self.z());
        let (x2, y2, z2) = (other.x(), other.y(), other.z());
        let mut data: Vec<T> = Vec::new();
        data.push(y1.mul(z2).sub(z1.mul(y2)));
        data.push(z1.mul(x2).sub(x1.mul(z2)));
        data.push(x1.mul(y2).sub(y1.mul(x2)));
        let r = TMat::<T, 3, 1>::from_flat_unchecked(data);
        proof {
            assert(r@ =~= cross_val(self@, other@));
        }
        r
    }
}

impl<T: Scalar> Vec2<T> {
    /// The first component.
    pub fn x(&self) -> (v: T)
        requires
            self.wf(),
        ensures
            v == self@[0],
    {
        self.at(0, 0)
    }

    /// The second component.
    pub fn y(&self) -> (v: T)
        requires
            self.wf(),
        ensures
            v == self@[1],
    {
        self.at(1, 0)
    }

    /// A mutable borrow of the first component.
    pub fn x_mut(&mut self) -> (e: &mut T)
        requires
            old(self).wf(),
        ensures
            *e == old(self)@[0],
            final(self)@ == old(self)@.update(0, *final(e)),
            final(self).wf(),
    {
        self.entry_mut(0)
    }

    /// A mutable borrow of the second component.
    pub fn y_mut(&mut self) -> (e: &mut T)
        requires
            old(self).wf(),
        ensures
            *e == old(self)@[1],
            final(self)@ == old(self)@.update(1, *final(e)),
            final(self).wf(),
    {
        self.entry_mut(1)
    }
}

impl<T: Scalar> Vec3<T> {
    /// The first component.
    pub fn x(&self) -> (v: T)
        requires
            self.wf(),
        ensures
            v == self@[0],
    {
        self.at(0, 0)
    }

    /// The second component.
    pub fn y(&self) -> (v: T)
        requires
            self.wf(),
        ensures
            v == self@[1],
    {
        self.at(1, 0)
    }

    /// The third component.
    pub fn z(&self) -> (v: T)
        requires
            self.wf(),
        ensures
            v == self@[2],
    {
        self.at(2, 0)
    }

    /// A mutable borrow of the first component.
    pub fn x_mut(&mut self) -> (e: &mut T)
        requires
            old(self).wf(),
        ensures
            *e == old(self)@[0],
            final(self)@ == old(self)@.update(0, *final(e)),
            final(self).wf(),
    {
        self.entry_mut(0)
    }

    /// A mutable borrow of the second component.
    pub fn y_mut(&mut self) -> (e: &mut T)
        requires
            old(self).wf(),
        ensures
            *e == old(self)@[1],
            final(self)@ == old(self)@.update(1, *final(e)),
            final(self).wf(),
    {
        self.entry_mut(1)
    }

    /// A mutable borrow of the third component.
    pub fn z_mut(&mut self) -> (e: &mut T)
        requires
            old(self).wf(),
        ensures
            *e == old(self)@[2],
            final(self)@ == old(self)@.update(2, *final(e)),
            final(self).wf(),
    {
        self.entry_mut(2)
    }
}

impl<T: Scalar> Vec4<T> {
    /// The first component.
    pub fn x(&self) -> (v: T)
        requires
            self.wf(),
        ensures
            v == self@[0],
    {
        self.at(0, 0)
    }

    /// The second component.
    pub fn y(&self) -> (v: T)
        requires
            self.wf(),
        ensures
            v == self@[1],
    {
        self.at(1, 0)
    }

    /// The third component.
    pub fn z(&self) -> (v: T)
        requires
            self.wf(),
        ensures
            v == self@[2],
    {
        self.at(2, 0)
    }

    /// The fourth component.
    pub fn w(&self) -> (v: T)
        requires
            self.wf(),
        ensures
            v == self@[3],
    {
        self.at(3, 0)
    }

    /// A mutable borrow of the first component.
    pub fn x_mut(&mut self) -> (e: &mut T)
        requires
            old(self).wf(),
        ensures
            *e == old(self)@[0],
            final(self)@ == old(self)@.update(0, *final(e)),
            final(self).wf(),
    {
        self.entry_mut(0)
    }

    /// A mutable borrow of the second component.
    pub fn y_mut(&mut self) -> (e: &mut T)
        requires
            old(self).wf(),
        ensures
            *e == old(self)@[1],
            final(self)@ == old(self)@.update(1, *final(e)),
            final(self).wf(),
    {
        self.entry_mut(1)
    }

    /// A mutable borrow of the third component.
    pub fn z_mut(&mut self) -> (e: &mut T)
        requires
            old(self).wf(),
        ensures
            *e == old(self)@[2],
            final(self)@ == old(self)@.update(2, *final(e)),
            final(self).wf(),
    {
        self.entry_mut(2)
    }

    /// A mutable borrow of the fourth component.
    pub fn w_mut(&mut self) -> (e: &mut T)
        requires
            old(self).wf(),
        ensures
            *e == old(self)@[3],
            final(self)@ == old(self)@.update(3, *final(e)),
            final(self).wf(),
    {
        self.entry_mut(3)
    }
}

} // verus!
