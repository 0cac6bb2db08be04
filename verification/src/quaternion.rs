//! Quaternions: scalars of the form `a + b*i + c*j + d*k`.

use vstd::prelude::*;

use crate::complex::Complex;
use crate::matrix::TMat;
use crate::scalar::{lerp, lerp_req, lerp_val, Scalar};
use crate::vector::Vec3;

verus! {

/// A quaternion `a + b*i + c*j + d*k`: a scalar part `a` and a vector
/// part `(b, c, d)`.
#[derive(Debug, Clone, Copy, PartialEq)]
pub struct Quaternion<T> {
    pub a: T,
    pub b: T,
    pub c: T,
    pub d: T,
}

/// What `conjugate` returns: the vector part negated.
pub open spec fn qconj_val<T: Scalar>(q: Quaternion<T>) -> Quaternion<T> {
    Quaternion { a: q.a, b: q.b.neg_val(), c: q.c.neg_val(), d: q.d.neg_val() }
}

/// On which quaternions `conjugate` is defined.
pub open spec fn qconj_req<T: Scalar>(q: Quaternion<T>) -> bool {
    q.b.neg_req() && q.c.neg_req() && q.d.neg_req()
}

/// What the quaternion dot product returns:
/// `a1*a2 + b1*b2 + c1*c2 + d1*d2`.
pub open spec fn qdot_val<T: Scalar>(p: Quaternion<T>, q: Quaternion<T>) -> T {
    p.a.mul_val(q.a).add_val(p.b.mul_val(q.b)).add_val(p.c.mul_val(q.c)).add_val(
        p.d.mul_val(q.d),
    )
}

/// On which quaternions the dot product is defined.
pub open spec fn qdot_req<T: Scalar>(p: Quaternion<T>, q: Quaternion<T>) -> bool {
    &&& p.a.mul_req(q.a)
    &&& p.b.mul_req(q.b)
    &&& p.c.mul_req(q.c)
    &&& p.d.mul_req(q.d)
    &&& p.a.mul_val(q.a).add_req(p.b.mul_val(q.b))
    &&& p.a.mul_val(q.a).add_val(p.b.mul_val(q.b)).add_req(p.c.mul_val(q.c))
    &&& p.a.mul_val(q.a).add_val(p.b.mul_val(q.b)).add_val(p.c.mul_val(q.c)).add_req(
        p.d.mul_val(q.d),
    )
}

/// What the Hamilton product returns, component by component, exactly
/// as the standard formula writes it.
pub open spec fn qmul_val<T: Scalar>(p: Quaternion<T>, q: Quaternion<T>) -> Quaternion<T> {
    Quaternion {
        a: p.a.mul_val(q.a).sub_val(p.b.mul_val(q.b)).sub_val(p.c.mul_val(q.c)).sub_val(
            p.d.mul_val(q.d),
        ),
        b: p.a.mul_val(q.b).add_val(p.b.mul_val(q.a)).add_val(p.c.mul_val(q.d)).sub_val(
            p.d.mul_val(q.c),
        ),
        c: p.a.mul_val(q.c).sub_val(p.b.mul_val(q.d)).add_val(p.c.mul_val(q.a)).add_val(
            p.d.mul_val(q.b),
        ),
        d: p.a.mul_val(q.d).add_val(p.b.mul_val(q.c)).sub_val(p.c.mul_val(q.b)).add_val(
            p.d.mul_val(q.a),
        ),
    }
}

/// On which quaternions the Hamilton product is defined: every entry
/// product and every partial sum of the four component formulas.
pub open spec fn qmul_req<T: Scalar>(p: Quaternion<T>, q: Quaternion<T>) -> bool {
    &&& p.a.mul_req(q.a) && p.b.mul_req(q.b) && p.c.mul_req(q.c) && p.d.mul_req(q.d)
    &&& p.a.mul_req(q.b) && p.b.mul_req(q.a) && p.c.mul_req(q.d) && p.d.mul_req(q.c)
    &&& p.a.mul_req(q.c) && p.b.mul_req(q.d) && p.c.mul_req(q.a) && p.d.mul_req(q.b)
    &&& p.a.mul_req(q.d) && p.b.mul_req(q.c) && p.c.mul_req(q.b) && p.d.mul_req(q.a)
    &&& p.a.mul_val(q.a).sub_req(p.b.mul_val(q.b))
    &&& p.a.mul_val(q.a).sub_val(p.b.mul_val(q.b)).sub_req(p.c.mul_val(q.c))
    &&& p.a.mul_val(q.a).sub_val(p.b.mul_val(q.b)).sub_val(p.c.mul_val(q.c)).sub_req(
        p.d.mul_val(q.d),
    )
    &&& p.a.mul_val(q.b).add_req(p.b.mul_val(q.a))
    &&& p.a.mul_val(q.b).add_val(p.b.mul_val(q.a)).add_req(p.c.mul_val(q.d))
    &&& p.a.mul_val(q.b).add_val(p.b.mul_val(q.a)).add_val(p.c.mul_val(q.d)).sub_req(
        p.d.mul_val(q.c),
    )
    &&& p.a.mul_val(q.c).sub_req(p.b.mul_val(q.d))
    &&& p.a.mul_val(q.c).sub_val(p.b.mul_val(q.d)).add_req(p.c.mul_val(q.a))
    &&& p.a.mul_val(q.c).sub_val(p.b.mul_val(q.d)).add_val(p.c.mul_val(q.a)).add_req(
        p.d.mul_val(q.b),
    )
    &&& p.a.mul_val(q.d).add_req(p.b.mul_val(q.c))
    &&& p.a.mul_val(q.d).add_val(p.b.mul_val(q.c)).sub_req(p.c.mul_val(q.b))
    &&& p.a.mul_val(q.d).add_val(p.b.mul_val(q.c)).sub_val(p.c.mul_val(q.b)).add_req(
        p.d.mul_val(q.a),
    )
}

/// What dividing a quaternion by a scalar returns: every component
/// divided.
pub open spec fn qdiv_scalar_val<T: Scalar>(q: Quaternion<T>, s: T) -> Quaternion<T> {
    Quaternion {
        a: q.a.div_val(s),
        b: q.b.div_val(s),
        c: q.c.div_val(s),
        d: q.d.div_val(s),
    }
}

/// On which operands dividing a quaternion by a scalar is defined.
pub open spec fn qdiv_scalar_req<T: Scalar>(q: Quaternion<T>, s: T) -> bool {
    q.a.div_req(s) && q.b.div_req(s) && q.c.div_req(s) && q.d.div_req(s)
}

/// What `abs` returns: the square root of the scalar part of
/// `conjugate(q) * q`, which is the squared norm.
pub open spec fn qabs_val<T: Scalar>(q: Quaternion<T>) -> T {
    qmul_val(qconj_val(q), q).a.sqrt_val()
}

/// On which quaternions `abs` is defined.
pub open spec fn qabs_req<T: Scalar>(q: Quaternion<T>) -> bool {
    qconj_req(q) && qmul_req(qconj_val(q), q) && qmul_val(qconj_val(q), q).a.sqrt_req()
}

/// What `inverse` returns: the conjugate divided by the scalar part of
/// `conjugate(q) * q`.
pub open spec fn qinv_val<T: Scalar>(q: Quaternion<T>) -> Quaternion<T> {
    qdiv_scalar_val(qconj_val(q), qmul_val(qconj_val(q), q).a)
}

/// On which quaternions `inverse` is defined. A quaternion whose
/// squared norm cannot divide (zero, say) is the caller's
/// responsibility, exactly as the scalar's division states it.
pub open spec fn qinv_req<T: Scalar>(q: Quaternion<T>) -> bool {
    qconj_req(q) && qmul_req(qconj_val(q), q) && qdiv_scalar_req(
        qconj_val(q),
        qmul_val(qconj_val(q), q).a,
    )
}

/// What quaternion `lerp` returns: each component interpolated.
pub open spec fn qlerp_val<T: Scalar>(p: Quaternion<T>, q: Quaternion<T>, t: T) -> Quaternion<T> {
    Quaternion {
        a: lerp_val(p.a, q.a, t),
        b: lerp_val(p.b, q.b, t),
        c: lerp_val(p.c, q.c, t),
        d: lerp_val(p.d, q.d, t),
    }
}

/// On which operands quaternion `lerp` is defined.
pub open spec fn qlerp_req<T: Scalar>(p: Quaternion<T>, q: Quaternion<T>, t: T) -> bool {
    lerp_req(p.a, q.a, t) && lerp_req(p.b, q.b, t) && lerp_req(p.c, q.c, t) && lerp_req(
        p.d, q.d, t,
    )
}

/// What normalizing a quaternion returns: each component divided by the
/// norm.
pub open spec fn qnormalize_val<T: Scalar>(q: Quaternion<T>) -> Quaternion<T> {
    qdiv_scalar_val(q, qabs_val(q))
}

/// On which quaternions `normalize` is defined.
pub open spec fn qnormalize_req<T: Scalar>(q: Quaternion<T>) -> bool {
    qabs_req(q) && qdiv_scalar_req(q, qabs_val(q))
}

/// The interpolation angle that quaternion `slerp` uses.
pub open spec fn qslerp_theta<T: Scalar>(p: Quaternion<T>, q: Quaternion<T>) -> T {
    qdot_val(p, q).acos_val()
}

/// The weight of the first quaternion in `slerp`.
pub open spec fn qslerp_alpha<T: Scalar>(p: Quaternion<T>, q: Quaternion<T>, t: T) -> T {
    T::one_val().sub_val(t).mul_val(qslerp_theta(p, q)).sin_val().div_val(
        qslerp_theta(p, q).sin_val(),
    )
}

/// The weight of the second quaternion in `slerp`.
pub open spec fn qslerp_beta<T: Scalar>(p: Quaternion<T>, q: Quaternion<T>, t: T) -> T {
    t.mul_val(qslerp_theta(p, q)).sin_val().div_val(qslerp_theta(p, q).sin_val())
}

/// What scaling a quaternion by a scalar returns.
pub open spec fn qmul_scalar_val<T: Scalar>(q: Quaternion<T>, s: T) -> Quaternion<T> {
    Quaternion {
        a: q.a.mul_val(s),
        b: q.b.mul_val(s),
        c: q.c.mul_val(s),
        d: q.d.mul_val(s),
    }
}

/// On which operands scaling a quaternion is defined.
pub open spec fn qmul_scalar_req<T: Scalar>(q: Quaternion<T>, s: T) -> bool {
    q.a.mul_req(s) && q.b.mul_req(s) && q.c.mul_req(s) && q.d.mul_req(s)
}

/// What the quaternion sum returns.
pub open spec fn qadd_val<T: Scalar>(p: Quaternion<T>, q: Quaternion<T>) -> Quaternion<T> {
    Quaternion {
        a: p.a.add_val(q.a),
        b: p.b.add_val(q.b),
        c: p.c.add_val(q.c),
        d: p.d.add_val(q.d),
    }
}

/// On which quaternions the sum is defined.
pub open spec fn qadd_req<T: Scalar>(p: Quaternion<T>, q: Quaternion<T>) -> bool {
    p.a.add_req(q.a) && p.b.add_req(q.b) && p.c.add_req(q.c) && p.d.add_req(q.d)
}

/// What the quaternion difference returns.
pub open spec fn qsub_val<T: Scalar>(p: Quaternion<T>, q: Quaternion<T>) -> Quaternion<T> {
    Quaternion {
        a: p.a.sub_val(q.a),
        b: p.b.sub_val(q.b),
        c: p.c.sub_val(q.c),
        d: p.d.sub_val(q.d),
    }
}

/// On which quaternions the difference is defined.
pub open spec fn qsub_req<T: Scalar>(p: Quaternion<T>, q: Quaternion<T>) -> bool {
    p.a.sub_req(q.a) && p.b.sub_req(q.b) && p.c.sub_req(q.c) && p.d.sub_req(q.d)
}

/// What quaternion `slerp` returns: `p` weighted by `alpha` plus `q`
/// weighted by `beta`, component by component.
pub open spec fn qslerp_val<T: Scalar>(p: Quaternion<T>, q: Quaternion<T>, t: T) -> Quaternion<
    T,
> {
    qadd_val(
        qmul_scalar_val(p, qslerp_alpha(p, q, t)),
        qmul_scalar_val(q, qslerp_beta(p, q, t)),
    )
}

/// On which operands quaternion `slerp` is defined.
pub open spec fn qslerp_req<T: Scalar>(p: Quaternion<T>, q: Quaternion<T>, t: T) -> bool {
    &&& qdot_req(p, q)
    &&& qdot_val(p, q).acos_req()
    &&& qslerp_theta(p, q).sin_req()
    &&& T::one_val().sub_req(t)
    &&& T::one_val().sub_val(t).mul_req(qslerp_theta(p, q))
    &&& T::one_val().sub_val(t).mul_val(qslerp_theta(p, q)).sin_req()
    &&& T::one_val().sub_val(t).mul_val(qslerp_theta(p, q)).sin_val().div_req(
        qslerp_theta(p, q).sin_val(),
    )
    &&& t.mul_req(qslerp_theta(p, q))
    &&& t.mul_val(qslerp_theta(p, q)).sin_req()
    &&& t.mul_val(qslerp_theta(p, q)).sin_val().div_req(qslerp_theta(p, q).sin_val())
    &&& qmul_scalar_req(p, qslerp_alpha(p, q, t))
    &&& qmul_scalar_req(q, qslerp_beta(p, q, t))
    &&& qadd_req(
        qmul_scalar_val(p, qslerp_alpha(p, q, t)),
        qmul_scalar_val(q, qslerp_beta(p, q, t)),
    )
}

/// A 64-bit integer quaternion times its conjugate, in either order, is
/// the real number `dot(q, q)` — the squared norm — with a zero vector
/// part, wherever the products are defined. Dividing the conjugate by
/// that number therefore gives the multiplicative inverse wherever the
/// division is exact: the law behind `inverse` and `abs`.
pub proof fn lemma_mul_conjugate(q: Quaternion<i64>)
    requires
        qconj_req(q),
        qmul_req(q, qconj_val(q)),
        qmul_req(qconj_val(q), q),
        qdot_req(q, q),
    ensures
        qmul_val(q, qconj_val(q)) == (Quaternion {
            a: qdot_val(q, q),
            b: 0i64,
            c: 0i64,
            d: 0i64,
        }),
        qmul_val(qconj_val(q), q) == (Quaternion {
            a: qdot_val(q, q),
            b: 0i64,
            c: 0i64,
            d: 0i64,
        }),
{
    let a = q.a as int;
    let b = q.b as int;
    let c = q.c as int;
    let d = q.d as int;
    let g = qconj_val(q);
    assert(g.a as int == a && g.b as int == -b && g.c as int == -c && g.d as int == -d);
    assert(qdot_val(q, q) as int == a * a + b * b + c * c + d * d);
    assert(qmul_val(q, g).a as int == a * a - b * -b - c * -c - d * -d);
    assert(a * a - b * -b - c * -c - d * -d == a * a + b * b + c * c + d * d)
        by (nonlinear_arith);
    assert(qmul_val(q, g).b as int == a * -b + b * a + c * -d - d * -c);
    assert(a * -b + b * a + c * -d - d * -c == 0) by (nonlinear_arith);
    assert(qmul_val(q, g).c as int == a * -c - b * -d + c * a + d * -b);
    assert(a * -c - b * -d + c * a + d * -b == 0) by (nonlinear_arith);
    assert(qmul_val(q, g).d as int == a * -d + b * -c - c * -b + d * a);
    assert(a * -d + b * -c - c * -b + d * a == 0) by (nonlinear_arith);
    assert(qmul_val(g, q).a as int == a * a - -b * b - -c * c - -d * d);
    assert(a * a - -b * b - -c * c - -d * d == a * a + b * b + c * c + d * d)
        by (nonlinear_arith);
    assert(qmul_val(g, q).b as int == a * b + -b * a + -c * d - -d * c);
    assert(a * b + -b * a + -c * d - -d * c == 0) by (nonlinear_arith);
    assert(qmul_val(g, q).c as int == a * c - -b * d + -c * a + -d * b);
    assert(a * c - -b * d + -c * a + -d * b == 0) by (nonlinear_arith);
    assert(qmul_val(g, q).d as int == a * d + -b * c - -c * b + -d * a);
    assert(a * d + -b * c - -c * b + -d * a == 0) by (nonlinear_arith);
}

/// For a unit quaternion — one whose squared norm is one — the inverse
/// is exact over the integers and the quaternion times its inverse is
/// the identity quaternion. On other integer quaternions the division
/// inside `inverse` truncates, and the law holds only as far as the
/// division is exact.
pub proof fn lemma_unit_mul_inverse(q: Quaternion<i64>)
    requires
        qinv_req(q),
        qmul_req(q, qinv_val(q)),
        qdot_req(q, q),
        qdot_val(q, q) == 1,
    ensures
        qmul_val(q, qinv_val(q)) == (Quaternion { a: 1i64, b: 0i64, c: 0i64, d: 0i64 }),
{
    let a = q.a as int;
    let b = q.b as int;
    let c = q.c as int;
    let d = q.d as int;
    let g = qconj_val(q);
    assert(g.a as int == a && g.b as int == -b && g.c as int == -c && g.d as int == -d);
    assert(qdot_val(q, q) as int == a * a + b * b + c * c + d * d);
    assert(qmul_val(g, q).a as int == a * a - -b * b - -c * c - -d * d);
    assert(a * a - -b * b - -c * c - -d * d == a * a + b * b + c * c + d * d)
        by (nonlinear_arith);
    assert(qmul_val(g, q).a == 1i64);
    assert(qinv_val(q) == qdiv_scalar_val(g, 1i64));
    assert(g.a.div_val(1) == g.a && g.b.div_val(1) == g.b && g.c.div_val(1) == g.c
        && g.d.div_val(1) == g.d);
    assert(qinv_val(q) == g);
    lemma_mul_conjugate(q);
}

impl<T: Scalar> Quaternion<T> {
    /// The zero quaternion.
    pub fn new() -> (q: Self)
        ensures
            q.a == T::zero_val() && q.b == T::zero_val() && q.c == T::zero_val() && q.d
                == T::zero_val(),
    {
        Quaternion { a: T::zero(), b: T::zero(), c: T::zero(), d: T::zero() }
    }

    /// The quaternion `a + b*i + c*j + d*k`.
    pub fn new_from(a: T, b: T, c: T, d: T) -> (q: Self)
        ensures
            q == (Quaternion { a, b, c, d }),
    {
        Quaternion { a, b, c, d }
    }

    /// The conjugate: the vector part negated.
    pub fn conjugate(&self) -> (r: Self)
        requires
            qconj_req(*self),
        ensures
            r == qconj_val(*self),
    {
        Quaternion { a: self.a, b: self.b.neg(), c: self.c.neg(), d: self.d.neg() }
    }

    /// The four-dimensional dot product of two quaternions.
    pub fn dot(&self, other: &Self) -> (r: T)
        requires
            qdot_req(*self, *other),
        ensures
            r == qdot_val(*self, *other),
    {
        self.a.mul(other.a).add(self.b.mul(other.b)).add(self.c.mul(other.c)).add(
            self.d.mul(other.d),
        )
    }

    /// The Hamilton product `self * rhs`. It is not commutative.
    pub fn mul_q(&self, rhs: &Self) -> (r: Self)
        requires
            qmul_req(*self, *rhs),
        ensures
            r == qmul_val(*self, *rhs),
    {
        let (a, b, c, d) = (self.a, self.b, self.c, self.d);
        let (t, x, y, z) = (rhs.a, rhs.b, rhs.c, rhs.d);
        Quaternion {
            a: a.mul(t).sub(b.mul(x)).sub(c.mul(y)).sub(d.mul(z)),
            b: a.mul(x).add(b.mul(t)).add(c.mul(z)).sub(d.mul(y)),
            c: a.mul(y).sub(b.mul(z)).add(c.mul(t)).add(d.mul(x)),
            d: a.mul(z).add(b.mul(y)).sub(c.mul(x)).add(d.mul(t)),
        }
    }

    /// The norm: the square root of the scalar part of
    /// `conjugate(self) * self`.
    pub fn abs(&self) -> (r: T)
        requires
            qabs_req(*self),
        ensures
            r == qabs_val(*self),
    {
        self.conjugate().mul_q(self).a.sqrt()
    }

    /// The multiplicative inverse: the conjugate divided by the squared
    /// norm.
    pub fn inverse(&self) -> (r: Self)
        requires
            qinv_req(*self),
        ensures
            r == qinv_val(*self),
    {
        let n = self.conjugate().mul_q(self).a;
        self.conjugate().div_scalar(n)
    }

    /// The scalar part and the vector part, separated.
    pub fn decompose(&self) -> (r: (T, Vec3<T>))
        ensures
            r.0 == self.a,
            r.1.wf(),
            r.1@ == seq![self.b, self.c, self.d],
    {
        let mut data: Vec<T> = Vec::new();
        data.push(self.b);
        data.push(self.c);
        data.push(self.d);
        let v = TMat::<T, 3, 1>::from_flat_unchecked(data);
        proof {
            assert(v@ =~= seq![self.b, self.c, self.d]);
        }
        (self.a, v)
    }

    /// The conjugation of `self` by `p`: `inverse(p) * self * p`.
    pub fn rotate(&self, p: &Self) -> (r: Self)
        requires
            qinv_req(*p),
            qmul_req(qinv_val(*p), *self),
            qmul_req(qmul_val(qinv_val(*p), *self), *p),
        ensures
            r == qmul_val(qmul_val(qinv_val(*p), *self), *p),
    {
        p.inverse().mul_q(self).mul_q(p)
    }

    /// The quaternion scaled to norm one: each component divided by the
    /// norm.
    pub fn normalize(&self) -> (r: Self)
        requires
            qnormalize_req(*self),
        ensures
            r == qnormalize_val(*self),
    {
        let n = self.abs();
        self.div_scalar(n)
    }

    /// The component-wise linear interpolation between two quaternions.
    pub fn lerp(&self, other: &Self, t: T) -> (r: Self)
        requires
            qlerp_req(*self, *other, t),
        ensures
            r == qlerp_val(*self, *other, t),
    {
        Quaternion {
            a: lerp(self.a, other.a, t),
            b: lerp(self.b, other.b, t),
            c: lerp(self.c, other.c, t),
            d: lerp(self.d, other.d, t),
        }
    }

    /// Linear interpolation followed by normalization.
    pub fn nlerp(&self, other: &Self, t: T) -> (r: Self)
        requires
            qlerp_req(*self, *other, t),
            qnormalize_req(qlerp_val(*self, *other, t)),
        ensures
            r == qnormalize_val(qlerp_val(*self, *other, t)),
    {
        self.lerp(other, t).normalize()
    }

    /// Spherical interpolation between two unit quaternions, with
    /// constant angular velocity in `t`. Only a scalar whose sine is
    /// not constantly zero can meet the requirement: on the exact
    /// integer scalars the divisor `sin(theta)` is always excluded, so
    /// no integer call is possible.
    pub fn slerp(&self, other: &Self, t: T) -> (r: Self)
        requires
            qslerp_req(*self, *other, t),
        ensures
            r == qslerp_val(*self, *other, t),
    {
        let theta = self.dot(other).acos();
        let sin_theta = theta.sin();
        let alpha = T::one().sub(t).mul(theta).sin().div(sin_theta);
        let beta = t.mul(theta).sin().div(sin_theta);
        self.mul_scalar(alpha).add_q(&other.mul_scalar(beta))
    }

    /// The component-wise sum of two quaternions.
    pub fn add_q(&self, rhs: &Self) -> (r: Self)
        requires
            qadd_req(*self, *rhs),
        ensures
            r == qadd_val(*self, *rhs),
    {
        Quaternion {
            a: self.a.add(rhs.a),
            b: self.b.add(rhs.b),
            c: self.c.add(rhs.c),
            d: self.d.add(rhs.d),
        }
    }

    /// The quaternion with `rhs` added to the scalar part only.
    pub fn add_scalar(&self, rhs: T) -> (r: Self)
        requires
            self.a.add_req(rhs),
        ensures
            r == (Quaternion { a: self.a.add_val(rhs), b: self.b, c: self.c, d: self.d }),
    {
        Quaternion { a: self.a.add(rhs), b: self.b, c: self.c, d: self.d }
    }

    /// The component-wise difference of two quaternions.
    pub fn sub_q(&self, rhs: &Self) -> (r: Self)
        requires
            qsub_req(*self, *rhs),
        ensures
            r == qsub_val(*self, *rhs),
    {
        Quaternion {
            a: self.a.sub(rhs.a),
            b: self.b.sub(rhs.b),
            c: self.c.sub(rhs.c),
            d: self.d.sub(rhs.d),
        }
    }

    /// The quaternion with `rhs` subtracted from the scalar part only.
    pub fn sub_scalar(&self, rhs: T) -> (r: Self)
        requires
            self.a.sub_req(rhs),
        ensures
            r == (Quaternion { a: self.a.sub_val(rhs), b: self.b, c: self.c, d: self.d }),
    {
        Quaternion { a: self.a.sub(rhs), b: self.b, c: self.c, d: self.d }
    }

    /// Every component scaled by `rhs`.
    pub fn mul_scalar(&self, rhs: T) -> (r: Self)
        requires
            qmul_scalar_req(*self, rhs),
        ensures
            r == qmul_scalar_val(*self, rhs),
    {
        Quaternion {
            a: self.a.mul(rhs),
            b: self.b.mul(rhs),
            c: self.c.mul(rhs),
            d: self.d.mul(rhs),
        }
    }

    /// Every component divided by `rhs`.
    pub fn div_scalar(&self, rhs: T) -> (r: Self)
        requires
            qdiv_scalar_req(*self, rhs),
        ensures
            r == qdiv_scalar_val(*self, rhs),
    {
        Quaternion {
            a: self.a.div(rhs),
            b: self.b.div(rhs),
            c: self.c.div(rhs),
            d: self.d.div(rhs),
        }
    }

    /// Division by a quaternion: `self` times the inverse of `rhs`.
    pub fn div_q(&self, rhs: &Self) -> (r: Self)
        requires
            qinv_req(*rhs),
            qmul_req(*self, qinv_val(*rhs)),
        ensures
            r == qmul_val(*self, qinv_val(*rhs)),
    {
        self.mul_q(&rhs.inverse())
    }

    /// The quaternion with the complex number embedded in its first two
    /// components.
    pub fn from_complex(value: &Complex<T>) -> (q: Self)
        ensures
            q == (Quaternion { a: value.x, b: value.y, c: T::zero_val(), d: T::zero_val() }),
    {
        Quaternion { a: value.x, b: value.y, c: T::zero(), d: T::zero() }
    }
}

} // verus!
