//! Complex numbers: scalars of the form `x + y*i`.

use vstd::prelude::*;

use crate::scalar::{lerp, lerp_req, lerp_val, Scalar};

verus! {

/// A complex number `x + y*i`.
#[derive(Debug, Clone, Copy, PartialEq)]
pub struct Complex<T> {
    pub x: T,
    pub y: T,
}

/// What `conjugate` returns: the imaginary part negated.
pub open spec fn cconj_val<T: Scalar>(z: Complex<T>) -> Complex<T> {
    Complex { x: z.x, y: z.y.neg_val() }
}

/// On which complex numbers `conjugate` is defined.
pub open spec fn cconj_req<T: Scalar>(z: Complex<T>) -> bool {
    z.y.neg_req()
}

/// What the two-dimensional dot product returns: `x1*x2 + y1*y2`.
pub open spec fn cdot_val<T: Scalar>(w: Complex<T>, z: Complex<T>) -> T {
    w.x.mul_val(z.x).add_val(w.y.mul_val(z.y))
}

/// On which complex numbers the dot product is defined.
pub open spec fn cdot_req<T: Scalar>(w: Complex<T>, z: Complex<T>) -> bool {
    w.x.mul_req(z.x) && w.y.mul_req(z.y) && w.x.mul_val(z.x).add_req(w.y.mul_val(z.y))
}

/// What the complex product returns:
/// `(a + b*i)(c + d*i) = (a*c - b*d) + (a*d + b*c)*i`.
pub open spec fn cmul_val<T: Scalar>(w: Complex<T>, z: Complex<T>) -> Complex<T> {
    Complex {
        x: w.x.mul_val(z.x).sub_val(w.y.mul_val(z.y)),
        y: w.x.mul_val(z.y).add_val(w.y.mul_val(z.x)),
    }
}

/// On which complex numbers the product is defined.
pub open spec fn cmul_req<T: Scalar>(w: Complex<T>, z: Complex<T>) -> bool {
    &&& w.x.mul_req(z.x) && w.y.mul_req(z.y) && w.x.mul_val(z.x).sub_req(w.y.mul_val(z.y))
    &&& w.x.mul_req(z.y) && w.y.mul_req(z.x) && w.x.mul_val(z.y).add_req(w.y.mul_val(z.x))
}

/// What dividing a complex number by a scalar returns.
pub open spec fn cdiv_scalar_val<T: Scalar>(z: Complex<T>, s: T) -> Complex<T> {
    Complex { x: z.x.div_val(s), y: z.y.div_val(s) }
}

/// On which operands dividing by a scalar is defined.
pub open spec fn cdiv_scalar_req<T: Scalar>(z: Complex<T>, s: T) -> bool {
    z.x.div_req(s) && z.y.div_req(s)
}

/// What `abs` returns: the square root of the squared norm
/// `x*x + y*y`.
pub open spec fn cabs_val<T: Scalar>(z: Complex<T>) -> T {
    cdot_val(z, z).sqrt_val()
}

/// On which complex numbers `abs` is defined.
pub open spec fn cabs_req<T: Scalar>(z: Complex<T>) -> bool {
    cdot_req(z, z) && cdot_val(z, z).sqrt_req()
}

/// What `inverse` returns: the conjugate divided by the squared norm.
pub open spec fn cinv_val<T: Scalar>(z: Complex<T>) -> Complex<T> {
    cdiv_scalar_val(cconj_val(z), cdot_val(z, z))
}

/// On which complex numbers `inverse` is defined. A number whose
/// squared norm cannot divide (zero, say) is the caller's
/// responsibility, exactly as the scalar's division states it.
pub open spec fn cinv_req<T: Scalar>(z: Complex<T>) -> bool {
    cconj_req(z) && cdot_req(z, z) && cdiv_scalar_req(cconj_val(z), cdot_val(z, z))
}

/// What normalizing a complex number returns: each part divided by the
/// norm.
pub open spec fn cnormalize_val<T: Scalar>(z: Complex<T>) -> Complex<T> {
    cdiv_scalar_val(z, cabs_val(z))
}

/// On which complex numbers `normalize` is defined.
pub open spec fn cnormalize_req<T: Scalar>(z: Complex<T>) -> bool {
    cabs_req(z) && cdiv_scalar_req(z, cabs_val(z))
}

/// What complex `lerp` returns: each part interpolated.
pub open spec fn clerp_val<T: Scalar>(w: Complex<T>, z: Complex<T>, t: T) -> Complex<T> {
    Complex { x: lerp_val(w.x, z.x, t), y: lerp_val(w.y, z.y, t) }
}

/// On which operands complex `lerp` is defined.
pub open spec fn clerp_req<T: Scalar>(w: Complex<T>, z: Complex<T>, t: T) -> bool {
    lerp_req(w.x, z.x, t) && lerp_req(w.y, z.y, t)
}

/// What scaling a complex number by a scalar returns.
pub open spec fn cmul_scalar_val<T: Scalar>(z: Complex<T>, s: T) -> Complex<T> {
    Complex { x: z.x.mul_val(s), y: z.y.mul_val(s) }
}

/// On which operands scaling is defined.
pub open spec fn cmul_scalar_req<T: Scalar>(z: Complex<T>, s: T) -> bool {
    z.x.mul_req(s) && z.y.mul_req(s)
}

/// What the complex sum returns.
pub open spec fn cadd_val<T: Scalar>(w: Complex<T>, z: Complex<T>) -> Complex<T> {
    Complex { x: w.x.add_val(z.x), y: w.y.add_val(z.y) }
}

/// On which complex numbers the sum is defined.
pub open spec fn cadd_req<T: Scalar>(w: Complex<T>, z: Complex<T>) -> bool {
    w.x.add_req(z.x) && w.y.add_req(z.y)
}

/// What the complex difference returns.
pub open spec fn csub_val<T: Scalar>(w: Complex<T>, z: Complex<T>) -> Complex<T> {
    Complex { x: w.x.sub_val(z.x), y: w.y.sub_val(z.y) }
}

/// On which complex numbers the difference is defined.
pub open spec fn csub_req<T: Scalar>(w: Complex<T>, z: Complex<T>) -> bool {
    w.x.sub_req(z.x) && w.y.sub_req(z.y)
}

/// What `exp` returns: `exp(x + y*i) = (cos(y) + sin(y)*i) * exp(x)`.
pub open spec fn cexp_val<T: Scalar>(z: Complex<T>) -> Complex<T> {
    cmul_scalar_val(Complex { x: z.y.cos_val(), y: z.y.sin_val() }, z.x.exp_val())
}

/// On which complex numbers `exp` is defined.
pub open spec fn cexp_req<T: Scalar>(z: Complex<T>) -> bool {
    z.y.cos_req() && z.y.sin_req() && z.x.exp_req() && cmul_scalar_req(
        Complex { x: z.y.cos_val(), y: z.y.sin_val() },
        z.x.exp_val(),
    )
}

/// The interpolation angle that complex `slerp` uses.
pub open spec fn cslerp_theta<T: Scalar>(w: Complex<T>, z: Complex<T>) -> T {
    cdot_val(w, z).acos_val()
}

/// The weight of the first number in `slerp`.
pub open spec fn cslerp_alpha<T: Scalar>(w: Complex<T>, z: Complex<T>, t: T) -> T {
    T::one_val().sub_val(t).mul_val(cslerp_theta(w, z)).sin_val().div_val(
        cslerp_theta(w, z).sin_val(),
    )
}

/// The weight of the second number in `slerp`.
pub open spec fn cslerp_beta<T: Scalar>(w: Complex<T>, z: Complex<T>, t: T) -> T {
    t.mul_val(cslerp_theta(w, z)).sin_val().div_val(cslerp_theta(w, z).sin_val())
}

/// What complex `slerp` returns: `w` weighted by `alpha` plus `z`
/// weighted by `beta`.
pub open spec fn cslerp_val<T: Scalar>(w: Complex<T>, z: Complex<T>, t: T) -> Complex<T> {
    cadd_val(
        cmul_scalar_val(w, cslerp_alpha(w, z, t)),
        cmul_scalar_val(z, cslerp_beta(w, z, t)),
    )
}

/// On which operands complex `slerp` is defined.
pub open spec fn cslerp_req<T: Scalar>(w: Complex<T>, z: Complex<T>, t: T) -> bool {
    &&& cdot_req(w, z)
    &&& cdot_val(w, z).acos_req()
    &&& cslerp_theta(w, z).sin_req()
    &&& T::one_val().sub_req(t)
    &&& T::one_val().sub_val(t).mul_req(cslerp_theta(w, z))
    &&& T::one_val().sub_val(t).mul_val(cslerp_theta(w, z)).sin_req()
    &&& T::one_val().sub_val(t).mul_val(cslerp_theta(w, z)).sin_val().div_req(
        cslerp_theta(w, z).sin_val(),
    )
    &&& t.mul_req(cslerp_theta(w, z))
    &&& t.mul_val(cslerp_theta(w, z)).sin_req()
    &&& t.mul_val(cslerp_theta(w, z)).sin_val().div_req(cslerp_theta(w, z).sin_val())
    &&& cmul_scalar_req(w, cslerp_alpha(w, z, t))
    &&& cmul_scalar_req(z, cslerp_beta(w, z, t))
    &&& cadd_req(
        cmul_scalar_val(w, cslerp_alpha(w, z, t)),
        cmul_scalar_val(z, cslerp_beta(w, z, t)),
    )
}

impl<T: Scalar> Complex<T> {
    /// The zero complex number.
    pub fn new() -> (z: Self)
        ensures
            z.x == T::zero_val() && z.y == T::zero_val(),
    {
        Complex { x: T::zero(), y: T::zero() }
    }

    /// The complex number `x + y*i`.
    pub fn new_from(x: T, y: T) -> (z: Self)
        ensures
            z == (Complex { x, y }),
    {
        Complex { x, y }
    }

    /// The conjugate: the imaginary part negated.
    pub fn conjugate(&self) -> (r: Self)
        requires
            cconj_req(*self),
        ensures
            r == cconj_val(*self),
    {
        Complex { x: self.x, y: self.y.neg() }
    }

    /// The complex number scaled to norm one.
    pub fn normalize(&self) -> (r: Self)
        requires
            cnormalize_req(*self),
        ensures
            r == cnormalize_val(*self),
    {
        let n = self.abs();
        self.div_scalar(n)
    }

    /// The two-dimensional dot product.
    pub fn dot(&self, other: &Self) -> (r: T)
        requires
            cdot_req(*self, *other),
        ensures
            r == cdot_val(*self, *other),
    {
        self.x.mul(other.x).add(self.y.mul(other.y))
    }

    /// The norm: the square root of `x*x + y*y`.
    pub fn abs(&self) -> (r: T)
        requires
            cabs_req(*self),
        ensures
            r == cabs_val(*self),
    {
        self.x.mul(self.x).add(self.y.mul(self.y)).sqrt()
    }

    /// The multiplicative inverse: the conjugate divided by the squared
    /// norm.
    pub fn inverse(&self) -> (r: Self)
        requires
            cinv_req(*self),
        ensures
            r == cinv_val(*self),
    {
        let n = self.x.mul(self.x).add(self.y.mul(self.y));
        self.conjugate().div_scalar(n)
    }

    /// The part-wise linear interpolation between two complex numbers.
    pub fn lerp(&self, other: &Self, t: T) -> (r: Self)
        requires
            clerp_req(*self, *other, t),
        ensures
            r == clerp_val(*self, *other, t),
    {
        Complex { x: lerp(self.x, other.x, t), y: lerp(self.y, other.y, t) }
    }

    /// Linear interpolation followed by normalization.
    pub fn nlerp(&self, other: &Self, t: T) -> (r: Self)
        requires
            clerp_req(*self, *other, t),
            cnormalize_req(clerp_val(*self, *other, t)),
        ensures
            r == cnormalize_val(clerp_val(*self, *other, t)),
    {
        self.lerp(other, t).normalize()
    }

    /// The complex exponential:
    /// `exp(x + y*i) = (cos(y) + sin(y)*i) * exp(x)`.
    pub fn exp(&self) -> (r: Self)
        requires
            cexp_req(*self),
        ensures
            r == cexp_val(*self),
    {
        let (c, theta) = (self.x, self.y);
        Complex::new_from(theta.cos(), theta.sin()).mul_scalar(c.exp())
    }

    /// Spherical interpolation between two unit complex numbers. Only
    /// a scalar whose sine is not constantly zero can meet the
    /// requirement: on the exact integer scalars the divisor
    /// `sin(theta)` is always excluded, so no integer call is possible.
    pub fn slerp(&self, other: &Self, t: T) -> (r: Self)
        requires
            cslerp_req(*self, *other, t),
        ensures
            r == cslerp_val(*self, *other, t),
    {
        let theta = self.dot(other).acos();
        let sin_theta = theta.sin();
        let alpha = T::one().sub(t).mul(theta).sin().div(sin_theta);
        let beta = t.mul(theta).sin().div(sin_theta);
        self.mul_scalar(alpha).add_c(&other.mul_scalar(beta))
    }

    /// The part-wise sum of two complex numbers.
    pub fn add_c(&self, rhs: &Self) -> (r: Self)
        requires
            cadd_req(*self, *rhs),
        ensures
            r == cadd_val(*self, *rhs),
    {
        Complex { x: self.x.add(rhs.x), y: self.y.add(rhs.y) }
    }

    /// The complex number with `rhs` added to the real part only.
    pub fn add_scalar(&self, rhs: T) -> (r: Self)
        requires
            self.x.add_req(rhs),
        ensures
            r == (Complex { x: self.x.add_val(rhs), y: self.y }),
    {
        Complex { x: self.x.add(rhs), y: self.y }
    }

    /// The part-wise difference of two complex numbers.
    pub fn sub_c(&self, rhs: &Self) -> (r: Self)
        requires
            csub_req(*self, *rhs),
        ensures
            r == csub_val(*self, *rhs),
    {
        Complex { x: self.x.sub(rhs.x), y: self.y.sub(rhs.y) }
    }

    /// The complex number with `rhs` subtracted from the real part
    /// only.
    pub fn sub_scalar(&self, rhs: T) -> (r: Self)
        requires
            self.x.sub_req(rhs),
        ensures
            r == (Complex { x: self.x.sub_val(rhs), y: self.y }),
    {
        Complex { x: self.x.sub(rhs), y: self.y }
    }

    /// The complex product.
    pub fn mul_c(&self, rhs: &Self) -> (r: Self)
        requires
            cmul_req(*self, *rhs),
        ensures
            r == cmul_val(*self, *rhs),
    {
        let (a, b) = (self.x, self.y);
        let (c, d) = (rhs.x, rhs.y);
        Complex { x: a.mul(c).sub(b.mul(d)), y: a.mul(d).add(b.mul(c)) }
    }

    /// Every part scaled by `rhs`.
    pub fn mul_scalar(&self, rhs: T) -> (r: Self)
        requires
            cmul_scalar_req(*self, rhs),
        ensures
            r == cmul_scalar_val(*self, rhs),
    {
        Complex { x: self.x.mul(rhs), y: self.y.mul(rhs) }
    }

    /// The additive inverse: both parts negated.
    pub fn neg(&self) -> (r: Self)
        requires
            self.x.neg_req(),
            self.y.neg_req(),
        ensures
            r == (Complex { x: self.x.neg_val(), y: self.y.neg_val() }),
    {
        Complex { x: self.x.neg(), y: self.y.neg() }
    }

    /// Every part divided by `rhs`.
    pub fn div_scalar(&self, rhs: T) -> (r: Self)
        requires
            cdiv_scalar_req(*self, rhs),
        ensures
            r == cdiv_scalar_val(*self, rhs),
    {
        Complex { x: self.x.div(rhs), y: self.y.div(rhs) }
    }

    /// Division by a complex number: `self` times the inverse of `rhs`.
    pub fn div_c(&self, rhs: &Self) -> (r: Self)
        requires
            cinv_req(*rhs),
            cmul_req(*self, cinv_val(*rhs)),
        ensures
            r == cmul_val(*self, cinv_val(*rhs)),
    {
        self.mul_c(&rhs.inverse())
    }
}

} // verus!
