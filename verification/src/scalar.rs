//! The abstract scalar that the algebra is generic over, and its
//! integer instantiation.

use vstd::prelude::*;

verus! {

/// An abstract scalar: the element type of matrices, vectors,
/// quaternions and complex numbers.
///
/// Each implementation fixes, as spec functions, what its arithmetic
/// means (`add_val`, `mul_val`, ...) and on which operands each
/// operation is defined (`add_req`, `mul_req`, ...); every exec method
/// then returns exactly the value its spec counterpart names, and is
/// callable exactly where its requirement holds. Contracts of the
/// algebra are stated over these spec functions, so they pin the result
/// of every operation for every implementation.
///
/// The unary maps `sqrt`, `sin`, `cos`, `tan`, `acos` and `exp` belong
/// to the scalar as well: the interpolation and transform constructors
/// need them. An implementation that has no exact value for one of
/// them documents the interpretation it chooses.
pub trait Scalar: Sized + Copy {
    spec fn zero_val() -> Self;

    spec fn one_val() -> Self;

    spec fn add_req(self, rhs: Self) -> bool;

    spec fn add_val(self, rhs: Self) -> Self;

    spec fn sub_req(self, rhs: Self) -> bool;

    spec fn sub_val(self, rhs: Self) -> Self;

    spec fn mul_req(self, rhs: Self) -> bool;

    spec fn mul_val(self, rhs: Self) -> Self;

    spec fn div_req(self, rhs: Self) -> bool;

    spec fn div_val(self, rhs: Self) -> Self;

    spec fn neg_req(self) -> bool;

    spec fn neg_val(self) -> Self;

    spec fn sqrt_req(self) -> bool;

    spec fn sqrt_val(self) -> Self;

    spec fn sin_req(self) -> bool;

    spec fn sin_val(self) -> Self;

    spec fn cos_req(self) -> bool;

    spec fn cos_val(self) -> Self;

    spec fn tan_req(self) -> bool;

    spec fn tan_val(self) -> Self;

    spec fn acos_req(self) -> bool;

    spec fn acos_val(self) -> Self;

    spec fn exp_req(self) -> bool;

    spec fn exp_val(self) -> Self;

    fn zero() -> (r: Self)
        ensures
            r == Self::zero_val(),
    ;

    fn one() -> (r: Self)
        ensures
            r == Self::one_val(),
    ;

    fn add(self, rhs: Self) -> (r: Self)
        requires
            self.add_req(rhs),
        ensures
            r == self.add_val(rhs),
    ;

    fn sub(self, rhs: Self) -> (r: Self)
        requires
            self.sub_req(rhs),
        ensures
            r == self.sub_val(rhs),
    ;

    fn mul(self, rhs: Self) -> (r: Self)
        requires
            self.mul_req(rhs),
        ensures
            r == self.mul_val(rhs),
    ;

    fn div(self, rhs: Self) -> (r: Self)
        requires
            self.div_req(rhs),
        ensures
            r == self.div_val(rhs),
    ;

    fn neg(self) -> (r: Self)
        requires
            self.neg_req(),
        ensures
            r == self.neg_val(),
    ;

    fn sqrt(self) -> (r: Self)
        requires
            self.sqrt_req(),
        ensures
            r == self.sqrt_val(),
    ;

    fn sin(self) -> (r: Self)
        requires
            self.sin_req(),
        ensures
            r == self.sin_val(),
    ;

    fn cos(self) -> (r: Self)
        requires
            self.cos_req(),
        ensures
            r == self.cos_val(),
    ;

    fn tan(self) -> (r: Self)
        requires
            self.tan_req(),
        ensures
            r == self.tan_val(),
    ;

    fn acos(self) -> (r: Self)
        requires
            self.acos_req(),
        ensures
            r == self.acos_val(),
    ;

    fn exp(self) -> (r: Self)
        requires
            self.exp_req(),
        ensures
            r == self.exp_val(),
    ;
}

/// Holds when `r` is the floor of the square root of `n`.
pub open spec fn is_floor_sqrt(n: int, r: int) -> bool {
    0 <= r && r * r <= n && n < (r + 1) * (r + 1)
}

/// Two floors of the same square root are equal.
pub proof fn lemma_floor_sqrt_unique(n: int, a: int, b: int)
    requires
        is_floor_sqrt(n, a),
        is_floor_sqrt(n, b),
    ensures
        a == b,
{
    if a < b {
        assert((a + 1) * (a + 1) <= b * b) by (nonlinear_arith)
            requires 0 <= a && a < b;
    }
    if b < a {
        assert((b + 1) * (b + 1) <= a * a) by (nonlinear_arith)
            requires 0 <= b && b < a;
    }
}

/// Every non-negative integer has a floor square root.
pub proof fn lemma_floor_sqrt_exists(n: int)
    requires
        n >= 0,
    ensures
        exists|r: int| is_floor_sqrt(n, r),
    decreases n,
{
    if n == 0 {
        assert(is_floor_sqrt(0, 0));
    } else {
        let m = n - 1;
        lemma_floor_sqrt_exists(m);
        let r = choose|r: int| is_floor_sqrt(m, r);
        if (r + 1) * (r + 1) <= n {
            assert(is_floor_sqrt(n, r + 1)) by (nonlinear_arith)
                requires is_floor_sqrt(n - 1, r) && (r + 1) * (r + 1) <= n;
        } else {
            assert(is_floor_sqrt(n, r));
        }
    }
}

/// What `sqrt` returns on the integer scalar: the floor of the square
/// root of a non-negative operand.
pub proof fn lemma_i64_sqrt_val(n: i64)
    requires
        n >= 0,
    ensures
        is_floor_sqrt(n as int, n.sqrt_val() as int),
{
    lemma_floor_sqrt_exists(n as int);
    let r = choose|r: int| is_floor_sqrt(n as int, r);
    assert(r <= n) by (nonlinear_arith)
        requires 0 <= r && r * r <= n;
    assert((r as i64) as int == r);
}

/// The exact integer scalar.
///
/// Arithmetic is the usual arithmetic of `i64`, defined exactly where it
/// neither overflows nor divides by zero; division truncates toward
/// zero as Rust's does. The square root is the floor square root of a
/// non-negative operand. The transcendental maps have no exact integer
/// value, so this implementation reads them at zero: `sin`, `tan` and
/// `acos` are constantly zero and `cos` and `exp` constantly one, which
/// keeps every integer matrix and rotation exact.
impl Scalar for i64 {
    open spec fn zero_val() -> i64 {
        0
    }

    open spec fn one_val() -> i64 {
        1
    }

    open spec fn add_req(self, rhs: i64) -> bool {
        i64::MIN <= self + rhs <= i64::MAX
    }

    open spec fn add_val(self, rhs: i64) -> i64 {
        (self + rhs) as i64
    }

    open spec fn sub_req(self, rhs: i64) -> bool {
        i64::MIN <= self - rhs <= i64::MAX
    }

    open spec fn sub_val(self, rhs: i64) -> i64 {
        (self - rhs) as i64
    }

    open spec fn mul_req(self, rhs: i64) -> bool {
        i64::MIN <= self * rhs <= i64::MAX
    }

    open spec fn mul_val(self, rhs: i64) -> i64 {
        (self * rhs) as i64
    }

    open spec fn div_req(self, rhs: i64) -> bool {
        rhs != 0 && !(self == i64::MIN && rhs == -1)
    }

    open spec fn div_val(self, rhs: i64) -> i64 {
        if self >= 0 {
            (self / rhs) as i64
        } else {
            (-((-self) / (rhs as int))) as i64
        }
    }

    open spec fn neg_req(self) -> bool {
        self != i64::MIN
    }

    open spec fn neg_val(self) -> i64 {
        (-self) as i64
    }

    open spec fn sqrt_req(self) -> bool {
        self >= 0
    }

    open spec fn sqrt_val(self) -> i64 {
        (choose|r: int| is_floor_sqrt(self as int, r)) as i64
    }

    open spec fn sin_req(self) -> bool {
        true
    }

    open spec fn sin_val(self) -> i64 {
        0
    }

    open spec fn cos_req(self) -> bool {
        true
    }

    open spec fn cos_val(self) -> i64 {
        1
    }

    open spec fn tan_req(self) -> bool {
        true
    }

    open spec fn tan_val(self) -> i64 {
        0
    }

    open spec fn acos_req(self) -> bool {
        true
    }

    open spec fn acos_val(self) -> i64 {
        0
    }

    open spec fn exp_req(self) -> bool {
        true
    }

    open spec fn exp_val(self) -> i64 {
        1
    }

    fn zero() -> (r: i64) {
        0
    }

    fn one() -> (r: i64) {
        1
    }

    fn add(self, rhs: i64) -> (r: i64) {
        self + rhs
    }

    fn sub(self, rhs: i64) -> (r: i64) {
        self - rhs
    }

    fn mul(self, rhs: i64) -> (r: i64) {
        self * rhs
    }

    fn div(self, rhs: i64) -> (r: i64) {
        self / rhs
    }

    fn neg(self) -> (r: i64) {
        -self
    }

    fn sqrt(self) -> (r: i64) {
        let mut root: i64 = 0;
        loop
            invariant
                self >= 0,
                0 <= root <= 3037000499,
                root * root <= self,
            ensures
                is_floor_sqrt(self as int, root as int),
            decreases self - root,
        {
            proof {
                assert((root + 1) * (root + 1) <= 3037000500 * 3037000500) by (nonlinear_arith)
                    requires 0 <= root <= 3037000499;
            }
            let next = (root as i128 + 1) * (root as i128 + 1);
            if next <= self as i128 {
                proof {
                    assert(root < 3037000499) by (nonlinear_arith)
                        requires
                            0 <= root && (root + 1) * (root + 1) <= self
                                && self <= 0x7fff_ffff_ffff_ffff;
                    assert(root < self) by (nonlinear_arith)
                        requires 0 <= root && (root + 1) * (root + 1) <= self;
                }
                root = root + 1;
            } else {
                break;
            }
        }
        proof {
            lemma_floor_sqrt_exists(self as int);
            let chosen = choose|r: int| is_floor_sqrt(self as int, r);
            lemma_floor_sqrt_unique(self as int, root as int, chosen);
        }
        root
    }

    fn sin(self) -> (r: i64) {
        0
    }

    fn cos(self) -> (r: i64) {
        1
    }

    fn tan(self) -> (r: i64) {
        0
    }

    fn acos(self) -> (r: i64) {
        0
    }

    fn exp(self) -> (r: i64) {
        1
    }
}

/// The exact 32-bit integer scalar: the same interpretation as the
/// 64-bit one, within the bounds of `i32`.
impl Scalar for i32 {
    open spec fn zero_val() -> i32 {
        0
    }

    open spec fn one_val() -> i32 {
        1
    }

    open spec fn add_req(self, rhs: i32) -> bool {
        i32::MIN <= self + rhs <= i32::MAX
    }

    open spec fn add_val(self, rhs: i32) -> i32 {
        (self + rhs) as i32
    }

    open spec fn sub_req(self, rhs: i32) -> bool {
        i32::MIN <= self - rhs <= i32::MAX
    }

    open spec fn sub_val(self, rhs: i32) -> i32 {
        (self - rhs) as i32
    }

    open spec fn mul_req(self, rhs: i32) -> bool {
        i32::MIN <= self * rhs <= i32::MAX
    }

    open spec fn mul_val(self, rhs: i32) -> i32 {
        (self * rhs) as i32
    }

    open spec fn div_req(self, rhs: i32) -> bool {
        rhs != 0 && !(self == i32::MIN && rhs == -1)
    }

    open spec fn div_val(self, rhs: i32) -> i32 {
        if self >= 0 {
            (self / rhs) as i32
        } else {
            (-((-self) / (rhs as int))) as i32
        }
    }

    open spec fn neg_req(self) -> bool {
        self != i32::MIN
    }

    open spec fn neg_val(self) -> i32 {
        (-self) as i32
    }

    open spec fn sqrt_req(self) -> bool {
        self >= 0
    }

    open spec fn sqrt_val(self) -> i32 {
        (choose|r: int| is_floor_sqrt(self as int, r)) as i32
    }

    open spec fn sin_req(self) -> bool {
        true
    }

    open spec fn sin_val(self) -> i32 {
        0
    }

    open spec fn cos_req(self) -> bool {
        true
    }

    open spec fn cos_val(self) -> i32 {
        1
    }

    open spec fn tan_req(self) -> bool {
        true
    }

    open spec fn tan_val(self) -> i32 {
        0
    }

    open spec fn acos_req(self) -> bool {
        true
    }

    open spec fn acos_val(self) -> i32 {
        0
    }

    open spec fn exp_req(self) -> bool {
        true
    }

    open spec fn exp_val(self) -> i32 {
        1
    }

    fn zero() -> (r: i32) {
        0
    }

    fn one() -> (r: i32) {
        1
    }

    fn add(self, rhs: i32) -> (r: i32) {
        self + rhs
    }

    fn sub(self, rhs: i32) -> (r: i32) {
        self - rhs
    }

    fn mul(self, rhs: i32) -> (r: i32) {
        self * rhs
    }

    fn div(self, rhs: i32) -> (r: i32) {
        self / rhs
    }

    fn neg(self) -> (r: i32) {
        -self
    }

    fn sqrt(self) -> (r: i32) {
        let mut root: i32 = 0;
        loop
            invariant
                self >= 0,
                0 <= root <= 46340,
                root * root <= self,
            ensures
                is_floor_sqrt(self as int, root as int),
            decreases self - root,
        {
            proof {
                assert((root + 1) * (root + 1) <= 46341 * 46341) by (nonlinear_arith)
                    requires 0 <= root <= 46340;
            }
            let next = (root as i64 + 1) * (root as i64 + 1);
            if next <= self as i64 {
                proof {
                    assert(root < 46340) by (nonlinear_arith)
                        requires
                            0 <= root && (root + 1) * (root + 1) <= self && self <= 0x7fff_ffff;
                    assert(root < self) by (nonlinear_arith)
                        requires 0 <= root && (root + 1) * (root + 1) <= self;
                }
                root = root + 1;
            } else {
                break ;
            }
        }
        proof {
            lemma_floor_sqrt_exists(self as int);
            let chosen = choose|r: int| is_floor_sqrt(self as int, r);
            lemma_floor_sqrt_unique(self as int, root as int, chosen);
        }
        root
    }

    fn sin(self) -> (r: i32) {
        0
    }

    fn cos(self) -> (r: i32) {
        1
    }

    fn tan(self) -> (r: i32) {
        0
    }

    fn acos(self) -> (r: i32) {
        0
    }

    fn exp(self) -> (r: i32) {
        1
    }
}

/// The exact 32-bit unsigned scalar: addition and multiplication are
/// defined where they do not overflow, subtraction where it does not
/// go below zero, and negation only at zero — the one unsigned value
/// equal to its own negation. The square root and the transcendental
/// maps read as on the signed integers.
impl Scalar for u32 {
    open spec fn zero_val() -> u32 {
        0
    }

    open spec fn one_val() -> u32 {
        1
    }

    open spec fn add_req(self, rhs: u32) -> bool {
        self + rhs <= u32::MAX
    }

    open spec fn add_val(self, rhs: u32) -> u32 {
        (self + rhs) as u32
    }

    open spec fn sub_req(self, rhs: u32) -> bool {
        rhs <= self
    }

    open spec fn sub_val(self, rhs: u32) -> u32 {
        (self - rhs) as u32
    }

    open spec fn mul_req(self, rhs: u32) -> bool {
        self * rhs <= u32::MAX
    }

    open spec fn mul_val(self, rhs: u32) -> u32 {
        (self * rhs) as u32
    }

    open spec fn div_req(self, rhs: u32) -> bool {
        rhs != 0
    }

    open spec fn div_val(self, rhs: u32) -> u32 {
        (self / rhs) as u32
    }

    open spec fn neg_req(self) -> bool {
        self == 0
    }

    open spec fn neg_val(self) -> u32 {
        self
    }

    open spec fn sqrt_req(self) -> bool {
        true
    }

    open spec fn sqrt_val(self) -> u32 {
        (choose|r: int| is_floor_sqrt(self as int, r)) as u32
    }

    open spec fn sin_req(self) -> bool {
        true
    }

    open spec fn sin_val(self) -> u32 {
        0
    }

    open spec fn cos_req(self) -> bool {
        true
    }

    open spec fn cos_val(self) -> u32 {
        1
    }

    open spec fn tan_req(self) -> bool {
        true
    }

    open spec fn tan_val(self) -> u32 {
        0
    }

    open spec fn acos_req(self) -> bool {
        true
    }

    open spec fn acos_val(self) -> u32 {
        0
    }

    open spec fn exp_req(self) -> bool {
        true
    }

    open spec fn exp_val(self) -> u32 {
        1
    }

    fn zero() -> (r: u32) {
        0
    }

    fn one() -> (r: u32) {
        1
    }

    fn add(self, rhs: u32) -> (r: u32) {
        self + rhs
    }

    fn sub(self, rhs: u32) -> (r: u32) {
        self - rhs
    }

    fn mul(self, rhs: u32) -> (r: u32) {
        self * rhs
    }

    fn div(self, rhs: u32) -> (r: u32) {
        self / rhs
    }

    fn neg(self) -> (r: u32) {
        self
    }

    fn sqrt(self) -> (r: u32) {
        let mut root: u32 = 0;
        loop
            invariant
                0 <= root <= 65535,
                root * root <= self,
            ensures
                is_floor_sqrt(self as int, root as int),
            decreases self - root,
        {
            proof {
                assert((root + 1) * (root + 1) <= 65536 * 65536) by (nonlinear_arith)
                    requires 0 <= root <= 65535;
            }
            let next = (root as u64 + 1) * (root as u64 + 1);
            if next <= self as u64 {
                proof {
                    assert(root < 65535) by (nonlinear_arith)
                        requires
                            0 <= root && (root + 1) * (root + 1) <= self && self <= 0xffff_ffff;
                    assert(root < self) by (nonlinear_arith)
                        requires 0 <= root && (root + 1) * (root + 1) <= self;
                }
                root = root + 1;
            } else {
                break ;
            }
        }
        proof {
            lemma_floor_sqrt_exists(self as int);
            let chosen = choose|r: int| is_floor_sqrt(self as int, r);
            lemma_floor_sqrt_unique(self as int, root as int, chosen);
        }
        root
    }

    fn sin(self) -> (r: u32) {
        0
    }

    fn cos(self) -> (r: u32) {
        1
    }

    fn tan(self) -> (r: u32) {
        0
    }

    fn acos(self) -> (r: u32) {
        0
    }

    fn exp(self) -> (r: u32) {
        1
    }
}

/// What `lerp` returns: `lhs * (1 - t) + rhs * t`.
pub open spec fn lerp_val<T: Scalar>(lhs: T, rhs: T, t: T) -> T {
    lhs.mul_val(T::one_val().sub_val(t)).add_val(rhs.mul_val(t))
}

/// On which operands `lerp` is defined.
pub open spec fn lerp_req<T: Scalar>(lhs: T, rhs: T, t: T) -> bool {
    &&& T::one_val().sub_req(t)
    &&& lhs.mul_req(T::one_val().sub_val(t))
    &&& rhs.mul_req(t)
    &&& lhs.mul_val(T::one_val().sub_val(t)).add_req(rhs.mul_val(t))
}

/// Linear interpolation between two scalars: `lhs` at `t == 0`, `rhs`
/// at `t == 1`.
pub fn lerp<T: Scalar>(lhs: T, rhs: T, t: T) -> (r: T)
    requires
        lerp_req(lhs, rhs, t),
    ensures
        r == lerp_val(lhs, rhs, t),
{
    lhs.mul(T::one().sub(t)).add(rhs.mul(t))
}

} // verus!
