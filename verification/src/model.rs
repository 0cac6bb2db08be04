//! The mathematical model of the algebra over the unbounded integers,
//! and the laws proved of it.
//!
//! The executable operations are generic over [`crate::scalar::Scalar`]
//! and their contracts pin every entry to a formula over the scalar's
//! own spec functions. For the exact integer scalar those formulas are
//! plain integer arithmetic, so the algebraic laws of the library are
//! stated and proved here once, over flat integer sequences, in the
//! same column-major layout and with the same entry formulas that the
//! executable contracts use.

use vstd::prelude::*;

use crate::matrix::{colq, dotp, dotp_req, lemma_flat_to_cell, rowq};
use crate::scalar::{is_floor_sqrt, Scalar};
use crate::vector::{length_val, normalize_val};

verus! {

/// The sum of `f(0) + f(1) + ... + f(k - 1)`.
pub open spec fn isum(k: int, f: spec_fn(int) -> int) -> int
    decreases k,
{
    if k <= 0 {
        0
    } else {
        isum(k - 1, f) + f(k - 1)
    }
}

/// Two summands that agree term by term have the same sum.
pub proof fn lemma_isum_ext(k: int, f: spec_fn(int) -> int, g: spec_fn(int) -> int)
    requires
        forall|t: int| 0 <= t < k ==> #[trigger] f(t) == g(t),
    ensures
        isum(k, f) == isum(k, g),
    decreases k,
{
    if k > 0 {
        lemma_isum_ext(k - 1, f, g);
    }
}

/// Summation distributes over term-wise addition.
pub proof fn lemma_isum_add(k: int, f: spec_fn(int) -> int, g: spec_fn(int) -> int)
    ensures
        isum(k, |t: int| f(t) + g(t)) == isum(k, f) + isum(k, g),
    decreases k,
{
    let h = |t: int| f(t) + g(t);
    if k > 0 {
        lemma_isum_add(k - 1, f, g);
        assert(isum(k, h) == isum(k - 1, h) + h(k - 1));
    }
}

/// A factor on the right of every term comes out of the sum.
pub proof fn lemma_isum_scale(k: int, f: spec_fn(int) -> int, x: int)
    ensures
        isum(k, |t: int| f(t) * x) == isum(k, f) * x,
    decreases k,
{
    let h = |t: int| f(t) * x;
    if k <= 0 {
        assert(isum(k, f) * x == 0) by (nonlinear_arith)
            requires isum(k, f) == 0;
    } else {
        lemma_isum_scale(k - 1, f, x);
        assert(isum(k, h) == isum(k - 1, f) * x + f(k - 1) * x);
        assert((isum(k - 1, f) + f(k - 1)) * x == isum(k - 1, f) * x + f(k - 1) * x)
            by (nonlinear_arith);
    }
}

/// A double sum can be taken in either order.
pub proof fn lemma_isum_swap(k1: int, k2: int, f: spec_fn(int, int) -> int)
    ensures
        isum(k1, |i: int| isum(k2, |j: int| f(i, j))) == isum(
            k2,
            |j: int| isum(k1, |i: int| f(i, j)),
        ),
    decreases k1,
{
    let rows = |i: int| isum(k2, |j: int| f(i, j));
    let cols = |j: int| isum(k1, |i: int| f(i, j));
    if k1 <= 0 {
        let zed = |j: int| 0;
        assert forall|j: int| 0 <= j < k2 implies #[trigger] cols(j) == zed(j) by {}
        lemma_isum_ext(k2, cols, zed);
        lemma_isum_zero(k2);
    } else {
        let colsm = |j: int| isum(k1 - 1, |i: int| f(i, j));
        let last = |j: int| f(k1 - 1, j);
        lemma_isum_swap(k1 - 1, k2, f);
        assert(isum(k1, rows) == isum(k1 - 1, rows) + rows(k1 - 1));
        assert forall|j: int| 0 <= j < k2 implies #[trigger] cols(j) == colsm(j) + last(j) by {}
        lemma_isum_ext(k2, cols, |j: int| colsm(j) + last(j));
        lemma_isum_add(k2, colsm, last);
    }
}

/// The sum of zeros is zero.
pub proof fn lemma_isum_zero(k: int)
    ensures
        isum(k, |t: int| 0) == 0,
    decreases k,
{
    if k > 0 {
        lemma_isum_zero(k - 1);
    }
}

/// The executable fold is the model: wherever the dot-product fold of
/// the 64-bit integer scalar is defined — no step overflows — its value
/// is the exact integer sum of products, so the laws proved of the
/// integer model hold of what the executable contracts name.
pub proof fn lemma_dotp_exact(a: Seq<i64>, b: Seq<i64>, k: int)
    requires
        dotp_req(a, b, k),
    ensures
        dotp(a, b, k) as int == isum(k, |t: int| a[t] * b[t]),
    decreases k,
{
    let f = |t: int| a[t] * b[t];
    if k > 0 {
        assert(dotp_req(a, b, k - 1)) by {
            assert forall|t: int| 0 <= t < k - 1 implies (#[trigger] a[t]).mul_req(b[t]) && dotp(
                a,
                b,
                t,
            ).add_req(a[t].mul_val(b[t])) by {}
        }
        lemma_dotp_exact(a, b, k - 1);
        assert(a[k - 1].mul_req(b[k - 1]) && dotp(a, b, k - 1).add_req(a[k - 1].mul_val(b[k - 1])));
        assert(isum(k, f) == isum(k - 1, f) + f(k - 1));
    }
}

/// In a sum of non-negative terms, the whole is non-negative, every
/// term is at most the whole, and so is every partial sum.
pub proof fn lemma_isum_nonneg(k: int, f: spec_fn(int) -> int)
    requires
        forall|t: int| 0 <= t < k ==> #[trigger] f(t) >= 0,
    ensures
        isum(k, f) >= 0,
        forall|t: int| 0 <= t < k ==> #[trigger] f(t) <= isum(k, f),
        forall|t: int| 0 <= t <= k ==> #[trigger] isum(t, f) <= isum(k, f),
    decreases k,
{
    if k > 0 {
        lemma_isum_nonneg(k - 1, f);
    }
}

/// A dot-product fold of a vector of signs with itself is defined, is
/// the sum of the squared entries, and stays within the number of
/// entries.
proof fn lemma_dotp_signs(w: Seq<i64>, k: int)
    requires
        0 <= k <= i64::MAX,
        forall|t: int| 0 <= t < k ==> w[t] == -1i64 || w[t] == 0i64 || #[trigger] w[t] == 1i64,
    ensures
        dotp_req(w, w, k),
        0 <= dotp(w, w, k) as int <= k,
        dotp(w, w, k) as int == isum(k, |t: int| w[t] * w[t]),
    decreases k,
{
    let f = |t: int| w[t] * w[t];
    if k > 0 {
        lemma_dotp_signs(w, k - 1);
        let x = w[k - 1];
        if x == -1i64 {
            assert(x.mul_req(x) && x.mul_val(x) == 1i64);
        } else if x == 0i64 {
            assert(x.mul_req(x) && x.mul_val(x) == 0i64);
        } else {
            assert(x.mul_req(x) && x.mul_val(x) == 1i64);
        }
        assert(dotp(w, w, k - 1).add_req(x.mul_val(x)));
        assert forall|t: int| 0 <= t < k implies (#[trigger] w[t]).mul_req(w[t]) && dotp(
            w,
            w,
            t,
        ).add_req(w[t].mul_val(w[t])) by {
            if t < k - 1 {
            } else {
            }
        }
        assert(isum(k, f) == isum(k - 1, f) + f(k - 1));
    }
}

/// Normalizing scales an exact-length vector to length exactly one: if
/// the squared length of an integer vector is the perfect square of a
/// positive `n` that divides every entry, then every entry of the
/// normalized vector is a sign, their squares add up to one, and the
/// length of the normalized vector is exactly one. On other integer
/// vectors the divisions inside `normalize` truncate and the normalized
/// length falls short of one.
pub proof fn lemma_normalize_unit_length(v: Seq<i64>, n: i64)
    requires
        n > 0,
        v.len() <= i64::MAX,
        dotp_req(v, v, v.len() as int),
        dotp(v, v, v.len() as int) as int == n * n,
        forall|t: int| 0 <= t < v.len() ==> #[trigger] v[t] % n == 0,
    ensures
        length_val(v) == n,
        length_val(normalize_val(v)) == 1,
{
    let len = v.len() as int;
    let f = |t: int| v[t] * v[t];
    lemma_dotp_exact(v, v, len);

    // The length of `v` is exactly `n`.
    crate::scalar::lemma_i64_sqrt_val(dotp(v, v, len));
    assert(is_floor_sqrt(n * n, n as int)) by (nonlinear_arith)
        requires n > 0;
    crate::scalar::lemma_floor_sqrt_unique(
        n * n,
        dotp(v, v, len).sqrt_val() as int,
        n as int,
    );
    assert(length_val(v) == n);

    // Every entry is one of -n, 0 and n, so every normalized entry is a
    // sign.
    assert forall|t: int| 0 <= t < len implies #[trigger] f(t) >= 0 by {
        assert(v[t] * v[t] >= 0) by (nonlinear_arith);
    }
    lemma_isum_nonneg(len, f);
    let w = normalize_val(v);
    assert forall|t: int| 0 <= t < len implies (w[t] == -1i64 || w[t] == 0i64 || #[trigger] w[t]
        == 1i64) && w[t] as int * n == v[t] by {
        assert(f(t) <= n * n);
        assert(-n <= v[t] <= n) by (nonlinear_arith)
            requires v[t] * v[t] <= n * n && n > 0;
        vstd::arithmetic::div_mod::lemma_fundamental_div_mod(v[t] as int, n as int);
        let q = v[t] as int / n as int;
        assert(v[t] == n * q);
        assert(-1 <= q <= 1) by (nonlinear_arith)
            requires n * q == v[t] && -n <= v[t] <= n && n > 0;
        assert(w[t] == v[t].div_val(n));
        if v[t] >= 0 {
            assert(w[t] as int == q);
        } else {
            assert((-v[t]) as int == n * (-q)) by (nonlinear_arith)
                requires v[t] as int == n * q;
            vstd::arithmetic::div_mod::lemma_fundamental_div_mod_converse_div(
                (-v[t]) as int,
                n as int,
                -q,
                0,
            );
            assert(w[t] as int == q);
        }
        assert(w[t] as int * n == v[t]) by (nonlinear_arith)
            requires w[t] as int == q && v[t] == n * q;
    }

    // The squares of the normalized entries add up to one.
    let g = |t: int| w[t] * w[t];
    assert forall|t: int| 0 <= t < len implies #[trigger] f(t) == g(t) * (n * n) by {
        assert(v[t] * v[t] == (w[t] as int * w[t] as int) * (n as int * n as int))
            by (nonlinear_arith)
            requires w[t] as int * n == v[t];
    }
    lemma_isum_ext(len, f, |t: int| g(t) * (n * n));
    lemma_isum_scale(len, g, n * n);
    assert(isum(len, g) * (n * n) == n * n);
    assert(isum(len, g) == 1) by (nonlinear_arith)
        requires isum(len, g) * (n * n) == n * n && n > 0;

    // So the normalized vector has length exactly one.
    lemma_dotp_signs(w, len);
    assert(dotp(w, w, len) as int == 1);
    crate::scalar::lemma_i64_sqrt_val(dotp(w, w, len));
    crate::scalar::lemma_floor_sqrt_unique(1, dotp(w, w, len).sqrt_val() as int, 1);
    assert(w.len() == v.len());
    assert(length_val(w) == 1i64);
}

/// The orthographic projection matrix over the integers, with the three
/// reciprocals handed in as values: the same entries, in the same
/// column-major order, that the executable constructor's contract
/// names, with `rl`, `tb` and `fnf` standing for the reciprocals of the
/// box extents.
pub open spec fn iortho(
    left: int,
    right: int,
    bottom: int,
    top: int,
    near: int,
    far: int,
    rl: int,
    tb: int,
    fnf: int,
) -> Seq<int> {
    seq![
        2 * rl,
        0,
        0,
        0,
        0,
        2 * tb,
        0,
        0,
        0,
        0,
        -2 * fnf,
        0,
        -(right + left) * rl,
        -(top + bottom) * tb,
        -(far + near) * fnf,
        1,
    ]
}

/// The orthographic projection maps the corners of the viewing box to
/// the corners of the clip cube, whenever the three reciprocals it uses
/// are exact: the far upper-right corner, at eye depth minus `far`,
/// lands on the corner of ones, and the near lower-left corner on the
/// corner of minus ones.
pub proof fn lemma_ortho_maps_corners(
    left: int,
    right: int,
    bottom: int,
    top: int,
    near: int,
    far: int,
    rl: int,
    tb: int,
    fnf: int,
)
    requires
        rl * (right - left) == 1,
        tb * (top - bottom) == 1,
        fnf * (far - near) == 1,
    ensures
        imm(
            iortho(left, right, bottom, top, near, far, rl, tb, fnf),
            seq![right, top, -far, 1],
            4,
            4,
            1,
        ) == seq![1int, 1int, 1int, 1int],
        imm(
            iortho(left, right, bottom, top, near, far, rl, tb, fnf),
            seq![left, bottom, -near, 1],
            4,
            4,
            1,
        ) == seq![-1int, -1int, -1int, 1int],
{
    let rot = iortho(left, right, bottom, top, near, far, rl, tb, fnf);
    let hi = seq![right, top, -far, 1int];
    let lo = seq![left, bottom, -near, 1int];
    let phi = imm(rot, hi, 4, 4, 1);
    let plo = imm(rot, lo, 4, 4, 1);
    let ones = seq![1int, 1int, 1int, 1int];
    let negs = seq![-1int, -1int, -1int, 1int];
    assert forall|q: int| 0 <= q < 4 implies phi[q] == ones[q] && plo[q] == negs[q] by {
        lemma_flat_to_cell(4, 1, q);
        assert(q % 4 == q && q / 4 == 0) by (nonlinear_arith)
            requires 0 <= q < 4;
        let fh = |k: int| rowq(rot, 4, 4, q)[k] * colq(hi, 4, 0)[k];
        let fl = |k: int| rowq(rot, 4, 4, q)[k] * colq(lo, 4, 0)[k];
        lemma_isum4(fh);
        lemma_isum4(fl);
        assert(phi[q] == isum(4, fh));
        assert(plo[q] == isum(4, fl));
        assert(fh(0) == rot[q] * hi[0] && fh(1) == rot[4 + q] * hi[1] && fh(2) == rot[8 + q]
            * hi[2] && fh(3) == rot[12 + q] * hi[3]);
        assert(fl(0) == rot[q] * lo[0] && fl(1) == rot[4 + q] * lo[1] && fl(2) == rot[8 + q]
            * lo[2] && fl(3) == rot[12 + q] * lo[3]);
        if q == 0 {
            assert(rot[0] == 2 * rl && rot[4] == 0 && rot[8] == 0 && rot[12] == -(right + left)
                * rl);
            assert(hi[0] == right && lo[0] == left);
            assert(2 * rl * right + -(right + left) * rl == 1) by (nonlinear_arith)
                requires rl * (right - left) == 1;
            assert(2 * rl * left + -(right + left) * rl == -1) by (nonlinear_arith)
                requires rl * (right - left) == 1;
            assert(rot[4] * hi[1] == 0 && rot[8] * hi[2] == 0 && rot[12] * hi[3] == rot[12])
                by (nonlinear_arith)
                requires rot[4] == 0 && rot[8] == 0 && hi[3] == 1;
            assert(rot[4] * lo[1] == 0 && rot[8] * lo[2] == 0 && rot[12] * lo[3] == rot[12])
                by (nonlinear_arith)
                requires rot[4] == 0 && rot[8] == 0 && lo[3] == 1;
            assert(phi[0] == rot[0] * right + rot[12]);
            assert(plo[0] == rot[0] * left + rot[12]);
            assert(rot[0] * right == 2 * rl * right);
            assert(rot[0] * left == 2 * rl * left);
            assert(phi[0] == 1int && plo[0] == -1int && ones[0] == 1int && negs[0] == -1int);
        } else if q == 1 {
            assert(rot[1] == 0 && rot[5] == 2 * tb && rot[9] == 0 && rot[13] == -(top + bottom)
                * tb);
            assert(hi[1] == top && lo[1] == bottom);
            assert(2 * tb * top + -(top + bottom) * tb == 1) by (nonlinear_arith)
                requires tb * (top - bottom) == 1;
            assert(2 * tb * bottom + -(top + bottom) * tb == -1) by (nonlinear_arith)
                requires tb * (top - bottom) == 1;
            assert(rot[1] * hi[0] == 0 && rot[9] * hi[2] == 0 && rot[13] * hi[3] == rot[13])
                by (nonlinear_arith)
                requires rot[1] == 0 && rot[9] == 0 && hi[3] == 1;
            assert(rot[1] * lo[0] == 0 && rot[9] * lo[2] == 0 && rot[13] * lo[3] == rot[13])
                by (nonlinear_arith)
                requires rot[1] == 0 && rot[9] == 0 && lo[3] == 1;
            assert(phi[1] == rot[5] * top + rot[13]);
            assert(plo[1] == rot[5] * bottom + rot[13]);
            assert(rot[5] * top == 2 * tb * top);
            assert(rot[5] * bottom == 2 * tb * bottom);
            assert(phi[1] == 1int && plo[1] == -1int && ones[1] == 1int && negs[1] == -1int);
        } else if q == 2 {
            assert(rot[2] == 0 && rot[6] == 0 && rot[10] == -2 * fnf && rot[14] == -(far + near)
                * fnf);
            assert(hi[2] == -far && lo[2] == -near);
            assert(-2 * fnf * -far + -(far + near) * fnf == 1) by (nonlinear_arith)
                requires fnf * (far - near) == 1;
            assert(-2 * fnf * -near + -(far + near) * fnf == -1) by (nonlinear_arith)
                requires fnf * (far - near) == 1;
            assert(rot[2] * hi[0] == 0 && rot[6] * hi[1] == 0 && rot[14] * hi[3] == rot[14])
                by (nonlinear_arith)
                requires rot[2] == 0 && rot[6] == 0 && hi[3] == 1;
            assert(rot[2] * lo[0] == 0 && rot[6] * lo[1] == 0 && rot[14] * lo[3] == rot[14])
                by (nonlinear_arith)
                requires rot[2] == 0 && rot[6] == 0 && lo[3] == 1;
            assert(phi[2] == rot[10] * -far + rot[14]);
            assert(plo[2] == rot[10] * -near + rot[14]);
            assert(rot[10] * -far == -2 * fnf * -far);
            assert(rot[10] * -near == -2 * fnf * -near);
            assert(phi[2] == 1int && plo[2] == -1int && ones[2] == 1int && negs[2] == -1int);
        } else {
            assert(rot[3] == 0 && rot[7] == 0 && rot[11] == 0 && rot[15] == 1);
            assert(hi[3] == 1 && lo[3] == 1);
            assert(rot[3] * hi[0] == 0 && rot[7] * hi[1] == 0 && rot[11] * hi[2] == 0 && rot[15]
                * hi[3] == 1) by (nonlinear_arith)
                requires rot[3] == 0 && rot[7] == 0 && rot[11] == 0 && rot[15] == 1 && hi[3] == 1;
            assert(rot[3] * lo[0] == 0 && rot[7] * lo[1] == 0 && rot[11] * lo[2] == 0 && rot[15]
                * lo[3] == 1) by (nonlinear_arith)
                requires rot[3] == 0 && rot[7] == 0 && rot[11] == 0 && rot[15] == 1 && lo[3] == 1;
            assert(phi[3] == 1int && plo[3] == 1int && ones[3] == 1int && negs[3] == 1int);
        }
    }
    assert(phi =~= ones);
    assert(plo =~= negs);
}

/// The perspective projection matrix over the integers, with the two
/// quotients of the first diagonal handed in as values and `nf`
/// standing for the reciprocal of `near - far`: the same entries, in
/// the same column-major order, that the executable constructor's
/// contract names.
pub open spec fn ipersp(f_over_aspect: int, f: int, near: int, far: int, nf: int) -> Seq<int> {
    seq![
        f_over_aspect,
        0,
        0,
        0,
        0,
        f,
        0,
        0,
        0,
        0,
        (far + near) * nf,
        -1,
        0,
        0,
        2 * far * near * nf,
        0,
    ]
}

/// The perspective projection maps the clip planes to the faces of the
/// clip cube, whenever the reciprocal it uses is exact: the on-axis
/// point at eye depth minus `far` lands at clip depth equal to its
/// clip weight — depth one after the division by the weight — and the
/// point at eye depth minus `near` at depth equal to minus its weight.
pub proof fn lemma_perspective_maps_depths(
    f_over_aspect: int,
    f: int,
    near: int,
    far: int,
    nf: int,
)
    requires
        nf * (near - far) == 1,
    ensures
        imm(ipersp(f_over_aspect, f, near, far, nf), seq![0int, 0int, -far, 1], 4, 4, 1) == seq![
            0int,
            0int,
            far,
            far,
        ],
        imm(ipersp(f_over_aspect, f, near, far, nf), seq![0int, 0int, -near, 1], 4, 4, 1) == seq![
            0int,
            0int,
            -near,
            near,
        ],
{
    let rot = ipersp(f_over_aspect, f, near, far, nf);
    let hi = seq![0int, 0int, -far, 1int];
    let lo = seq![0int, 0int, -near, 1int];
    let phi = imm(rot, hi, 4, 4, 1);
    let plo = imm(rot, lo, 4, 4, 1);
    let hexp = seq![0int, 0int, far, far];
    let lexp = seq![0int, 0int, -near, near];
    assert forall|q: int| 0 <= q < 4 implies phi[q] == hexp[q] && plo[q] == lexp[q] by {
        lemma_flat_to_cell(4, 1, q);
        assert(q % 4 == q && q / 4 == 0) by (nonlinear_arith)
            requires 0 <= q < 4;
        let fh = |k: int| rowq(rot, 4, 4, q)[k] * colq(hi, 4, 0)[k];
        let fl = |k: int| rowq(rot, 4, 4, q)[k] * colq(lo, 4, 0)[k];
        lemma_isum4(fh);
        lemma_isum4(fl);
        assert(phi[q] == isum(4, fh));
        assert(plo[q] == isum(4, fl));
        assert(fh(0) == rot[q] * hi[0] && fh(1) == rot[4 + q] * hi[1] && fh(2) == rot[8 + q]
            * hi[2] && fh(3) == rot[12 + q] * hi[3]);
        assert(fl(0) == rot[q] * lo[0] && fl(1) == rot[4 + q] * lo[1] && fl(2) == rot[8 + q]
            * lo[2] && fl(3) == rot[12 + q] * lo[3]);
        if q == 0 {
            assert(rot[0] == f_over_aspect && rot[4] == 0 && rot[8] == 0 && rot[12] == 0);
            assert(hi[0] == 0 && lo[0] == 0);
            assert(rot[0] * hi[0] == 0 && rot[12] * hi[3] == 0) by (nonlinear_arith)
                requires hi[0] == 0 && rot[12] == 0;
            assert(rot[0] * lo[0] == 0 && rot[12] * lo[3] == 0) by (nonlinear_arith)
                requires lo[0] == 0 && rot[12] == 0;
            assert(rot[4] * hi[1] == 0 && rot[8] * hi[2] == 0) by (nonlinear_arith)
                requires rot[4] == 0 && rot[8] == 0;
            assert(rot[4] * lo[1] == 0 && rot[8] * lo[2] == 0) by (nonlinear_arith)
                requires rot[4] == 0 && rot[8] == 0;
            assert(phi[0] == 0int && plo[0] == 0int && hexp[0] == 0int && lexp[0] == 0int);
        } else if q == 1 {
            assert(rot[1] == 0 && rot[5] == f && rot[9] == 0 && rot[13] == 0);
            assert(hi[1] == 0 && lo[1] == 0);
            assert(rot[5] * hi[1] == 0 && rot[13] * hi[3] == 0) by (nonlinear_arith)
                requires hi[1] == 0 && rot[13] == 0;
            assert(rot[5] * lo[1] == 0 && rot[13] * lo[3] == 0) by (nonlinear_arith)
                requires lo[1] == 0 && rot[13] == 0;
            assert(rot[1] * hi[0] == 0 && rot[9] * hi[2] == 0) by (nonlinear_arith)
                requires rot[1] == 0 && rot[9] == 0;
            assert(rot[1] * lo[0] == 0 && rot[9] * lo[2] == 0) by (nonlinear_arith)
                requires rot[1] == 0 && rot[9] == 0;
            assert(phi[1] == 0int && plo[1] == 0int && hexp[1] == 0int && lexp[1] == 0int);
        } else if q == 2 {
            assert(rot[2] == 0 && rot[6] == 0 && rot[10] == (far + near) * nf && rot[14] == 2
                * far * near * nf);
            assert(hi[2] == -far && lo[2] == -near && hi[3] == 1 && lo[3] == 1);
            assert(rot[2] * hi[0] == 0 && rot[6] * hi[1] == 0 && rot[14] * hi[3] == rot[14])
                by (nonlinear_arith)
                requires rot[2] == 0 && rot[6] == 0 && hi[3] == 1;
            assert(rot[2] * lo[0] == 0 && rot[6] * lo[1] == 0 && rot[14] * lo[3] == rot[14])
                by (nonlinear_arith)
                requires rot[2] == 0 && rot[6] == 0 && lo[3] == 1;
            assert((far + near) * nf * -far + 2 * far * near * nf == far) by (nonlinear_arith)
                requires nf * (near - far) == 1;
            assert((far + near) * nf * -near + 2 * far * near * nf == -near) by (nonlinear_arith)
                requires nf * (near - far) == 1;
            assert(phi[2] == rot[10] * -far + rot[14]);
            assert(plo[2] == rot[10] * -near + rot[14]);
            assert(rot[10] * -far == (far + near) * nf * -far);
            assert(rot[10] * -near == (far + near) * nf * -near);
            assert(phi[2] == far && plo[2] == -near && hexp[2] == far && lexp[2] == -near);
        } else {
            assert(rot[3] == 0 && rot[7] == 0 && rot[11] == -1 && rot[15] == 0);
            assert(hi[2] == -far && lo[2] == -near && hi[3] == 1 && lo[3] == 1);
            assert(rot[3] * hi[0] == 0 && rot[7] * hi[1] == 0 && rot[11] * hi[2] == far && rot[15]
                * hi[3] == 0) by (nonlinear_arith)
                requires rot[3] == 0 && rot[7] == 0 && rot[11] == -1 && rot[15] == 0 && hi[2]
                    == -far;
            assert(rot[3] * lo[0] == 0 && rot[7] * lo[1] == 0 && rot[11] * lo[2] == near
                && rot[15] * lo[3] == 0) by (nonlinear_arith)
                requires rot[3] == 0 && rot[7] == 0 && rot[11] == -1 && rot[15] == 0 && lo[2]
                    == -near;
            assert(phi[3] == far && plo[3] == near && hexp[3] == far && lexp[3] == near);
        }
    }
    assert(phi =~= hexp);
    assert(plo =~= lexp);
}

/// The entry in row `i` of column `j` of the product of an `m`-by-`n`
/// integer matrix `a` with a matrix `b` of `n` rows, both stored flat
/// in column-major order.
pub open spec fn iment(a: Seq<int>, b: Seq<int>, m: int, n: int, i: int, j: int) -> int {
    isum(n, |k: int| rowq(a, m, n, i)[k] * colq(b, n, j)[k])
}

/// The product of an `m`-by-`n` integer matrix with an `n`-by-`p` one,
/// stored flat in column-major order.
pub open spec fn imm(a: Seq<int>, b: Seq<int>, m: int, n: int, p: int) -> Seq<int> {
    Seq::new((m * p) as nat, |q: int| iment(a, b, m, n, q % m, q / m))
}

/// Reading an entry of the product by (row, column) gives the product
/// formula.
pub proof fn lemma_imm_index(a: Seq<int>, b: Seq<int>, m: int, n: int, p: int, i: int, j: int)
    requires
        m > 0,
        0 <= i < m,
        0 <= j < p,
    ensures
        imm(a, b, m, n, p)[j * m + i] == iment(a, b, m, n, i, j),
{
    crate::matrix::lemma_cell_index(m, p, i, j);
    let q = j * m + i;
    vstd::arithmetic::div_mod::lemma_fundamental_div_mod_converse_mod(q, m, j, i);
    vstd::arithmetic::div_mod::lemma_fundamental_div_mod_converse_div(q, m, j, i);
    assert(q == m * j + i) by (nonlinear_arith)
        requires q == j * m + i;
}

/// Matrix multiplication of integer matrices is associative: taking
/// `a` times `b` first and multiplying by `c`, or `a` times the product
/// of `b` and `c`, gives the same matrix.
pub proof fn lemma_imm_assoc(
    a: Seq<int>,
    b: Seq<int>,
    c: Seq<int>,
    m: int,
    n: int,
    p: int,
    r: int,
)
    requires
        m > 0,
        n > 0,
        p > 0,
        r > 0,
    ensures
        imm(imm(a, b, m, n, p), c, m, p, r) == imm(a, imm(b, c, n, p, r), m, n, r),
{
    let ab = imm(a, b, m, n, p);
    let bc = imm(b, c, n, p, r);
    let lhs = imm(ab, c, m, p, r);
    let rhs = imm(a, bc, m, n, r);
    assert forall|q: int| 0 <= q < lhs.len() implies lhs[q] == rhs[q] by {
        lemma_flat_to_cell(m, r, q);
        let i = q % m;
        let j = q / m;
        lemma_iment_assoc(a, b, c, m, n, p, r, i, j);
    }
    assert(lhs =~= rhs);
}

/// One entry of the two association orders of a triple product agree.
proof fn lemma_iment_assoc(
    a: Seq<int>,
    b: Seq<int>,
    c: Seq<int>,
    m: int,
    n: int,
    p: int,
    r: int,
    i: int,
    j: int,
)
    requires
        m > 0,
        n > 0,
        p > 0,
        r > 0,
        0 <= i < m,
        0 <= j < r,
    ensures
        iment(imm(a, b, m, n, p), c, m, p, i, j) == iment(a, imm(b, c, n, p, r), m, n, i, j),
{
    let ab = imm(a, b, m, n, p);
    let bc = imm(b, c, n, p, r);
    let aik = |k: int| rowq(a, m, n, i)[k];
    let bkl = |k: int, l: int| b[l * n + k];
    let clj = |l: int| colq(c, p, j)[l];
    let triple = |k: int, l: int| aik(k) * bkl(k, l) * clj(l);

    // The left association: sum over l of (sum over k) times c.
    let lhs_term = |l: int| rowq(ab, m, p, i)[l] * colq(c, p, j)[l];
    assert forall|l: int| 0 <= l < p implies #[trigger] lhs_term(l) == isum(
        n,
        |k: int| triple(k, l),
    ) by {
        lemma_imm_index(a, b, m, n, p, i, l);
        assert(rowq(ab, m, p, i)[l] == ab[l * m + i]);
        assert(rowq(ab, m, p, i)[l] == iment(a, b, m, n, i, l));
        let f0 = |k: int| rowq(a, m, n, i)[k] * colq(b, n, l)[k];
        assert(iment(a, b, m, n, i, l) == isum(n, f0));
        lemma_isum_scale(n, f0, clj(l));
        assert forall|t: int| 0 <= t < n implies #[trigger] f0(t) * clj(l) == triple(t, l) by {
            assert(colq(b, n, l)[t] == b[l * n + t]);
        }
        lemma_isum_ext(n, |t2: int| f0(t2) * clj(l), |k: int| triple(k, l));
        assert(lhs_term(l) == isum(n, f0) * clj(l));
    }
    lemma_isum_ext(p, lhs_term, |l: int| isum(n, |k: int| triple(k, l)));
    assert((|l: int| rowq(ab, m, p, i)[l] * colq(c, p, j)[l]) =~= lhs_term);
    assert(iment(ab, c, m, p, i, j) == isum(p, |l: int| isum(n, |k: int| triple(k, l))));

    // The right association: sum over k of a times (sum over l).
    let rhs_term = |k: int| rowq(a, m, n, i)[k] * colq(bc, n, j)[k];
    assert forall|k: int| 0 <= k < n implies #[trigger] rhs_term(k) == isum(
        p,
        |l: int| triple(k, l),
    ) by {
        lemma_imm_index(b, c, n, p, r, k, j);
        assert(colq(bc, n, j)[k] == bc[j * n + k]);
        assert(colq(bc, n, j)[k] == iment(b, c, n, p, k, j));
        let g0 = |l: int| rowq(b, n, p, k)[l] * colq(c, p, j)[l];
        assert(iment(b, c, n, p, k, j) == isum(p, g0));
        lemma_isum_mul_left(p, g0, rowq(a, m, n, i)[k]);
        assert forall|l: int| 0 <= l < p implies rowq(a, m, n, i)[k] * #[trigger] g0(l) == triple(
            k,
            l,
        ) by {
            assert(rowq(b, n, p, k)[l] == b[l * n + k]);
            let x = rowq(a, m, n, i)[k];
            let y = b[l * n + k];
            let z = colq(c, p, j)[l];
            assert(x * (y * z) == x * y * z) by (nonlinear_arith);
        }
        lemma_isum_ext(p, |t: int| rowq(a, m, n, i)[k] * g0(t), |l2: int| triple(k, l2));
        assert(rhs_term(k) == rowq(a, m, n, i)[k] * isum(p, g0));
    }
    lemma_isum_ext(n, rhs_term, |k: int| isum(p, |l: int| triple(k, l)));
    assert((|k: int| rowq(a, m, n, i)[k] * colq(bc, n, j)[k]) =~= rhs_term);
    assert(iment(a, bc, m, n, i, j) == isum(n, |k: int| isum(p, |l: int| triple(k, l))));

    lemma_isum_swap(n, p, triple);
    assert((|i2: int| isum(p, |j2: int| triple(i2, j2))) =~= (|k: int| isum(
        p,
        |l: int| triple(k, l),
    )));
    assert((|j2: int| isum(n, |i2: int| triple(i2, j2))) =~= (|l: int| isum(
        n,
        |k: int| triple(k, l),
    )));
}

/// A sum of four terms, written out.
pub proof fn lemma_isum4(f: spec_fn(int) -> int)
    ensures
        isum(4, f) == f(0) + f(1) + f(2) + f(3),
{
    reveal_with_fuel(isum, 5);
}

/// The Rodrigues rotation matrix about the unit axis `(rx, ry, rz)`
/// with cosine `c1` and sine `s1`, over the integers: the same entries,
/// in the same column-major order, that the executable constructor's
/// contract names.
pub open spec fn irot_axis(rx: int, ry: int, rz: int, c1: int, s1: int) -> Seq<int> {
    let c2 = 1 - c1;
    seq![
        c1 + rx * rx * c2,
        ry * rx * c2 + rz * s1,
        rz * rx * c2 - ry * s1,
        0,
        rx * ry * c2 - rz * s1,
        c1 + ry * ry * c2,
        rz * ry * c2 + rx * s1,
        0,
        rx * rz * c2 + ry * s1,
        ry * rz * c2 - rx * s1,
        c1 + rz * rz * c2,
        0,
        0,
        0,
        0,
        1,
    ]
}

/// A rotation about an axis leaves every vector parallel to that axis
/// unchanged: applying the Rodrigues matrix of a unit axis to any
/// multiple of the axis (with any fourth coordinate) gives that vector
/// back, whatever the angle's cosine and sine are.
pub proof fn lemma_rotation_axis_fixes_axis(
    rx: int,
    ry: int,
    rz: int,
    c1: int,
    s1: int,
    t: int,
    w: int,
)
    requires
        rx * rx + ry * ry + rz * rz == 1,
    ensures
        imm(irot_axis(rx, ry, rz, c1, s1), seq![t * rx, t * ry, t * rz, w], 4, 4, 1) == seq![
            t * rx,
            t * ry,
            t * rz,
            w,
        ],
{
    let rot = irot_axis(rx, ry, rz, c1, s1);
    let v = seq![t * rx, t * ry, t * rz, w];
    let prod = imm(rot, v, 4, 4, 1);
    let c2 = 1 - c1;
    assert forall|q: int| 0 <= q < 4 implies prod[q] == v[q] by {
        lemma_flat_to_cell(4, 1, q);
        assert(q % 4 == q && q / 4 == 0) by (nonlinear_arith)
            requires 0 <= q < 4;
        let f = |k: int| rowq(rot, 4, 4, q)[k] * colq(v, 4, 0)[k];
        lemma_isum4(f);
        assert(f(0) == rot[q] * v[0]);
        assert(f(1) == rot[4 + q] * v[1]);
        assert(f(2) == rot[8 + q] * v[2]);
        assert(f(3) == rot[12 + q] * v[3]);
        if q == 0 {
            assert((c1 + rx * rx * c2) * (t * rx) + (rx * ry * c2 - rz * s1) * (t * ry) + (rx * rz
                * c2 + ry * s1) * (t * rz) + 0 * w == t * rx) by (nonlinear_arith)
                requires rx * rx + ry * ry + rz * rz == 1 && c2 == 1 - c1;
        } else if q == 1 {
            assert((ry * rx * c2 + rz * s1) * (t * rx) + (c1 + ry * ry * c2) * (t * ry) + (ry * rz
                * c2 - rx * s1) * (t * rz) + 0 * w == t * ry) by (nonlinear_arith)
                requires rx * rx + ry * ry + rz * rz == 1 && c2 == 1 - c1;
        } else if q == 2 {
            assert((rz * rx * c2 - ry * s1) * (t * rx) + (rz * ry * c2 + rx * s1) * (t * ry) + (c1
                + rz * rz * c2) * (t * rz) + 0 * w == t * rz) by (nonlinear_arith)
                requires rx * rx + ry * ry + rz * rz == 1 && c2 == 1 - c1;
        } else {
            assert(0 * (t * rx) + 0 * (t * ry) + 0 * (t * rz) + 1 * w == w) by (nonlinear_arith);
        }
    }
    assert(prod =~= v);
}

/// A factor on the left of every term comes out of the sum.
pub proof fn lemma_isum_mul_left(k: int, f: spec_fn(int) -> int, x: int)
    ensures
        isum(k, |t: int| x * f(t)) == x * isum(k, f),
    decreases k,
{
    let h = |t: int| x * f(t);
    if k <= 0 {
        assert(x * isum(k, f) == 0) by (nonlinear_arith)
            requires isum(k, f) == 0;
    } else {
        lemma_isum_mul_left(k - 1, f, x);
        assert(isum(k, h) == x * isum(k - 1, f) + x * f(k - 1));
        assert(x * (isum(k - 1, f) + f(k - 1)) == x * isum(k - 1, f) + x * f(k - 1))
            by (nonlinear_arith);
    }
}

} // verus!
