//! Fixed-size matrices stored column-major.

use vstd::prelude::*;

use crate::scalar::Scalar;

verus! {

/// Error raised by the fallible matrix constructors.
#[derive(Debug, Clone, Copy, PartialEq, Eq, Structural)]
pub enum MatrixError {
    /// A flat sequence of the wrong length was offered to a matrix of a
    /// fixed shape.
    DimensionMismatch,
}

/// An `R`-row, `C`-column matrix of scalars.
///
/// Entries are stored column-major: entry `(r, c)` sits at position
/// `c * R + r` of the flat storage, so consecutive positions walk a
/// column before moving to the next column. The dimensions are part of
/// the type; a shape mismatch between two matrices is a type error, not
/// a runtime failure.
#[derive(Debug, Clone, PartialEq)]
pub struct TMat<T, const R: usize, const C: usize> {
    data: Vec<T>,
}

impl<T, const R: usize, const C: usize> View for TMat<T, R, C> {
    type V = Seq<T>;

    closed spec fn view(&self) -> Seq<T> {
        self.data@
    }
}

/// A (row, column) pair addresses one cell of the flat column-major
/// storage.
pub proof fn lemma_cell_index(rows: int, cols: int, r: int, c: int)
    requires
        0 <= r < rows,
        0 <= c < cols,
    ensures
        0 <= c * rows + r < rows * cols,
{
    assert(0 <= c * rows + r < rows * cols) by (nonlinear_arith)
        requires 0 <= r < rows && 0 <= c < cols;
}

/// Distinct (row, column) pairs address distinct cells.
pub proof fn lemma_cell_index_injective(rows: int, r1: int, c1: int, r2: int, c2: int)
    requires
        0 <= r1 < rows,
        0 <= r2 < rows,
        c1 * rows + r1 == c2 * rows + r2,
    ensures
        r1 == r2 && c1 == c2,
{
    assert(r1 == r2 && c1 == c2) by (nonlinear_arith)
        requires
            0 <= r1 < rows && 0 <= r2 < rows && c1 * rows + r1 == c2 * rows + r2;
}

/// The left fold that a dot product computes: the sum of the first `k`
/// products of corresponding entries of `a` and `b`, added up from the
/// left starting at zero.
pub open spec fn dotp<T: Scalar>(a: Seq<T>, b: Seq<T>, k: int) -> T
    decreases k,
{
    if k <= 0 {
        T::zero_val()
    } else {
        dotp(a, b, k - 1).add_val(a[k - 1].mul_val(b[k - 1]))
    }
}

/// On which operands the dot-product fold of length `k` is defined.
pub open spec fn dotp_req<T: Scalar>(a: Seq<T>, b: Seq<T>, k: int) -> bool {
    forall|t: int| 0 <= t < k ==> (#[trigger] a[t]).mul_req(b[t]) && dotp(a, b, t).add_req(a[t].mul_val(b[t]))
}

impl<T: Scalar, const R: usize, const C: usize> TMat<T, R, C> {
    /// The storage holds exactly one scalar per cell.
    pub open spec fn wf(&self) -> bool {
        self@.len() == R * C
    }

    /// The entry in row `r` of column `c`.
    pub open spec fn idx(&self, r: int, c: int) -> T {
        self@[c * (R as int) + r]
    }

    /// The matrix all of whose entries are `value`.
    pub fn fill(value: T) -> (m: Self)
        requires
            R * C <= usize::MAX,
        ensures
            m.wf(),
            forall|r: int, c: int| 0 <= r < R && 0 <= c < C ==> #[trigger] m.idx(r, c) == value,
    {
        let n: usize = R * C;
        let mut data: Vec<T> = Vec::new();
        let mut i: usize = 0;
        while i < n
            invariant
                i <= n,
                n == R * C,
                data@.len() == i,
                forall|p: int| 0 <= p < i ==> data@[p] == value,
            decreases n - i,
        {
            data.push(value);
            i = i + 1;
        }
        let m = TMat { data };
        proof {
            assert forall|r: int, c: int| 0 <= r < R && 0 <= c < C implies #[trigger] m.idx(r, c)
                == value by {
                lemma_cell_index(R as int, C as int, r, c);
            }
        }
        m
    }

    /// The zero matrix.
    pub fn new() -> (m: Self)
        requires
            R * C <= usize::MAX,
        ensures
            m.wf(),
            forall|r: int, c: int|
                0 <= r < R && 0 <= c < C ==> #[trigger] m.idx(r, c) == T::zero_val(),
    {
        Self::fill(T::zero())
    }

    /// Builds a matrix from an explicit nested literal: one inner array
    /// per column, as the column-major storage keeps them.
    #[verifier::loop_isolation(false)]
    pub fn from_nested(value: [[T; R]; C]) -> (m: Self)
        ensures
            m.wf(),
            forall|r: int, c: int|
                0 <= r < R && 0 <= c < C ==> #[trigger] m.idx(r, c) == value@[c]@[r],
    {
        let mut data: Vec<T> = Vec::new();
        let mut c: usize = 0;
        while c < C
            invariant
                c <= C,
                data@.len() == c * (R as int),
                forall|rr: int, cc: int|
                    0 <= rr < R && 0 <= cc < c ==> data@[cc * (R as int) + rr] == value@[cc]@[rr],
            decreases C - c,
        {
            let mut r: usize = 0;
            while r < R
                invariant
                    r <= R,
                    data@.len() == c * (R as int) + r,
                    forall|rr: int, cc: int|
                        0 <= rr < R && 0 <= cc < c ==> data@[cc * (R as int) + rr]
                            == value@[cc]@[rr],
                    forall|rr: int| 0 <= rr < r ==> data@[c * (R as int) + rr] == value@[
                        c as int]@[rr],
                decreases R - r,
            {
                let ghost pre = data@;
                data.push(value[c][r]);
                r = r + 1;
                proof {
                    assert forall|rr: int, cc: int| 0 <= rr < R && 0 <= cc < c implies data@[cc
                        * (R as int) + rr] == value@[cc]@[rr] by {
                        lemma_cell_index(R as int, c as int, rr, cc);
                        assert((R as int) * (c as int) <= pre.len()) by (nonlinear_arith)
                            requires
                                pre.len() == (c as int) * (R as int) + (r as int) - 1,
                                r >= 1,
                        ;
                        assert(cc * (R as int) + rr < pre.len());
                        assert(data@[cc * (R as int) + rr] == pre[cc * (R as int) + rr]);
                    }
                }
            }
            proof {
                assert(data@.len() == (c + 1) * (R as int)) by (nonlinear_arith)
                    requires data@.len() == c * (R as int) + (R as int);
            }
            c = c + 1;
        }
        let m = TMat { data };
        proof {
            assert(m@.len() == R * C) by (nonlinear_arith)
                requires m@.len() == (C as int) * (R as int);
            assert forall|r: int, c2: int| 0 <= r < R && 0 <= c2 < C implies #[trigger] m.idx(
                r, c2) == value@[c2]@[r] by {
                lemma_cell_index(R as int, C as int, r, c2);
            }
        }
        m
    }

    /// Builds a matrix from a flat sequence of entries in column-major
    /// order. Succeeds exactly when the sequence has one entry per
    /// cell; otherwise nothing is constructed and the offered entries
    /// are reported as a mismatch.
    pub fn try_from(flat: Vec<T>) -> (result: Result<Self, MatrixError>)
        ensures
            match result {
                Ok(m) => m.wf() && m@ == flat@ && flat@.len() == R * C,
                Err(e) => e == MatrixError::DimensionMismatch && flat@.len() != R * C,
            },
    {
        let len: usize = flat.len();
        match R.checked_mul(C) {
            Some(n) => {
                if len == n {
                    Ok(TMat { data: flat })
                } else {
                    Err(MatrixError::DimensionMismatch)
                }
            },
            None => Err(MatrixError::DimensionMismatch),
        }
    }

    /// The entries in column-major order, as a flat vector.
    pub fn flatten(&self) -> (flat: Vec<T>)
        requires
            self.wf(),
        ensures
            flat@ == self@,
    {
        let n: usize = self.data.len();
        let mut flat: Vec<T> = Vec::new();
        let mut i: usize = 0;
        while i < n
            invariant
                i <= n,
                n == self@.len(),
                flat@.len() == i,
                forall|p: int| 0 <= p < i ==> flat@[p] == self@[p],
            decreases n - i,
        {
            flat.push(self.data[i]);
            i = i + 1;
        }
        proof {
            assert(flat@ =~= self@);
        }
        flat
    }

    /// The entry in row `r` of column `c`.
    pub fn at(&self, r: usize, c: usize) -> (v: T)
        requires
            self.wf(),
            r < R,
            c < C,
        ensures
            v == self.idx(r as int, c as int),
    {
        proof {
            lemma_cell_index(R as int, C as int, r as int, c as int);
        }
        let n: usize = self.data.len();
        proof {
            assert(c * (R as int) + (r as int) < n as int);
        }
        self.data[c * R + r]
    }

    /// Replaces the entry in row `r` of column `c`; every other entry
    /// stays.
    pub fn set_at(&mut self, r: usize, c: usize, v: T)
        requires
            old(self).wf(),
            r < R,
            c < C,
        ensures
            final(self).wf(),
            final(self).idx(r as int, c as int) == v,
            forall|r2: int, c2: int|
                0 <= r2 < R && 0 <= c2 < C && !(r2 == r as int && c2 == c as int)
                    ==> #[trigger] final(self).idx(r2, c2) == old(self).idx(r2, c2),
    {
        proof {
            lemma_cell_index(R as int, C as int, r as int, c as int);
        }
        let n: usize = self.data.len();
        proof {
            assert(c * (R as int) + (r as int) < n as int);
        }
        let i: usize = c * R + r;
        self.data[i] = v;
        proof {
            assert forall|r2: int, c2: int|
                0 <= r2 < R && 0 <= c2 < C && !(r2 == r as int && c2 == c as int) implies #[trigger] self
                .idx(r2, c2) == old(self).idx(r2, c2) by {
                lemma_cell_index(R as int, C as int, r2, c2);
                if c2 * (R as int) + r2 == c as int * (R as int) + r as int {
                    lemma_cell_index_injective(R as int, r2, c2, r as int, c as int);
                }
            }
        }
    }

    /// Builds a matrix directly from a flat storage already known to
    /// have the right length.
    pub(crate) fn from_flat_unchecked(flat: Vec<T>) -> (m: Self)
        requires
            flat@.len() == R * C,
        ensures
            m.wf(),
            m@ == flat@,
    {
        TMat { data: flat }
    }

    /// A mutable borrow of the cell at flat position `i` of the
    /// column-major storage.
    pub(crate) fn entry_mut(&mut self, i: usize) -> (e: &mut T)
        requires
            old(self).wf(),
            i < old(self)@.len(),
        ensures
            *e == old(self)@[i as int],
            final(self)@ == old(self)@.update(i as int, *final(e)),
            final(self).wf(),
    {
        &mut self.data[i]
    }

    /// The matrix reflected along its main diagonal: entry `(r, c)` of
    /// the result is entry `(c, r)` of `self`.
    #[verifier::loop_isolation(false)]
    pub fn transpose(&self) -> (t: TMat<T, C, R>)
        requires
            self.wf(),
        ensures
            t.wf(),
            forall|r: int, c: int|
                0 <= r < C && 0 <= c < R ==> #[trigger] t.idx(r, c) == self.idx(c, r),
    {
        let mut data: Vec<T> = Vec::new();
        let mut c2: usize = 0;
        while c2 < R
            invariant
                c2 <= R,
                data@.len() == c2 * (C as int),
                forall|rr: int, cc: int|
                    0 <= rr < C && 0 <= cc < c2 ==> data@[cc * (C as int) + rr] == self.idx(cc, rr),
            decreases R - c2,
        {
            let mut r2: usize = 0;
            while r2 < C
                invariant
                    r2 <= C,
                    data@.len() == c2 * (C as int) + r2,
                    forall|rr: int, cc: int|
                        0 <= rr < C && 0 <= cc < c2 ==> data@[cc * (C as int) + rr] == self.idx(
                            cc, rr),
                    forall|rr: int| 0 <= rr < r2 ==> data@[c2 * (C as int) + rr] == self.idx(
                        c2 as int, rr),
                decreases C - r2,
            {
                let ghost pre = data@;
                data.push(self.at(c2, r2));
                r2 = r2 + 1;
                proof {
                    assert forall|rr: int, cc: int| 0 <= rr < C && 0 <= cc < c2 implies data@[cc
                        * (C as int) + rr] == self.idx(cc, rr) by {
                        lemma_cell_index(C as int, c2 as int, rr, cc);
                        assert((C as int) * (c2 as int) <= pre.len()) by (nonlinear_arith)
                            requires
                                pre.len() == (c2 as int) * (C as int) + (r2 as int) - 1,
                                r2 >= 1,
                        ;
                        assert(cc * (C as int) + rr < pre.len());
                        assert(data@[cc * (C as int) + rr] == pre[cc * (C as int) + rr]);
                    }
                }
            }
            proof {
                assert(data@.len() == (c2 + 1) * (C as int)) by (nonlinear_arith)
                    requires data@.len() == c2 * (C as int) + (C as int);
                assert forall|rr: int, cc: int| 0 <= rr < C && 0 <= cc < c2 + 1 implies data@[cc
                    * (C as int) + rr] == self.idx(cc, rr) by {
                    lemma_cell_index(C as int, c2 as int + 1, rr, cc);
                }
            }
            c2 = c2 + 1;
        }
        let t = TMat::<T, C, R> { data };
        proof {
            assert(t@.len() == R * C);
            assert forall|r: int, c: int| 0 <= r < C && 0 <= c < R implies #[trigger] t.idx(r, c)
                == self.idx(c, r) by {
                lemma_cell_index(C as int, R as int, r, c);
            }
        }
        t
    }

    /// The entry-wise sum of two matrices of the same shape.
    #[verifier::loop_isolation(false)]
    pub fn add_mat(&self, rhs: &Self) -> (m: Self)
        requires
            self.wf(),
            rhs.wf(),
            add_mat_req(self@, rhs@),
        ensures
            m.wf(),
            forall|p: int| 0 <= p < R * C ==> #[trigger] m@[p] == self@[p].add_val(rhs@[p]),
            forall|r: int, c: int|
                0 <= r < R && 0 <= c < C ==> #[trigger] m.idx(r, c) == self.idx(r, c).add_val(
                    rhs.idx(r, c)),
    {
        let n: usize = self.data.len();
        let mut data: Vec<T> = Vec::new();
        let mut p: usize = 0;
        while p < n
            invariant
                p <= n,
                data@.len() == p,
                forall|q: int| 0 <= q < p ==> #[trigger] data@[q] == self@[q].add_val(rhs@[q]),
            decreases n - p,
        {
            data.push(self.data[p].add(rhs.data[p]));
            p = p + 1;
        }
        let m = TMat { data };
        proof {
            assert forall|r: int, c: int| 0 <= r < R && 0 <= c < C implies #[trigger] m.idx(r, c)
                == self.idx(r, c).add_val(rhs.idx(r, c)) by {
                lemma_cell_index(R as int, C as int, r, c);
            }
        }
        m
    }

    /// The entry-wise difference of two matrices of the same shape.
    #[verifier::loop_isolation(false)]
    pub fn sub_mat(&self, rhs: &Self) -> (m: Self)
        requires
            self.wf(),
            rhs.wf(),
            sub_mat_req(self@, rhs@),
        ensures
            m.wf(),
            forall|p: int| 0 <= p < R * C ==> #[trigger] m@[p] == self@[p].sub_val(rhs@[p]),
            forall|r: int, c: int|
                0 <= r < R && 0 <= c < C ==> #[trigger] m.idx(r, c) == self.idx(r, c).sub_val(
                    rhs.idx(r, c)),
    {
        let n: usize = self.data.len();
        let mut data: Vec<T> = Vec::new();
        let mut p: usize = 0;
        while p < n
            invariant
                p <= n,
                data@.len() == p,
                forall|q: int| 0 <= q < p ==> #[trigger] data@[q] == self@[q].sub_val(rhs@[q]),
            decreases n - p,
        {
            data.push(self.data[p].sub(rhs.data[p]));
            p = p + 1;
        }
        let m = TMat { data };
        proof {
            assert forall|r: int, c: int| 0 <= r < R && 0 <= c < C implies #[trigger] m.idx(r, c)
                == self.idx(r, c).sub_val(rhs.idx(r, c)) by {
                lemma_cell_index(R as int, C as int, r, c);
            }
        }
        m
    }

    /// The entry-wise product of two matrices of the same shape.
    #[verifier::loop_isolation(false)]
    pub fn mul_mat(&self, rhs: &Self) -> (m: Self)
        requires
            self.wf(),
            rhs.wf(),
            mul_mat_req(self@, rhs@),
        ensures
            m.wf(),
            forall|p: int| 0 <= p < R * C ==> #[trigger] m@[p] == self@[p].mul_val(rhs@[p]),
            forall|r: int, c: int|
                0 <= r < R && 0 <= c < C ==> #[trigger] m.idx(r, c) == self.idx(r, c).mul_val(
                    rhs.idx(r, c)),
    {
        let n: usize = self.data.len();
        let mut data: Vec<T> = Vec::new();
        let mut p: usize = 0;
        while p < n
            invariant
                p <= n,
                data@.len() == p,
                forall|q: int| 0 <= q < p ==> #[trigger] data@[q] == self@[q].mul_val(rhs@[q]),
            decreases n - p,
        {
            data.push(self.data[p].mul(rhs.data[p]));
            p = p + 1;
        }
        let m = TMat { data };
        proof {
            assert forall|r: int, c: int| 0 <= r < R && 0 <= c < C implies #[trigger] m.idx(r, c)
                == self.idx(r, c).mul_val(rhs.idx(r, c)) by {
                lemma_cell_index(R as int, C as int, r, c);
            }
        }
        m
    }

    /// The matrix with `rhs` added to every entry.
    #[verifier::loop_isolation(false)]
    pub fn add_scalar(&self, rhs: T) -> (m: Self)
        requires
            self.wf(),
            add_scalar_req(self@, rhs),
        ensures
            m.wf(),
            forall|p: int| 0 <= p < R * C ==> #[trigger] m@[p] == self@[p].add_val(rhs),
            forall|r: int, c: int|
                0 <= r < R && 0 <= c < C ==> #[trigger] m.idx(r, c) == self.idx(r, c).add_val(
                    rhs),
    {
        let n: usize = self.data.len();
        let mut data: Vec<T> = Vec::new();
        let mut p: usize = 0;
        while p < n
            invariant
                p <= n,
                data@.len() == p,
                forall|q: int| 0 <= q < p ==> #[trigger] data@[q] == self@[q].add_val(rhs),
            decreases n - p,
        {
            data.push(self.data[p].add(rhs));
            p = p + 1;
        }
        let m = TMat { data };
        proof {
            assert forall|r: int, c: int| 0 <= r < R && 0 <= c < C implies #[trigger] m.idx(r, c)
                == self.idx(r, c).add_val(rhs) by {
                lemma_cell_index(R as int, C as int, r, c);
            }
        }
        m
    }

    /// The matrix with `rhs` subtracted from every entry.
    #[verifier::loop_isolation(false)]
    pub fn sub_scalar(&self, rhs: T) -> (m: Self)
        requires
            self.wf(),
            sub_scalar_req(self@, rhs),
        ensures
            m.wf(),
            forall|p: int| 0 <= p < R * C ==> #[trigger] m@[p] == self@[p].sub_val(rhs),
            forall|r: int, c: int|
                0 <= r < R && 0 <= c < C ==> #[trigger] m.idx(r, c) == self.idx(r, c).sub_val(
                    rhs),
    {
        let n: usize = self.data.len();
        let mut data: Vec<T> = Vec::new();
        let mut p: usize = 0;
        while p < n
            invariant
                p <= n,
                data@.len() == p,
                forall|q: int| 0 <= q < p ==> #[trigger] data@[q] == self@[q].sub_val(rhs),
            decreases n - p,
        {
            data.push(self.data[p].sub(rhs));
            p = p + 1;
        }
        let m = TMat { data };
        proof {
            assert forall|r: int, c: int| 0 <= r < R && 0 <= c < C implies #[trigger] m.idx(r, c)
                == self.idx(r, c).sub_val(rhs) by {
                lemma_cell_index(R as int, C as int, r, c);
            }
        }
        m
    }

    /// The matrix with every entry scaled by `rhs`.
    #[verifier::loop_isolation(false)]
    pub fn mul_scalar(&self, rhs: T) -> (m: Self)
        requires
            self.wf(),
            mul_scalar_req(self@, rhs),
        ensures
            m.wf(),
            forall|p: int| 0 <= p < R * C ==> #[trigger] m@[p] == self@[p].mul_val(rhs),
            forall|r: int, c: int|
                0 <= r < R && 0 <= c < C ==> #[trigger] m.idx(r, c) == self.idx(r, c).mul_val(
                    rhs),
    {
        let n: usize = self.data.len();
        let mut data: Vec<T> = Vec::new();
        let mut p: usize = 0;
        while p < n
            invariant
                p <= n,
                data@.len() == p,
                forall|q: int| 0 <= q < p ==> #[trigger] data@[q] == self@[q].mul_val(rhs),
            decreases n - p,
        {
            data.push(self.data[p].mul(rhs));
            p = p + 1;
        }
        let m = TMat { data };
        proof {
            assert forall|r: int, c: int| 0 <= r < R && 0 <= c < C implies #[trigger] m.idx(r, c)
                == self.idx(r, c).mul_val(rhs) by {
                lemma_cell_index(R as int, C as int, r, c);
            }
        }
        m
    }

    /// The matrix with every entry divided by `rhs`.
    #[verifier::loop_isolation(false)]
    pub fn div_scalar(&self, rhs: T) -> (m: Self)
        requires
            self.wf(),
            div_scalar_req(self@, rhs),
        ensures
            m.wf(),
            forall|p: int| 0 <= p < R * C ==> #[trigger] m@[p] == self@[p].div_val(rhs),
            forall|r: int, c: int|
                0 <= r < R && 0 <= c < C ==> #[trigger] m.idx(r, c) == self.idx(r, c).div_val(
                    rhs),
    {
        let n: usize = self.data.len();
        let mut data: Vec<T> = Vec::new();
        let mut p: usize = 0;
        while p < n
            invariant
                p <= n,
                data@.len() == p,
                forall|q: int| 0 <= q < p ==> #[trigger] data@[q] == self@[q].div_val(rhs),
            decreases n - p,
        {
            data.push(self.data[p].div(rhs));
            p = p + 1;
        }
        let m = TMat { data };
        proof {
            assert forall|r: int, c: int| 0 <= r < R && 0 <= c < C implies #[trigger] m.idx(r, c)
                == self.idx(r, c).div_val(rhs) by {
                lemma_cell_index(R as int, C as int, r, c);
            }
        }
        m
    }
}

/// On which flat storages the entry-wise sum is defined.
pub open spec fn add_mat_req<T: Scalar>(a: Seq<T>, b: Seq<T>) -> bool {
    forall|p: int| 0 <= p < a.len() ==> (#[trigger] a[p]).add_req(b[p])
}

/// On which flat storages the entry-wise difference is defined.
pub open spec fn sub_mat_req<T: Scalar>(a: Seq<T>, b: Seq<T>) -> bool {
    forall|p: int| 0 <= p < a.len() ==> (#[trigger] a[p]).sub_req(b[p])
}

/// On which flat storages the entry-wise product is defined.
pub open spec fn mul_mat_req<T: Scalar>(a: Seq<T>, b: Seq<T>) -> bool {
    forall|p: int| 0 <= p < a.len() ==> (#[trigger] a[p]).mul_req(b[p])
}

/// On which operands adding the scalar `s` to every entry is defined.
pub open spec fn add_scalar_req<T: Scalar>(a: Seq<T>, s: T) -> bool {
    forall|p: int| 0 <= p < a.len() ==> (#[trigger] a[p]).add_req(s)
}

/// On which operands subtracting the scalar `s` from every entry is
/// defined.
pub open spec fn sub_scalar_req<T: Scalar>(a: Seq<T>, s: T) -> bool {
    forall|p: int| 0 <= p < a.len() ==> (#[trigger] a[p]).sub_req(s)
}

/// On which operands scaling every entry by `s` is defined.
pub open spec fn mul_scalar_req<T: Scalar>(a: Seq<T>, s: T) -> bool {
    forall|p: int| 0 <= p < a.len() ==> (#[trigger] a[p]).mul_req(s)
}

/// On which operands dividing every entry by `s` is defined.
pub open spec fn div_scalar_req<T: Scalar>(a: Seq<T>, s: T) -> bool {
    forall|p: int| 0 <= p < a.len() ==> (#[trigger] a[p]).div_req(s)
}

/// Row `r` of an `rows`-by-`cols` matrix stored flat in column-major
/// order in `a`, as a sequence of `cols` entries.
pub open spec fn rowq<T>(a: Seq<T>, rows: int, cols: int, r: int) -> Seq<T> {
    Seq::new(cols as nat, |c: int| a[c * rows + r])
}

/// Column `c` of a matrix with `rows` rows stored flat in column-major
/// order in `b`.
pub open spec fn colq<T>(b: Seq<T>, rows: int, c: int) -> Seq<T> {
    Seq::new(rows as nat, |r: int| b[c * rows + r])
}

/// The entry in row `i` of column `j` of the product of an `m`-by-`n`
/// matrix `a` with a matrix `b` of `n` rows, both stored flat: the dot
/// product of row `i` of `a` with column `j` of `b`.
pub open spec fn mment<T: Scalar>(a: Seq<T>, b: Seq<T>, m: int, n: int, i: int, j: int) -> T {
    dotp(rowq(a, m, n, i), colq(b, n, j), n)
}

/// The product of an `m`-by-`n` matrix with an `n`-by-`p` matrix, both
/// stored flat in column-major order.
pub open spec fn mmseq<T: Scalar>(a: Seq<T>, b: Seq<T>, m: int, n: int, p: int) -> Seq<T> {
    Seq::new((m * p) as nat, |q: int| mment(a, b, m, n, q % m, q / m))
}

/// On which operands the matrix product is defined: every entry product
/// and every partial sum that the accumulation takes.
pub open spec fn mmseq_req<T: Scalar>(a: Seq<T>, b: Seq<T>, m: int, n: int, p: int) -> bool {
    forall|i: int, j: int, k: int|
        #![trigger dotp(rowq(a, m, n, i), colq(b, n, j), k)]
        0 <= i < m && 0 <= j < p && 0 <= k < n ==> rowq(a, m, n, i)[k].mul_req(colq(b, n, j)[k])
            && dotp(rowq(a, m, n, i), colq(b, n, j), k).add_req(
            rowq(a, m, n, i)[k].mul_val(colq(b, n, j)[k]),
        )
}

impl<T: Scalar, const A: usize, const B: usize> TMat<T, A, B> {
    /// The mathematical matrix product: entry `(i, j)` of the result is
    /// the dot product of row `i` of `lhs` with column `j` of `rhs`,
    /// accumulated over the shared dimension from the left.
    #[verifier::loop_isolation(false)]
    pub fn matmul<const C: usize>(lhs: &Self, rhs: &TMat<T, B, C>) -> (product: TMat<T, A, C>)
        requires
            lhs.wf(),
            rhs.wf(),
            mmseq_req(lhs@, rhs@, A as int, B as int, C as int),
        ensures
            product.wf(),
            product@ == mmseq(lhs@, rhs@, A as int, B as int, C as int),
            forall|i: int, j: int|
                0 <= i < A && 0 <= j < C ==> #[trigger] product.idx(i, j) == mment(
                    lhs@, rhs@, A as int, B as int, i, j),
    {
        let mut data: Vec<T> = Vec::new();
        let mut j: usize = 0;
        while j < C
            invariant
                j <= C,
                data@.len() == j * (A as int),
                forall|i2: int, j2: int|
                    #![trigger mment(lhs@, rhs@, A as int, B as int, i2, j2)]
                    0 <= i2 < A && 0 <= j2 < j ==> data@[j2 * (A as int) + i2] == mment(
                        lhs@, rhs@, A as int, B as int, i2, j2),
            decreases C - j,
        {
            let mut i: usize = 0;
            while i < A
                invariant
                    i <= A,
                    data@.len() == j * (A as int) + i,
                    forall|i2: int, j2: int|
                        #![trigger mment(lhs@, rhs@, A as int, B as int, i2, j2)]
                        0 <= i2 < A && 0 <= j2 < j ==> data@[j2 * (A as int) + i2] == mment(
                            lhs@, rhs@, A as int, B as int, i2, j2),
                    forall|i2: int|
                        #![trigger mment(lhs@, rhs@, A as int, B as int, i2, j as int)]
                        0 <= i2 < i ==> data@[j * (A as int) + i2] == mment(
                            lhs@, rhs@, A as int, B as int, i2, j as int),
                decreases A - i,
            {
                let mut acc: T = T::zero();
                let mut k: usize = 0;
                while k < B
                    invariant
                        k <= B,
                        acc == dotp(
                            rowq(lhs@, A as int, B as int, i as int),
                            colq(rhs@, B as int, j as int),
                            k as int,
                        ),
                    decreases B - k,
                {
                    acc = acc.add(lhs.at(i, k).mul(rhs.at(k, j)));
                    k = k + 1;
                }
                let ghost pre = data@;
                data.push(acc);
                i = i + 1;
                proof {
                    assert forall|i2: int, j2: int|
                        #![trigger mment(lhs@, rhs@, A as int, B as int, i2, j2)]
                        0 <= i2 < A && 0 <= j2 < j implies data@[j2 * (A as int) + i2] == mment(
                        lhs@, rhs@, A as int, B as int, i2, j2) by {
                        lemma_cell_index(A as int, j as int, i2, j2);
                        assert((A as int) * (j as int) <= pre.len()) by (nonlinear_arith)
                            requires
                                pre.len() == (j as int) * (A as int) + (i as int) - 1,
                                i >= 1,
                        ;
                        assert(j2 * (A as int) + i2 < pre.len());
                        assert(data@[j2 * (A as int) + i2] == pre[j2 * (A as int) + i2]);
                    }
                }
            }
            proof {
                assert(data@.len() == (j + 1) * (A as int)) by (nonlinear_arith)
                    requires data@.len() == j * (A as int) + (A as int);
            }
            j = j + 1;
        }
        let product = TMat::<T, A, C> { data };
        proof {
            assert(product@.len() == A * C) by (nonlinear_arith)
                requires product@.len() == (C as int) * (A as int);
            assert forall|i: int, j2: int| 0 <= i < A && 0 <= j2 < C implies #[trigger] product.idx(
                i, j2) == mment(lhs@, rhs@, A as int, B as int, i, j2) by {
                lemma_cell_index(A as int, C as int, i, j2);
            }
            let target = mmseq(lhs@, rhs@, A as int, B as int, C as int);
            assert forall|q: int| 0 <= q < product@.len() implies product@[q] == target[q] by {
                assert((A as int) > 0) by (nonlinear_arith)
                    requires (A as int) * (C as int) > q >= 0;
                lemma_flat_to_cell(A as int, C as int, q);
            }
            assert(product@ =~= target);
        }
        product
    }

    /// Method form of [`Self::matmul`]: `self` times `rhs`.
    pub fn mm<const C: usize>(&self, rhs: &TMat<T, B, C>) -> (product: TMat<T, A, C>)
        requires
            self.wf(),
            rhs.wf(),
            mmseq_req(self@, rhs@, A as int, B as int, C as int),
        ensures
            product.wf(),
            product@ == mmseq(self@, rhs@, A as int, B as int, C as int),
            forall|i: int, j: int|
                0 <= i < A && 0 <= j < C ==> #[trigger] product.idx(i, j) == mment(
                    self@, rhs@, A as int, B as int, i, j),
    {
        Self::matmul(self, rhs)
    }
}

/// A flat position decomposes into the (row, column) pair that
/// addresses it.
pub proof fn lemma_flat_to_cell(rows: int, cols: int, p: int)
    requires
        rows > 0,
        0 <= p < rows * cols,
    ensures
        0 <= p % rows < rows,
        0 <= p / rows < cols,
        p == (p / rows) * rows + (p % rows),
{
    vstd::arithmetic::div_mod::lemma_fundamental_div_mod(p, rows);
    vstd::arithmetic::div_mod::lemma_mod_bound(p, rows);
    assert((p / rows) * rows == rows * (p / rows)) by (nonlinear_arith);
    assert(p / rows < cols) by (nonlinear_arith)
        requires
            rows > 0 && p < rows * cols && p == rows * (p / rows) + p % rows && 0 <= p % rows
                < rows && 0 <= p,
    ;
    assert(p / rows >= 0) by (nonlinear_arith)
        requires
            rows > 0 && p == rows * (p / rows) + p % rows && 0 <= p % rows < rows && 0 <= p,
    ;
}

/// Transposing a matrix twice gives back the original matrix: if `t`
/// is the transpose of `m` (in the sense of `transpose`'s contract) and
/// `u` is the transpose of `t`, then `u` holds exactly the entries of
/// `m`.
pub proof fn lemma_transpose_involution<T: Scalar, const R: usize, const C: usize>(
    m: &TMat<T, R, C>,
    t: &TMat<T, C, R>,
    u: &TMat<T, R, C>,
)
    requires
        m.wf(),
        t.wf(),
        u.wf(),
        forall|r: int, c: int| 0 <= r < C && 0 <= c < R ==> #[trigger] t.idx(r, c) == m.idx(c, r),
        forall|r: int, c: int| 0 <= r < R && 0 <= c < C ==> #[trigger] u.idx(r, c) == t.idx(c, r),
    ensures
        u@ == m@,
        forall|r: int, c: int| 0 <= r < R && 0 <= c < C ==> #[trigger] u.idx(r, c) == m.idx(r, c),
{
    assert forall|p: int| 0 <= p < u@.len() implies u@[p] == m@[p] by {
        assert(R > 0) by (nonlinear_arith)
            requires (R as int) * (C as int) > p >= 0;
        lemma_flat_to_cell(R as int, C as int, p);
        let r = p % (R as int);
        let c = p / (R as int);
        assert(u.idx(r, c) == t.idx(c, r));
        assert(t.idx(c, r) == m.idx(r, c));
    }
    assert(u@ =~= m@);
}

/// Round trip: a flat vector that `try_from` accepts is reproduced
/// entry for entry when the matrix is flattened back (in the sense of
/// the two functions' contracts).
pub proof fn lemma_flat_round_trip<T: Scalar, const R: usize, const C: usize>(
    flat: Seq<T>,
    m: &TMat<T, R, C>,
    back: Seq<T>,
)
    requires
        m@ == flat,
        back == m@,
    ensures
        back == flat,
{
}

} // verus!
