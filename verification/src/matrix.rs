//! Dense real matrices in row-major order.
//!
//! Each entry is the bit pattern of an IEEE-754 double-precision number.
//! The view of a matrix is the sequence of its rows, each row a sequence
//! of entries, so contracts speak of `m@[r][c]`.

use vstd::prelude::*;

verus! {

/// Dense matrix in row-major order; entries are bit patterns of
/// double-precision numbers.
pub struct Matrix {
    pub nrows: usize,
    pub ncols: usize,
    pub data: Vec<u64>,
}

impl View for Matrix {
    type V = Seq<Seq<u64>>;

    open spec fn view(&self) -> Seq<Seq<u64>> {
        Seq::new(self.nrows as nat, |r: int| Seq::new(self.ncols as nat, |c: int| self.data@[r * self.ncols + c]))
    }
}

/// The rows of `m` selected by `idx`, in the order of `idx`.
pub open spec fn rows_selected(m: Seq<Seq<u64>>, idx: Seq<int>) -> Seq<Seq<u64>> {
    Seq::new(idx.len(), |k: int| m[idx[k]])
}

/// The columns of `m` selected by `idx`, in the order of `idx`.
pub open spec fn cols_selected(m: Seq<Seq<u64>>, idx: Seq<int>) -> Seq<Seq<u64>> {
    Seq::new(m.len(), |r: int| Seq::new(idx.len(), |k: int| m[r][idx[k]]))
}

/// The consecutive indices `s`, `s + 1`, ..., `s + n - 1`.
pub open spec fn index_range(s: int, n: int) -> Seq<int> {
    Seq::new(n as nat, |i: int| s + i)
}

proof fn lemma_row_major_index(nrows: int, ncols: int, r: int, c: int)
    by (nonlinear_arith)
    requires
        0 <= r < nrows,
        0 <= c < ncols,
    ensures
        0 <= r * ncols + c < nrows * ncols,
        r * ncols + c <= (nrows - 1) * ncols + (ncols - 1),
{
}

proof fn lemma_vec_len_bound(v: &Vec<u64>)
    ensures
        v@.len() <= usize::MAX,
{
    broadcast use vstd::std_specs::vec::axiom_spec_len;

    assert(vstd::std_specs::vec::spec_vec_len(v) == v@.len());
}

/// A well-formed matrix's entry count fits in `usize`.
pub proof fn lemma_matrix_data_bound(m: &Matrix)
    requires
        m.wf(),
    ensures
        m.spec_nrows() * m.spec_ncols() <= usize::MAX,
{
    lemma_vec_len_bound(&m.data);
}

impl Matrix {
    /// Shape and storage agree.
    pub open spec fn wf(self) -> bool {
        self.data@.len() == self.nrows * self.ncols
    }

    pub open spec fn spec_nrows(self) -> usize {
        self.nrows
    }

    pub open spec fn spec_ncols(self) -> usize {
        self.ncols
    }

    /// Builds a matrix from its row-major entries.
    pub fn from_row_major(nrows: usize, ncols: usize, data: Vec<u64>) -> (m: Matrix)
        requires
            data@.len() == nrows * ncols,
        ensures
            m.wf(),
            m.spec_nrows() == nrows,
            m.spec_ncols() == ncols,
            forall|r: int, c: int|
                0 <= r < nrows && 0 <= c < ncols ==> m@[r][c] == data@[r * ncols + c],
    {
        let m = Matrix { nrows, ncols, data };
        proof {
            assert forall|r: int, c: int|
                0 <= r < nrows && 0 <= c < ncols implies m@[r][c] == m.data@[r * ncols + c] by {
                lemma_row_major_index(nrows as int, ncols as int, r, c);
            }
        }
        m
    }

    /// Builds a matrix from its column-major entries.
    pub fn from_column_major(nrows: usize, ncols: usize, data: &Vec<u64>) -> (m: Matrix)
        requires
            data@.len() == nrows * ncols,
            nrows * ncols <= usize::MAX,
        ensures
            m.wf(),
            m.spec_nrows() == nrows,
            m.spec_ncols() == ncols,
            forall|r: int, c: int|
                0 <= r < nrows && 0 <= c < ncols ==> m@[r][c] == data@[c * nrows + r],
    {
        let mut out: Vec<u64> = Vec::new();
        let mut r: usize = 0;
        while r < nrows
            invariant
                r <= nrows,
                data@.len() == nrows * ncols,
                nrows * ncols <= usize::MAX,
                out@.len() == r * ncols,
                forall|i: int, c: int|
                    0 <= i < r && 0 <= c < ncols ==> #[trigger] out@[i * ncols + c] == data@[c * nrows + i],
            decreases nrows - r,
        {
            let mut c: usize = 0;
            while c < ncols
                invariant
                    r < nrows,
                    c <= ncols,
                    data@.len() == nrows * ncols,
                    nrows * ncols <= usize::MAX,
                    out@.len() == r * ncols + c,
                    forall|i: int, j: int|
                        0 <= i < r && 0 <= j < ncols ==> #[trigger] out@[i * ncols + j] == data@[j * nrows + i],
                    forall|j: int| 0 <= j < c ==> #[trigger] out@[r * ncols + j] == data@[j * nrows + r],
                decreases ncols - c,
            {
                proof {
                    lemma_row_major_index(ncols as int, nrows as int, c as int, r as int);
                    lemma_row_major_index(nrows as int, ncols as int, r as int, c as int);
                }
                let v = data[c * nrows + r];
                out.push(v);
                proof {
                    assert forall|i: int, j: int|
                        0 <= i < r && 0 <= j < ncols implies #[trigger] out@[i * ncols + j]
                        == data@[j * nrows + i] by {
                        lemma_row_major_index(r as int, ncols as int, i, j);
                    }
                    assert forall|j: int| 0 <= j < c + 1 implies #[trigger] out@[r * ncols + j]
                        == data@[j * nrows + r] by {
                        if j == c {
                            lemma_row_major_index(nrows as int, ncols as int, r as int, j);
                        }
                    }
                }
                c += 1;
            }
            proof {
                assert forall|i: int, j: int|
                    0 <= i < r + 1 && 0 <= j < ncols implies #[trigger] out@[i * ncols + j]
                    == data@[j * nrows + i] by {
                    if i < r {
                        lemma_row_major_index(r as int, ncols as int, i, j);
                    }
                }
            }
            r += 1;
            proof {
                assert(out@.len() == (r - 1) * ncols + ncols);
                assert((r - 1) * ncols + ncols == r * ncols) by (nonlinear_arith);
            }
        }
        proof {
            assert(out@.len() == nrows * ncols);
        }
        let m = Matrix { nrows, ncols, data: out };
        proof {
            assert forall|i: int, c: int|
                0 <= i < nrows && 0 <= c < ncols implies m@[i][c] == data@[c * nrows + i] by {
                lemma_row_major_index(nrows as int, ncols as int, i, c);
            }
        }
        m
    }

    pub fn nrows(&self) -> (n: usize)
        ensures
            n == self.spec_nrows(),
    {
        self.nrows
    }

    pub fn ncols(&self) -> (n: usize)
        ensures
            n == self.spec_ncols(),
    {
        self.ncols
    }

    /// The entry in row `r`, column `c`.
    pub fn entry(&self, r: usize, c: usize) -> (v: u64)
        requires
            self.wf(),
            r < self.spec_nrows(),
            c < self.spec_ncols(),
        ensures
            v == self@[r as int][c as int],
    {
        proof {
            lemma_vec_len_bound(&self.data);
            lemma_row_major_index(self.nrows as int, self.ncols as int, r as int, c as int);
        }
        self.data[r * self.ncols + c]
    }

    /// The row-major entries.
    pub fn row_major(&self) -> (d: &Vec<u64>)
        requires
            self.wf(),
        ensures
            d@.len() == self.spec_nrows() * self.spec_ncols(),
            forall|r: int, c: int|
                0 <= r < self.spec_nrows() && 0 <= c < self.spec_ncols()
                    ==> d@[r * self.spec_ncols() + c] == self@[r][c],
    {
        proof {
            assert forall|r: int, c: int|
                0 <= r < self.spec_nrows() && 0 <= c < self.spec_ncols()
                    implies self.data@[r * self.spec_ncols() + c] == self@[r][c] by {
                lemma_row_major_index(self.nrows as int, self.ncols as int, r, c);
            }
        }
        &self.data
    }

    /// The matrix made of the rows `idx[0]`, `idx[1]`, ... of `self`.
    pub fn select_rows(&self, idx: &Vec<usize>) -> (m: Matrix)
        requires
            self.wf(),
            forall|k: int| 0 <= k < idx@.len() ==> idx@[k] < self.spec_nrows(),
            idx@.len() * self.spec_ncols() <= usize::MAX,
        ensures
            m.wf(),
            m.spec_nrows() == idx@.len(),
            m.spec_ncols() == self.spec_ncols(),
            m@ == rows_selected(self@, idx@.map_values(|i: usize| i as int)),
    {
        let ncols = self.ncols;
        let n = idx.len();
        let mut out: Vec<u64> = Vec::new();
        let mut k: usize = 0;
        while k < n
            invariant
                k <= n,
                n == idx@.len(),
                ncols == self.spec_ncols(),
                self.wf(),
                forall|t: int| 0 <= t < n ==> idx@[t] < self.spec_nrows(),
                n * ncols <= usize::MAX,
                out@.len() == k * ncols,
                forall|t: int, c: int|
                    0 <= t < k && 0 <= c < ncols ==> #[trigger] out@[t * ncols + c] == self@[idx@[t] as int][c],
            decreases n - k,
        {
            let r = idx[k];
            let mut c: usize = 0;
            while c < ncols
                invariant
                    k < n,
                    c <= ncols,
                    n == idx@.len(),
                    ncols == self.spec_ncols(),
                    self.wf(),
                    forall|t: int| 0 <= t < n ==> idx@[t] < self.spec_nrows(),
                    n * ncols <= usize::MAX,
                    r == idx@[k as int],
                    out@.len() == k * ncols + c,
                    forall|t: int, j: int|
                        0 <= t < k && 0 <= j < ncols ==> #[trigger] out@[t * ncols + j] == self@[idx@[t] as int][j],
                    forall|j: int| 0 <= j < c ==> #[trigger] out@[k * ncols + j] == self@[r as int][j],
                decreases ncols - c,
            {
                proof {
                    lemma_row_major_index(n as int, ncols as int, k as int, c as int);
                }
                let v = self.entry(r, c);
                out.push(v);
                proof {
                    assert forall|t: int, j: int|
                        0 <= t < k && 0 <= j < ncols implies #[trigger] out@[t * ncols + j]
                        == self@[idx@[t] as int][j] by {
                        lemma_row_major_index(k as int, ncols as int, t, j);
                    }
                    assert forall|j: int| 0 <= j < c + 1 implies #[trigger] out@[k * ncols + j]
                        == self@[r as int][j] by {
                    }
                }
                c += 1;
            }
            proof {
                assert forall|t: int, j: int|
                    0 <= t < k + 1 && 0 <= j < ncols implies #[trigger] out@[t * ncols + j]
                    == self@[idx@[t] as int][j] by {
                    if t < k {
                        lemma_row_major_index(k as int, ncols as int, t, j);
                    }
                }
            }
            k += 1;
            proof {
                assert((k - 1) * ncols + ncols == k * ncols) by (nonlinear_arith);
            }
        }
        let m = Matrix { nrows: n, ncols, data: out };
        proof {
            let midx = idx@.map_values(|i: usize| i as int);
            assert forall|t: int, c: int|
                0 <= t < n && 0 <= c < ncols implies m@[t][c] == self@[midx[t]][c] by {
                lemma_row_major_index(n as int, ncols as int, t, c);
            }
            assert(m@ =~~= rows_selected(self@, midx));
        }
        m
    }

    /// The matrix made of the columns `idx[0]`, `idx[1]`, ... of `self`.
    pub fn select_cols(&self, idx: &Vec<usize>) -> (m: Matrix)
        requires
            self.wf(),
            forall|k: int| 0 <= k < idx@.len() ==> idx@[k] < self.spec_ncols(),
            self.spec_nrows() * idx@.len() <= usize::MAX,
        ensures
            m.wf(),
            m.spec_nrows() == self.spec_nrows(),
            m.spec_ncols() == idx@.len(),
            m@ == cols_selected(self@, idx@.map_values(|i: usize| i as int)),
    {
        let nrows = self.nrows;
        let n = idx.len();
        let mut out: Vec<u64> = Vec::new();
        let mut r: usize = 0;
        while r < nrows
            invariant
                r <= nrows,
                n == idx@.len(),
                nrows == self.spec_nrows(),
                self.wf(),
                forall|t: int| 0 <= t < n ==> idx@[t] < self.spec_ncols(),
                nrows * n <= usize::MAX,
                out@.len() == r * n,
                forall|i: int, t: int|
                    0 <= i < r && 0 <= t < n ==> #[trigger] out@[i * n + t] == self@[i][idx@[t] as int],
            decreases nrows - r,
        {
            let mut k: usize = 0;
            while k < n
                invariant
                    r < nrows,
                    k <= n,
                    n == idx@.len(),
                    nrows == self.spec_nrows(),
                    self.wf(),
                    forall|t: int| 0 <= t < n ==> idx@[t] < self.spec_ncols(),
                    nrows * n <= usize::MAX,
                    out@.len() == r * n + k,
                    forall|i: int, t: int|
                        0 <= i < r && 0 <= t < n ==> #[trigger] out@[i * n + t] == self@[i][idx@[t] as int],
                    forall|t: int| 0 <= t < k ==> #[trigger] out@[r * n + t] == self@[r as int][idx@[t] as int],
                decreases n - k,
            {
                proof {
                    lemma_row_major_index(nrows as int, n as int, r as int, k as int);
                }
                let v = self.entry(r, idx[k]);
                out.push(v);
                proof {
                    assert forall|i: int, t: int|
                        0 <= i < r && 0 <= t < n implies #[trigger] out@[i * n + t]
                        == self@[i][idx@[t] as int] by {
                        lemma_row_major_index(r as int, n as int, i, t);
                    }
                    assert forall|t: int| 0 <= t < k + 1 implies #[trigger] out@[r * n + t]
                        == self@[r as int][idx@[t] as int] by {
                    }
                }
                k += 1;
            }
            proof {
                assert forall|i: int, t: int|
                    0 <= i < r + 1 && 0 <= t < n implies #[trigger] out@[i * n + t]
                    == self@[i][idx@[t] as int] by {
                    if i < r {
                        lemma_row_major_index(r as int, n as int, i, t);
                    }
                }
            }
            r += 1;
            proof {
                assert((r - 1) * n + n == r * n) by (nonlinear_arith);
            }
        }
        let m = Matrix { nrows, ncols: n, data: out };
        proof {
            let midx = idx@.map_values(|i: usize| i as int);
            assert forall|i: int, t: int|
                0 <= i < nrows && 0 <= t < n implies m@[i][t] == self@[i][midx[t]] by {
                lemma_row_major_index(nrows as int, n as int, i, t);
            }
            assert(m@ =~~= cols_selected(self@, midx));
        }
        m
    }

    /// The matrix made of the `n` consecutive rows of `self` starting at `s`.
    pub fn rows(&self, s: usize, n: usize) -> (m: Matrix)
        requires
            self.wf(),
            s + n <= self.spec_nrows(),
        ensures
            m.wf(),
            m.spec_nrows() == n,
            m.spec_ncols() == self.spec_ncols(),
            m@ == self@.subrange(s as int, s + n),
    {
        let mut idx: Vec<usize> = Vec::new();
        let mut i: usize = 0;
        while i < n
            invariant
                i <= n,
                s + n <= self.spec_nrows(),
                idx@.len() == i,
                forall|t: int| 0 <= t < i ==> idx@[t] == s + t,
            decreases n - i,
        {
            idx.push(s + i);
            i += 1;
        }
        let data_len = self.data.len();
        proof {
            assert(idx@.len() * self.spec_ncols() <= self.spec_nrows() * self.spec_ncols())
                by (nonlinear_arith)
                requires
                    idx@.len() <= self.spec_nrows(),
                    self.spec_ncols() >= 0,
            ;
            assert(self.spec_nrows() * self.spec_ncols() == data_len);
        }
        let m = self.select_rows(&idx);
        proof {
            assert(m@ =~~= self@.subrange(s as int, s + n));
        }
        m
    }

    /// The matrix made of the `n` consecutive columns of `self` starting at `s`.
    pub fn columns(&self, s: usize, n: usize) -> (m: Matrix)
        requires
            self.wf(),
            s + n <= self.spec_ncols(),
        ensures
            m.wf(),
            m.spec_nrows() == self.spec_nrows(),
            m.spec_ncols() == n,
            m@ == cols_selected(self@, index_range(s as int, n as int)),
    {
        let mut idx: Vec<usize> = Vec::new();
        let mut i: usize = 0;
        while i < n
            invariant
                i <= n,
                s + n <= self.spec_ncols(),
                idx@.len() == i,
                forall|t: int| 0 <= t < i ==> idx@[t] == s + t,
            decreases n - i,
        {
            idx.push(s + i);
            i += 1;
        }
        let data_len = self.data.len();
        proof {
            assert(self.spec_nrows() * idx@.len() <= self.spec_nrows() * self.spec_ncols())
                by (nonlinear_arith)
                requires
                    idx@.len() <= self.spec_ncols(),
                    self.spec_nrows() >= 0,
            ;
            assert(self.spec_nrows() * self.spec_ncols() == data_len);
        }
        let m = self.select_cols(&idx);
        proof {
            assert(idx@.map_values(|i: usize| i as int) =~~= index_range(s as int, n as int));
        }
        m
    }

    /// Stacks `self` on top of `below`; both must have the same number of
    /// columns.
    pub fn vstack(&self, below: &Matrix) -> (m: Matrix)
        requires
            self.wf(),
            below.wf(),
            self.spec_ncols() == below.spec_ncols(),
            self.spec_nrows() + below.spec_nrows() <= usize::MAX,
            (self.spec_nrows() + below.spec_nrows()) * self.spec_ncols() <= usize::MAX,
        ensures
            m.wf(),
            m.spec_nrows() == self.spec_nrows() + below.spec_nrows(),
            m.spec_ncols() == self.spec_ncols(),
            m@ == self@ + below@,
    {
        let ncols = self.ncols;
        let a = self.nrows;
        let total = a + below.nrows;
        proof {
            assert(a * ncols + below.spec_nrows() * ncols == total * ncols) by (nonlinear_arith)
                requires
                    total == a + below.spec_nrows(),
                    a == self.spec_nrows(),
                    ncols == self.spec_ncols(),
            ;
            assert(a * ncols <= total * ncols) by (nonlinear_arith)
                requires
                    a <= total,
                    0 <= ncols,
            ;
        }
        let top = self.row_major();
        let bot = below.row_major();
        let mut data: Vec<u64> = Vec::new();
        let mut i: usize = 0;
        let top_len = top.len();
        while i < top_len
            invariant
                i <= top@.len(),
                top_len == top@.len(),
                data@ == top@.subrange(0, i as int),
            decreases top@.len() - i,
        {
            let v = top[i];
            data.push(v);
            proof {
                assert(data@ =~~= top@.subrange(0, i + 1));
            }
            i += 1;
        }
        proof {
            assert(data@ =~~= top@);
        }
        let bot_len = bot.len();
        let mut j: usize = 0;
        while j < bot_len
            invariant
                j <= bot@.len(),
                bot_len == bot@.len(),
                top_len == top@.len(),
                top@.len() + bot@.len() <= usize::MAX,
                data@ == top@ + bot@.subrange(0, j as int),
            decreases bot@.len() - j,
        {
            let v = bot[j];
            data.push(v);
            proof {
                assert(data@ =~~= top@ + bot@.subrange(0, j + 1));
            }
            j += 1;
        }
        proof {
            assert(data@ =~~= top@ + bot@);
        }
        let m = Matrix { nrows: total, ncols, data };
        proof {
            let stacked = self@ + below@;
            assert forall|r: int, c: int|
                0 <= r < total && 0 <= c < ncols implies m.data@[r * ncols + c] == stacked[r][c] by {
                lemma_row_major_index(total as int, ncols as int, r, c);
                if r < a {
                    lemma_row_major_index(a as int, ncols as int, r, c);
                    assert(m.data@[r * ncols + c] == top@[r * ncols + c]);
                } else {
                    let r2 = r - a;
                    lemma_row_major_index(below.spec_nrows() as int, ncols as int, r2, c);
                    assert(r * ncols + c == a * ncols + (r2 * ncols + c)) by (nonlinear_arith)
                        requires
                            r == a + r2,
                    ;
                    assert(m.data@[r * ncols + c] == bot@[r2 * ncols + c]);
                }
            }
            assert(m@ =~~= stacked);
        }
        m
    }
}


/// The `n` x `m` block of `mat` whose top-left entry is `mat[i][j]`.
pub open spec fn submatrix(mat: Seq<Seq<u64>>, i: int, j: int, n: int, m: int) -> Seq<Seq<u64>> {
    Seq::new(n as nat, |r: int| Seq::new(m as nat, |c: int| mat[i + r][j + c]))
}

impl Matrix {
    /// The all-zero matrix (every entry is the bit pattern of `+0.0`).
    pub fn zeros(nrows: usize, ncols: usize) -> (m: Matrix)
        requires
            nrows * ncols <= usize::MAX,
        ensures
            m.wf(),
            m.spec_nrows() == nrows,
            m.spec_ncols() == ncols,
            forall|r: int, c: int| 0 <= r < nrows && 0 <= c < ncols ==> m@[r][c] == 0u64,
    {
        proof {
            lemma_mul_bound(nrows as int, ncols as int);
        }
        let total = nrows * ncols;
        let mut data: Vec<u64> = Vec::new();
        let mut t: usize = 0;
        while t < total
            invariant
                t <= total,
                data@.len() == t,
                forall|k: int| 0 <= k < t ==> data@[k] == 0u64,
            decreases total - t,
        {
            data.push(0u64);
            t += 1;
        }
        let m = Matrix { nrows, ncols, data };
        proof {
            assert forall|r: int, c: int|
                0 <= r < nrows && 0 <= c < ncols implies m@[r][c] == 0u64 by {
                lemma_row_major_index(nrows as int, ncols as int, r, c);
            }
        }
        m
    }

    /// The `n` x `m` block of `self` whose top-left entry is in row `i`,
    /// column `j`.
    pub fn block(&self, i: usize, j: usize, n: usize, m: usize) -> (b: Matrix)
        requires
            self.wf(),
            i + n <= self.spec_nrows(),
            j + m <= self.spec_ncols(),
        ensures
            b.wf(),
            b.spec_nrows() == n,
            b.spec_ncols() == m,
            b@ == submatrix(self@, i as int, j as int, n as int, m as int),
    {
        let r = self.rows(i, n);
        let b = r.columns(j, m);
        proof {
            assert(b@ =~~= submatrix(self@, i as int, j as int, n as int, m as int));
        }
        b
    }
}

proof fn lemma_mul_bound(a: int, b: int)
    by (nonlinear_arith)
    requires
        0 <= a,
        0 <= b,
    ensures
        a * b >= 0,
        a <= 1 || b <= 1 || a * b >= a + b,
{
}

/// Complex matrix: the bit patterns of the real and the imaginary parts,
/// two equally shaped real matrices.
pub struct CMatrix {
    pub re: Matrix,
    pub im: Matrix,
}

impl CMatrix {
    /// Both parts are well formed and share one shape.
    pub open spec fn wf(self) -> bool {
        &&& self.re.wf()
        &&& self.im.wf()
        &&& self.re.spec_nrows() == self.im.spec_nrows()
        &&& self.re.spec_ncols() == self.im.spec_ncols()
    }

    pub open spec fn spec_nrows(self) -> usize {
        self.re.spec_nrows()
    }

    pub open spec fn spec_ncols(self) -> usize {
        self.re.spec_ncols()
    }

    /// The all-zero complex matrix.
    pub fn zeros(nrows: usize, ncols: usize) -> (m: CMatrix)
        requires
            nrows * ncols <= usize::MAX,
        ensures
            m.wf(),
            m.spec_nrows() == nrows,
            m.spec_ncols() == ncols,
            forall|r: int, c: int| 0 <= r < nrows && 0 <= c < ncols ==> m.re@[r][c] == 0u64,
            forall|r: int, c: int| 0 <= r < nrows && 0 <= c < ncols ==> m.im@[r][c] == 0u64,
    {
        CMatrix { re: Matrix::zeros(nrows, ncols), im: Matrix::zeros(nrows, ncols) }
    }
}

} // verus!
