//! Fixed-size `M`-row-by-`N`-column integer matrices: elementwise and scalar
//! arithmetic, matrix–matrix and matrix–vector multiplication, and the square
//! constructors (zero, identity, uniform and per-axis scale).

use vstd::prelude::*;

use crate::display::{comps_str, int_str, matrix_str, push_i64, rows_str};
use crate::sums::{
    lemma_sum_ext, lemma_sum_scale, lemma_sum_swap, lemma_sum_unit, sum_upto,
};
use crate::vector::{
    bounded, dot_prefix, dot_seq, lemma_dot_prefix_bound, Vector, COMP_LIMIT, DIM_LIMIT,
};

verus! {

broadcast use crate::vector::lemma_vector_view_len;

/// `m` is a grid of `rows` rows, each `cols` entries long.
pub open spec fn mat_wf(m: Seq<Seq<int>>, rows: int, cols: int) -> bool {
    &&& m.len() == rows
    &&& forall|r: int| 0 <= r < rows ==> #[trigger] m[r].len() == cols
}

/// Every entry of `m` lies in `[-b, b]`.
pub open spec fn mat_bounded(m: Seq<Seq<int>>, b: int) -> bool {
    forall|r: int, c: int|
        0 <= r < m.len() && 0 <= c < m[r].len() ==> -b <= #[trigger] m[r][c] <= b
}

/// Entrywise sum of `a` and `b`.
pub open spec fn mat_add(a: Seq<Seq<int>>, b: Seq<Seq<int>>) -> Seq<Seq<int>> {
    Seq::new(a.len(), |r: int| Seq::new(a[r].len(), |c: int| a[r][c] + b[r][c]))
}

/// Entrywise difference of `a` and `b`.
pub open spec fn mat_sub(a: Seq<Seq<int>>, b: Seq<Seq<int>>) -> Seq<Seq<int>> {
    Seq::new(a.len(), |r: int| Seq::new(a[r].len(), |c: int| a[r][c] - b[r][c]))
}

/// Every entry of `a` multiplied by `f`.
pub open spec fn mat_scale(a: Seq<Seq<int>>, f: int) -> Seq<Seq<int>> {
    Seq::new(a.len(), |r: int| Seq::new(a[r].len(), |c: int| a[r][c] * f))
}

/// Every entrywise sum of `a` and `b` fits in an `i64`.
pub open spec fn mat_sums_fit(a: Seq<Seq<int>>, b: Seq<Seq<int>>) -> bool {
    forall|r: int, c: int|
        0 <= r < a.len() && 0 <= c < a[r].len() ==> i64::MIN <= #[trigger] (a[r][c] + b[r][c])
            <= i64::MAX
}

/// Every entrywise difference of `a` and `b` fits in an `i64`.
pub open spec fn mat_diffs_fit(a: Seq<Seq<int>>, b: Seq<Seq<int>>) -> bool {
    forall|r: int, c: int|
        0 <= r < a.len() && 0 <= c < a[r].len() ==> i64::MIN <= #[trigger] (a[r][c] - b[r][c])
            <= i64::MAX
}

/// Every entry of `a` multiplied by `f` fits in an `i64`.
pub open spec fn mat_scales_fit(a: Seq<Seq<int>>, f: int) -> bool {
    forall|r: int, c: int|
        0 <= r < a.len() && 0 <= c < a[r].len() ==> i64::MIN <= #[trigger] (a[r][c] * f)
            <= i64::MAX
}

/// The first `n` terms of the sum-of-products behind entry `(r, c)` of the
/// matrix product `a * b`.
pub open spec fn mm_prefix(a: Seq<Seq<int>>, b: Seq<Seq<int>>, r: int, c: int, n: int) -> int
    decreases n,
{
    if n <= 0 {
        0
    } else {
        mm_prefix(a, b, r, c, n - 1) + a[r][n - 1] * b[n - 1][c]
    }
}

/// Entry `(r, c)` of the matrix product `a * b`: the sum of products over the
/// inner dimension.
pub open spec fn mm_entry(a: Seq<Seq<int>>, b: Seq<Seq<int>>, r: int, c: int) -> int {
    mm_prefix(a, b, r, c, b.len() as int)
}

/// The matrix product `a * b`, whose rows are those of `a` and whose rows are
/// `cols` entries long.
pub open spec fn mat_mul(a: Seq<Seq<int>>, b: Seq<Seq<int>>, cols: int) -> Seq<Seq<int>> {
    Seq::new(a.len(), |r: int| Seq::new(cols as nat, |c: int| mm_entry(a, b, r, c)))
}

/// The `k`-by-`k` grid with ones on the diagonal and zeros elsewhere.
pub open spec fn identity_seq(k: int) -> Seq<Seq<int>> {
    Seq::new(k as nat, |r: int| Seq::new(k as nat, |c: int| if r == c { 1 } else { 0 }))
}

/// The square grid with `d[i]` at diagonal position `i` and zeros elsewhere.
pub open spec fn diagonal_seq(d: Seq<int>) -> Seq<Seq<int>> {
    Seq::new(d.len(), |r: int| Seq::new(d.len(), |c: int| if r == c { d[r] } else { 0 }))
}

/// The matrix–vector product `a * v`: one dot product per row.
pub open spec fn mat_vec_mul(a: Seq<Seq<int>>, v: Seq<int>) -> Seq<int> {
    Seq::new(a.len(), |r: int| dot_seq(a[r], v))
}

/// A prefix of a product entry over `bound`-bounded grids is bounded by
/// `n * bound * bound`.
pub proof fn lemma_mm_prefix_bound(a: Seq<Seq<int>>, b: Seq<Seq<int>>, r: int, c: int, n: int, bound: int)
    requires
        0 <= n,
        0 <= r < a.len(),
        n <= a[r].len(),
        n <= b.len(),
        0 <= bound,
        0 <= c,
        forall|p: int| 0 <= p < n ==> -bound <= #[trigger] a[r][p] <= bound,
        forall|p: int| 0 <= p < n ==> c < #[trigger] b[p].len(),
        forall|p: int| 0 <= p < n ==> -bound <= #[trigger] b[p][c] <= bound,
    ensures
        -(n * bound * bound) <= mm_prefix(a, b, r, c, n) <= n * bound * bound,
    decreases n,
{
    if n > 0 {
        lemma_mm_prefix_bound(a, b, r, c, n - 1, bound);
        assert(-(bound * bound) <= a[r][n - 1] * b[n - 1][c] <= bound * bound) by (nonlinear_arith)
            requires
                -bound <= a[r][n - 1] <= bound,
                -bound <= b[n - 1][c] <= bound,
                0 <= bound,
        ;
        assert((n - 1) * bound * bound + bound * bound == n * bound * bound) by (nonlinear_arith);
    }
}

/// A product-entry prefix is the finite sum of its terms.
proof fn lemma_mm_prefix_as_sum(a: Seq<Seq<int>>, b: Seq<Seq<int>>, r: int, c: int, n: int)
    ensures
        mm_prefix(a, b, r, c, n) == sum_upto(n, (|p: int| a[r][p] * b[p][c])),
    decreases n,
{
    if n > 0 {
        lemma_mm_prefix_as_sum(a, b, r, c, n - 1);
    }
}

/// Multiplying by the identity on the left leaves a matrix unchanged:
/// `I * m == m`.
pub proof fn lemma_identity_mul_left(m: Seq<Seq<int>>, k: int, n: int)
    requires
        mat_wf(m, k, n),
        0 <= k,
        0 <= n,
    ensures
        mat_mul(identity_seq(k), m, n) == m,
{
    let id = identity_seq(k);
    assert forall|r: int, c: int| 0 <= r < k && 0 <= c < n implies mm_entry(id, m, r, c)
        == m[r][c] by {
        lemma_mm_prefix_as_sum(id, m, r, c, k);
        let f = |p: int| id[r][p] * m[p][c];
        assert forall|p: int| 0 <= p < k && p != r implies #[trigger] f(p) == 0 by {
            assert(id[r][p] == 0);
        }
        lemma_sum_unit(k, f, r);
        assert(f(r) == 1 * m[r][c]);
    }
    assert forall|r: int| 0 <= r < k implies #[trigger] mat_mul(id, m, n)[r] =~= m[r] by {}
    assert(mat_mul(id, m, n) =~= m);
}

/// Multiplying by the identity on the right leaves a matrix unchanged:
/// `m * I == m`.
pub proof fn lemma_identity_mul_right(m: Seq<Seq<int>>, k: int, n: int)
    requires
        mat_wf(m, k, n),
        0 <= k,
        0 <= n,
    ensures
        mat_mul(m, identity_seq(n), n) == m,
{
    let id = identity_seq(n);
    assert forall|r: int, c: int| 0 <= r < k && 0 <= c < n implies mm_entry(m, id, r, c)
        == m[r][c] by {
        lemma_mm_prefix_as_sum(m, id, r, c, n);
        let f = |p: int| m[r][p] * id[p][c];
        assert forall|p: int| 0 <= p < n && p != c implies #[trigger] f(p) == 0 by {
            assert(id[p][c] == 0);
        }
        lemma_sum_unit(n, f, c);
        assert(f(c) == m[r][c] * 1);
    }
    assert forall|r: int| 0 <= r < k implies #[trigger] mat_mul(m, id, n)[r] =~= m[r] by {}
    assert(mat_mul(m, id, n) =~= m);
}

/// Matrix multiplication is associative: `(a * b) * c == a * (b * c)`,
/// exactly, for all compatible shapes.
pub proof fn lemma_mat_mul_assoc(
    a: Seq<Seq<int>>,
    b: Seq<Seq<int>>,
    c: Seq<Seq<int>>,
    m: int,
    p: int,
    q: int,
    n: int,
)
    requires
        mat_wf(a, m, p),
        mat_wf(b, p, q),
        mat_wf(c, q, n),
        0 <= m,
        0 <= p,
        0 <= q,
        0 <= n,
    ensures
        mat_mul(mat_mul(a, b, q), c, n) == mat_mul(a, mat_mul(b, c, n), n),
{
    let ab = mat_mul(a, b, q);
    let bc = mat_mul(b, c, n);
    assert forall|i: int, j: int| 0 <= i < m && 0 <= j < n implies mm_entry(ab, c, i, j)
        == mm_entry(a, bc, i, j) by {
        let term = |qq: int, pp: int| a[i][pp] * b[pp][qq] * c[qq][j];
        lemma_mm_prefix_as_sum(ab, c, i, j, q);
        let f1 = |qq: int| ab[i][qq] * c[qq][j];
        let g = |qq: int| sum_upto(p, (|pp: int| term(qq, pp)));
        assert forall|qq: int| 0 <= qq < q implies #[trigger] f1(qq) == g(qq) by {
            lemma_mm_prefix_as_sum(a, b, i, qq, p);
            let h = |pp: int| a[i][pp] * b[pp][qq];
            let g2 = |pp: int| term(qq, pp);
            assert forall|pp: int| 0 <= pp < p implies #[trigger] g2(pp) == h(pp) * c[qq][j] by {}
            lemma_sum_scale(p, h, g2, c[qq][j]);
        }
        lemma_sum_ext(q, f1, g);
        lemma_sum_swap(q, p, term);
        let w = |pp: int| sum_upto(q, (|qq: int| term(qq, pp)));
        lemma_mm_prefix_as_sum(a, bc, i, j, p);
        let f2 = |pp: int| a[i][pp] * bc[pp][j];
        assert forall|pp: int| 0 <= pp < p implies #[trigger] f2(pp) == w(pp) by {
            lemma_mm_prefix_as_sum(b, c, pp, j, q);
            let h2 = |qq: int| b[pp][qq] * c[qq][j];
            let g3 = |qq: int| term(qq, pp);
            assert forall|qq: int| 0 <= qq < q implies #[trigger] g3(qq) == h2(qq) * a[i][pp] by {
                assert(a[i][pp] * b[pp][qq] * c[qq][j] == (b[pp][qq] * c[qq][j]) * a[i][pp])
                    by (nonlinear_arith);
            }
            lemma_sum_scale(q, h2, g3, a[i][pp]);
            assert(a[i][pp] * bc[pp][j] == bc[pp][j] * a[i][pp]);
        }
        lemma_sum_ext(p, f2, w);
    }
    assert forall|i: int| 0 <= i < m implies #[trigger] mat_mul(ab, c, n)[i] =~= mat_mul(
        a,
        bc,
        n,
    )[i] by {}
    assert(mat_mul(ab, c, n) =~= mat_mul(a, bc, n));
}

/// A `Matrix<M, N>` always views as a well-formed `M`-by-`N` grid.
pub broadcast proof fn lemma_matrix_view_shape<const M: usize, const N: usize>(m: Matrix<M, N>)
    ensures
        #[trigger] m@.len() == M,
        forall|r: int| 0 <= r < M ==> #[trigger] m@[r].len() == N,
{
}

/// An `M`-by-`N` grid of integer scalars, addressed by `(row, col)` with
/// `0 <= row < M` and `0 <= col < N`, row-major.
///
/// The dimensions are part of the type: elementwise operations require equal
/// shapes, multiplication requires matching inner dimensions, and both are
/// enforced when the program is built, never by a run-time check.
#[derive(Clone, Copy, Debug)]
pub struct Matrix<const M: usize, const N: usize> {
    arr: [[i64; N]; M],
}

impl<const M: usize, const N: usize> View for Matrix<M, N> {
    type V = Seq<Seq<int>>;

    closed spec fn view(&self) -> Seq<Seq<int>> {
        Seq::new(M as nat, |r: int| Seq::new(N as nat, |c: int| self.arr@[r]@[c] as int))
    }
}

impl<const M: usize, const N: usize> Matrix<M, N> {
    /// The all-zero matrix.
    pub fn zero() -> (r: Self)
        ensures
            mat_wf(r@, M as int, N as int),
            forall|i: int, j: int| 0 <= i < M && 0 <= j < N ==> #[trigger] r@[i][j] == 0,
    {
        let row: [i64; N] = [0i64; N];
        Matrix { arr: [row; M] }
    }

    /// Bounds-checked read: `Some` entry for `row < M` and `col < N`, `None`
    /// otherwise.
    pub fn get(&self, row: usize, col: usize) -> (r: Option<i64>)
        ensures
            row < M && col < N ==> (r matches Some(v) && v as int == self@[row as int][col as int]),
            row >= M || col >= N ==> r is None,
    {
        if row < M && col < N {
            Some(self.arr[row][col])
        } else {
            None
        }
    }

    /// Appends the rendering of row `r`'s entries from column `j` on, each
    /// followed by a comma.
    fn push_row(&self, s: &mut String, r: usize, j: usize)
        requires
            r < M,
            j <= N,
        ensures
            final(s)@ == old(s)@ + comps_str(self@[r as int].subrange(j as int, N as int)),
        decreases N - j,
    {
        if j < N {
            push_i64(s, self.arr[r][j]);
            s.append(",");
            self.push_row(s, r, j + 1);
            proof {
                reveal_strlit(",");
                let sub = self@[r as int].subrange(j as int, N as int);
                assert(self@[r as int][j as int] == self.arr@[r as int]@[j as int] as int);
                assert(sub[0] == self@[r as int][j as int]);
                assert(sub.drop_first() =~= self@[r as int].subrange(j as int + 1, N as int));
                assert(","@ =~= seq![',']);
                assert(old(s)@ + int_str(self@[r as int][j as int]) + ","@ + comps_str(
                    self@[r as int].subrange(j as int + 1, N as int),
                ) =~= old(s)@ + comps_str(sub));
            }
        } else {
            proof {
                assert(self@[r as int].subrange(j as int, N as int) =~= Seq::<int>::empty());
                assert(old(s)@ + comps_str(Seq::<int>::empty()) =~= old(s)@);
            }
        }
    }

    /// Appends the rendering of the rows from `r` on, bracketed and
    /// separated as `rows_str` states.
    fn push_rows(&self, s: &mut String, r: usize)
        requires
            r <= M,
        ensures
            final(s)@ == old(s)@ + rows_str(self@.subrange(r as int, M as int)),
        decreases M - r,
    {
        if r < M {
            s.append("[");
            self.push_row(s, r, 0);
            let ghost mid = s@;
            if r + 1 < M {
                s.append("],\n ");
                self.push_rows(s, r + 1);
                proof {
                    reveal_strlit("[");
                    reveal_strlit("],\n ");
                    let sub = self@.subrange(r as int, M as int);
                    assert(sub[0] == self@[r as int]);
                    assert(sub[0].subrange(0, N as int) =~= sub[0]);
                    assert(sub.drop_first() =~= self@.subrange(r as int + 1, M as int));
                    assert("],\n "@ =~= seq![']', ',', '\n', ' ']);
                    assert("["@ =~= seq!['[']);
                    assert(old(s)@ + "["@ + comps_str(sub[0]) + "],\n "@ + rows_str(
                        self@.subrange(r as int + 1, M as int),
                    ) =~= old(s)@ + rows_str(sub));
                }
            } else {
                proof {
                    reveal_strlit("[");
                    let sub = self@.subrange(r as int, M as int);
                    assert(sub.len() == 1);
                    assert(sub[0] == self@[r as int]);
                    assert(sub[0].subrange(0, N as int) =~= sub[0]);
                    assert("["@ =~= seq!['[']);
                    assert(old(s)@ + "["@ + comps_str(sub[0]) =~= old(s)@ + rows_str(sub));
                }
            }
        } else {
            proof {
                assert(self@.subrange(r as int, M as int) =~= Seq::<Seq<int>>::empty());
                assert(old(s)@ + rows_str(Seq::<Seq<int>>::empty()) =~= old(s)@);
            }
        }
    }

    /// Renders the matrix one bracketed row per line, entries each followed
    /// by a comma, closed by `]]` and a final line break.
    pub fn to_display_string(&self) -> (s: String)
        ensures
            s@ == matrix_str(self@),
    {
        let mut s = String::new();
        s.append("[");
        self.push_rows(&mut s, 0);
        s.append("]]\n");
        proof {
            reveal_strlit("[");
            reveal_strlit("]]\n");
            assert(self@.subrange(0, M as int) =~= self@);
            assert("]]\n"@ =~= seq![']', ']', '\n']);
            assert(Seq::<char>::empty() + "["@ + rows_str(self@) + "]]\n"@ =~= matrix_str(self@));
        }
        s
    }

    /// Bounds-checked write: stores `value` at `(row, col)` and reports
    /// whether both indices were in range; out of range, the matrix is left
    /// unchanged.
    pub fn set(&mut self, row: usize, col: usize, value: i64) -> (updated: bool)
        ensures
            row < M && col < N ==> updated && final(self)@ == old(self)@.update(
                row as int,
                old(self)@[row as int].update(col as int, value as int),
            ),
            row >= M || col >= N ==> !updated && *final(self) == *old(self),
    {
        if row < M && col < N {
            let mut r = self.arr[row];
            r[col] = value;
            self.arr[row] = r;
            proof {
                assert(self@[row as int] =~= old(self)@[row as int].update(
                    col as int,
                    value as int,
                ));
                assert(self@ =~= old(self)@.update(row as int, self@[row as int]));
            }
            true
        } else {
            false
        }
    }

    /// Entrywise addition in place; the operand's shape matches by type.
    pub fn add_assign(&mut self, rhs: Self)
        requires
            mat_sums_fit(old(self)@, rhs@),
        ensures
            final(self)@ == mat_add(old(self)@, rhs@),
    {
        for i in 0..M
            invariant
                mat_sums_fit(old(self)@, rhs@),
                self@.len() == M,
                forall|r: int| 0 <= r < M ==> #[trigger] self@[r].len() == N,
                forall|r: int, c: int|
                    0 <= r < i && 0 <= c < N ==> self@[r][c] == #[trigger] (old(self)@[r][c]
                        + rhs@[r][c]),
                forall|r: int, c: int|
                    i <= r < M && 0 <= c < N ==> self@[r][c] == #[trigger] old(self)@[r][c],
        {
            let mut row = self.arr[i];
            for j in 0..N
                invariant
                    mat_sums_fit(old(self)@, rhs@),
                    0 <= i < M,
                    row@.len() == N,
                    forall|c: int| 0 <= c < j ==> row@[c] as int == #[trigger] (old(
                        self,
                    )@[i as int][c] + rhs@[i as int][c]),
                    forall|c: int| j <= c < N ==> row@[c] as int == #[trigger] old(
                        self,
                    )@[i as int][c],
            {
                proof {
                    assert(i64::MIN <= old(self)@[i as int][j as int] + rhs@[i as int][j as int]
                        <= i64::MAX);
                    assert(rhs@[i as int][j as int] == rhs.arr@[i as int]@[j as int] as int);
                }
                row[j] = row[j] + rhs.arr[i][j];
            }
            self.arr[i] = row;
            proof {
                assert(forall|c: int|
                    0 <= c < N ==> self@[i as int][c] == row@[c] as int && #[trigger] self@[
                    i as int][c] == old(self)@[i as int][c] + rhs@[i as int][c]);
            }
        }
        proof {
            assert forall|r: int| 0 <= r < M implies self@[r] =~= #[trigger] mat_add(
                old(self)@,
                rhs@,
            )[r] by {}
            assert(self@ =~= mat_add(old(self)@, rhs@));
        }
    }

    /// Entrywise addition; the operands' shapes match by type.
    pub fn add(self, rhs: Self) -> (r: Self)
        requires
            mat_sums_fit(self@, rhs@),
        ensures
            r@ == mat_add(self@, rhs@),
    {
        let mut out = self;
        out.add_assign(rhs);
        out
    }

    /// Entrywise subtraction in place; the operand's shape matches by type.
    pub fn sub_assign(&mut self, rhs: Self)
        requires
            mat_diffs_fit(old(self)@, rhs@),
        ensures
            final(self)@ == mat_sub(old(self)@, rhs@),
    {
        for i in 0..M
            invariant
                mat_diffs_fit(old(self)@, rhs@),
                self@.len() == M,
                forall|r: int| 0 <= r < M ==> #[trigger] self@[r].len() == N,
                forall|r: int, c: int|
                    0 <= r < i && 0 <= c < N ==> self@[r][c] == #[trigger] (old(self)@[r][c]
                        - rhs@[r][c]),
                forall|r: int, c: int|
                    i <= r < M && 0 <= c < N ==> self@[r][c] == #[trigger] old(self)@[r][c],
        {
            let mut row = self.arr[i];
            for j in 0..N
                invariant
                    mat_diffs_fit(old(self)@, rhs@),
                    0 <= i < M,
                    row@.len() == N,
                    forall|c: int| 0 <= c < j ==> row@[c] as int == #[trigger] (old(
                        self,
                    )@[i as int][c] - rhs@[i as int][c]),
                    forall|c: int| j <= c < N ==> row@[c] as int == #[trigger] old(
                        self,
                    )@[i as int][c],
            {
                proof {
                    assert(i64::MIN <= old(self)@[i as int][j as int] - rhs@[i as int][j as int]
                        <= i64::MAX);
                    assert(rhs@[i as int][j as int] == rhs.arr@[i as int]@[j as int] as int);
                }
                row[j] = row[j] - rhs.arr[i][j];
            }
            self.arr[i] = row;
            proof {
                assert(forall|c: int|
                    0 <= c < N ==> self@[i as int][c] == row@[c] as int && #[trigger] self@[
                    i as int][c] == old(self)@[i as int][c] - rhs@[i as int][c]);
            }
        }
        proof {
            assert forall|r: int| 0 <= r < M implies self@[r] =~= #[trigger] mat_sub(
                old(self)@,
                rhs@,
            )[r] by {}
            assert(self@ =~= mat_sub(old(self)@, rhs@));
        }
    }

    /// Entrywise subtraction; the operands' shapes match by type.
    pub fn sub(self, rhs: Self) -> (r: Self)
        requires
            mat_diffs_fit(self@, rhs@),
        ensures
            r@ == mat_sub(self@, rhs@),
    {
        let mut out = self;
        out.sub_assign(rhs);
        out
    }

    /// Scalar multiplication in place: every entry times `factor`.
    pub fn mul_scalar_assign(&mut self, factor: i64)
        requires
            mat_scales_fit(old(self)@, factor as int),
        ensures
            final(self)@ == mat_scale(old(self)@, factor as int),
    {
        for i in 0..M
            invariant
                mat_scales_fit(old(self)@, factor as int),
                self@.len() == M,
                forall|r: int| 0 <= r < M ==> #[trigger] self@[r].len() == N,
                forall|r: int, c: int|
                    0 <= r < i && 0 <= c < N ==> self@[r][c] == #[trigger] (old(self)@[r][c]
                        * factor as int),
                forall|r: int, c: int|
                    i <= r < M && 0 <= c < N ==> self@[r][c] == #[trigger] old(self)@[r][c],
        {
            let mut row = self.arr[i];
            for j in 0..N
                invariant
                    mat_scales_fit(old(self)@, factor as int),
                    0 <= i < M,
                    row@.len() == N,
                    forall|c: int| 0 <= c < j ==> row@[c] as int == #[trigger] (old(
                        self,
                    )@[i as int][c] * factor as int),
                    forall|c: int| j <= c < N ==> row@[c] as int == #[trigger] old(
                        self,
                    )@[i as int][c],
            {
                proof {
                    assert(i64::MIN <= old(self)@[i as int][j as int] * factor as int <= i64::MAX);
                }
                row[j] = row[j] * factor;
            }
            self.arr[i] = row;
            proof {
                assert(forall|c: int|
                    0 <= c < N ==> self@[i as int][c] == row@[c] as int && #[trigger] self@[
                    i as int][c] == old(self)@[i as int][c] * factor as int);
            }
        }
        proof {
            assert forall|r: int| 0 <= r < M implies self@[r] =~= #[trigger] mat_scale(
                old(self)@,
                factor as int,
            )[r] by {}
            assert(self@ =~= mat_scale(old(self)@, factor as int));
        }
    }

    /// Scalar multiplication: every entry times `factor`.
    pub fn mul_scalar(self, factor: i64) -> (r: Self)
        requires
            mat_scales_fit(self@, factor as int),
        ensures
            r@ == mat_scale(self@, factor as int),
    {
        let mut out = self;
        out.mul_scalar_assign(factor);
        out
    }

    /// The linear map applied to a vector: one dot product per row of the
    /// matrix. The vector's length matches the column count by type.
    pub fn mul_vector(&self, rhs: Vector<N>) -> (r: Vector<M>)
        requires
            N <= DIM_LIMIT,
            mat_bounded(self@, COMP_LIMIT as int),
            bounded(rhs@, COMP_LIMIT as int),
        ensures
            r@ == mat_vec_mul(self@, rhs@),
    {
        let mut arr: [i64; M] = [0i64; M];
        for i in 0..M
            invariant
                N <= DIM_LIMIT,
                mat_bounded(self@, COMP_LIMIT as int),
                bounded(rhs@, COMP_LIMIT as int),
                arr@.len() == M,
                forall|r: int| 0 <= r < i ==> arr@[r] as int == dot_seq(#[trigger] self@[r], rhs@),
        {
            proof {
                assert(forall|c: int|
                    0 <= c < N ==> -(COMP_LIMIT as int) <= #[trigger] self@[i as int][c]
                        <= COMP_LIMIT as int);
            }
            let mut acc: i64 = 0;
            for p in 0..N
                invariant
                    N <= DIM_LIMIT,
                    0 <= i < M,
                    bounded(self@[i as int], COMP_LIMIT as int),
                    bounded(rhs@, COMP_LIMIT as int),
                    acc as int == dot_prefix(self@[i as int], rhs@, p as int),
            {
                proof {
                    lemma_dot_prefix_bound(self@[i as int], rhs@, p as int, COMP_LIMIT as int);
                    lemma_dot_prefix_bound(self@[i as int], rhs@, p + 1, COMP_LIMIT as int);
                    assert(-(COMP_LIMIT as int * COMP_LIMIT as int) <= self@[i as int][p as int]
                        * rhs@[p as int] <= COMP_LIMIT as int * COMP_LIMIT as int)
                        by (nonlinear_arith)
                        requires
                            -(COMP_LIMIT as int) <= self@[i as int][p as int] <= COMP_LIMIT as int,
                            -(COMP_LIMIT as int) <= rhs@[p as int] <= COMP_LIMIT as int,
                    ;
                    assert((p + 1) * (COMP_LIMIT as int) * (COMP_LIMIT as int) <= (
                    DIM_LIMIT as int) * (COMP_LIMIT as int) * (COMP_LIMIT as int))
                        by (nonlinear_arith)
                        requires
                            p + 1 <= DIM_LIMIT as int,
                    ;
                    assert(self@[i as int][p as int] == self.arr@[i as int]@[p as int] as int);
                }
                let x = rhs.get(p).unwrap();
                acc = acc + self.arr[i][p] * x;
            }
            arr[i] = acc;
        }
        let r = Vector::from(arr);
        proof {
            assert(r@ =~= mat_vec_mul(self@, rhs@));
        }
        r
    }
}

impl<const M: usize, const P: usize> Matrix<M, P> {
    /// The matrix product: `Matrix<M, P> * Matrix<P, N> -> Matrix<M, N>`,
    /// the standard sum of products over the inner dimension, which matches
    /// by type.
    pub fn mul_matrix<const N: usize>(self, rhs: Matrix<P, N>) -> (r: Matrix<M, N>)
        requires
            P <= DIM_LIMIT,
            mat_bounded(self@, COMP_LIMIT as int),
            mat_bounded(rhs@, COMP_LIMIT as int),
        ensures
            r@ == mat_mul(self@, rhs@, N as int),
    {
        let zrow: [i64; N] = [0i64; N];
        let mut arr: [[i64; N]; M] = [zrow; M];
        for i in 0..M
            invariant
                P <= DIM_LIMIT,
                mat_bounded(self@, COMP_LIMIT as int),
                mat_bounded(rhs@, COMP_LIMIT as int),
                arr@.len() == M,
                forall|r: int, c: int|
                    0 <= r < i && 0 <= c < N ==> arr@[r]@[c] as int == mm_entry(
                        self@,
                        rhs@,
                        r,
                        c,
                    ),
        {
            let mut row: [i64; N] = [0i64; N];
            for j in 0..N
                invariant
                    P <= DIM_LIMIT,
                    0 <= i < M,
                    mat_bounded(self@, COMP_LIMIT as int),
                    mat_bounded(rhs@, COMP_LIMIT as int),
                    row@.len() == N,
                    forall|c: int|
                        0 <= c < j ==> row@[c] as int == mm_entry(self@, rhs@, i as int, c),
            {
                let mut acc: i64 = 0;
                for p in 0..P
                    invariant
                        P <= DIM_LIMIT,
                        0 <= i < M,
                        0 <= j < N,
                        mat_bounded(self@, COMP_LIMIT as int),
                        mat_bounded(rhs@, COMP_LIMIT as int),
                        acc as int == mm_prefix(self@, rhs@, i as int, j as int, p as int),
                {
                    proof {
                        assert(forall|q: int|
                            0 <= q < P ==> -(COMP_LIMIT as int) <= #[trigger] self@[i as int][q]
                                <= COMP_LIMIT as int);
                        assert(forall|q: int|
                            0 <= q < P ==> -(COMP_LIMIT as int) <= #[trigger] rhs@[q][j as int]
                                <= COMP_LIMIT as int);
                        assert(forall|q: int| 0 <= q < P ==> (#[trigger] rhs@[q]).len() == N);
                        lemma_mm_prefix_bound(
                            self@,
                            rhs@,
                            i as int,
                            j as int,
                            p as int,
                            COMP_LIMIT as int,
                        );
                        lemma_mm_prefix_bound(
                            self@,
                            rhs@,
                            i as int,
                            j as int,
                            p + 1,
                            COMP_LIMIT as int,
                        );
                        assert(-(COMP_LIMIT as int * COMP_LIMIT as int) <= self@[i as int][p as int]
                            * rhs@[p as int][j as int] <= COMP_LIMIT as int * COMP_LIMIT as int)
                            by (nonlinear_arith)
                            requires
                                -(COMP_LIMIT as int) <= self@[i as int][p as int] <= COMP_LIMIT
                                    as int,
                                -(COMP_LIMIT as int) <= rhs@[p as int][j as int] <= COMP_LIMIT
                                    as int,
                        ;
                        assert((p + 1) * (COMP_LIMIT as int) * (COMP_LIMIT as int) <= (
                        DIM_LIMIT as int) * (COMP_LIMIT as int) * (COMP_LIMIT as int))
                            by (nonlinear_arith)
                            requires
                                p + 1 <= DIM_LIMIT as int,
                        ;
                        assert(self@[i as int][p as int] == self.arr@[i as int]@[p as int] as int);
                        assert(rhs@[p as int][j as int] == rhs.arr@[p as int]@[j as int] as int);
                    }
                    acc = acc + self.arr[i][p] * rhs.arr[p][j];
                }
                row[j] = acc;
            }
            arr[i] = row;
        }
        let r = Matrix { arr };
        proof {
            assert forall|rr: int| 0 <= rr < M implies r@[rr] =~= #[trigger] mat_mul(
                self@,
                rhs@,
                N as int,
            )[rr] by {}
            assert(r@ =~= mat_mul(self@, rhs@, N as int));
        }
        r
    }
}

impl<const K: usize> Matrix<K, K> {
    /// The identity matrix: ones on the diagonal, zeros elsewhere; defined
    /// only for square matrices.
    pub fn identity() -> (r: Self)
        ensures
            r@ == identity_seq(K as int),
    {
        let zrow: [i64; K] = [0i64; K];
        let mut arr: [[i64; K]; K] = [zrow; K];
        for i in 0..K
            invariant
                arr@.len() == K,
                forall|r: int, c: int|
                    0 <= r < i && 0 <= c < K ==> arr@[r]@[c] as int == (if r == c {
                        1int
                    } else {
                        0int
                    }),
                forall|r: int, c: int| i <= r < K && 0 <= c < K ==> arr@[r]@[c] as int == 0,
        {
            let mut row: [i64; K] = arr[i];
            row[i] = 1;
            arr[i] = row;
        }
        let r = Matrix { arr };
        proof {
            assert forall|rr: int| 0 <= rr < K implies r@[rr] =~= #[trigger] identity_seq(
                K as int,
            )[rr] by {}
            assert(r@ =~= identity_seq(K as int));
        }
        r
    }

    /// The uniform-scale matrix: `identity() * factor`, that is `factor` on
    /// the diagonal and zeros elsewhere; defined only for square matrices.
    pub fn scale(factor: i64) -> (r: Self)
        ensures
            r@ == mat_scale(identity_seq(K as int), factor as int),
    {
        let id = Self::identity();
        proof {
            assert forall|rr: int, c: int| 0 <= rr < K && 0 <= c < K implies i64::MIN
                <= #[trigger] (id@[rr][c] * factor as int) <= i64::MAX by {
                assert(id@[rr][c] == if rr == c {
                    1int
                } else {
                    0int
                });
                assert(1 * (factor as int) == factor as int) by (nonlinear_arith);
                assert(0 * (factor as int) == 0) by (nonlinear_arith);
            }
        }
        id.mul_scalar(factor)
    }
}

impl Matrix<2, 2> {
    /// The two-dimensional per-axis scale matrix with diagonal `[x, y]`.
    pub fn scale_xy(x: i64, y: i64) -> (r: Self)
        ensures
            r@ == diagonal_seq(seq![x as int, y as int]),
    {
        let r = Matrix { arr: [[x, 0], [0, y]] };
        proof {
            let d: Seq<int> = seq![x as int, y as int];
            assert forall|rr: int| 0 <= rr < 2 implies r@[rr] =~= #[trigger] diagonal_seq(
                d,
            )[rr] by {}
            assert(r@ =~= diagonal_seq(d));
        }
        r
    }
}

impl Matrix<3, 3> {
    /// The three-dimensional per-axis scale matrix with diagonal `[x, y, z]`.
    pub fn scale_xyz(x: i64, y: i64, z: i64) -> (r: Self)
        ensures
            r@ == diagonal_seq(seq![x as int, y as int, z as int]),
    {
        let r = Matrix { arr: [[x, 0, 0], [0, y, 0], [0, 0, z]] };
        proof {
            let d: Seq<int> = seq![x as int, y as int, z as int];
            assert forall|rr: int| 0 <= rr < 3 implies r@[rr] =~= #[trigger] diagonal_seq(
                d,
            )[rr] by {}
            assert(r@ =~= diagonal_seq(d));
        }
        r
    }
}

impl Matrix<4, 4> {
    /// The four-dimensional per-axis scale matrix with diagonal
    /// `[x, y, z, w]`.
    pub fn scale_xyzw(x: i64, y: i64, z: i64, w: i64) -> (r: Self)
        ensures
            r@ == diagonal_seq(seq![x as int, y as int, z as int, w as int]),
    {
        let r = Matrix { arr: [[x, 0, 0, 0], [0, y, 0, 0], [0, 0, z, 0], [0, 0, 0, w]] };
        proof {
            let d: Seq<int> = seq![x as int, y as int, z as int, w as int];
            assert forall|rr: int| 0 <= rr < 4 implies r@[rr] =~= #[trigger] diagonal_seq(
                d,
            )[rr] by {}
            assert(r@ =~= diagonal_seq(d));
        }
        r
    }
}

impl<const M: usize, const N: usize> From<[[i64; N]; M]> for Matrix<M, N> {
    /// The matrix whose rows are the rows of `arr`, in order.
    fn from(arr: [[i64; N]; M]) -> (r: Self)
        ensures
            mat_wf(r@, M as int, N as int),
            forall|i: int, j: int|
                0 <= i < M && 0 <= j < N ==> #[trigger] r@[i][j] == arr@[i]@[j] as int,
    {
        Matrix { arr }
    }
}

impl<const M: usize, const N: usize> vstd::std_specs::convert::FromSpecImpl<[[i64; N]; M]> for Matrix<M, N> {
    open spec fn obeys_from_spec() -> bool {
        true
    }

    closed spec fn from_spec(arr: [[i64; N]; M]) -> Self {
        Matrix { arr }
    }
}

impl From<(i64, i64, i64, i64)> for Matrix<2, 2> {
    /// The two-by-two matrix `[[a, b], [c, d]]`, row-major.
    fn from(abcd: (i64, i64, i64, i64)) -> (r: Self)
        ensures
            r@ == seq![
                seq![abcd.0 as int, abcd.1 as int],
                seq![abcd.2 as int, abcd.3 as int],
            ],
    {
        let r = Matrix { arr: [[abcd.0, abcd.1], [abcd.2, abcd.3]] };
        proof {
            assert(r@[0] =~= seq![abcd.0 as int, abcd.1 as int]);
            assert(r@[1] =~= seq![abcd.2 as int, abcd.3 as int]);
            assert(r@ =~= seq![
                seq![abcd.0 as int, abcd.1 as int],
                seq![abcd.2 as int, abcd.3 as int],
            ]);
        }
        r
    }
}

impl vstd::std_specs::convert::FromSpecImpl<(i64, i64, i64, i64)> for Matrix<2, 2> {
    open spec fn obeys_from_spec() -> bool {
        true
    }

    closed spec fn from_spec(abcd: (i64, i64, i64, i64)) -> Self {
        Matrix { arr: [[abcd.0, abcd.1], [abcd.2, abcd.3]] }
    }
}

} // verus!
