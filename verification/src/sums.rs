//! Finite sums of integer-valued functions: the linearity and
//! exchange-of-summation lemmas that the matrix-multiplication laws rest on.

use vstd::prelude::*;

verus! {

/// The sum `f(0) + f(1) + ... + f(n-1)`.
pub open spec fn sum_upto(n: int, f: spec_fn(int) -> int) -> int
    decreases n,
{
    if n <= 0 {
        0
    } else {
        sum_upto(n - 1, f) + f(n - 1)
    }
}

/// A sum of zeros is zero.
pub proof fn lemma_sum_zero(n: int, f: spec_fn(int) -> int)
    requires
        forall|i: int| 0 <= i < n ==> #[trigger] f(i) == 0,
    ensures
        sum_upto(n, f) == 0,
    decreases n,
{
    if n > 0 {
        lemma_sum_zero(n - 1, f);
    }
}

/// Functions that agree on `[0, n)` have the same sum.
pub proof fn lemma_sum_ext(n: int, f: spec_fn(int) -> int, g: spec_fn(int) -> int)
    requires
        forall|i: int| 0 <= i < n ==> #[trigger] f(i) == g(i),
    ensures
        sum_upto(n, f) == sum_upto(n, g),
    decreases n,
{
    if n > 0 {
        lemma_sum_ext(n - 1, f, g);
    }
}

/// Sums distribute over pointwise addition.
pub proof fn lemma_sum_add(
    n: int,
    f: spec_fn(int) -> int,
    g: spec_fn(int) -> int,
    h: spec_fn(int) -> int,
)
    requires
        forall|i: int| 0 <= i < n ==> #[trigger] h(i) == f(i) + g(i),
    ensures
        sum_upto(n, h) == sum_upto(n, f) + sum_upto(n, g),
    decreases n,
{
    if n > 0 {
        lemma_sum_add(n - 1, f, g, h);
    }
}

/// A constant factor moves out of a sum.
pub proof fn lemma_sum_scale(n: int, f: spec_fn(int) -> int, g: spec_fn(int) -> int, c: int)
    requires
        forall|i: int| 0 <= i < n ==> #[trigger] g(i) == f(i) * c,
    ensures
        sum_upto(n, g) == sum_upto(n, f) * c,
    decreases n,
{
    if n <= 0 {
        assert(sum_upto(n, f) * c == 0) by (nonlinear_arith)
            requires
                sum_upto(n, f) == 0,
        ;
    } else {
        lemma_sum_scale(n - 1, f, g, c);
        assert((sum_upto(n - 1, f) + f(n - 1)) * c == sum_upto(n - 1, f) * c + f(n - 1) * c)
            by (nonlinear_arith);
    }
}

/// A sum whose terms all vanish except the one at `k` equals that term.
pub proof fn lemma_sum_unit(n: int, f: spec_fn(int) -> int, k: int)
    requires
        0 <= k < n,
        forall|i: int| 0 <= i < n && i != k ==> #[trigger] f(i) == 0,
    ensures
        sum_upto(n, f) == f(k),
    decreases n,
{
    if k == n - 1 {
        lemma_sum_zero(n - 1, f);
    } else {
        lemma_sum_unit(n - 1, f, k);
    }
}

/// The order of a double sum can be exchanged.
pub proof fn lemma_sum_swap(m: int, n: int, f: spec_fn(int, int) -> int)
    ensures
        sum_upto(m, (|i: int| sum_upto(n, (|j: int| f(i, j))))) == sum_upto(
            n,
            (|j: int| sum_upto(m, (|i: int| f(i, j)))),
        ),
    decreases m,
{
    let rows = |i: int| sum_upto(n, (|j: int| f(i, j)));
    let cols_m = |j: int| sum_upto(m, (|i: int| f(i, j)));
    let cols_m1 = |j: int| sum_upto(m - 1, (|i: int| f(i, j)));
    let last = |j: int| f(m - 1, j);
    if m <= 0 {
        assert(sum_upto(m, rows) == 0);
        lemma_sum_zero(n, cols_m);
    } else {
        lemma_sum_swap(m - 1, n, f);
        assert(forall|j: int| 0 <= j < n ==> #[trigger] cols_m(j) == cols_m1(j) + last(j));
        lemma_sum_add(n, cols_m1, last, cols_m);
        assert(sum_upto(m, rows) == sum_upto(m - 1, rows) + rows(m - 1));
    }
}

} // verus!
