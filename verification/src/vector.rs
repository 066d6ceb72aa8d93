//! Fixed-length vectors of `N` integer scalars with componentwise arithmetic
//! and the geometric operations (dot product, cross product, squared length,
//! normalization).

use vstd::prelude::*;

use crate::display::{comps_str, int_str, push_i64, vector_str};

verus! {

/// Largest component magnitude that the multiplicative operations accept:
/// with `DIM_LIMIT` components of magnitude at most `COMP_LIMIT`, every sum
/// of products fits in an `i64`.
pub const COMP_LIMIT: i64 = 0x1000000;

/// Largest dimension that the multiplicative operations accept.
pub const DIM_LIMIT: usize = 0x4000;

/// Every component of `s` lies in `[-b, b]`.
pub open spec fn bounded(s: Seq<int>, b: int) -> bool {
    forall|i: int| 0 <= i < s.len() ==> -b <= #[trigger] s[i] <= b
}

/// Sum of the first `n` componentwise products of `a` and `b`.
pub open spec fn dot_prefix(a: Seq<int>, b: Seq<int>, n: int) -> int
    decreases n,
{
    if n <= 0 {
        0
    } else {
        dot_prefix(a, b, n - 1) + a[n - 1] * b[n - 1]
    }
}

/// The dot product of `a` and `b`: the sum of all componentwise products.
pub open spec fn dot_seq(a: Seq<int>, b: Seq<int>) -> int {
    dot_prefix(a, b, a.len() as int)
}

/// A prefix of a dot product of `bound`-bounded sequences is itself bounded
/// by `n * bound * bound`.
pub proof fn lemma_dot_prefix_bound(a: Seq<int>, b: Seq<int>, n: int, bound: int)
    requires
        0 <= n,
        n <= a.len(),
        n <= b.len(),
        0 <= bound,
        bounded(a, bound),
        bounded(b, bound),
    ensures
        -(n * bound * bound) <= dot_prefix(a, b, n) <= n * bound * bound,
    decreases n,
{
    if n > 0 {
        lemma_dot_prefix_bound(a, b, n - 1, bound);
        assert(-(bound * bound) <= a[n - 1] * b[n - 1] <= bound * bound) by (nonlinear_arith)
            requires
                -bound <= a[n - 1] <= bound,
                -bound <= b[n - 1] <= bound,
                0 <= bound,
        ;
        assert((n - 1) * bound * bound + bound * bound == n * bound * bound) by (nonlinear_arith);
    }
}

/// Componentwise sum of `a` and `b`.
pub open spec fn add_seq(a: Seq<int>, b: Seq<int>) -> Seq<int> {
    Seq::new(a.len(), |i: int| a[i] + b[i])
}

/// Componentwise difference of `a` and `b`.
pub open spec fn sub_seq(a: Seq<int>, b: Seq<int>) -> Seq<int> {
    Seq::new(a.len(), |i: int| a[i] - b[i])
}

/// Every component multiplied by `f`.
pub open spec fn scale_seq(a: Seq<int>, f: int) -> Seq<int> {
    Seq::new(a.len(), |i: int| a[i] * f)
}

/// Every component negated.
pub open spec fn neg_seq(a: Seq<int>) -> Seq<int> {
    Seq::new(a.len(), |i: int| -a[i])
}

/// Every componentwise sum of `a` and `b` fits in an `i64`.
pub open spec fn sums_fit(a: Seq<int>, b: Seq<int>) -> bool {
    forall|i: int| #![trigger a[i]] 0 <= i < a.len() ==> i64::MIN <= a[i] + b[i] <= i64::MAX
}

/// Every componentwise difference of `a` and `b` fits in an `i64`.
pub open spec fn diffs_fit(a: Seq<int>, b: Seq<int>) -> bool {
    forall|i: int| #![trigger a[i]] 0 <= i < a.len() ==> i64::MIN <= a[i] - b[i] <= i64::MAX
}

/// Every component of `a` multiplied by `f` fits in an `i64`.
pub open spec fn scales_fit(a: Seq<int>, f: int) -> bool {
    forall|i: int| #![trigger a[i]] 0 <= i < a.len() ==> i64::MIN <= a[i] * f <= i64::MAX
}

/// The standard right-handed three-dimensional cross product.
pub open spec fn cross_seq(a: Seq<int>, b: Seq<int>) -> Seq<int> {
    seq![
        a[1] * b[2] - a[2] * b[1],
        a[2] * b[0] - a[0] * b[2],
        a[0] * b[1] - a[1] * b[0],
    ]
}

/// Truncating division of `a` by `b` (rounding toward zero), for `b > 0`.
pub open spec fn tdiv(a: int, b: int) -> int {
    if a >= 0 {
        a / b
    } else {
        -((-a) / b)
    }
}

/// Every component divided by `d`, truncating toward zero.
pub open spec fn div_seq(a: Seq<int>, d: int) -> Seq<int> {
    Seq::new(a.len(), |i: int| tdiv(a[i], d))
}

/// The sequence of `n` copies of `v`.
pub open spec fn repeat_seq(n: int, v: int) -> Seq<int> {
    Seq::new(n as nat, |i: int| v)
}

/// An ordered, fixed-length tuple of `N` integer scalars, indexed `0..N-1`.
///
/// All binary operations require operands of identical `N`; the type system
/// enforces this, so no run-time size check can ever fail.
#[derive(Clone, Copy, Debug)]
pub struct Vector<const N: usize> {
    arr: [i64; N],
}

impl<const N: usize> View for Vector<N> {
    type V = Seq<int>;

    closed spec fn view(&self) -> Seq<int> {
        Seq::new(N as nat, |i: int| self.arr@[i] as int)
    }
}

/// A `Vector<N>` always views as a sequence of exactly `N` components.
pub broadcast proof fn lemma_vector_view_len<const N: usize>(v: Vector<N>)
    ensures
        (#[trigger] v@).len() == N,
{
}

impl<const N: usize> Vector<N> {
    /// Sum of componentwise products of the two vectors.
    pub fn dot(&self, other: &Self) -> (r: i64)
        requires
            N <= DIM_LIMIT,
            bounded(self@, COMP_LIMIT as int),
            bounded(other@, COMP_LIMIT as int),
        ensures
            r as int == dot_seq(self@, other@),
    {
        let mut acc: i64 = 0;
        for i in 0..N
            invariant
                N <= DIM_LIMIT,
                bounded(self@, COMP_LIMIT as int),
                bounded(other@, COMP_LIMIT as int),
                acc as int == dot_prefix(self@, other@, i as int),
        {
            proof {
                lemma_dot_prefix_bound(self@, other@, i as int, COMP_LIMIT as int);
                lemma_dot_prefix_bound(self@, other@, i + 1, COMP_LIMIT as int);
                assert(-(COMP_LIMIT as int * COMP_LIMIT as int) <= self@[i as int] * other@[
                    i as int
                ] <= COMP_LIMIT as int * COMP_LIMIT as int) by (nonlinear_arith)
                    requires
                        -(COMP_LIMIT as int) <= self@[i as int] <= COMP_LIMIT as int,
                        -(COMP_LIMIT as int) <= other@[i as int] <= COMP_LIMIT as int,
                ;
                assert((i + 1) * (COMP_LIMIT as int) * (COMP_LIMIT as int) <= (DIM_LIMIT as int) * (
                COMP_LIMIT as int) * (COMP_LIMIT as int)) by (nonlinear_arith)
                    requires
                        i + 1 <= DIM_LIMIT as int,
                ;
            }
            acc = acc + self.arr[i] * other.arr[i];
        }
        acc
    }

    /// The squared length of the vector: `dot(self, self)`.
    ///
    /// This is deliberately the squared Euclidean length, not the Euclidean
    /// norm; callers that need the true magnitude must take a square root
    /// themselves.
    pub fn abs(&self) -> (r: i64)
        requires
            N <= DIM_LIMIT,
            bounded(self@, COMP_LIMIT as int),
        ensures
            r as int == dot_seq(self@, self@),
    {
        self.dot(self)
    }

    /// Bounds-checked read: `Some` component for `idx < N`, `None` otherwise.
    pub fn get(&self, idx: usize) -> (r: Option<i64>)
        ensures
            idx < N ==> (r matches Some(v) && v as int == self@[idx as int]),
            idx >= N ==> r is None,
    {
        if idx < N {
            Some(self.arr[idx])
        } else {
            None
        }
    }

    /// Bounds-checked write: stores `value` at `idx` and reports whether the
    /// index was in range; an out-of-range index leaves the vector unchanged.
    pub fn set(&mut self, idx: usize, value: i64) -> (updated: bool)
        ensures
            idx < N ==> updated && final(self)@ == old(self)@.update(idx as int, value as int),
            idx >= N ==> !updated && *final(self) == *old(self),
    {
        if idx < N {
            self.arr[idx] = value;
            proof {
                assert(self@ =~= old(self)@.update(idx as int, value as int));
            }
            true
        } else {
            false
        }
    }

    /// Appends the rendering of the components from `i` on, each followed by
    /// a comma.
    pub(crate) fn push_components(&self, s: &mut String, i: usize)
        requires
            i <= N,
        ensures
            final(s)@ == old(s)@ + comps_str(self@.subrange(i as int, N as int)),
        decreases N - i,
    {
        if i < N {
            push_i64(s, self.arr[i]);
            s.append(",");
            self.push_components(s, i + 1);
            proof {
                reveal_strlit(",");
                let sub = self@.subrange(i as int, N as int);
                assert(self@[i as int] == self.arr@[i as int] as int);
                assert(sub[0] == self@[i as int]);
                assert(sub.drop_first() =~= self@.subrange(i as int + 1, N as int));
                assert(","@ =~= seq![',']);
                assert(old(s)@ + int_str(self@[i as int]) + ","@ + comps_str(
                    self@.subrange(i as int + 1, N as int),
                ) =~= old(s)@ + comps_str(sub));
            }
        } else {
            proof {
                assert(self@.subrange(i as int, N as int) =~= Seq::<int>::empty());
                assert(old(s)@ + comps_str(Seq::<int>::empty()) =~= old(s)@);
            }
        }
    }

    /// Renders the vector as `[c0,c1,...,]`: the components in order, each
    /// followed by a comma, inside square brackets.
    pub fn to_display_string(&self) -> (s: String)
        ensures
            s@ == vector_str(self@),
    {
        let mut s = String::new();
        s.append("[");
        self.push_components(&mut s, 0);
        s.append("]");
        proof {
            reveal_strlit("[");
            reveal_strlit("]");
            assert(self@.subrange(0, N as int) =~= self@);
            assert(Seq::<char>::empty() + "["@ + comps_str(self@) + "]"@ =~= vector_str(self@));
        }
        s
    }

    /// The `N` components in index order.
    pub fn components(&self) -> (r: Vec<i64>)
        ensures
            r@.len() == N,
            forall|i: int| 0 <= i < N ==> #[trigger] r@[i] as int == self@[i],
    {
        let mut out: Vec<i64> = Vec::new();
        for i in 0..N
            invariant
                out@.len() == i,
                forall|j: int| 0 <= j < i ==> #[trigger] out@[j] as int == self@[j],
        {
            out.push(self.arr[i]);
        }
        out
    }
}

impl<const N: usize> Vector<N> {
    /// Componentwise addition in place.
    pub fn add_assign(&mut self, rhs: Self)
        requires
            sums_fit(old(self)@, rhs@),
        ensures
            final(self)@ == add_seq(old(self)@, rhs@),
    {
        for i in 0..N
            invariant
                sums_fit(old(self)@, rhs@),
                self@.len() == N,
                forall|j: int| 0 <= j < i ==> self@[j] == #[trigger] old(self)@[j] + rhs@[j],
                forall|j: int| i <= j < N ==> self@[j] == #[trigger] old(self)@[j],
        {
            proof {
                assert(self@[i as int] == self.arr@[i as int] as int);
                assert(rhs@[i as int] == rhs.arr@[i as int] as int);
                assert(i64::MIN <= old(self)@[i as int] + rhs@[i as int] <= i64::MAX);
            }
            self.arr[i] = self.arr[i] + rhs.arr[i];
        }
        proof {
            assert(self@ =~= add_seq(old(self)@, rhs@));
        }
    }

    /// Componentwise addition.
    pub fn add(self, rhs: Self) -> (r: Self)
        requires
            sums_fit(self@, rhs@),
        ensures
            r@ == add_seq(self@, rhs@),
    {
        let mut out = self;
        out.add_assign(rhs);
        out
    }

    /// Componentwise subtraction in place.
    pub fn sub_assign(&mut self, rhs: Self)
        requires
            diffs_fit(old(self)@, rhs@),
        ensures
            final(self)@ == sub_seq(old(self)@, rhs@),
    {
        for i in 0..N
            invariant
                diffs_fit(old(self)@, rhs@),
                self@.len() == N,
                forall|j: int| 0 <= j < i ==> self@[j] == #[trigger] old(self)@[j] - rhs@[j],
                forall|j: int| i <= j < N ==> self@[j] == #[trigger] old(self)@[j],
        {
            proof {
                assert(self@[i as int] == self.arr@[i as int] as int);
                assert(rhs@[i as int] == rhs.arr@[i as int] as int);
                assert(i64::MIN <= old(self)@[i as int] - rhs@[i as int] <= i64::MAX);
            }
            self.arr[i] = self.arr[i] - rhs.arr[i];
        }
        proof {
            assert(self@ =~= sub_seq(old(self)@, rhs@));
        }
    }

    /// Componentwise subtraction.
    pub fn sub(self, rhs: Self) -> (r: Self)
        requires
            diffs_fit(self@, rhs@),
        ensures
            r@ == sub_seq(self@, rhs@),
    {
        let mut out = self;
        out.sub_assign(rhs);
        out
    }

    /// Scalar multiplication in place: every component times `factor`.
    pub fn mul_scalar_assign(&mut self, factor: i64)
        requires
            scales_fit(old(self)@, factor as int),
        ensures
            final(self)@ == scale_seq(old(self)@, factor as int),
    {
        for i in 0..N
            invariant
                scales_fit(old(self)@, factor as int),
                self@.len() == N,
                forall|j: int| 0 <= j < i ==> self@[j] == #[trigger] old(self)@[j] * factor as int,
                forall|j: int| i <= j < N ==> self@[j] == #[trigger] old(self)@[j],
        {
            proof {
                assert(self@[i as int] == self.arr@[i as int] as int);
                assert(i64::MIN <= old(self)@[i as int] * factor as int <= i64::MAX);
            }
            self.arr[i] = self.arr[i] * factor;
        }
        proof {
            assert(self@ =~= scale_seq(old(self)@, factor as int));
        }
    }

    /// Scalar multiplication: every component times `factor`.
    pub fn mul_scalar(self, factor: i64) -> (r: Self)
        requires
            scales_fit(self@, factor as int),
        ensures
            r@ == scale_seq(self@, factor as int),
    {
        let mut out = self;
        out.mul_scalar_assign(factor);
        out
    }

    /// Scales the vector in place by the reciprocal of its squared length
    /// (truncating integer division), unless that squared length is zero, in
    /// which case the vector is left unchanged.
    ///
    /// The divisor is deliberately `abs`, the squared length, not the
    /// Euclidean norm.
    pub fn normalize(&mut self)
        requires
            N <= DIM_LIMIT,
            bounded(old(self)@, COMP_LIMIT as int),
        ensures
            dot_seq(old(self)@, old(self)@) == 0 ==> *final(self) == *old(self),
            dot_seq(old(self)@, old(self)@) != 0 ==> final(self)@ == div_seq(
                old(self)@,
                dot_seq(old(self)@, old(self)@),
            ),
    {
        let magsq = self.abs();
        if magsq != 0 {
            proof {
                lemma_dot_prefix_self_nonneg(old(self)@, N as int);
            }
            for i in 0..N
                invariant
                    magsq as int == dot_seq(old(self)@, old(self)@),
                    magsq > 0,
                    bounded(old(self)@, COMP_LIMIT as int),
                    self@.len() == N,
                    forall|j: int| 0 <= j < i ==> self@[j] == tdiv(
                        #[trigger] old(self)@[j],
                        magsq as int,
                    ),
                    forall|j: int| i <= j < N ==> self@[j] == #[trigger] old(self)@[j],
            {
                let c = self.arr[i];
                proof {
                    assert(self@[i as int] == self.arr@[i as int] as int);
                    assert(-(COMP_LIMIT as int) <= old(self)@[i as int] <= COMP_LIMIT as int);
                }
                let q: i64 = if c >= 0 {
                    c / magsq
                } else {
                    -((-c) / magsq)
                };
                proof {
                    if c >= 0 {
                        vstd::arithmetic::div_mod::lemma_div_nonincreasing(c as int, magsq as int);
                        vstd::arithmetic::div_mod::lemma_div_pos_is_pos(c as int, magsq as int);
                    } else {
                        vstd::arithmetic::div_mod::lemma_div_nonincreasing(
                            -c as int,
                            magsq as int,
                        );
                        vstd::arithmetic::div_mod::lemma_div_pos_is_pos(-c as int, magsq as int);
                    }
                }
                self.arr[i] = q;
            }
            proof {
                assert(self@ =~= div_seq(old(self)@, dot_seq(old(self)@, old(self)@)));
            }
        }
    }
}

impl Vector<3> {
    /// The standard right-handed three-dimensional cross product; defined
    /// only for three-component vectors.
    pub fn cross(&self, other: Self) -> (r: Self)
        requires
            bounded(self@, COMP_LIMIT as int),
            bounded(other@, COMP_LIMIT as int),
        ensures
            r@ == cross_seq(self@, other@),
    {
        let ax = self.arr[0];
        let ay = self.arr[1];
        let az = self.arr[2];

        let bx = other.arr[0];
        let by = other.arr[1];
        let bz = other.arr[2];

        proof {
            assert(self@[0] == ax as int && self@[1] == ay as int && self@[2] == az as int);
            assert(other@[0] == bx as int && other@[1] == by as int && other@[2] == bz as int);
            assert(-(0x1000000000000) <= ay as int * bz as int <= 0x1000000000000 && -(
            0x1000000000000) <= az as int * by as int <= 0x1000000000000 && -(0x1000000000000) <= az
                as int * bx as int <= 0x1000000000000 && -(0x1000000000000) <= ax as int * bz as int
                <= 0x1000000000000 && -(0x1000000000000) <= ax as int * by as int <= 0x1000000000000
                && -(0x1000000000000) <= ay as int * bx as int <= 0x1000000000000)
                by (nonlinear_arith)
                requires
                    -(COMP_LIMIT as int) <= ax as int <= COMP_LIMIT as int,
                    -(COMP_LIMIT as int) <= ay as int <= COMP_LIMIT as int,
                    -(COMP_LIMIT as int) <= az as int <= COMP_LIMIT as int,
                    -(COMP_LIMIT as int) <= bx as int <= COMP_LIMIT as int,
                    -(COMP_LIMIT as int) <= by as int <= COMP_LIMIT as int,
                    -(COMP_LIMIT as int) <= bz as int <= COMP_LIMIT as int,
                    COMP_LIMIT == 0x1000000,
            ;
        }
        let r = Vector { arr: [ay * bz - az * by, az * bx - ax * bz, ax * by - ay * bx] };
        proof {
            assert(r@ =~= cross_seq(self@, other@));
        }
        r
    }
}

/// A prefix of `dot(s, s)` is a sum of squares, hence nonnegative.
pub proof fn lemma_dot_prefix_self_nonneg(s: Seq<int>, n: int)
    requires
        n <= s.len(),
    ensures
        dot_prefix(s, s, n) >= 0,
    decreases n,
{
    if n > 0 {
        lemma_dot_prefix_self_nonneg(s, n - 1);
        assert(s[n - 1] * s[n - 1] >= 0) by (nonlinear_arith);
    }
}

proof fn lemma_dot_prefix_commutative(a: Seq<int>, b: Seq<int>, n: int)
    ensures
        dot_prefix(a, b, n) == dot_prefix(b, a, n),
    decreases n,
{
    if n > 0 {
        lemma_dot_prefix_commutative(a, b, n - 1);
    }
}

/// The dot product is commutative: `dot(a, b) == dot(b, a)`.
pub proof fn lemma_dot_commutative(a: Seq<int>, b: Seq<int>)
    requires
        a.len() == b.len(),
    ensures
        dot_seq(a, b) == dot_seq(b, a),
{
    lemma_dot_prefix_commutative(a, b, a.len() as int);
}

/// A dot product of three-component sequences, written out.
pub proof fn lemma_dot_seq3(a: Seq<int>, b: Seq<int>)
    requires
        a.len() == 3,
    ensures
        dot_seq(a, b) == a[0] * b[0] + a[1] * b[1] + a[2] * b[2],
{
    assert(dot_prefix(a, b, 0) == 0);
    assert(dot_prefix(a, b, 1) == a[0] * b[0]);
    assert(dot_prefix(a, b, 2) == a[0] * b[0] + a[1] * b[1]);
    assert(dot_prefix(a, b, 3) == a[0] * b[0] + a[1] * b[1] + a[2] * b[2]);
}

/// The cross product is antisymmetric: `cross(a, b) == -cross(b, a)`.
pub proof fn lemma_cross_antisymmetric(a: Seq<int>, b: Seq<int>)
    requires
        a.len() == 3,
        b.len() == 3,
    ensures
        cross_seq(a, b) == neg_seq(cross_seq(b, a)),
{
    assert(cross_seq(a, b) =~= neg_seq(cross_seq(b, a)));
}

/// A vector is orthogonal to its own cross product with any other vector:
/// `dot(a, cross(a, b)) == 0`, exactly.
pub proof fn lemma_dot_cross_orthogonal(a: Seq<int>, b: Seq<int>)
    requires
        a.len() == 3,
        b.len() == 3,
    ensures
        dot_seq(a, cross_seq(a, b)) == 0,
{
    let c = cross_seq(a, b);
    lemma_dot_seq3(a, c);
    assert(a[0] * (a[1] * b[2] - a[2] * b[1]) + a[1] * (a[2] * b[0] - a[0] * b[2]) + a[2] * (a[0]
        * b[1] - a[1] * b[0]) == 0) by (nonlinear_arith);
}

proof fn lemma_dot_prefix_self_zero(s: Seq<int>, n: int)
    requires
        n <= s.len(),
    ensures
        dot_prefix(s, s, n) == 0 <==> (forall|i: int| 0 <= i < n ==> s[i] == 0),
    decreases n,
{
    if n > 0 {
        lemma_dot_prefix_self_zero(s, n - 1);
        lemma_dot_prefix_self_nonneg(s, n - 1);
        assert(s[n - 1] * s[n - 1] >= 0 && (s[n - 1] * s[n - 1] == 0 <==> s[n - 1] == 0))
            by (nonlinear_arith);
    }
}

/// A vector's squared length is zero exactly when the vector is all zeros;
/// with the contract of `normalize`, normalizing the zero vector of any
/// dimension therefore leaves it unchanged.
pub proof fn lemma_zero_squared_length(s: Seq<int>)
    ensures
        dot_seq(s, s) == 0 <==> (forall|i: int| 0 <= i < s.len() ==> s[i] == 0),
{
    lemma_dot_prefix_self_zero(s, s.len() as int);
}

impl<const N: usize> Default for Vector<N> {
    /// The all-zero vector of length `N`.
    fn default() -> (r: Self)
        ensures
            r@ == repeat_seq(N as int, 0),
    {
        let r = Vector { arr: [0i64; N] };
        proof {
            assert(r@ =~= repeat_seq(N as int, 0));
        }
        r
    }
}

impl<const N: usize> From<[i64; N]> for Vector<N> {
    /// The vector whose components are the entries of `arr` in order.
    fn from(arr: [i64; N]) -> (r: Self)
        ensures
            r@.len() == N,
            forall|i: int| 0 <= i < N ==> #[trigger] r@[i] == arr@[i] as int,
    {
        Vector { arr }
    }
}

impl<const N: usize> vstd::std_specs::convert::FromSpecImpl<[i64; N]> for Vector<N> {
    open spec fn obeys_from_spec() -> bool {
        true
    }

    closed spec fn from_spec(arr: [i64; N]) -> Self {
        Vector { arr }
    }
}

impl<const N: usize> From<i64> for Vector<N> {
    /// The vector with `v` broadcast to all `N` components.
    fn from(v: i64) -> (r: Self)
        ensures
            r@ == repeat_seq(N as int, v as int),
    {
        let r = Vector { arr: [v; N] };
        proof {
            assert(r@ =~= repeat_seq(N as int, v as int));
        }
        r
    }
}

impl<const N: usize> vstd::std_specs::convert::FromSpecImpl<i64> for Vector<N> {
    open spec fn obeys_from_spec() -> bool {
        true
    }

    closed spec fn from_spec(v: i64) -> Self {
        Vector { arr: vstd::array::spec_array_fill_for_copy_type(v) }
    }
}

impl From<(i64, i64)> for Vector<2> {
    /// The two-component vector `(x, y)`.
    fn from(xy: (i64, i64)) -> (r: Self)
        ensures
            r@ == seq![xy.0 as int, xy.1 as int],
    {
        let r = Vector { arr: [xy.0, xy.1] };
        proof {
            assert(r@ =~= seq![xy.0 as int, xy.1 as int]);
        }
        r
    }
}

impl vstd::std_specs::convert::FromSpecImpl<(i64, i64)> for Vector<2> {
    open spec fn obeys_from_spec() -> bool {
        true
    }

    closed spec fn from_spec(xy: (i64, i64)) -> Self {
        Vector { arr: [xy.0, xy.1] }
    }
}

impl From<(i64, i64, i64)> for Vector<3> {
    /// The three-component vector `(x, y, z)`.
    fn from(xyz: (i64, i64, i64)) -> (r: Self)
        ensures
            r@ == seq![xyz.0 as int, xyz.1 as int, xyz.2 as int],
    {
        let r = Vector { arr: [xyz.0, xyz.1, xyz.2] };
        proof {
            assert(r@ =~= seq![xyz.0 as int, xyz.1 as int, xyz.2 as int]);
        }
        r
    }
}

impl vstd::std_specs::convert::FromSpecImpl<(i64, i64, i64)> for Vector<3> {
    open spec fn obeys_from_spec() -> bool {
        true
    }

    closed spec fn from_spec(xyz: (i64, i64, i64)) -> Self {
        Vector { arr: [xyz.0, xyz.1, xyz.2] }
    }
}

impl From<(i64, i64, i64, i64)> for Vector<4> {
    /// The four-component vector `(x, y, z, w)`.
    fn from(xyzw: (i64, i64, i64, i64)) -> (r: Self)
        ensures
            r@ == seq![xyzw.0 as int, xyzw.1 as int, xyzw.2 as int, xyzw.3 as int],
    {
        let r = Vector { arr: [xyzw.0, xyzw.1, xyzw.2, xyzw.3] };
        proof {
            assert(r@ =~= seq![xyzw.0 as int, xyzw.1 as int, xyzw.2 as int, xyzw.3 as int]);
        }
        r
    }
}

impl vstd::std_specs::convert::FromSpecImpl<(i64, i64, i64, i64)> for Vector<4> {
    open spec fn obeys_from_spec() -> bool {
        true
    }

    closed spec fn from_spec(xyzw: (i64, i64, i64, i64)) -> Self {
        Vector { arr: [xyzw.0, xyzw.1, xyzw.2, xyzw.3] }
    }
}

} // verus!
