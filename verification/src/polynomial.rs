//! Polynomial algebra over an abstract coefficient ring.
//!
//! Coefficients are stored highest degree first, and a polynomial is never
//! empty: a constant has exactly one coefficient.  Every operation's
//! contract pins the whole coefficient sequence of the result, stated with
//! the specification-level ring operations of `Coeff`.

use vstd::prelude::*;

verus! {

use crate::num::{Coeff, CoeffLaws};
use crate::FractalError;

/// A polynomial, never empty, highest-degree coefficient first.
pub struct Polynomial<T: Coeff> {
    coeffs: Vec<T>,
}

impl<T: Coeff> View for Polynomial<T> {
    type V = Seq<T>;

    closed spec fn view(&self) -> Seq<T> {
        self.coeffs@
    }
}

/// Horner evaluation: `((c_0 * x + c_1) * x + c_2) * x + ... + c_n`.
pub open spec fn eval_v<T: Coeff>(s: Seq<T>, x: T) -> T
    decreases s.len(),
{
    if s.len() == 0 {
        T::zero_v()
    } else {
        (eval_v(s.drop_last(), x).mul_v(x)).add_v(s.last())
    }
}

/// The coefficient of `x^d`, zero when the polynomial is too short.
pub open spec fn vcoeff<T: Coeff>(s: Seq<T>, d: int) -> T {
    if 0 <= d < s.len() {
        s[s.len() - 1 - d]
    } else {
        T::zero_v()
    }
}

/// Aligned addition: the longer sequence's leading coefficients are kept
/// verbatim and the overlapping tails are added pairwise.  When the
/// lengths are equal the left argument plays the longer role.
pub open spec fn add_v_seq<T: Coeff>(a: Seq<T>, b: Seq<T>) -> Seq<T> {
    let lo = if b.len() > a.len() {
        b
    } else {
        a
    };
    let sh = if b.len() > a.len() {
        a
    } else {
        b
    };
    let d = lo.len() - sh.len();
    Seq::new(lo.len(), |i: int| if i < d {
        lo[i]
    } else {
        lo[i].add_v(sh[i - d])
    })
}

/// Every coefficient negated.
pub open spec fn neg_v_seq<T: Coeff>(s: Seq<T>) -> Seq<T> {
    s.map_values(|c: T| c.neg_v())
}

/// The sum `term(lo) + ... + term(j)` of the convolution terms
/// `a_{j'} * b_{k-j'}` (by degree), accumulated left to right from a zero
/// seed, exactly as the multiplication loop computes it.
pub open spec fn conv_partial<T: Coeff>(a: Seq<T>, b: Seq<T>, k: int, lo: int, j: int) -> T
    decreases j - lo + 1,
{
    if j < lo {
        T::zero_v()
    } else {
        conv_partial(a, b, k, lo, j - 1).add_v(vcoeff(a, j).mul_v(vcoeff(b, k - j)))
    }
}

/// The first term index of the degree-`k` convolution coefficient.
pub open spec fn conv_lo<T: Coeff>(a: Seq<T>, b: Seq<T>, k: int) -> int {
    if k - (b.len() - 1) > 0 {
        k - (b.len() - 1)
    } else {
        0
    }
}

/// The last term index of the degree-`k` convolution coefficient.
pub open spec fn conv_hi<T: Coeff>(a: Seq<T>, b: Seq<T>, k: int) -> int {
    if k < a.len() - 1 {
        k
    } else {
        a.len() - 1
    }
}

/// The coefficient of `x^k` in the product.
pub open spec fn conv_coeff<T: Coeff>(a: Seq<T>, b: Seq<T>, k: int) -> T {
    conv_partial(a, b, k, conv_lo(a, b, k), conv_hi(a, b, k))
}

/// Full convolution, highest degree first; the result's degree is the sum
/// of the input degrees.
pub open spec fn mul_v_seq<T: Coeff>(a: Seq<T>, b: Seq<T>) -> Seq<T> {
    let n = a.len() - 1;
    let m = b.len() - 1;
    Seq::new((n + m + 1) as nat, |i: int| conv_coeff(a, b, n + m - i))
}

/// The monic product of the linear factors `(x - root_k)`, multiplied out
/// left to right in the order the roots are supplied.
pub open spec fn from_roots_v<T: Coeff>(roots: Seq<T>) -> Seq<T>
    decreases roots.len(),
{
    if roots.len() <= 1 {
        seq![T::one_v(), roots[0].neg_v()]
    } else {
        mul_v_seq(from_roots_v(roots.drop_last()), seq![T::one_v(), roots.last().neg_v()])
    }
}

/// The power-rule derivative: the degree-`d` coefficient becomes the
/// degree-`(d-1)` coefficient scaled by `d`; a constant's derivative is
/// the zero polynomial.
pub open spec fn deriv_v<T: Coeff>(s: Seq<T>) -> Seq<T> {
    if s.len() <= 1 {
        seq![T::zero_v()]
    } else {
        Seq::new((s.len() - 1) as nat, |i: int| s[i].mul_v(T::from_nat_v((s.len() - 1 - i) as nat)))
    }
}

impl<T: Coeff> Polynomial<T> {
    #[verifier::type_invariant]
    spec fn wf(self) -> bool {
        self.coeffs@.len() >= 1
    }

    /// Builds a polynomial from its coefficients, highest degree first;
    /// an empty coefficient list is rejected.
    pub fn new(coeffs: Vec<T>) -> (r: Result<Self, FractalError>)
        ensures
            coeffs@.len() == 0 <==> r is Err,
            r is Err ==> r->Err_0 == FractalError::InvalidArgument,
            r is Ok ==> r->Ok_0@ == coeffs@,
    {
        if coeffs.is_empty() {
            Err(FractalError::InvalidArgument)
        } else {
            Ok(Polynomial { coeffs })
        }
    }

    /// The coefficient sequence, highest degree first.
    pub fn coeffs(&self) -> (r: &Vec<T>)
        ensures
            r@ == self@,
            r@.len() >= 1,
    {
        proof {
            use_type_invariant(&*self);
        }
        &self.coeffs
    }

    /// Evaluates the polynomial at `x` by Horner's method.
    pub fn evaluate(&self, x: T) -> (r: T)
        ensures
            r == eval_v(self@, x),
    {
        let mut total: T = T::zero();
        let len: usize = self.coeffs.len();
        for i in 0..len
            invariant
                len == self@.len(),
                total == eval_v(self@.take(i as int), x),
        {
            proof {
                assert(self@.take(i + 1).drop_last() =~= self@.take(i as int));
                assert(self@.take(i + 1).last() == self@[i as int]);
            }
            total = total.mul(x).add(self.coeffs[i]);
        }
        proof {
            assert(self@.take(len as int) =~= self@);
        }
        total
    }

    /// Applies `fun` to every coefficient, keeping length and order.
    pub fn map_coeffs<V: Coeff, F: Fn(T) -> V>(&self, fun: F) -> (r: Polynomial<V>)
        requires
            forall|c: T| fun.requires((c,)),
        ensures
            r@.len() == self@.len(),
            forall|k: int|
                0 <= k < self@.len() ==> fun.ensures((self@[k],), #[trigger] r@[k]),
    {
        proof {
            use_type_invariant(&*self);
        }
        let len: usize = self.coeffs.len();
        let mut new_coeffs: Vec<V> = Vec::new();
        for i in 0..len
            invariant
                len == self@.len(),
                new_coeffs@.len() == i,
                forall|c: T| fun.requires((c,)),
                forall|k: int| 0 <= k < i ==> fun.ensures((self@[k],), #[trigger] new_coeffs@[k]),
        {
            new_coeffs.push(fun(self.coeffs[i]));
        }
        Polynomial { coeffs: new_coeffs }
    }

    /// The degree: one less than the number of coefficients.
    pub fn degree(&self) -> (r: usize)
        ensures
            r as int == self@.len() - 1,
    {
        proof {
            use_type_invariant(&*self);
        }
        self.coeffs.len() - 1
    }

    /// The coefficient of `x^i`; storage is reversed, so this indexes
    /// from the end.
    pub fn coeff_at_deg(&self, i: usize) -> (r: &T)
        requires
            i < self@.len(),
        ensures
            *r == self@[self@.len() - 1 - i],
    {
        &self.coeffs[self.coeffs.len() - 1 - i]
    }

    /// Negates every coefficient.
    pub fn neg(&self) -> (r: Self)
        ensures
            r@ == neg_v_seq(self@),
    {
        proof {
            use_type_invariant(&*self);
        }
        let len: usize = self.coeffs.len();
        let mut new_coeffs: Vec<T> = Vec::new();
        for i in 0..len
            invariant
                len == self@.len(),
                new_coeffs@.len() == i,
                forall|k: int| 0 <= k < i ==> new_coeffs@[k] == self@[k].neg_v(),
        {
            new_coeffs.push(self.coeffs[i].neg());
        }
        proof {
            assert(new_coeffs@ =~= neg_v_seq(self@));
        }
        Polynomial { coeffs: new_coeffs }
    }

    /// Scales every coefficient by `k`.
    pub fn scale(&self, k: T) -> (r: Self)
        ensures
            r@.len() == self@.len(),
            forall|j: int| 0 <= j < self@.len() ==> #[trigger] r@[j] == self@[j].mul_v(k),
    {
        proof {
            use_type_invariant(&*self);
        }
        let len: usize = self.coeffs.len();
        let mut new_coeffs: Vec<T> = Vec::new();
        for i in 0..len
            invariant
                len == self@.len(),
                new_coeffs@.len() == i,
                forall|j: int| 0 <= j < i ==> #[trigger] new_coeffs@[j] == self@[j].mul_v(k),
        {
            new_coeffs.push(self.coeffs[i].mul(k));
        }
        Polynomial { coeffs: new_coeffs }
    }

    /// Adds two polynomials, aligning them by degree: the longer one's
    /// leading coefficients are copied verbatim, the tails added.
    pub fn add(&self, rhs: &Self) -> (r: Self)
        ensures
            r@ == add_v_seq(self@, rhs@),
    {
        proof {
            use_type_invariant(&*self);
            use_type_invariant(&*rhs);
        }
        let (longer, shorter) = if rhs.coeffs.len() > self.coeffs.len() {
            (rhs, self)
        } else {
            (self, rhs)
        };
        let n: usize = longer.coeffs.len();
        let m: usize = shorter.coeffs.len();
        let len_diff: usize = n - m;
        let ghost target = add_v_seq(self@, rhs@);
        let mut result_coeffs: Vec<T> = Vec::new();
        for i in 0..len_diff
            invariant
                n == longer@.len(),
                m == shorter@.len(),
                len_diff == n - m,
                target == add_v_seq(self@, rhs@),
                target.len() == n,
                forall|j: int| 0 <= j < len_diff ==> target[j] == longer@[j],
                result_coeffs@ =~= target.take(i as int),
        {
            result_coeffs.push(longer.coeffs[i]);
            proof {
                assert(result_coeffs@ =~= target.take(i + 1));
            }
        }
        for i in len_diff..n
            invariant
                n == longer@.len(),
                m == shorter@.len(),
                len_diff == n - m,
                target == add_v_seq(self@, rhs@),
                target.len() == n,
                forall|j: int|
                    len_diff <= j < n ==> target[j] == longer@[j].add_v(shorter@[j - len_diff]),
                result_coeffs@ =~= target.take(i as int),
        {
            result_coeffs.push(longer.coeffs[i].add(shorter.coeffs[i - len_diff]));
            proof {
                assert(result_coeffs@ =~= target.take(i + 1));
            }
        }
        proof {
            assert(target.take(n as int) =~= target);
        }
        Polynomial { coeffs: result_coeffs }
    }

    /// Subtraction: `self + (-rhs)`.
    pub fn sub(&self, rhs: &Self) -> (r: Self)
        ensures
            r@ == add_v_seq(self@, neg_v_seq(rhs@)),
    {
        self.add(&rhs.neg())
    }

    /// Multiplies two polynomials by full convolution; the result's
    /// degree is the sum of the input degrees.
    pub fn mul(&self, other: &Self) -> (r: Self)
        requires
            self@.len() + other@.len() <= usize::MAX,
        ensures
            r@ == mul_v_seq(self@, other@),
            r@.len() == self@.len() + other@.len() - 1,
    {
        proof {
            use_type_invariant(&*self);
            use_type_invariant(&*other);
        }
        let n: usize = self.coeffs.len() - 1;
        let m: usize = other.coeffs.len() - 1;
        let ghost a = self@;
        let ghost b = other@;
        let ghost target = mul_v_seq(a, b);
        let mut result_coeffs: Vec<T> = Vec::new();
        for i in 0..(n + m + 1)
            invariant
                n == a.len() - 1,
                m == b.len() - 1,
                a == self@,
                b == other@,
                self@.len() >= 1,
                other@.len() >= 1,
                n + m + 1 <= usize::MAX,
                target == mul_v_seq(a, b),
                target.len() == n + m + 1,
                result_coeffs@ =~= target.take(i as int),
        {
            let k: usize = n + m - i;
            let from_j: usize = if i > n {
                0
            } else {
                n - i
            };
            let to_j: usize = if i < m {
                n
            } else {
                n + m - i
            };
            proof {
                assert(from_j as int == conv_lo(a, b, k as int));
                assert(to_j as int == conv_hi(a, b, k as int));
            }
            let mut c: T = T::zero();
            for j in from_j..(to_j + 1)
                invariant
                    n == a.len() - 1,
                    m == b.len() - 1,
                    a == self@,
                    b == other@,
                    self@.len() >= 1,
                    other@.len() >= 1,
                    k == n + m - i,
                    i <= n + m,
                    from_j as int == conv_lo(a, b, k as int),
                    to_j as int == conv_hi(a, b, k as int),
                    from_j <= to_j < a.len(),
                    c == conv_partial(a, b, k as int, from_j as int, j - 1),
            {
                let t: T = self.coeffs[n - j].mul(other.coeffs[m - (k - j)]);
                proof {
                    assert(vcoeff(a, j as int) == a[n - j]);
                    assert(vcoeff(b, k - j) == b[m - (k - j)]);
                }
                c = c.add(t);
            }
            result_coeffs.push(c);
            proof {
                assert(target[i as int] == conv_coeff(a, b, k as int));
                assert(result_coeffs@ =~= target.take(i + 1));
            }
        }
        proof {
            assert(target.take((n + m + 1) as int) =~= target);
        }
        Polynomial { coeffs: result_coeffs }
    }

    /// The monic polynomial with exactly the given roots, multiplied out
    /// in the order supplied.
    pub fn from_roots(roots: &[T]) -> (r: Self)
        requires
            roots@.len() >= 1,
            roots@.len() + 2 <= usize::MAX,
        ensures
            r@ == from_roots_v(roots@),
    {
        let mut acc: Polynomial<T> = Polynomial::linear(roots[0]);
        let len: usize = roots.len();
        proof {
            assert(roots@.take(1).drop_last() =~= roots@.take(0));
            assert(from_roots_v(roots@.take(1)) == seq![T::one_v(), roots@[0].neg_v()]);
        }
        for k in 1..len
            invariant
                len == roots@.len(),
                len + 2 <= usize::MAX,
                acc@ == from_roots_v(roots@.take(k as int)),
                acc@.len() == k + 1,
        {
            let factor: Polynomial<T> = Polynomial::linear(roots[k]);
            proof {
                lemma_from_roots_len(roots@.take(k as int));
                assert(roots@.take(k + 1).drop_last() =~= roots@.take(k as int));
                assert(roots@.take(k + 1).last() == roots@[k as int]);
            }
            acc = acc.mul(&factor);
        }
        proof {
            assert(roots@.take(len as int) =~= roots@);
        }
        acc
    }

    /// The linear factor `x - root`.
    fn linear(root: T) -> (r: Self)
        ensures
            r@ =~= seq![T::one_v(), root.neg_v()],
    {
        let mut cs: Vec<T> = Vec::new();
        cs.push(T::one());
        cs.push(root.neg());
        Polynomial { coeffs: cs }
    }

    /// The power-rule derivative.  A constant's derivative is the zero
    /// polynomial (a single zero coefficient), not an error.
    pub fn derivative(&self) -> (r: Self)
        ensures
            r@ == deriv_v(self@),
            self@.len() > 1 ==> r@.len() == self@.len() - 1,
            self@.len() == 1 ==> r@ =~= seq![T::zero_v()],
    {
        proof {
            use_type_invariant(&*self);
        }
        let len: usize = self.coeffs.len();
        if len == 1 {
            let mut cs: Vec<T> = Vec::new();
            cs.push(T::zero());
            proof {
                assert(cs@ =~= deriv_v(self@));
            }
            return Polynomial { coeffs: cs };
        }
        let mut new_coeffs: Vec<T> = Vec::new();
        for i in 0..(len - 1)
            invariant
                len == self@.len(),
                len >= 2,
                new_coeffs@.len() == i,
                forall|j: int|
                    0 <= j < i ==> #[trigger] new_coeffs@[j] == self@[j].mul_v(
                        T::from_nat_v((len - 1 - j) as nat),
                    ),
        {
            new_coeffs.push(self.coeffs[i].mul(T::from_count(len - 1 - i)));
        }
        proof {
            assert(new_coeffs@ =~= deriv_v(self@));
        }
        Polynomial { coeffs: new_coeffs }
    }
}

/// A product of `n` linear factors has `n + 1` coefficients.
pub proof fn lemma_from_roots_len<T: Coeff>(roots: Seq<T>)
    requires
        roots.len() >= 1,
    ensures
        from_roots_v(roots).len() == roots.len() + 1,
    decreases roots.len(),
{
    if roots.len() > 1 {
        lemma_from_roots_len(roots.drop_last());
    }
}

impl<T: Coeff> PartialEq for Polynomial<T> {
    /// Structural coefficient-sequence equality: no normalization of
    /// leading zero coefficients, so differently padded representations
    /// of the same mathematical polynomial compare as unequal.
    fn eq(&self, other: &Self) -> (r: bool) {
        if self.coeffs.len() != other.coeffs.len() {
            proof {
                assert(self.coeffs@ != other.coeffs@);
            }
            false
        } else {
            let len: usize = self.coeffs.len();
            let mut i: usize = 0;
            while i < len
                invariant
                    len == self.coeffs@.len(),
                    len == other.coeffs@.len(),
                    i <= len,
                    forall|k: int| 0 <= k < i ==> self.coeffs@[k] == other.coeffs@[k],
                decreases len - i,
            {
                if !self.coeffs[i].eq_val(other.coeffs[i]) {
                    proof {
                        assert(self.coeffs@[i as int] != other.coeffs@[i as int]);
                    }
                    return false;
                }
                i += 1;
            }
            proof {
                assert(self.coeffs@ =~= other.coeffs@);
            }
            true
        }
    }
}

impl<T: Coeff> vstd::std_specs::cmp::PartialEqSpecImpl for Polynomial<T> {
    open spec fn obeys_eq_spec() -> bool {
        true
    }

    closed spec fn eq_spec(&self, other: &Polynomial<T>) -> bool {
        self.coeffs@ == other.coeffs@
    }
}

impl<T: Coeff> Default for Polynomial<T> {
    /// The zero polynomial: a single zero coefficient.
    fn default() -> (r: Self)
        ensures
            r@ =~= seq![T::zero_v()],
    {
        let mut cs: Vec<T> = Vec::new();
        cs.push(T::zero());
        Polynomial { coeffs: cs }
    }
}

/// Splitting the first term off a convolution sum.
proof fn lemma_conv_split_first<T: CoeffLaws>(a: Seq<T>, b: Seq<T>, k: int, lo: int, hi: int)
    requires
        lo <= hi,
    ensures
        conv_partial(a, b, k, lo, hi) == (vcoeff(a, lo).mul_v(vcoeff(b, k - lo))).add_v(
            conv_partial(a, b, k, lo + 1, hi),
        ),
    decreases hi - lo,
{
    let t_lo = vcoeff(a, lo).mul_v(vcoeff(b, k - lo));
    if hi == lo {
        assert(conv_partial(a, b, k, lo, lo - 1) == T::zero_v());
        assert(conv_partial(a, b, k, lo + 1, lo) == T::zero_v());
        T::law_add_zero(t_lo);
        T::law_add_comm(t_lo, T::zero_v());
    } else {
        lemma_conv_split_first(a, b, k, lo, hi - 1);
        let t_hi = vcoeff(a, hi).mul_v(vcoeff(b, k - hi));
        let s = conv_partial(a, b, k, lo + 1, hi - 1);
        T::law_add_assoc(t_lo, s, t_hi);
    }
}

/// Reversing a convolution sum swaps the two factors.
proof fn lemma_conv_reverse<T: CoeffLaws>(a: Seq<T>, b: Seq<T>, k: int, lo: int, hi: int)
    ensures
        conv_partial(a, b, k, lo, hi) == conv_partial(b, a, k, k - hi, k - lo),
    decreases hi - lo + 1,
{
    if hi >= lo {
        lemma_conv_reverse(a, b, k, lo, hi - 1);
        lemma_conv_split_first(b, a, k, k - hi, k - lo);
        T::law_mul_comm(vcoeff(a, hi), vcoeff(b, k - hi));
        T::law_add_comm(
            conv_partial(a, b, k, lo, hi - 1),
            vcoeff(a, hi).mul_v(vcoeff(b, k - hi)),
        );
    }
}

/// Polynomial multiplication is commutative over a lawful coefficient
/// ring.
pub proof fn lemma_mul_comm<T: CoeffLaws>(a: Seq<T>, b: Seq<T>)
    requires
        a.len() >= 1,
        b.len() >= 1,
    ensures
        mul_v_seq(a, b) == mul_v_seq(b, a),
{
    let n = a.len() - 1;
    let m = b.len() - 1;
    assert forall|i: int| 0 <= i < n + m + 1 implies mul_v_seq(a, b)[i] == mul_v_seq(b, a)[i] by {
        let k = n + m - i;
        lemma_conv_reverse(a, b, k, conv_lo(a, b, k), conv_hi(a, b, k));
        assert(conv_lo(b, a, k) == k - conv_hi(a, b, k));
        assert(conv_hi(b, a, k) == k - conv_lo(a, b, k));
    }
    assert(mul_v_seq(a, b) =~= mul_v_seq(b, a));
}

/// Every coefficient scaled by `k`.
pub open spec fn scaled_v<T: Coeff>(s: Seq<T>, k: T) -> Seq<T> {
    Seq::new(s.len(), |i: int| s[i].mul_v(k))
}

/// The value of the product `(x - root_0) * ... * (x - root_last)`,
/// multiplied out left to right.
pub open spec fn roots_prod_v<T: Coeff>(roots: Seq<T>, x: T) -> T
    decreases roots.len(),
{
    if roots.len() <= 1 {
        x.add_v(roots[0].neg_v())
    } else {
        roots_prod_v(roots.drop_last(), x).mul_v(x.add_v(roots.last().neg_v()))
    }
}

/// Four summands can be regrouped pairwise.
proof fn lemma_add_exchange<T: CoeffLaws>(a: T, b: T, c: T, d: T)
    ensures
        (a.add_v(b)).add_v(c.add_v(d)) == (a.add_v(c)).add_v(b.add_v(d)),
{
    T::law_add_assoc(a, b, c.add_v(d));
    T::law_add_assoc(b, c, d);
    T::law_add_comm(b, c);
    T::law_add_assoc(c, b, d);
    T::law_add_assoc(a, c, b.add_v(d));
}

/// Evaluation distributes over the pointwise sum of equally long
/// coefficient sequences.
proof fn lemma_eval_pointwise_add<T: CoeffLaws>(u: Seq<T>, v: Seq<T>, x: T)
    requires
        u.len() == v.len(),
    ensures
        eval_v(add_v_seq(u, v), x) == eval_v(u, x).add_v(eval_v(v, x)),
    decreases u.len(),
{
    if u.len() == 0 {
        assert(add_v_seq(u, v) =~= Seq::<T>::empty());
        T::law_add_zero(T::zero_v());
    } else {
        let w = add_v_seq(u, v);
        assert(w.drop_last() =~= add_v_seq(u.drop_last(), v.drop_last()));
        assert(w.last() == u.last().add_v(v.last()));
        lemma_eval_pointwise_add(u.drop_last(), v.drop_last(), x);
        let eu = eval_v(u.drop_last(), x);
        let ev = eval_v(v.drop_last(), x);
        T::law_distrib(eu, ev, x);
        lemma_add_exchange::<T>(eu.mul_v(x), ev.mul_v(x), u.last(), v.last());
    }
}

/// Appending a zero coefficient multiplies the value by `x`.
proof fn lemma_eval_push_zero<T: CoeffLaws>(s: Seq<T>, x: T)
    ensures
        eval_v(s.push(T::zero_v()), x) == eval_v(s, x).mul_v(x),
{
    assert(s.push(T::zero_v()).drop_last() =~= s);
    T::law_add_comm(eval_v(s, x).mul_v(x), T::zero_v());
    T::law_add_zero(eval_v(s, x).mul_v(x));
}

/// A leading zero coefficient does not change the value.
proof fn lemma_eval_cons_zero<T: CoeffLaws>(s: Seq<T>, x: T)
    ensures
        eval_v(seq![T::zero_v()] + s, x) == eval_v(s, x),
    decreases s.len(),
{
    let t = seq![T::zero_v()] + s;
    if s.len() == 0 {
        assert(t =~= seq![T::zero_v()]);
        assert(t.drop_last() =~= Seq::<T>::empty());
        assert(eval_v(Seq::<T>::empty(), x) == T::zero_v());
        assert(eval_v(t, x) == (T::zero_v().mul_v(x)).add_v(T::zero_v()));
        T::law_mul_zero(x);
        T::law_add_zero(T::zero_v());
        assert(eval_v(s, x) == T::zero_v());
    } else {
        assert(t.drop_last() =~= seq![T::zero_v()] + s.drop_last());
        assert(t.last() == s.last());
        lemma_eval_cons_zero(s.drop_last(), x);
    }
}

/// Scaling every coefficient scales the value.
proof fn lemma_eval_scaled<T: CoeffLaws>(s: Seq<T>, k: T, x: T)
    ensures
        eval_v(scaled_v(s, k), x) == eval_v(s, x).mul_v(k),
    decreases s.len(),
{
    if s.len() == 0 {
        assert(scaled_v(s, k) =~= Seq::<T>::empty());
        T::law_mul_zero(k);
    } else {
        let m = scaled_v(s, k);
        assert(m.drop_last() =~= scaled_v(s.drop_last(), k));
        assert(m.last() == s.last().mul_v(k));
        lemma_eval_scaled(s.drop_last(), k, x);
        let e = eval_v(s.drop_last(), x);
        T::law_mul_assoc(e, k, x);
        T::law_mul_comm(k, x);
        T::law_mul_assoc(e, x, k);
        T::law_distrib(e.mul_v(x), s.last(), k);
    }
}

/// Multiplying by the linear factor `x - r` splits into a degree shift
/// and a scaling by `-r`.
proof fn lemma_mul_linear_decomposition<T: CoeffLaws>(s: Seq<T>, r: T)
    requires
        s.len() >= 1,
    ensures
        mul_v_seq(s, seq![T::one_v(), r.neg_v()]) == add_v_seq(
            s.push(T::zero_v()),
            seq![T::zero_v()] + scaled_v(s, r.neg_v()),
        ),
{
    let lin = seq![T::one_v(), r.neg_v()];
    let lhs = mul_v_seq(s, lin);
    let shifted = s.push(T::zero_v());
    let prefixed = seq![T::zero_v()] + scaled_v(s, r.neg_v());
    let rhs = add_v_seq(shifted, prefixed);
    let len = s.len() as int;
    assert(lhs.len() == len + 1);
    assert(rhs.len() == len + 1);
    assert forall|i: int| 0 <= i < len + 1 implies lhs[i] == rhs[i] by {
        let k = len - i;
        assert(vcoeff(lin, 0) == r.neg_v());
        assert(vcoeff(lin, 1) == T::one_v());
        assert(lhs[i] == conv_coeff(s, lin, k));
        if i == 0 {
            assert(conv_lo(s, lin, k) == len - 1);
            assert(conv_hi(s, lin, k) == len - 1);
            assert(conv_partial(s, lin, k, len - 1, len - 2) == T::zero_v());
            let t = vcoeff(s, len - 1).mul_v(vcoeff(lin, 1));
            assert(conv_coeff(s, lin, k) == T::zero_v().add_v(t));
            T::law_add_zero(t);
            T::law_mul_comm(vcoeff(s, len - 1), T::one_v());
            T::law_mul_one(vcoeff(s, len - 1));
            assert(rhs[0] == s[0].add_v(T::zero_v()));
            T::law_add_comm(s[0], T::zero_v());
            T::law_add_zero(s[0]);
        } else if i == len {
            assert(conv_lo(s, lin, 0) == 0);
            assert(conv_hi(s, lin, 0) == 0);
            assert(conv_partial(s, lin, 0, 0, -1) == T::zero_v());
            let t = vcoeff(s, 0).mul_v(vcoeff(lin, 0));
            assert(conv_coeff(s, lin, 0) == T::zero_v().add_v(t));
            T::law_add_zero(t);
            assert(rhs[len] == T::zero_v().add_v(s[len - 1].mul_v(r.neg_v())));
            T::law_add_zero(s[len - 1].mul_v(r.neg_v()));
        } else {
            assert(conv_lo(s, lin, k) == k - 1);
            assert(conv_hi(s, lin, k) == k);
            assert(conv_partial(s, lin, k, k - 1, k - 2) == T::zero_v());
            let t1 = vcoeff(s, k - 1).mul_v(vcoeff(lin, 1));
            let t2 = vcoeff(s, k).mul_v(vcoeff(lin, 0));
            assert(conv_partial(s, lin, k, k - 1, k - 1) == T::zero_v().add_v(t1));
            assert(conv_coeff(s, lin, k) == (T::zero_v().add_v(t1)).add_v(t2));
            T::law_add_zero(t1);
            T::law_mul_comm(vcoeff(s, k - 1), T::one_v());
            T::law_mul_one(vcoeff(s, k - 1));
            assert(vcoeff(s, k - 1) == s[i]);
            assert(vcoeff(s, k) == s[i - 1]);
            assert(rhs[i] == s[i].add_v(s[i - 1].mul_v(r.neg_v())));
        }
    }
    assert(lhs =~= rhs);
}

/// Evaluating after a multiplication by `x - r` multiplies the value by
/// `x - r`.
proof fn lemma_eval_mul_linear<T: CoeffLaws>(s: Seq<T>, r: T, x: T)
    requires
        s.len() >= 1,
    ensures
        eval_v(mul_v_seq(s, seq![T::one_v(), r.neg_v()]), x) == eval_v(s, x).mul_v(
            x.add_v(r.neg_v()),
        ),
{
    let nr = r.neg_v();
    let shifted = s.push(T::zero_v());
    let prefixed = seq![T::zero_v()] + scaled_v(s, nr);
    lemma_mul_linear_decomposition(s, r);
    lemma_eval_pointwise_add(shifted, prefixed, x);
    lemma_eval_push_zero(s, x);
    lemma_eval_cons_zero(scaled_v(s, nr), x);
    lemma_eval_scaled(s, nr, x);
    let e = eval_v(s, x);
    T::law_mul_comm(e, x.add_v(nr));
    T::law_distrib(x, nr, e);
    T::law_mul_comm(x, e);
    T::law_mul_comm(nr, e);
}

/// The polynomial built from a root set evaluates to the product of the
/// linear factors.
proof fn lemma_eval_from_roots<T: CoeffLaws>(roots: Seq<T>, x: T)
    requires
        roots.len() >= 1,
    ensures
        eval_v(from_roots_v(roots), x) == roots_prod_v(roots, x),
    decreases roots.len(),
{
    if roots.len() == 1 {
        let lin = seq![T::one_v(), roots[0].neg_v()];
        assert(from_roots_v(roots) == lin);
        assert(lin.drop_last() =~= seq![T::one_v()]);
        assert(seq![T::one_v()].drop_last() =~= Seq::<T>::empty());
        assert(eval_v(Seq::<T>::empty(), x) == T::zero_v());
        assert(eval_v(seq![T::one_v()], x) == (T::zero_v().mul_v(x)).add_v(T::one_v()));
        T::law_mul_zero(x);
        T::law_add_zero(T::one_v());
        assert(eval_v(lin, x) == (T::one_v().mul_v(x)).add_v(roots[0].neg_v()));
        T::law_mul_one(x);
        assert(roots_prod_v(roots, x) == x.add_v(roots[0].neg_v()));
    } else {
        lemma_eval_from_roots(roots.drop_last(), x);
        lemma_from_roots_len(roots.drop_last());
        lemma_eval_mul_linear(from_roots_v(roots.drop_last()), roots.last(), x);
    }
}

/// A product with a vanished factor vanishes.
proof fn lemma_prod_zero_at_root<T: CoeffLaws>(roots: Seq<T>, i: int)
    requires
        0 <= i < roots.len(),
    ensures
        roots_prod_v(roots, roots[i]) == T::zero_v(),
    decreases roots.len(),
{
    let x = roots[i];
    if roots.len() == 1 {
        T::law_add_neg(x);
    } else if i == roots.len() - 1 {
        let p = roots_prod_v(roots.drop_last(), x);
        T::law_add_neg(x);
        T::law_mul_comm(p, T::zero_v());
        T::law_mul_zero(p);
    } else {
        lemma_prod_zero_at_root(roots.drop_last(), i);
        T::law_mul_zero(x.add_v(roots.last().neg_v()));
    }
}

/// Evaluating the monic polynomial built from a root set at any of its
/// roots yields exactly zero, over a lawful coefficient ring.
pub proof fn lemma_from_roots_evaluates_to_zero<T: CoeffLaws>(roots: Seq<T>, i: int)
    requires
        roots.len() >= 1,
        0 <= i < roots.len(),
    ensures
        eval_v(from_roots_v(roots), roots[i]) == T::zero_v(),
{
    lemma_eval_from_roots(roots, roots[i]);
    lemma_prod_zero_at_root(roots, i);
}

/// Evaluating any polynomial at zero yields its constant coefficient.
pub proof fn lemma_eval_at_zero<T: CoeffLaws>(s: Seq<T>)
    requires
        s.len() >= 1,
    ensures
        eval_v(s, T::zero_v()) == vcoeff(s, 0),
{
    let z = T::zero_v();
    let acc = eval_v(s.drop_last(), z);
    T::law_mul_comm(acc, z);
    T::law_mul_zero(acc);
    T::law_add_zero(s.last());
}

} // verus!
