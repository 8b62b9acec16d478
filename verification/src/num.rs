//! The numeric capability interface that the whole engine is generic over.
//!
//! `Coeff` gives the ring-like operations a polynomial coefficient needs,
//! `CoeffLaws` the algebraic laws that the polynomial lemmas rest on,
//! `Real` the ordered scalar used for coordinates, thresholds and colour
//! values, and `ComplexNum` the complex-number operations the per-pixel
//! iterations use.  Every operation has a specification-level counterpart
//! (the `_v` functions), so contracts throughout the crate are stated over
//! those and hold for any implementation.
//!
//! The crate itself implements the traits for `i64` with wrap-around
//! semantics (the integers modulo 2^64), which is an honest commutative
//! ring and therefore satisfies every law below.  An implementation
//! supplied from outside this crate is not seen by the verifier: the
//! engine contracts then hold relative to whatever that implementation's
//! operations actually do.

use vstd::prelude::*;

verus! {

use vstd::arithmetic::div_mod::{
    lemma_add_mod_noop,
    lemma_mod_bound,
    lemma_mod_multiples_vanish,
    lemma_mul_mod_noop_left,
    lemma_small_mod,
};
use vstd::wrapping::i64_specs;

/// Ring-like operations on a coefficient type.  Each executable operation
/// is pinned to its specification-level counterpart, so polynomial
/// contracts can speak about the results abstractly.
pub trait Coeff: Sized + Copy {
    open spec fn zero_v() -> Self {
        vstd::pervasive::arbitrary()
    }

    open spec fn one_v() -> Self {
        vstd::pervasive::arbitrary()
    }

    open spec fn add_v(self, o: Self) -> Self {
        vstd::pervasive::arbitrary()
    }

    open spec fn mul_v(self, o: Self) -> Self {
        vstd::pervasive::arbitrary()
    }

    open spec fn neg_v(self) -> Self {
        vstd::pervasive::arbitrary()
    }

    open spec fn from_nat_v(n: nat) -> Self {
        vstd::pervasive::arbitrary()
    }

    fn zero() -> (r: Self)
        ensures
            r == Self::zero_v(),
    ;

    fn one() -> (r: Self)
        ensures
            r == Self::one_v(),
    ;

    fn add(self, o: Self) -> (r: Self)
        ensures
            r == self.add_v(o),
    ;

    fn mul(self, o: Self) -> (r: Self)
        ensures
            r == self.mul_v(o),
    ;

    fn neg(self) -> (r: Self)
        ensures
            r == self.neg_v(),
    ;

    /// The coefficient standing for the counting number `n`; used by
    /// differentiation, which scales each coefficient by its degree.
    fn from_count(n: usize) -> (r: Self)
        ensures
            r == Self::from_nat_v(n as nat),
    ;

    fn eq_val(self, o: Self) -> (r: bool)
        ensures
            r == (self == o),
    ;
}

/// The commutative-ring laws.  Lemmas about the polynomial algebra require
/// them; implementations must prove them.
pub trait CoeffLaws: Coeff {
    proof fn law_add_comm(a: Self, b: Self)
        ensures
            a.add_v(b) == b.add_v(a),
    ;

    proof fn law_add_assoc(a: Self, b: Self, c: Self)
        ensures
            (a.add_v(b)).add_v(c) == a.add_v(b.add_v(c)),
    ;

    proof fn law_add_zero(a: Self)
        ensures
            Self::zero_v().add_v(a) == a,
    ;

    proof fn law_add_neg(a: Self)
        ensures
            a.add_v(a.neg_v()) == Self::zero_v(),
    ;

    proof fn law_mul_comm(a: Self, b: Self)
        ensures
            a.mul_v(b) == b.mul_v(a),
    ;

    proof fn law_mul_assoc(a: Self, b: Self, c: Self)
        ensures
            (a.mul_v(b)).mul_v(c) == a.mul_v(b.mul_v(c)),
    ;

    proof fn law_mul_one(a: Self)
        ensures
            Self::one_v().mul_v(a) == a,
    ;

    proof fn law_mul_zero(a: Self)
        ensures
            Self::zero_v().mul_v(a) == Self::zero_v(),
    ;

    proof fn law_distrib(a: Self, b: Self, c: Self)
        ensures
            (a.add_v(b)).mul_v(c) == (a.mul_v(c)).add_v(b.mul_v(c)),
    ;
}

/// The ordered scalar of the engine: pixel coordinates, thresholds, hue
/// angles and colour channel values.  No algebraic laws are demanded, so a
/// rounding representation (fixed point, floating point) can implement it;
/// every engine contract is stated relative to the `_v` operations.
pub trait Real: Coeff {
    open spec fn sub_v(self, o: Self) -> Self {
        vstd::pervasive::arbitrary()
    }

    open spec fn div_v(self, o: Self) -> Self {
        vstd::pervasive::arbitrary()
    }

    open spec fn rem_wrap_v(self, o: Self) -> Self {
        vstd::pervasive::arbitrary()
    }

    open spec fn le_v(self, o: Self) -> bool {
        vstd::pervasive::arbitrary()
    }

    open spec fn lt_v(self, o: Self) -> bool {
        vstd::pervasive::arbitrary()
    }

    open spec fn from_u32_v(n: u32) -> Self {
        vstd::pervasive::arbitrary()
    }

    open spec fn quantize_v(self) -> u8 {
        vstd::pervasive::arbitrary()
    }

    fn sub(self, o: Self) -> (r: Self)
        ensures
            r == self.sub_v(o),
    ;

    fn div(self, o: Self) -> (r: Self)
        ensures
            r == self.div_v(o),
    ;

    /// Remainder that wraps into `[0, o)`; the hue computation reduces
    /// angles modulo 360 with it.
    fn rem_wrap(self, o: Self) -> (r: Self)
        ensures
            r == self.rem_wrap_v(o),
    ;

    fn is_le(self, o: Self) -> (r: bool)
        ensures
            r == self.le_v(o),
    ;

    fn is_lt(self, o: Self) -> (r: bool)
        ensures
            r == self.lt_v(o),
    ;

    fn from_u32(n: u32) -> (r: Self)
        ensures
            r == Self::from_u32_v(n),
    ;

    /// Linear scaling of a colour channel value in `[0, 1]` to a byte in
    /// `[0, 255]`, with rounding and clamping.
    fn quantize255(self) -> (r: u8)
        ensures
            r == self.quantize_v(),
    ;
}

/// The complex-number operations the per-pixel iterations need beyond the
/// ring ones: subtraction, division, squared magnitude, a finiteness test,
/// and construction from two real parts.
pub trait ComplexNum<R: Real>: Coeff {
    open spec fn sub_v(self, o: Self) -> Self {
        vstd::pervasive::arbitrary()
    }

    open spec fn div_v(self, o: Self) -> Self {
        vstd::pervasive::arbitrary()
    }

    open spec fn norm_sqr_v(self) -> R {
        vstd::pervasive::arbitrary()
    }

    open spec fn is_finite_v(self) -> bool {
        vstd::pervasive::arbitrary()
    }

    open spec fn from_parts_v(re: R, im: R) -> Self {
        vstd::pervasive::arbitrary()
    }

    fn sub(self, o: Self) -> (r: Self)
        ensures
            r == self.sub_v(o),
    ;

    fn div(self, o: Self) -> (r: Self)
        ensures
            r == self.div_v(o),
    ;

    fn norm_sqr(self) -> (r: R)
        ensures
            r == self.norm_sqr_v(),
    ;

    fn is_finite(self) -> (r: bool)
        ensures
            r == self.is_finite_v(),
    ;

    fn from_parts(re: R, im: R) -> (r: Self)
        ensures
            r == Self::from_parts_v(re, im),
    ;
}

/// The modulus of the wrap-around integer model.
pub open spec fn two_to_64() -> int {
    0x1_0000_0000_0000_0000
}

/// `signed_crop` keeps only the residue class modulo 2^64.
pub proof fn lemma_crop_mod(x: int)
    ensures
        (i64_specs::signed_crop(x) as int) % two_to_64() == x % two_to_64(),
{
    let m = two_to_64();
    let r = x % m;
    lemma_mod_bound(x, m);
    lemma_small_mod(r as nat, m as nat);
    if r > i64::MAX as int {
        lemma_mod_multiples_vanish(-1, r, m);
        assert(m * (-1) + r == r - m);
    }
}

/// Cropping depends only on the residue class modulo 2^64.
pub proof fn lemma_crop_congr(x: int, y: int)
    requires
        x % two_to_64() == y % two_to_64(),
    ensures
        i64_specs::signed_crop(x) == i64_specs::signed_crop(y),
{
}

/// A value already in range is its own crop.
pub proof fn lemma_crop_id(x: int)
    requires
        i64::MIN <= x <= i64::MAX,
    ensures
        i64_specs::signed_crop(x) == x as i64,
{
    let m = two_to_64();
    if x >= 0 {
        lemma_small_mod(x as nat, m as nat);
    } else {
        lemma_mod_multiples_vanish(1, x, m);
        lemma_small_mod((x + m) as nat, m as nat);
    }
}

/// A crop inside the left summand collapses.
pub proof fn lemma_crop_add_l(x: int, y: int)
    ensures
        i64_specs::signed_crop(i64_specs::signed_crop(x) as int + y) == i64_specs::signed_crop(
            x + y,
        ),
{
    let m = two_to_64();
    let c = i64_specs::signed_crop(x) as int;
    lemma_crop_mod(x);
    lemma_add_mod_noop(c, y, m);
    lemma_add_mod_noop(x, y, m);
    lemma_crop_congr(c + y, x + y);
}

/// A crop inside the right summand collapses.
pub proof fn lemma_crop_add_r(x: int, y: int)
    ensures
        i64_specs::signed_crop(x + i64_specs::signed_crop(y) as int) == i64_specs::signed_crop(
            x + y,
        ),
{
    lemma_crop_add_l(y, x);
}

/// A crop inside the left factor collapses.
pub proof fn lemma_crop_mul_l(x: int, y: int)
    ensures
        i64_specs::signed_crop(i64_specs::signed_crop(x) as int * y) == i64_specs::signed_crop(
            x * y,
        ),
{
    let m = two_to_64();
    let c = i64_specs::signed_crop(x) as int;
    lemma_crop_mod(x);
    lemma_mul_mod_noop_left(c, y, m);
    lemma_mul_mod_noop_left(x, y, m);
    assert((c % m) * y % m == c * y % m);
    lemma_crop_congr(c * y, x * y);
}

/// A crop inside the right factor collapses.
pub proof fn lemma_crop_mul_r(x: int, y: int)
    ensures
        i64_specs::signed_crop(x * i64_specs::signed_crop(y) as int) == i64_specs::signed_crop(
            x * y,
        ),
{
    lemma_crop_mul_l(y, x);
    assert(i64_specs::signed_crop(y) as int * x == x * i64_specs::signed_crop(y) as int)
        by (nonlinear_arith);
    assert(y * x == x * y) by (nonlinear_arith);
}

/// A crop inside a negation collapses.
pub proof fn lemma_crop_neg(x: int)
    ensures
        i64_specs::signed_crop(-(i64_specs::signed_crop(x) as int)) == i64_specs::signed_crop(-x),
{
    lemma_crop_mul_l(x, -1);
    assert(i64_specs::signed_crop(x) as int * -1 == -(i64_specs::signed_crop(x) as int))
        by (nonlinear_arith);
    assert(x * -1 == -x) by (nonlinear_arith);
}

/// A crop inside the subtrahend collapses.
pub proof fn lemma_crop_sub_r(x: int, y: int)
    ensures
        i64_specs::signed_crop(x - i64_specs::signed_crop(y) as int) == i64_specs::signed_crop(
            x - y,
        ),
{
    lemma_crop_neg(y);
    let ny = i64_specs::signed_crop(-(i64_specs::signed_crop(y) as int));
    lemma_crop_add_r(x, -(i64_specs::signed_crop(y) as int));
    lemma_crop_add_r(x, -y);
}

/// The standard-library wrapping addition equals the cropped exact sum.
pub proof fn lemma_wrapping_add_crop(a: i64, b: i64)
    ensures
        i64_specs::wrapping_add(a, b) == i64_specs::signed_crop(a as int + b as int),
{
    let m = two_to_64();
    let s = a as int + b as int;
    if s > i64::MAX as int {
        lemma_small_mod(s as nat, m as nat);
    } else if s < i64::MIN as int {
        lemma_mod_multiples_vanish(1, s, m);
        lemma_small_mod((s + m) as nat, m as nat);
    } else {
        lemma_crop_id(s);
    }
}

/// The standard-library wrapping subtraction equals the cropped exact
/// difference.
pub proof fn lemma_wrapping_sub_crop(a: i64, b: i64)
    ensures
        i64_specs::wrapping_sub(a, b) == i64_specs::signed_crop(a as int - b as int),
{
    let m = two_to_64();
    let s = a as int - b as int;
    if s > i64::MAX as int {
        lemma_small_mod(s as nat, m as nat);
    } else if s < i64::MIN as int {
        lemma_mod_multiples_vanish(1, s, m);
        lemma_small_mod((s + m) as nat, m as nat);
    } else {
        lemma_crop_id(s);
    }
}

impl Coeff for i64 {
    open spec fn zero_v() -> i64 {
        0i64
    }

    open spec fn one_v() -> i64 {
        1i64
    }

    open spec fn add_v(self, o: i64) -> i64 {
        i64_specs::signed_crop(self as int + o as int)
    }

    open spec fn mul_v(self, o: i64) -> i64 {
        i64_specs::signed_crop(self as int * o as int)
    }

    open spec fn neg_v(self) -> i64 {
        i64_specs::signed_crop(-(self as int))
    }

    open spec fn from_nat_v(n: nat) -> i64 {
        i64_specs::signed_crop(n as int)
    }

    fn zero() -> (r: i64) {
        0i64
    }

    fn one() -> (r: i64) {
        1i64
    }

    fn add(self, o: i64) -> (r: i64) {
        proof {
            lemma_wrapping_add_crop(self, o);
        }
        self.wrapping_add(o)
    }

    fn mul(self, o: i64) -> (r: i64) {
        self.wrapping_mul(o)
    }

    fn neg(self) -> (r: i64) {
        proof {
            lemma_wrapping_sub_crop(0i64, self);
        }
        (0i64).wrapping_sub(self)
    }

    fn from_count(n: usize) -> (r: i64) {
        let w: u64 = n as u64;
        if w <= i64::MAX as u64 {
            proof {
                lemma_crop_id(w as int);
            }
            w as i64
        } else {
            let diff: u64 = (u64::MAX - w) + 1;
            proof {
                let m = two_to_64();
                lemma_mod_multiples_vanish(-1, w as int, m);
                lemma_small_mod(w as nat, m as nat);
                assert(m * (-1) + w as int == w as int - m);
            }
            if diff == i64::MAX as u64 + 1 {
                i64::MIN
            } else {
                -(diff as i64)
            }
        }
    }

    fn eq_val(self, o: i64) -> (r: bool) {
        self == o
    }
}

impl CoeffLaws for i64 {
    proof fn law_add_comm(a: i64, b: i64) {
    }

    proof fn law_add_assoc(a: i64, b: i64, c: i64) {
        lemma_crop_add_l(a as int + b as int, c as int);
        lemma_crop_add_r(a as int, b as int + c as int);
    }

    proof fn law_add_zero(a: i64) {
        lemma_crop_id(a as int);
    }

    proof fn law_add_neg(a: i64) {
        lemma_crop_add_r(a as int, -(a as int));
        lemma_crop_id(0);
    }

    proof fn law_mul_comm(a: i64, b: i64) {
        assert(a as int * b as int == b as int * a as int) by (nonlinear_arith);
    }

    proof fn law_mul_assoc(a: i64, b: i64, c: i64) {
        lemma_crop_mul_l(a as int * b as int, c as int);
        lemma_crop_mul_r(a as int, b as int * c as int);
        assert((a as int * b as int) * c as int == a as int * (b as int * c as int))
            by (nonlinear_arith);
    }

    proof fn law_mul_one(a: i64) {
        assert(1 * a as int == a as int) by (nonlinear_arith);
        lemma_crop_id(a as int);
    }

    proof fn law_mul_zero(a: i64) {
        assert(0 * a as int == 0) by (nonlinear_arith);
        lemma_crop_id(0);
    }

    proof fn law_distrib(a: i64, b: i64, c: i64) {
        lemma_crop_mul_l(a as int + b as int, c as int);
        lemma_crop_add_l(a as int * c as int, (b as i64).mul_v(c) as int);
        lemma_crop_add_r(a as int * c as int, b as int * c as int);
        assert((a as int + b as int) * c as int == a as int * c as int + b as int * c as int)
            by (nonlinear_arith);
    }
}

/// Truncated integer division (rounding toward zero), as the `/` operator
/// of the hardware behaves; total, with division by zero giving zero.
pub open spec fn tdiv_v(a: int, b: int) -> int {
    let q = abs_v(a) / abs_v(b);
    if (a < 0) == (b < 0) {
        q
    } else {
        -q
    }
}

pub open spec fn abs_v(a: int) -> int {
    if a < 0 {
        -a
    } else {
        a
    }
}

/// The magnitude of an `i64` as a `u64`; total, unlike exec negation.
fn abs_u64(a: i64) -> (r: u64)
    ensures
        r as int == abs_v(a as int),
{
    if a >= 0 {
        a as u64
    } else if a == i64::MIN {
        9223372036854775808u64
    } else {
        (-a) as u64
    }
}

impl Real for i64 {
    open spec fn sub_v(self, o: i64) -> i64 {
        i64_specs::signed_crop(self as int - o as int)
    }

    open spec fn div_v(self, o: i64) -> i64 {
        if o == 0i64 {
            0i64
        } else {
            i64_specs::signed_crop(tdiv_v(self as int, o as int))
        }
    }

    open spec fn rem_wrap_v(self, o: i64) -> i64 {
        if o <= 0i64 {
            0i64
        } else {
            (self as int % o as int) as i64
        }
    }

    open spec fn le_v(self, o: i64) -> bool {
        self <= o
    }

    open spec fn lt_v(self, o: i64) -> bool {
        self < o
    }

    open spec fn from_u32_v(n: u32) -> i64 {
        n as i64
    }

    open spec fn quantize_v(self) -> u8 {
        if self <= 0i64 {
            0u8
        } else if self as int * 255 > 255 {
            255u8
        } else {
            (self as int * 255) as u8
        }
    }

    fn sub(self, o: i64) -> (r: i64) {
        proof {
            lemma_wrapping_sub_crop(self, o);
        }
        self.wrapping_sub(o)
    }

    fn div(self, o: i64) -> (r: i64) {
        if o == 0 {
            0
        } else {
            let ua: u64 = abs_u64(self);
            let ub: u64 = abs_u64(o);
            let q: u64 = ua / ub;
            let negative: bool = (self < 0) != (o < 0);
            proof {
                assert(q as int == abs_v(self as int) / abs_v(o as int));
            }
            if q >= 9223372036854775808u64 {
                proof {
                    let m = two_to_64();
                    let t = tdiv_v(self as int, o as int);
                    assert(abs_v(self as int) <= 9223372036854775808);
                    assert(abs_v(o as int) >= 1);
                    vstd::arithmetic::div_mod::lemma_div_is_ordered(
                        abs_v(self as int),
                        9223372036854775808,
                        abs_v(o as int),
                    );
                    vstd::arithmetic::div_mod::lemma_div_by_multiple(1, abs_v(o as int));
                    assert(q == 9223372036854775808);
                    if negative {
                        assert(t == -9223372036854775808);
                        lemma_crop_id(t);
                    } else {
                        assert(t == 9223372036854775808);
                        lemma_mod_multiples_vanish(-1, t, m);
                        lemma_small_mod(t as nat, m as nat);
                        assert(m * (-1) + t == t - m);
                    }
                }
                i64::MIN
            } else if negative {
                proof {
                    lemma_crop_id(-(q as int));
                }
                -(q as i64)
            } else {
                proof {
                    lemma_crop_id(q as int);
                }
                q as i64
            }
        }
    }

    fn rem_wrap(self, o: i64) -> (r: i64) {
        if o <= 0 {
            0
        } else {
            let ua: u64 = abs_u64(self);
            let um: u64 = o as u64;
            let r0: u64 = ua % um;
            if self >= 0 {
                proof {
                    lemma_small_mod(r0 as nat, um as nat);
                }
                r0 as i64
            } else {
                proof {
                    let m = o as int;
                    let quo = ua as int / m;
                    vstd::arithmetic::div_mod::lemma_fundamental_div_mod(ua as int, m);
                    assert(ua as int == m * quo + (ua as int % m));
                    assert(m * (-quo) == -(m * quo)) by (nonlinear_arith);
                    assert(self as int == m * (-quo) + (-(r0 as int)));
                    lemma_mod_multiples_vanish(-quo, -(r0 as int), m);
                    if r0 == 0 {
                        lemma_small_mod(0, m as nat);
                    } else {
                        lemma_mod_multiples_vanish(1, -(r0 as int), m);
                        lemma_small_mod((m - r0 as int) as nat, m as nat);
                    }
                }
                if r0 == 0 {
                    0
                } else {
                    o - (r0 as i64)
                }
            }
        }
    }

    fn is_le(self, o: i64) -> (r: bool) {
        self <= o
    }

    fn is_lt(self, o: i64) -> (r: bool) {
        self < o
    }

    fn from_u32(n: u32) -> (r: i64) {
        n as i64
    }

    fn quantize255(self) -> (r: u8) {
        if self <= 0 {
            0
        } else {
            proof {
                assert(self as int * 255 >= 255) by (nonlinear_arith)
                    requires
                        self as int >= 1,
                ;
            }
            255
        }
    }
}

} // verus!
