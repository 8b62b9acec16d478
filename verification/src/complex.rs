//! An exact complex-number model over the wrap-around integers.
//!
//! `IntComplex` implements every numeric trait of the crate, which keeps
//! the generic engine honest: the laws demanded by `CoeffLaws` are proved
//! here, not assumed, and the engines and their tests can run on a fully
//! verified scalar.

use vstd::prelude::*;

verus! {

use vstd::wrapping::i64_specs;
use crate::num::{
    lemma_crop_congr,
    lemma_crop_id,
    lemma_crop_mod,
    two_to_64,
    Coeff,
    CoeffLaws,
    ComplexNum,
    Real,
};
use vstd::arithmetic::div_mod::{
    lemma_add_mod_noop,
    lemma_mul_mod_noop_left,
    lemma_sub_mod_noop,
};

/// A complex number with wrap-around integer parts.
#[derive(Clone, Copy, Debug, PartialEq, Eq, Structural)]
pub struct IntComplex {
    pub re: i64,
    pub im: i64,
}

/// Residues modulo 2^64 are preserved under subtraction.
proof fn lemma_mod_sub_congr(x: int, x2: int, y: int, y2: int)
    requires
        x % two_to_64() == x2 % two_to_64(),
        y % two_to_64() == y2 % two_to_64(),
    ensures
        (x - y) % two_to_64() == (x2 - y2) % two_to_64(),
{
    lemma_sub_mod_noop(x, y, two_to_64());
    lemma_sub_mod_noop(x2, y2, two_to_64());
}

/// Residues modulo 2^64 are preserved under addition.
proof fn lemma_mod_add_congr(x: int, x2: int, y: int, y2: int)
    requires
        x % two_to_64() == x2 % two_to_64(),
        y % two_to_64() == y2 % two_to_64(),
    ensures
        (x + y) % two_to_64() == (x2 + y2) % two_to_64(),
{
    lemma_add_mod_noop(x, y, two_to_64());
    lemma_add_mod_noop(x2, y2, two_to_64());
}

/// Cropping a factor does not change the product's residue.
proof fn lemma_crop_factor_mod(x: int, y: int)
    ensures
        ((i64_specs::signed_crop(x) as int) * y) % two_to_64() == (x * y) % two_to_64(),
{
    lemma_crop_mod(x);
    lemma_mul_mod_noop_left(i64_specs::signed_crop(x) as int, y, two_to_64());
    lemma_mul_mod_noop_left(x, y, two_to_64());
}

impl Coeff for IntComplex {
    open spec fn zero_v() -> IntComplex {
        IntComplex { re: 0i64, im: 0i64 }
    }

    open spec fn one_v() -> IntComplex {
        IntComplex { re: 1i64, im: 0i64 }
    }

    open spec fn add_v(self, o: IntComplex) -> IntComplex {
        IntComplex { re: self.re.add_v(o.re), im: self.im.add_v(o.im) }
    }

    open spec fn mul_v(self, o: IntComplex) -> IntComplex {
        IntComplex {
            re: i64_specs::signed_crop(
                self.re as int * o.re as int - self.im as int * o.im as int,
            ),
            im: i64_specs::signed_crop(
                self.re as int * o.im as int + self.im as int * o.re as int,
            ),
        }
    }

    open spec fn neg_v(self) -> IntComplex {
        IntComplex { re: <i64 as Coeff>::neg_v(self.re), im: <i64 as Coeff>::neg_v(self.im) }
    }

    open spec fn from_nat_v(n: nat) -> IntComplex {
        IntComplex { re: <i64 as Coeff>::from_nat_v(n), im: 0i64 }
    }

    fn zero() -> (r: IntComplex) {
        IntComplex { re: 0, im: 0 }
    }

    fn one() -> (r: IntComplex) {
        IntComplex { re: 1, im: 0 }
    }

    fn add(self, o: IntComplex) -> (r: IntComplex) {
        IntComplex { re: self.re.add(o.re), im: self.im.add(o.im) }
    }

    fn mul(self, o: IntComplex) -> (r: IntComplex) {
        let rr: i64 = self.re.mul(o.re);
        let ii: i64 = self.im.mul(o.im);
        let ri: i64 = self.re.mul(o.im);
        let ir: i64 = self.im.mul(o.re);
        proof {
            let m = two_to_64();
            lemma_crop_mod(self.re as int * o.re as int);
            lemma_crop_mod(self.im as int * o.im as int);
            lemma_crop_mod(self.re as int * o.im as int);
            lemma_crop_mod(self.im as int * o.re as int);
            lemma_mod_sub_congr(
                rr as int,
                self.re as int * o.re as int,
                ii as int,
                self.im as int * o.im as int,
            );
            lemma_mod_add_congr(
                ri as int,
                self.re as int * o.im as int,
                ir as int,
                self.im as int * o.re as int,
            );
            lemma_crop_congr(
                rr as int - ii as int,
                self.re as int * o.re as int - self.im as int * o.im as int,
            );
            lemma_crop_congr(
                ri as int + ir as int,
                self.re as int * o.im as int + self.im as int * o.re as int,
            );
        }
        IntComplex { re: rr.sub(ii), im: ri.add(ir) }
    }

    fn neg(self) -> (r: IntComplex) {
        IntComplex { re: self.re.neg(), im: self.im.neg() }
    }

    fn from_count(n: usize) -> (r: IntComplex) {
        IntComplex { re: <i64 as Coeff>::from_count(n), im: 0 }
    }

    fn eq_val(self, o: IntComplex) -> (r: bool) {
        self.re == o.re && self.im == o.im
    }
}

impl CoeffLaws for IntComplex {
    proof fn law_add_comm(a: IntComplex, b: IntComplex) {
        <i64 as CoeffLaws>::law_add_comm(a.re, b.re);
        <i64 as CoeffLaws>::law_add_comm(a.im, b.im);
    }

    proof fn law_add_assoc(a: IntComplex, b: IntComplex, c: IntComplex) {
        <i64 as CoeffLaws>::law_add_assoc(a.re, b.re, c.re);
        <i64 as CoeffLaws>::law_add_assoc(a.im, b.im, c.im);
    }

    proof fn law_add_zero(a: IntComplex) {
        <i64 as CoeffLaws>::law_add_zero(a.re);
        <i64 as CoeffLaws>::law_add_zero(a.im);
    }

    proof fn law_add_neg(a: IntComplex) {
        <i64 as CoeffLaws>::law_add_neg(a.re);
        <i64 as CoeffLaws>::law_add_neg(a.im);
    }

    proof fn law_mul_comm(a: IntComplex, b: IntComplex) {
        assert(a.re as int * b.re as int - a.im as int * b.im as int == b.re as int * a.re as int
            - b.im as int * a.im as int) by (nonlinear_arith);
        assert(a.re as int * b.im as int + a.im as int * b.re as int == b.re as int * a.im as int
            + b.im as int * a.re as int) by (nonlinear_arith);
    }

    proof fn law_mul_assoc(a: IntComplex, b: IntComplex, c: IntComplex) {
        let m = two_to_64();
        let are = a.re as int;
        let aim = a.im as int;
        let bre = b.re as int;
        let bim = b.im as int;
        let cre = c.re as int;
        let cim = c.im as int;
        let xre = are * bre - aim * bim;
        let xim = are * bim + aim * bre;
        let yre = bre * cre - bim * cim;
        let yim = bre * cim + bim * cre;
        // Left association: crop the inner product, multiply by c.
        lemma_crop_factor_mod(xre, cre);
        lemma_crop_factor_mod(xim, cim);
        lemma_crop_factor_mod(xre, cim);
        lemma_crop_factor_mod(xim, cre);
        lemma_mod_sub_congr(
            (i64_specs::signed_crop(xre) as int) * cre,
            xre * cre,
            (i64_specs::signed_crop(xim) as int) * cim,
            xim * cim,
        );
        lemma_mod_add_congr(
            (i64_specs::signed_crop(xre) as int) * cim,
            xre * cim,
            (i64_specs::signed_crop(xim) as int) * cre,
            xim * cre,
        );
        lemma_crop_congr(
            (i64_specs::signed_crop(xre) as int) * cre - (i64_specs::signed_crop(xim) as int)
                * cim,
            xre * cre - xim * cim,
        );
        lemma_crop_congr(
            (i64_specs::signed_crop(xre) as int) * cim + (i64_specs::signed_crop(xim) as int)
                * cre,
            xre * cim + xim * cre,
        );
        // Right association: a times the cropped inner product.
        lemma_crop_factor_mod(yre, are);
        lemma_crop_factor_mod(yim, aim);
        lemma_crop_factor_mod(yim, are);
        lemma_crop_factor_mod(yre, aim);
        assert((i64_specs::signed_crop(yre) as int) * are == are * (i64_specs::signed_crop(
            yre,
        ) as int)) by (nonlinear_arith);
        assert((i64_specs::signed_crop(yim) as int) * aim == aim * (i64_specs::signed_crop(
            yim,
        ) as int)) by (nonlinear_arith);
        assert((i64_specs::signed_crop(yim) as int) * are == are * (i64_specs::signed_crop(
            yim,
        ) as int)) by (nonlinear_arith);
        assert((i64_specs::signed_crop(yre) as int) * aim == aim * (i64_specs::signed_crop(
            yre,
        ) as int)) by (nonlinear_arith);
        assert(yre * are == are * yre) by (nonlinear_arith);
        assert(yim * aim == aim * yim) by (nonlinear_arith);
        assert(yim * are == are * yim) by (nonlinear_arith);
        assert(yre * aim == aim * yre) by (nonlinear_arith);
        lemma_mod_sub_congr(
            are * (i64_specs::signed_crop(yre) as int),
            are * yre,
            aim * (i64_specs::signed_crop(yim) as int),
            aim * yim,
        );
        lemma_mod_add_congr(
            are * (i64_specs::signed_crop(yim) as int),
            are * yim,
            aim * (i64_specs::signed_crop(yre) as int),
            aim * yre,
        );
        lemma_crop_congr(
            are * (i64_specs::signed_crop(yre) as int) - aim * (i64_specs::signed_crop(yim) as int),
            are * yre - aim * yim,
        );
        lemma_crop_congr(
            are * (i64_specs::signed_crop(yim) as int) + aim * (i64_specs::signed_crop(yre) as int),
            are * yim + aim * yre,
        );
        assert(xre * cre == are * bre * cre - aim * bim * cre) by (nonlinear_arith)
            requires
                xre == are * bre - aim * bim,
        ;
        assert(xim * cim == are * bim * cim + aim * bre * cim) by (nonlinear_arith)
            requires
                xim == are * bim + aim * bre,
        ;
        assert(are * yre == are * bre * cre - are * bim * cim) by (nonlinear_arith)
            requires
                yre == bre * cre - bim * cim,
        ;
        assert(aim * yim == aim * bre * cim + aim * bim * cre) by (nonlinear_arith)
            requires
                yim == bre * cim + bim * cre,
        ;
        assert(xre * cre - xim * cim == are * yre - aim * yim);
        assert(xre * cim == are * bre * cim - aim * bim * cim) by (nonlinear_arith)
            requires
                xre == are * bre - aim * bim,
        ;
        assert(xim * cre == are * bim * cre + aim * bre * cre) by (nonlinear_arith)
            requires
                xim == are * bim + aim * bre,
        ;
        assert(are * yim == are * bre * cim + are * bim * cre) by (nonlinear_arith)
            requires
                yim == bre * cim + bim * cre,
        ;
        assert(aim * yre == aim * bre * cre - aim * bim * cim) by (nonlinear_arith)
            requires
                yre == bre * cre - bim * cim,
        ;
        assert(xre * cim + xim * cre == are * yim + aim * yre);
    }

    proof fn law_mul_one(a: IntComplex) {
        lemma_crop_id(a.re as int);
        lemma_crop_id(a.im as int);
        assert(1 * a.re as int - 0 * a.im as int == a.re as int) by (nonlinear_arith);
        assert(1 * a.im as int + 0 * a.re as int == a.im as int) by (nonlinear_arith);
    }

    proof fn law_mul_zero(a: IntComplex) {
        lemma_crop_id(0);
        assert(0 * a.re as int - 0 * a.im as int == 0) by (nonlinear_arith);
        assert(0 * a.im as int + 0 * a.re as int == 0) by (nonlinear_arith);
    }

    proof fn law_distrib(a: IntComplex, b: IntComplex, c: IntComplex) {
        let m = two_to_64();
        let are = a.re as int;
        let aim = a.im as int;
        let bre = b.re as int;
        let bim = b.im as int;
        let cre = c.re as int;
        let cim = c.im as int;
        let sre = are + bre;
        let sim = aim + bim;
        // Left side: crop the component sums, then multiply by c.
        lemma_crop_factor_mod(sre, cre);
        lemma_crop_factor_mod(sim, cim);
        lemma_crop_factor_mod(sre, cim);
        lemma_crop_factor_mod(sim, cre);
        lemma_mod_sub_congr(
            (i64_specs::signed_crop(sre) as int) * cre,
            sre * cre,
            (i64_specs::signed_crop(sim) as int) * cim,
            sim * cim,
        );
        lemma_mod_add_congr(
            (i64_specs::signed_crop(sre) as int) * cim,
            sre * cim,
            (i64_specs::signed_crop(sim) as int) * cre,
            sim * cre,
        );
        lemma_crop_congr(
            (i64_specs::signed_crop(sre) as int) * cre - (i64_specs::signed_crop(sim) as int)
                * cim,
            sre * cre - sim * cim,
        );
        lemma_crop_congr(
            (i64_specs::signed_crop(sre) as int) * cim + (i64_specs::signed_crop(sim) as int)
                * cre,
            sre * cim + sim * cre,
        );
        // Right side: crop each product, then add.
        let pre = are * cre - aim * cim;
        let pim = are * cim + aim * cre;
        let qre = bre * cre - bim * cim;
        let qim = bre * cim + bim * cre;
        lemma_crop_mod(pre);
        lemma_crop_mod(pim);
        lemma_crop_mod(qre);
        lemma_crop_mod(qim);
        lemma_mod_add_congr(
            i64_specs::signed_crop(pre) as int,
            pre,
            i64_specs::signed_crop(qre) as int,
            qre,
        );
        lemma_mod_add_congr(
            i64_specs::signed_crop(pim) as int,
            pim,
            i64_specs::signed_crop(qim) as int,
            qim,
        );
        lemma_crop_congr(
            i64_specs::signed_crop(pre) as int + i64_specs::signed_crop(qre) as int,
            pre + qre,
        );
        lemma_crop_congr(
            i64_specs::signed_crop(pim) as int + i64_specs::signed_crop(qim) as int,
            pim + qim,
        );
        assert(sre * cre - sim * cim == pre + qre) by (nonlinear_arith)
            requires
                sre == are + bre,
                sim == aim + bim,
                pre == are * cre - aim * cim,
                pim == are * cim + aim * cre,
                qre == bre * cre - bim * cim,
                qim == bre * cim + bim * cre,
        ;
        assert(sre * cim + sim * cre == pim + qim) by (nonlinear_arith)
            requires
                sre == are + bre,
                sim == aim + bim,
                pre == are * cre - aim * cim,
                pim == are * cim + aim * cre,
                qre == bre * cre - bim * cim,
                qim == bre * cim + bim * cre,
        ;
    }
}

impl ComplexNum<i64> for IntComplex {
    open spec fn sub_v(self, o: IntComplex) -> IntComplex {
        IntComplex { re: self.re.sub_v(o.re), im: self.im.sub_v(o.im) }
    }

    open spec fn div_v(self, o: IntComplex) -> IntComplex {
        let den = (o.re.mul_v(o.re)).add_v(o.im.mul_v(o.im));
        if den == 0i64 {
            IntComplex { re: 0i64, im: 0i64 }
        } else {
            let nr = (self.re.mul_v(o.re)).add_v(self.im.mul_v(o.im));
            let ni = (self.im.mul_v(o.re)).sub_v(self.re.mul_v(o.im));
            IntComplex { re: nr.div_v(den), im: ni.div_v(den) }
        }
    }

    open spec fn norm_sqr_v(self) -> i64 {
        (self.re.mul_v(self.re)).add_v(self.im.mul_v(self.im))
    }

    open spec fn is_finite_v(self) -> bool {
        true
    }

    open spec fn from_parts_v(re: i64, im: i64) -> IntComplex {
        IntComplex { re, im }
    }

    fn sub(self, o: IntComplex) -> (r: IntComplex) {
        IntComplex { re: self.re.sub(o.re), im: self.im.sub(o.im) }
    }

    fn div(self, o: IntComplex) -> (r: IntComplex) {
        let den: i64 = o.re.mul(o.re).add(o.im.mul(o.im));
        if den == 0 {
            IntComplex { re: 0, im: 0 }
        } else {
            let nr: i64 = self.re.mul(o.re).add(self.im.mul(o.im));
            let ni: i64 = self.im.mul(o.re).sub(self.re.mul(o.im));
            IntComplex { re: nr.div(den), im: ni.div(den) }
        }
    }

    fn norm_sqr(self) -> (r: i64) {
        self.re.mul(self.re).add(self.im.mul(self.im))
    }

    fn is_finite(self) -> (r: bool) {
        true
    }

    fn from_parts(re: i64, im: i64) -> (r: IntComplex) {
        IntComplex { re, im }
    }
}

} // verus!
