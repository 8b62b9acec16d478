//! The root-attraction engine: per-pixel Newton iteration on the monic
//! polynomial built from a root set, classifying each starting point by
//! the root it converges to, and the coloured renderer over it.

use vstd::prelude::*;

verus! {

use vstd::arithmetic::div_mod::lemma_fundamental_div_mod_converse;
use crate::num::{Coeff, ComplexNum, Real};
use crate::polynomial::{deriv_v, eval_v, from_roots_v, Polynomial};
use crate::structs::{color_from_v, transform_v, ColorSettings, Rgb8, Viewport};
use crate::FractalError;

/// The squared distance from `z` to a root, computed as the squared
/// magnitude of `root - z`.
pub open spec fn dist_v<R: Real, C: ComplexNum<R>>(z: C, root: C) -> R {
    (root.sub_v(z)).norm_sqr_v()
}

/// The index of the root nearest to `z` among the first `upto` roots,
/// scanning left to right and replacing only on a strict improvement, so
/// on exact ties the earliest root wins.
pub open spec fn best_root_v<R: Real, C: ComplexNum<R>>(roots: Seq<C>, z: C, upto: int) -> int
    decreases upto,
{
    if upto <= 1 {
        0
    } else {
        let prev = best_root_v::<R, C>(roots, z, upto - 1);
        if (dist_v::<R, C>(z, roots[upto - 1])).lt_v(dist_v::<R, C>(z, roots[prev])) {
            upto - 1
        } else {
            prev
        }
    }
}

/// The nearest-root index stays in range.
proof fn lemma_best_root_in_range<R: Real, C: ComplexNum<R>>(roots: Seq<C>, z: C, upto: int)
    requires
        upto >= 1,
    ensures
        0 <= best_root_v::<R, C>(roots, z, upto) < upto,
    decreases upto,
{
    if upto > 1 {
        lemma_best_root_in_range::<R, C>(roots, z, upto - 1);
    }
}

/// Newton classification of one starting point, with `fuel` update steps
/// left: find the nearest root; if its squared distance is below the
/// squared horizon, converge to its index; otherwise apply one step
/// `z := z - P(z)/P'(z)`, giving up on a non-finite iterate or when the
/// fuel runs out.
pub open spec fn newton_class_v<R: Real, C: ComplexNum<R>>(
    p: Seq<C>,
    d: Seq<C>,
    roots: Seq<C>,
    z: C,
    h2: R,
    fuel: nat,
) -> Option<int>
    decreases fuel,
{
    if fuel == 0 {
        None
    } else {
        let best = best_root_v::<R, C>(roots, z, roots.len() as int);
        if (dist_v::<R, C>(z, roots[best])).lt_v(h2) {
            Some(best)
        } else {
            let next = z.sub_v(eval_v(p, z).div_v(eval_v(d, z)));
            if !next.is_finite_v() {
                None
            } else {
                newton_class_v::<R, C>(p, d, roots, next, h2, (fuel - 1) as nat)
            }
        }
    }
}

/// Performs up to `max_iters` iterations of Newton's method on the
/// polynomial, starting from `z`, and returns the index of the root the
/// method converged to, if any.  The convergence test runs before each
/// update step, so a start already within the horizon of a root
/// converges in zero steps.
pub fn newton_point<R: Real, C: ComplexNum<R>>(
    poly: &Polynomial<C>,
    derivative: &Polynomial<C>,
    roots: &[C],
    z: C,
    max_iters: u32,
    horizon_sq: R,
) -> (r: Option<usize>)
    requires
        roots@.len() >= 1,
    ensures
        match newton_class_v::<R, C>(poly@, derivative@, roots@, z, horizon_sq, max_iters as nat) {
            Some(best) => r is Some && r->0 as int == best,
            None => r is None,
        },
        r is Some ==> r->0 < roots@.len(),
{
    let mut cur: C = z;
    let mut iter: u32 = 0;
    let len: usize = roots.len();
    while iter < max_iters
        invariant
            iter <= max_iters,
            len == roots@.len(),
            len >= 1,
            newton_class_v::<R, C>(poly@, derivative@, roots@, z, horizon_sq, max_iters as nat)
                == newton_class_v::<R, C>(
                poly@,
                derivative@,
                roots@,
                cur,
                horizon_sq,
                (max_iters - iter) as nat,
            ),
        decreases max_iters - iter,
    {
        let mut best: usize = 0;
        let mut best_dist: R = roots[0].sub(cur).norm_sqr();
        for k in 1..len
            invariant
                len == roots@.len(),
                best < k <= len,
                best as int == best_root_v::<R, C>(roots@, cur, k as int),
                best_dist == dist_v::<R, C>(cur, roots@[best as int]),
        {
            let dk: R = roots[k].sub(cur).norm_sqr();
            if dk.is_lt(best_dist) {
                best = k;
                best_dist = dk;
            }
        }
        if best_dist.is_lt(horizon_sq) {
            return Some(best);
        }
        cur = cur.sub(poly.evaluate(cur).div(derivative.evaluate(cur)));
        if !cur.is_finite() {
            return None;
        }
        iter = iter + 1;
    }
    None
}

/// The colour assigned to a root: the hue swept by
/// `(root_index + 1) / number_of_roots`.
pub open spec fn root_color_v<R: Real>(cs: ColorSettings<R>, root_i: int, n_roots: nat) -> Rgb8 {
    color_from_v(
        cs,
        R::from_u32_v((root_i + 1) as u32).div_v(R::from_u32_v(n_roots as u32)),
    )
}

/// The colour for the root at `root_i`, out of `roots.len()` roots.
pub fn root_color<R: Real, C: ComplexNum<R>>(
    roots: &[C],
    root_i: usize,
    color_settings: ColorSettings<R>,
) -> (r: Rgb8)
    requires
        root_i < roots@.len(),
        roots@.len() <= u32::MAX,
    ensures
        r == root_color_v(color_settings, root_i as int, roots@.len()),
{
    let val: R = R::from_u32((root_i + 1) as u32).div(R::from_u32(roots.len() as u32));
    color_settings.color_from(val)
}

/// The RGB colour of one pixel: the colour of the root its coordinate
/// converges to, or black when the method does not converge.
pub open spec fn newton_pixel_v<R: Real, C: ComplexNum<R>>(
    vp: Viewport<R>,
    cs: ColorSettings<R>,
    roots: Seq<C>,
    max_iters: u32,
    h2: R,
    i: int,
    j: int,
) -> Rgb8 {
    let xy = transform_v(vp, i as u32, j as u32);
    let z = C::from_parts_v(xy.0, xy.1);
    let p = from_roots_v(roots);
    match newton_class_v::<R, C>(p, deriv_v(p), roots, z, h2, max_iters as nat) {
        Some(best) => root_color_v(cs, best, roots.len()),
        None => Rgb8 { red: 0, green: 0, blue: 0 },
    }
}

/// The whole RGB grid, row-major, channel fastest-varying.
pub open spec fn newton_grid_v<R: Real, C: ComplexNum<R>>(
    vp: Viewport<R>,
    cs: ColorSettings<R>,
    roots: Seq<C>,
    max_iters: u32,
    h2: R,
) -> Seq<u8> {
    Seq::new(
        (vp.height as nat) * (vp.width as nat) * 3,
        |t: int|
            {
                let p = t / 3;
                let pix = newton_pixel_v::<R, C>(
                    vp,
                    cs,
                    roots,
                    max_iters,
                    h2,
                    p / (vp.width as int),
                    p % (vp.width as int),
                );
                if t % 3 == 0 {
                    pix.red
                } else if t % 3 == 1 {
                    pix.green
                } else {
                    pix.blue
                }
            },
    )
}

/// Renders the Newton fractal for a root set as an RGB grid, row-major
/// with the channel fastest-varying.  The polynomial and its derivative
/// are built once and shared, read-only, by every pixel.  An empty root
/// set, a saturation outside `[0, 1]` and empty dimensions are rejected
/// before any per-pixel work.
pub fn calculate_newton<R: Real, C: ComplexNum<R>>(
    viewport: Viewport<R>,
    color_settings: ColorSettings<R>,
    roots: &[C],
    max_iters: u32,
    horizon: R,
) -> (r: Result<Vec<u8>, FractalError>)
    requires
        (viewport.height as nat) * (viewport.width as nat) * 3 <= usize::MAX,
        roots@.len() + 2 <= usize::MAX,
    ensures
        (roots@.len() == 0 || roots@.len() > u32::MAX || !(R::zero_v().le_v(
            color_settings.saturation,
        ) && color_settings.saturation.le_v(R::one_v())) || viewport.width == 0 || viewport.height
            == 0) <==> r is Err,
        r is Err ==> r->Err_0 == FractalError::InvalidArgument,
        r is Ok ==> r->Ok_0@ == newton_grid_v::<R, C>(
            viewport,
            color_settings,
            roots@,
            max_iters,
            horizon.mul_v(horizon),
        ),
        r is Ok ==> r->Ok_0@.len() == (viewport.height as nat) * (viewport.width as nat) * 3,
{
    if roots.len() == 0 || roots.len() > u32::MAX as usize || !(R::zero().is_le(
        color_settings.saturation,
    ) && color_settings.saturation.is_le(R::one())) || viewport.width == 0 || viewport.height
        == 0 {
        return Err(FractalError::InvalidArgument);
    }
    let horizon_sq: R = horizon.mul(horizon);
    let poly: Polynomial<C> = Polynomial::from_roots(roots);
    let derivative: Polynomial<C> = poly.derivative();
    let vp: Viewport<R> = viewport;
    let cs: ColorSettings<R> = color_settings;
    let ghost target = newton_grid_v::<R, C>(vp, cs, roots@, max_iters, horizon_sq);
    let h: usize = vp.height as usize;
    let w: usize = vp.width as usize;
    let n_roots: usize = roots.len();
    let mut img: Vec<u8> = Vec::new();
    proof {
        assert(target.take(0) =~= img@);
        assert((h as int) * (w as int) * 3 == target.len());
        assert(0 * (w as int) * 3 == 0) by (nonlinear_arith);
    }
    for i in 0..h
        invariant
            w == vp.width,
            w >= 1,
            h == vp.height,
            vp == viewport,
            cs == color_settings,
            n_roots == roots@.len(),
            1 <= n_roots <= u32::MAX,
            horizon_sq == horizon.mul_v(horizon),
            poly@ == from_roots_v(roots@),
            derivative@ == deriv_v(from_roots_v(roots@)),
            target == newton_grid_v::<R, C>(vp, cs, roots@, max_iters, horizon_sq),
            target.len() == (vp.height as nat) * (vp.width as nat) * 3,
            target.len() <= usize::MAX,
            img@ == target.take((i as int) * (w as int) * 3),
    {
        proof {
            assert(((i as int) * (w as int) + (w as int)) * 3 <= (h as int) * (w as int) * 3
                && (i as int) * (w as int) * 3 + (w as int) * 3 == ((i as int) * (w as int) + (
            w as int)) * 3) by (nonlinear_arith)
                requires
                    i as int + 1 <= h as int,
                    w as int >= 1,
            ;
        }
        for j in 0..w
            invariant
                w == vp.width,
                w >= 1,
                i < h,
                h == vp.height,
                vp == viewport,
                cs == color_settings,
                n_roots == roots@.len(),
                1 <= n_roots <= u32::MAX,
                horizon_sq == horizon.mul_v(horizon),
                poly@ == from_roots_v(roots@),
                derivative@ == deriv_v(from_roots_v(roots@)),
                target == newton_grid_v::<R, C>(vp, cs, roots@, max_iters, horizon_sq),
                target.len() == (vp.height as nat) * (vp.width as nat) * 3,
                target.len() <= usize::MAX,
                (i as int) * (w as int) * 3 + (w as int) * 3 <= target.len(),
                img@ == target.take(((i as int) * (w as int) + (j as int)) * 3),
        {
            let xy: (R, R) = vp.transform(i, j);
            let z: C = C::from_parts(xy.0, xy.1);
            let root: Option<usize> = newton_point::<R, C>(
                &poly,
                &derivative,
                roots,
                z,
                max_iters,
                horizon_sq,
            );
            let pix: Rgb8 = match root {
                Some(root_i) => root_color::<R, C>(roots, root_i, cs),
                None => Rgb8 { red: 0, green: 0, blue: 0 },
            };
            let ghost p = (i as int) * (w as int) + (j as int);
            proof {
                lemma_fundamental_div_mod_converse(p, w as int, i as int, j as int);
                assert(p * 3 + 3 <= target.len() && (i as int) * (w as int) * 3 + (j as int) * 3
                    == p * 3) by (nonlinear_arith)
                    requires
                        p == (i as int) * (w as int) + (j as int),
                        (i as int) * (w as int) * 3 + (w as int) * 3 <= target.len(),
                        0 <= j as int && (j as int) < (w as int),
                ;
                lemma_fundamental_div_mod_converse(p * 3, 3, p, 0);
                lemma_fundamental_div_mod_converse(p * 3 + 1, 3, p, 1);
                lemma_fundamental_div_mod_converse(p * 3 + 2, 3, p, 2);
                assert(target[p * 3] == pix.red);
                assert(target[p * 3 + 1] == pix.green);
                assert(target[p * 3 + 2] == pix.blue);
            }
            img.push(pix.red);
            img.push(pix.green);
            img.push(pix.blue);
            proof {
                assert(img@ =~= target.take(p * 3 + 3));
                assert(((i as int) * (w as int) + (j as int + 1)) * 3 == p * 3 + 3)
                    by (nonlinear_arith)
                    requires
                        p == (i as int) * (w as int) + (j as int),
                ;
            }
        }
        proof {
            assert(((i as int) + 1) * (w as int) * 3 == ((i as int) * (w as int) + (w as int)) * 3)
                by (nonlinear_arith);
        }
    }
    proof {
        assert((h as int) * (w as int) * 3 == target.len());
        assert(target.take(target.len() as int) =~= target);
    }
    Ok(img)
}

/// The nearest-root scan picks `i` when `z` is strictly closer to root
/// `i` than to every earlier root and no later root is strictly closer.
proof fn lemma_best_root_picks<R: Real, C: ComplexNum<R>>(roots: Seq<C>, z: C, i: int, upto: int)
    requires
        0 <= i < upto <= roots.len(),
        forall|k: int|
            0 <= k < i ==> (dist_v::<R, C>(z, roots[i])).lt_v(#[trigger] dist_v::<R, C>(z, roots[k])),
        forall|k: int|
            i < k < upto ==> !(#[trigger] dist_v::<R, C>(z, roots[k])).lt_v(
                dist_v::<R, C>(z, roots[i]),
            ),
    ensures
        best_root_v::<R, C>(roots, z, upto) == i,
    decreases upto,
{
    if upto == i + 1 {
        if i > 0 {
            lemma_best_root_in_range::<R, C>(roots, z, i);
        }
    } else {
        lemma_best_root_picks::<R, C>(roots, z, i, upto - 1);
    }
}

/// A start exactly at a root converges at iteration zero to that root's
/// index: when the start is strictly closer to root `i` than to every
/// earlier root, no other root is at least as close, and its distance is
/// below the horizon, the classification is `i` with no update step.
pub proof fn lemma_root_start_converges<R: Real, C: ComplexNum<R>>(
    p: Seq<C>,
    d: Seq<C>,
    roots: Seq<C>,
    i: int,
    h2: R,
    fuel: nat,
)
    requires
        0 <= i < roots.len(),
        fuel >= 1,
        (dist_v::<R, C>(roots[i], roots[i])).lt_v(h2),
        forall|k: int|
            0 <= k < i ==> (dist_v::<R, C>(roots[i], roots[i])).lt_v(
                #[trigger] dist_v::<R, C>(roots[i], roots[k]),
            ),
        forall|k: int|
            i < k < roots.len() ==> !(#[trigger] dist_v::<R, C>(roots[i], roots[k])).lt_v(
                dist_v::<R, C>(roots[i], roots[i]),
            ),
    ensures
        newton_class_v::<R, C>(p, d, roots, roots[i], h2, fuel) == Some(i),
{
    lemma_best_root_picks::<R, C>(roots, roots[i], i, roots.len() as int);
}

} // verus!
