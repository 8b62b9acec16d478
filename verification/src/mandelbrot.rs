//! The escape-time engine: per-pixel iteration of `z := z^2 + c` with a
//! divergence test against a squared horizon, and the banded-grayscale
//! and hue-coloured renderers over it.
//!
//! The grid is filled row-major, each cell written exactly once; the
//! contracts pin every byte of the output to a specification-level grid
//! that depends only on the render parameters, so any partitioning of the
//! fill produces identical output.

use vstd::prelude::*;

verus! {

use vstd::arithmetic::div_mod::{
    lemma_fundamental_div_mod,
    lemma_fundamental_div_mod_converse,
    lemma_mod_bound,
};
use crate::num::{CoeffLaws, Coeff, ComplexNum, Real};
use crate::structs::{color_from_v, transform_v, ColorSettings, Rgb8, Viewport};
use crate::FractalError;

/// One escape-time step.
pub open spec fn mandel_step_v<R: Real, C: ComplexNum<R>>(z: C, c: C) -> C {
    (z.mul_v(z)).add_v(c)
}

/// The `n`-th iterate, starting from zero.
pub open spec fn mandel_iter_v<R: Real, C: ComplexNum<R>>(c: C, n: nat) -> C
    decreases n,
{
    if n == 0 {
        C::zero_v()
    } else {
        mandel_step_v(mandel_iter_v::<R, C>(c, (n - 1) as nat), c)
    }
}

/// Whether the divergence test fires at step `n`: the squared magnitude
/// of the iterate computed at that step reaches the squared horizon.
pub open spec fn escapes_at_v<R: Real, C: ComplexNum<R>>(c: C, h2: R, n: nat) -> bool {
    h2.le_v(mandel_iter_v::<R, C>(c, n + 1).norm_sqr_v())
}

/// The first step in `[0, max)` at which the divergence test fires, if
/// any; `None` classifies the point as interior.
pub open spec fn first_escape_v<R: Real, C: ComplexNum<R>>(c: C, h2: R, max: nat) -> Option<nat>
    decreases max,
{
    if max == 0 {
        None
    } else {
        match first_escape_v::<R, C>(c, h2, (max - 1) as nat) {
            Some(n) => Some(n),
            None => if escapes_at_v::<R, C>(c, h2, (max - 1) as nat) {
                Some((max - 1) as nat)
            } else {
                None
            },
        }
    }
}

/// Once the test first fires at step `n`, every larger bound reports `n`.
proof fn lemma_first_escape_stable<R: Real, C: ComplexNum<R>>(c: C, h2: R, n: nat, max: nat)
    requires
        first_escape_v::<R, C>(c, h2, n) is None,
        escapes_at_v::<R, C>(c, h2, n),
        n < max,
    ensures
        first_escape_v::<R, C>(c, h2, max) == Some(n),
    decreases max,
{
    if max > n + 1 {
        lemma_first_escape_stable::<R, C>(c, h2, n, (max - 1) as nat);
    }
}

/// Escape-time classification of one point: iterates `z := z^2 + c` up
/// to `max_iters` times and reports whether the point stayed bounded,
/// together with the step of the first divergence (or `max_iters` when
/// there is none).
pub fn mandelbrot_point<R: Real, C: ComplexNum<R>>(x: R, y: R, max_iters: u32, horizon_sq: R) -> (r:
    (bool, u32))
    ensures
        match first_escape_v::<R, C>(C::from_parts_v(x, y), horizon_sq, max_iters as nat) {
            Some(n) => r.0 == false && r.1 as nat == n,
            None => r.0 == true && r.1 == max_iters,
        },
{
    let c: C = C::from_parts(x, y);
    let mut z: C = C::zero();
    let mut iter: u32 = 0;
    while iter < max_iters
        invariant
            iter <= max_iters,
            c == C::from_parts_v(x, y),
            z == mandel_iter_v::<R, C>(c, iter as nat),
            first_escape_v::<R, C>(c, horizon_sq, iter as nat) is None,
        decreases max_iters - iter,
    {
        z = z.mul(z).add(c);
        if horizon_sq.is_le(z.norm_sqr()) {
            proof {
                lemma_first_escape_stable::<R, C>(c, horizon_sq, iter as nat, max_iters as nat);
            }
            return (false, iter);
        }
        iter = iter + 1;
    }
    (true, iter)
}

/// The banded shade of an escape step:
/// `(n mod shades_max) * (255 / shades_max)`.
pub open spec fn shade_v(n: nat, shades_max: u8) -> u8 {
    let s = shades_max as int;
    (((n as int % s) * (255int / s)) as u8)
}

/// The grayscale band for an escape step.
fn shade(iter: u32, shades_max: u8) -> (r: u8)
    requires
        shades_max >= 1,
    ensures
        r == shade_v(iter as nat, shades_max),
{
    let q: u8 = 255 / shades_max;
    let m: u8 = (iter % (shades_max as u32)) as u8;
    proof {
        let s = shades_max as int;
        lemma_fundamental_div_mod(255, s);
        lemma_mod_bound(255, s);
        assert((m as int) * (q as int) <= (s - 1) * (q as int)) by (nonlinear_arith)
            requires
                0 <= q as int,
                m as int <= s - 1,
        ;
        assert((s - 1) * (q as int) == s * (q as int) - (q as int)) by (nonlinear_arith);
    }
    m * q
}

/// The grayscale byte of one pixel: interior points are black, escaped
/// points get their banded shade.
pub open spec fn mandel_gray_pixel_v<R: Real, C: ComplexNum<R>>(
    vp: Viewport<R>,
    max_iters: u32,
    h2: R,
    shades_max: u8,
    i: int,
    j: int,
) -> u8 {
    let xy = transform_v(vp, i as u32, j as u32);
    match first_escape_v::<R, C>(C::from_parts_v(xy.0, xy.1), h2, max_iters as nat) {
        Some(n) => shade_v(n, shades_max),
        None => 0u8,
    }
}

/// The whole grayscale grid, row-major, one byte per pixel.
pub open spec fn mandel_gray_grid_v<R: Real, C: ComplexNum<R>>(
    vp: Viewport<R>,
    max_iters: u32,
    h2: R,
    shades_max: u8,
) -> Seq<u8> {
    Seq::new(
        (vp.height as nat) * (vp.width as nat),
        |t: int|
            mandel_gray_pixel_v::<R, C>(
                vp,
                max_iters,
                h2,
                shades_max,
                t / (vp.width as int),
                t % (vp.width as int),
            ),
    )
}

/// Fills rows `[row0, row1)` of the grayscale grid, appending to the
/// already-filled prefix; the work of one partition of the fill.
fn fill_gray_rows<R: Real, C: ComplexNum<R>>(
    img: &mut Vec<u8>,
    vp: Viewport<R>,
    max_iters: u32,
    horizon_sq: R,
    shades_max: u8,
    row0: usize,
    row1: usize,
)
    requires
        shades_max >= 1,
        vp.width >= 1,
        row0 <= row1,
        row1 <= vp.height,
        (vp.height as nat) * (vp.width as nat) <= usize::MAX,
        old(img)@ == mandel_gray_grid_v::<R, C>(vp, max_iters, horizon_sq, shades_max).take(
            row0 as int * vp.width as int,
        ),
    ensures
        final(img)@ == mandel_gray_grid_v::<R, C>(vp, max_iters, horizon_sq, shades_max).take(
            row1 as int * vp.width as int,
        ),
{
    let ghost target = mandel_gray_grid_v::<R, C>(vp, max_iters, horizon_sq, shades_max);
    let w: usize = vp.width as usize;
    proof {
        assert((row1 as nat) * (vp.width as nat) <= (vp.height as nat) * (vp.width as nat))
            by (nonlinear_arith)
            requires
                row1 as nat <= vp.height as nat,
        ;
    }
    for i in row0..row1
        invariant
            shades_max >= 1,
            w == vp.width,
            w >= 1,
            row1 <= vp.height,
            target == mandel_gray_grid_v::<R, C>(vp, max_iters, horizon_sq, shades_max),
            target.len() == (vp.height as nat) * (vp.width as nat),
            (row1 as nat) * (vp.width as nat) <= target.len(),
            target.len() <= usize::MAX,
            img@ == target.take(i as int * w as int),
    {
        proof {
            assert((i as int + 1) * (w as int) <= (row1 as int) * (w as int)) by (nonlinear_arith)
                requires
                    i as int + 1 <= row1 as int,
                    w as int >= 1,
            ;
            assert((i as int) * (w as int) + (w as int) == (i as int + 1) * (w as int))
                by (nonlinear_arith);
        }
        for j in 0..w
            invariant
                shades_max >= 1,
                w == vp.width,
                w >= 1,
                i < row1 <= vp.height,
                target == mandel_gray_grid_v::<R, C>(vp, max_iters, horizon_sq, shades_max),
                target.len() == (vp.height as nat) * (vp.width as nat),
                (i as int) * (w as int) + (w as int) <= target.len(),
                target.len() <= usize::MAX,
                img@ == target.take((i as int) * (w as int) + (j as int)),
        {
            let xy: (R, R) = vp.transform(i, j);
            let point: (bool, u32) = mandelbrot_point::<R, C>(xy.0, xy.1, max_iters, horizon_sq);
            let pix: u8 = if point.0 {
                0
            } else {
                shade(point.1, shades_max)
            };
            let ghost t = (i as int) * (w as int) + (j as int);
            proof {
                lemma_fundamental_div_mod_converse(t, w as int, i as int, j as int);
                assert(target[t] == pix);
            }
            img.push(pix);
            proof {
                assert(img@ =~= target.take(t + 1));
            }
        }
    }
}

/// Renders the banded-grayscale escape-time fractal, row-major, one byte
/// per pixel; rejects a zero band count and empty dimensions before any
/// per-pixel work.
pub fn calculate_mandelbrot<R: Real, C: ComplexNum<R>>(
    x_min: R,
    x_max: R,
    y_min: R,
    y_max: R,
    width: u32,
    height: u32,
    max_iters: u32,
    horizon: R,
    shades_max: u8,
) -> (r: Result<Vec<u8>, FractalError>)
    requires
        (height as nat) * (width as nat) <= usize::MAX,
    ensures
        (shades_max == 0 || width == 0 || height == 0) <==> r is Err,
        r is Err ==> r->Err_0 == FractalError::InvalidArgument,
        r is Ok ==> r->Ok_0@ == mandel_gray_grid_v::<R, C>(
            Viewport { x_min, x_max, y_min, y_max, width, height },
            max_iters,
            horizon.mul_v(horizon),
            shades_max,
        ),
        r is Ok ==> r->Ok_0@.len() == (height as nat) * (width as nat),
{
    calculate_mandelbrot_chunked::<R, C>(
        x_min,
        x_max,
        y_min,
        y_max,
        width,
        height,
        max_iters,
        horizon,
        shades_max,
        height,
    )
}

/// The same grayscale render, filled in partitions of `chunk_rows` rows.
/// The output is pinned to the same grid as `calculate_mandelbrot`, so
/// the partition size cannot affect a single byte of it.
pub fn calculate_mandelbrot_chunked<R: Real, C: ComplexNum<R>>(
    x_min: R,
    x_max: R,
    y_min: R,
    y_max: R,
    width: u32,
    height: u32,
    max_iters: u32,
    horizon: R,
    shades_max: u8,
    chunk_rows: u32,
) -> (r: Result<Vec<u8>, FractalError>)
    requires
        (height as nat) * (width as nat) <= usize::MAX,
        chunk_rows >= 1 || height == 0 || width == 0 || shades_max == 0,
    ensures
        (shades_max == 0 || width == 0 || height == 0) <==> r is Err,
        r is Err ==> r->Err_0 == FractalError::InvalidArgument,
        r is Ok ==> r->Ok_0@ == mandel_gray_grid_v::<R, C>(
            Viewport { x_min, x_max, y_min, y_max, width, height },
            max_iters,
            horizon.mul_v(horizon),
            shades_max,
        ),
        r is Ok ==> r->Ok_0@.len() == (height as nat) * (width as nat),
{
    if shades_max == 0 || width == 0 || height == 0 {
        return Err(FractalError::InvalidArgument);
    }
    let vp: Viewport<R> = Viewport::new(x_min, x_max, y_min, y_max, width, height);
    let horizon_sq: R = horizon.mul(horizon);
    let ghost target = mandel_gray_grid_v::<R, C>(vp, max_iters, horizon_sq, shades_max);
    let h: usize = height as usize;
    let chunk: usize = chunk_rows as usize;
    let mut img: Vec<u8> = Vec::new();
    let mut row0: usize = 0;
    proof {
        assert(target.take(0) =~= img@);
    }
    while row0 < h
        invariant
            shades_max >= 1,
            width >= 1,
            chunk >= 1,
            h == vp.height,
            vp == (Viewport { x_min, x_max, y_min, y_max, width, height }),
            horizon_sq == horizon.mul_v(horizon),
            row0 <= h,
            target == mandel_gray_grid_v::<R, C>(vp, max_iters, horizon_sq, shades_max),
            target.len() == (vp.height as nat) * (vp.width as nat),
            target.len() <= usize::MAX,
            img@ == target.take(row0 as int * vp.width as int),
        decreases h - row0,
    {
        let row1: usize = if h - row0 < chunk {
            h
        } else {
            row0 + chunk
        };
        fill_gray_rows::<R, C>(&mut img, vp, max_iters, horizon_sq, shades_max, row0, row1);
        row0 = row1;
    }
    proof {
        assert((h as int) * (vp.width as int) == target.len());
        assert(target.take(target.len() as int) =~= target);
    }
    Ok(img)
}

/// The colour of one escaped pixel: the hue swept by `n / max_iters`.
pub open spec fn escape_color_v<R: Real>(cs: ColorSettings<R>, n: nat, max_iters: u32) -> Rgb8 {
    color_from_v(cs, R::from_u32_v(n as u32).div_v(R::from_u32_v(max_iters)))
}

/// The RGB colour of one pixel: interior points are black.
pub open spec fn mandel_color_pixel_v<R: Real, C: ComplexNum<R>>(
    vp: Viewport<R>,
    max_iters: u32,
    h2: R,
    cs: ColorSettings<R>,
    i: int,
    j: int,
) -> Rgb8 {
    let xy = transform_v(vp, i as u32, j as u32);
    match first_escape_v::<R, C>(C::from_parts_v(xy.0, xy.1), h2, max_iters as nat) {
        Some(n) => escape_color_v(cs, n, max_iters),
        None => Rgb8 { red: 0, green: 0, blue: 0 },
    }
}

/// The whole RGB grid, row-major, channel fastest-varying.
pub open spec fn mandel_color_grid_v<R: Real, C: ComplexNum<R>>(
    vp: Viewport<R>,
    max_iters: u32,
    h2: R,
    cs: ColorSettings<R>,
) -> Seq<u8> {
    Seq::new(
        (vp.height as nat) * (vp.width as nat) * 3,
        |t: int|
            {
                let p = t / 3;
                let pix = mandel_color_pixel_v::<R, C>(
                    vp,
                    max_iters,
                    h2,
                    cs,
                    p / (vp.width as int),
                    p % (vp.width as int),
                );
                if t % 3 == 0 {
                    pix.red
                } else if t % 3 == 1 {
                    pix.green
                } else {
                    pix.blue
                }
            },
    )
}

/// Renders the hue-coloured escape-time fractal as an RGB grid,
/// row-major with the channel fastest-varying; rejects a saturation
/// outside `[0, 1]` and empty dimensions before any per-pixel work.
pub fn calculate_mandelbrot_colored<R: Real, C: ComplexNum<R>>(
    x_min: R,
    x_max: R,
    y_min: R,
    y_max: R,
    width: u32,
    height: u32,
    max_iters: u32,
    horizon: R,
    from_angle: R,
    to_angle: R,
    saturation: R,
) -> (r: Result<Vec<u8>, FractalError>)
    requires
        (height as nat) * (width as nat) * 3 <= usize::MAX,
    ensures
        (!(R::zero_v().le_v(saturation) && saturation.le_v(R::one_v())) || width == 0 || height
            == 0) <==> r is Err,
        r is Err ==> r->Err_0 == FractalError::InvalidArgument,
        r is Ok ==> r->Ok_0@ == mandel_color_grid_v::<R, C>(
            Viewport { x_min, x_max, y_min, y_max, width, height },
            max_iters,
            horizon.mul_v(horizon),
            ColorSettings { from_angle, to_angle, saturation },
        ),
        r is Ok ==> r->Ok_0@.len() == (height as nat) * (width as nat) * 3,
{
    if !(R::zero().is_le(saturation) && saturation.is_le(R::one())) || width == 0 || height == 0 {
        return Err(FractalError::InvalidArgument);
    }
    let vp: Viewport<R> = Viewport::new(x_min, x_max, y_min, y_max, width, height);
    let cs: ColorSettings<R> = ColorSettings::new(from_angle, to_angle, saturation);
    let horizon_sq: R = horizon.mul(horizon);
    let ghost target = mandel_color_grid_v::<R, C>(vp, max_iters, horizon_sq, cs);
    let h: usize = height as usize;
    let w: usize = width as usize;
    let mut img: Vec<u8> = Vec::new();
    proof {
        assert(target.take(0) =~= img@);
        assert((h as int) * (w as int) * 3 == target.len());
        assert(0 * (w as int) * 3 == 0) by (nonlinear_arith);
    }
    for i in 0..h
        invariant
            w == vp.width,
            w >= 1,
            h == vp.height,
            vp == (Viewport { x_min, x_max, y_min, y_max, width, height }),
            cs == (ColorSettings { from_angle, to_angle, saturation }),
            horizon_sq == horizon.mul_v(horizon),
            target == mandel_color_grid_v::<R, C>(vp, max_iters, horizon_sq, cs),
            target.len() == (vp.height as nat) * (vp.width as nat) * 3,
            target.len() <= usize::MAX,
            img@ == target.take((i as int) * (w as int) * 3),
    {
        proof {
            assert(((i as int) * (w as int) + (w as int)) * 3 <= (h as int) * (w as int) * 3
                && (i as int) * (w as int) * 3 + (w as int) * 3 == ((i as int) * (w as int) + (
            w as int)) * 3) by (nonlinear_arith)
                requires
                    i as int + 1 <= h as int,
                    w as int >= 1,
            ;
        }
        for j in 0..w
            invariant
                w == vp.width,
                w >= 1,
                i < h,
                h == vp.height,
                vp == (Viewport { x_min, x_max, y_min, y_max, width, height }),
                cs == (ColorSettings { from_angle, to_angle, saturation }),
                horizon_sq == horizon.mul_v(horizon),
                target == mandel_color_grid_v::<R, C>(vp, max_iters, horizon_sq, cs),
                target.len() == (vp.height as nat) * (vp.width as nat) * 3,
                target.len() <= usize::MAX,
                (i as int) * (w as int) * 3 + (w as int) * 3 <= target.len(),
                img@ == target.take(((i as int) * (w as int) + (j as int)) * 3),
        {
            let xy: (R, R) = vp.transform(i, j);
            let point: (bool, u32) = mandelbrot_point::<R, C>(xy.0, xy.1, max_iters, horizon_sq);
            let pix: Rgb8 = if point.0 {
                Rgb8 { red: 0, green: 0, blue: 0 }
            } else {
                cs.color_from(R::from_u32(point.1).div(R::from_u32(max_iters)))
            };
            let ghost p = (i as int) * (w as int) + (j as int);
            proof {
                lemma_fundamental_div_mod_converse(p, w as int, i as int, j as int);
                assert(p * 3 + 3 <= target.len() && (i as int) * (w as int) * 3 + (j as int) * 3
                    == p * 3) by (nonlinear_arith)
                    requires
                        p == (i as int) * (w as int) + (j as int),
                        (i as int) * (w as int) * 3 + (w as int) * 3 <= target.len(),
                        0 <= j as int && (j as int) < (w as int),
                ;
                lemma_fundamental_div_mod_converse(p * 3, 3, p, 0);
                lemma_fundamental_div_mod_converse(p * 3 + 1, 3, p, 1);
                lemma_fundamental_div_mod_converse(p * 3 + 2, 3, p, 2);
                assert(target[p * 3] == pix.red);
                assert(target[p * 3 + 1] == pix.green);
                assert(target[p * 3 + 2] == pix.blue);
            }
            img.push(pix.red);
            img.push(pix.green);
            img.push(pix.blue);
            proof {
                assert(img@ =~= target.take(p * 3 + 3));
                assert(((i as int) * (w as int) + (j as int + 1)) * 3 == p * 3 + 3)
                    by (nonlinear_arith)
                    requires
                        p == (i as int) * (w as int) + (j as int),
                ;
            }
        }
        proof {
            assert(((i as int) + 1) * (w as int) * 3 == ((i as int) * (w as int) + (w as int)) * 3)
                by (nonlinear_arith);
        }
    }
    proof {
        assert((h as int) * (w as int) * 3 == target.len());
        assert(target.take(target.len() as int) =~= target);
    }
    Ok(img)
}

/// The origin never escapes: with `c = 0` every iterate is zero, so if
/// the divergence test does not fire on a zero iterate, the point is
/// classified interior for every iteration bound.
pub proof fn lemma_zero_never_escapes<R: Real, C: ComplexNum<R> + CoeffLaws>(h2: R, max: nat)
    requires
        !h2.le_v(C::zero_v().norm_sqr_v()),
    ensures
        first_escape_v::<R, C>(C::zero_v(), h2, max) is None,
    decreases max,
{
    if max > 0 {
        lemma_zero_never_escapes::<R, C>(h2, (max - 1) as nat);
        lemma_mandel_iter_at_zero::<R, C>(max);
    }
}

/// With `c = 0`, every iterate is zero.
proof fn lemma_mandel_iter_at_zero<R: Real, C: ComplexNum<R> + CoeffLaws>(n: nat)
    ensures
        mandel_iter_v::<R, C>(C::zero_v(), n) == C::zero_v(),
    decreases n,
{
    if n > 0 {
        lemma_mandel_iter_at_zero::<R, C>((n - 1) as nat);
        C::law_mul_zero(C::zero_v());
        C::law_add_zero(C::zero_v());
    }
}

} // verus!
