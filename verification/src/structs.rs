//! The shared render inputs: the viewport mapping pixel indices to the
//! complex plane, and the colour settings mapping a normalized value to an
//! RGB byte triple through a hue sweep in HSV space.

use vstd::prelude::*;

verus! {

use crate::num::Real;

/// An axis-aligned window onto the plane, together with the pixel grid
/// laid over it.  Construction validates nothing; the engines that
/// consume a viewport check its dimensions before any per-pixel work.
#[derive(Clone, Copy)]
pub struct Viewport<R: Real> {
    pub x_min: R,
    pub x_max: R,
    pub y_min: R,
    pub y_max: R,
    pub width: u32,
    pub height: u32,
}

/// The affine map from a pixel index to a plane coordinate:
/// `x = x_min + j * (x_max - x_min) / width`, and likewise for `y`.
pub open spec fn transform_v<R: Real>(vp: Viewport<R>, i: u32, j: u32) -> (R, R) {
    let x = vp.x_min.add_v(
        R::from_u32_v(j).mul_v((vp.x_max.sub_v(vp.x_min)).div_v(R::from_u32_v(vp.width))),
    );
    let y = vp.y_min.add_v(
        R::from_u32_v(i).mul_v((vp.y_max.sub_v(vp.y_min)).div_v(R::from_u32_v(vp.height))),
    );
    (x, y)
}

impl<R: Real> Viewport<R> {
    pub fn new(x_min: R, x_max: R, y_min: R, y_max: R, width: u32, height: u32) -> (r: Self)
        ensures
            r == (Viewport { x_min, x_max, y_min, y_max, width, height }),
    {
        Viewport { x_min, x_max, y_min, y_max, width, height }
    }

    /// The plane coordinate `(x, y)` of the pixel in row `i`, column `j`;
    /// a pure function of the viewport's own fields.
    pub fn transform(&self, i: usize, j: usize) -> (r: (R, R))
        requires
            i < self.height,
            j < self.width,
        ensures
            r == transform_v(*self, i as u32, j as u32),
    {
        let fj: R = R::from_u32(j as u32);
        let fi: R = R::from_u32(i as u32);
        let x: R = self.x_min.add(fj.mul(self.x_max.sub(self.x_min).div(R::from_u32(self.width))));
        let y: R = self.y_min.add(fi.mul(self.y_max.sub(self.y_min).div(R::from_u32(self.height))));
        (x, y)
    }
}

/// An RGB triple of 8-bit channels.
#[derive(Clone, Copy, Debug, PartialEq, Eq, Structural)]
pub struct Rgb8 {
    pub red: u8,
    pub green: u8,
    pub blue: u8,
}

/// The hue sweep and saturation a render colours with.  The angles are
/// degrees and need not lie in `[0, 360)`; the sweep direction follows
/// the sign of their difference.
#[derive(Clone, Copy)]
pub struct ColorSettings<R: Real> {
    pub from_angle: R,
    pub to_angle: R,
    pub saturation: R,
}

/// The hue, in degrees wrapped into `[0, 360)`, that `val` in `[0, 1]`
/// sweeps to: `(val * (to_angle - from_angle) + from_angle) mod 360`.
pub open spec fn hue_v<R: Real>(cs: ColorSettings<R>, val: R) -> R {
    ((val.mul_v(cs.to_angle.sub_v(cs.from_angle))).add_v(cs.from_angle)).rem_wrap_v(
        R::from_u32_v(360),
    )
}

/// The standard six-sector HSV to RGB conversion at full value: each
/// 60-degree sector blends between the primaries, with
/// `p = 1 - s`, `q = 1 - s * f` and `t = 1 - s * (1 - f)` for the
/// fractional position `f` within the sector.
pub open spec fn hsv_rgb_v<R: Real>(h: R, s: R) -> (R, R, R) {
    let one = R::one_v();
    let sixty = R::from_u32_v(60);
    if h.lt_v(sixty) {
        let f = h.div_v(sixty);
        (one, one.sub_v(s.mul_v(one.sub_v(f))), one.sub_v(s))
    } else if h.lt_v(R::from_u32_v(120)) {
        let f = (h.sub_v(sixty)).div_v(sixty);
        (one.sub_v(s.mul_v(f)), one, one.sub_v(s))
    } else if h.lt_v(R::from_u32_v(180)) {
        let f = (h.sub_v(R::from_u32_v(120))).div_v(sixty);
        (one.sub_v(s), one, one.sub_v(s.mul_v(one.sub_v(f))))
    } else if h.lt_v(R::from_u32_v(240)) {
        let f = (h.sub_v(R::from_u32_v(180))).div_v(sixty);
        (one.sub_v(s), one.sub_v(s.mul_v(f)), one)
    } else if h.lt_v(R::from_u32_v(300)) {
        let f = (h.sub_v(R::from_u32_v(240))).div_v(sixty);
        (one.sub_v(s.mul_v(one.sub_v(f))), one.sub_v(s), one)
    } else {
        let f = (h.sub_v(R::from_u32_v(300))).div_v(sixty);
        (one, one.sub_v(s), one.sub_v(s.mul_v(f)))
    }
}

/// The RGB bytes for `val` in `[0, 1]`: the swept hue at the configured
/// saturation and full value, quantized channel by channel.
pub open spec fn color_from_v<R: Real>(cs: ColorSettings<R>, val: R) -> Rgb8 {
    let h = hue_v(cs, val);
    let channels = hsv_rgb_v(h, cs.saturation);
    Rgb8 {
        red: channels.0.quantize_v(),
        green: channels.1.quantize_v(),
        blue: channels.2.quantize_v(),
    }
}

impl<R: Real> ColorSettings<R> {
    pub fn new(from_angle: R, to_angle: R, saturation: R) -> (r: Self)
        ensures
            r == (ColorSettings { from_angle, to_angle, saturation }),
    {
        ColorSettings { from_angle, to_angle, saturation }
    }

    /// The hue in degrees, in `[0, 360)`, for `val` from 0 to 1.
    pub fn hue_in_degs(&self, val: R) -> (r: R)
        ensures
            r == hue_v(*self, val),
    {
        (val.mul(self.to_angle.sub(self.from_angle)).add(self.from_angle)).rem_wrap(
            R::from_u32(360),
        )
    }

    /// The RGB byte triple for `val` in `[0, 1]`.
    pub fn color_from(&self, val: R) -> (r: Rgb8)
        ensures
            r == color_from_v(*self, val),
    {
        let h: R = self.hue_in_degs(val);
        let s: R = self.saturation;
        let one: R = R::one();
        let sixty: R = R::from_u32(60);
        let channels: (R, R, R) = if h.is_lt(sixty) {
            let f: R = h.div(sixty);
            (one, one.sub(s.mul(one.sub(f))), one.sub(s))
        } else if h.is_lt(R::from_u32(120)) {
            let f: R = h.sub(sixty).div(sixty);
            (one.sub(s.mul(f)), one, one.sub(s))
        } else if h.is_lt(R::from_u32(180)) {
            let f: R = h.sub(R::from_u32(120)).div(sixty);
            (one.sub(s), one, one.sub(s.mul(one.sub(f))))
        } else if h.is_lt(R::from_u32(240)) {
            let f: R = h.sub(R::from_u32(180)).div(sixty);
            (one.sub(s), one.sub(s.mul(f)), one)
        } else if h.is_lt(R::from_u32(300)) {
            let f: R = h.sub(R::from_u32(240)).div(sixty);
            (one.sub(s.mul(one.sub(f))), one.sub(s), one)
        } else {
            let f: R = h.sub(R::from_u32(300)).div(sixty);
            (one, one.sub(s), one.sub(s.mul(f)))
        };
        Rgb8 {
            red: channels.0.quantize255(),
            green: channels.1.quantize255(),
            blue: channels.2.quantize255(),
        }
    }
}

} // verus!
