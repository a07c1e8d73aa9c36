//! Fitting a view into the canvas: one scale along both axes, and the offset that centres
//! the scaled view along the axis that the scale leaves room on.

use crate::layout::Bounds;
use vstd::prelude::*;

verus! {

/// A scale, as the fraction `num / den`. The denominator is positive.
#[derive(Clone, Copy, Debug, PartialEq, Eq, Structural)]
pub struct Scale {
    pub num: u32,
    pub den: i64,
}

/// How a view is fitted into the canvas: scaled by one ratio along both axes, and centred
/// along the axis that the ratio leaves room on.
#[derive(Clone, Copy, Debug, PartialEq, Eq, Structural)]
pub struct CanonicalLayout {
    pub view_bounds: Bounds,
    pub scale_ratio: Scale,
    pub x_offset: i32,
    pub y_offset: i32,
}

/// The whole number nearest to `n / d`, for `n` that is not negative and `d` that is
/// positive; a quotient halfway between two whole numbers goes to the larger.
pub open spec fn nearest_quotient(n: int, d: int) -> int {
    (2 * n + d) / (2 * d)
}

/// `a` times the scale, to the nearest whole number; halfway goes away from zero.
pub open spec fn scaled_round(a: int, scale: Scale) -> int {
    if a >= 0 {
        nearest_quotient(a * scale.num, scale.den as int)
    } else {
        -nearest_quotient((-a) * scale.num, scale.den as int)
    }
}

/// `a` times the scale, without its fraction, and zero where `a` is negative.
pub open spec fn scaled_floor(a: int, scale: Scale) -> int {
    if a <= 0 {
        0
    } else {
        (a * scale.num) / (scale.den as int)
    }
}

/// A number brought into the range of `i32`.
pub open spec fn clamp_i32(v: int) -> i32 {
    if v < i32::MIN {
        i32::MIN
    } else if v > i32::MAX {
        i32::MAX
    } else {
        v as i32
    }
}

/// A number brought into the range of `u32`.
pub open spec fn clamp_u32(v: int) -> u32 {
    if v < 0 {
        0u32
    } else if v > u32::MAX {
        u32::MAX
    } else {
        v as u32
    }
}

impl CanonicalLayout {
    /// Whether the width of the view, not its height, limits the scale: the ratio of the
    /// widths is the smaller one.
    pub open spec fn width_limited(
        view_bounds: Bounds,
        canvas_width: u32,
        canvas_height: u32,
    ) -> bool {
        canvas_width * view_bounds.height < canvas_height * view_bounds.width
    }

    /// The layout that fits a view of positive size into the canvas. The scale is the smaller
    /// of the two ratios of canvas to view; along the other axis the scaled view is centred.
    pub open spec fn fitted(
        view_bounds: Bounds,
        canvas_width: u32,
        canvas_height: u32,
    ) -> CanonicalLayout {
        if Self::width_limited(view_bounds, canvas_width, canvas_height) {
            CanonicalLayout {
                view_bounds,
                scale_ratio: Scale { num: canvas_width, den: view_bounds.width },
                x_offset: 0,
                y_offset: ((canvas_height - nearest_quotient(
                    view_bounds.height * canvas_width,
                    view_bounds.width as int,
                )) / 2) as i32,
            }
        } else {
            CanonicalLayout {
                view_bounds,
                scale_ratio: Scale { num: canvas_height, den: view_bounds.height },
                x_offset: ((canvas_width - nearest_quotient(
                    view_bounds.width * canvas_height,
                    view_bounds.height as int,
                )) / 2) as i32,
                y_offset: 0,
            }
        }
    }

    /// Fits a view into the canvas. A view without width or without height cannot be fitted.
    pub fn fit(view_bounds: &Bounds, canvas_width: u32, canvas_height: u32) -> (res: Option<
        CanonicalLayout,
    >)
        ensures
            view_bounds.width > 0 && view_bounds.height > 0 ==> res == Some(
                Self::fitted(*view_bounds, canvas_width, canvas_height),
            ),
            view_bounds.width <= 0 || view_bounds.height <= 0 ==> res is None,
            res matches Some(layout) ==> layout.scale_ratio.den > 0 && layout.x_offset >= 0
                && layout.y_offset >= 0,
    {
        if view_bounds.width <= 0 || view_bounds.height <= 0 {
            return None;
        }
        let vw: u128 = view_bounds.width as u128;
        let vh: u128 = view_bounds.height as u128;
        let w: u128 = canvas_width as u128;
        let h: u128 = canvas_height as u128;
        assert(w * vh <= 0xffff_ffff * 0x7fff_ffff_ffff_ffff && h * vw <= 0xffff_ffff
            * 0x7fff_ffff_ffff_ffff && w * vh >= 0 && h * vw >= 0) by (nonlinear_arith)
            requires
                0 <= w <= 0xffff_ffff,
                0 <= h <= 0xffff_ffff,
                0 < vw <= 0x7fff_ffff_ffff_ffff,
                0 < vh <= 0x7fff_ffff_ffff_ffff,
        ;
        if w * vh < h * vw {
            let scaled: u128 = (2 * (vh * w) + vw) / (2 * vw);
            assert(vh * w == w * vh) by (nonlinear_arith);
            assert(scaled <= h) by (nonlinear_arith)
                requires
                    scaled == (2 * (vh * w) + vw) / (2 * vw),
                    vh * w < h * vw,
                    vw > 0,
            ;
            Some(
                CanonicalLayout {
                    view_bounds: *view_bounds,
                    scale_ratio: Scale { num: canvas_width, den: view_bounds.width },
                    x_offset: 0,
                    y_offset: ((h - scaled) / 2) as i32,
                },
            )
        } else {
            let scaled: u128 = (2 * (vw * h) + vh) / (2 * vh);
            assert(vw * h == h * vw) by (nonlinear_arith);
            assert(scaled <= w) by (nonlinear_arith)
                requires
                    scaled == (2 * (vw * h) + vh) / (2 * vh),
                    vw * h <= w * vh,
                    vh > 0,
            ;
            Some(
                CanonicalLayout {
                    view_bounds: *view_bounds,
                    scale_ratio: Scale { num: canvas_height, den: view_bounds.height },
                    x_offset: ((w - scaled) / 2) as i32,
                    y_offset: 0,
                },
            )
        }
    }
}

/// The scale of a fitted view is the smaller of the two ratios of canvas to view: it is one
/// of them, and scaled by it the view is no wider and no higher than the canvas.
pub proof fn lemma_fit_takes_smaller_ratio(
    view_bounds: Bounds,
    canvas_width: u32,
    canvas_height: u32,
)
    requires
        view_bounds.width > 0,
        view_bounds.height > 0,
    ensures
        ({
            let layout = CanonicalLayout::fitted(view_bounds, canvas_width, canvas_height);
            &&& layout.scale_ratio.den > 0
            &&& layout.scale_ratio.num * view_bounds.width <= canvas_width * layout.scale_ratio.den
            &&& layout.scale_ratio.num * view_bounds.height <= canvas_height
                * layout.scale_ratio.den
            &&& (layout.scale_ratio.num * view_bounds.width == canvas_width * layout.scale_ratio.den
                || layout.scale_ratio.num * view_bounds.height == canvas_height
                * layout.scale_ratio.den)
            &&& (layout.x_offset == 0 || layout.y_offset == 0)
        }),
{
    let w = canvas_width as int;
    let h = canvas_height as int;
    let vw = view_bounds.width as int;
    let vh = view_bounds.height as int;
    assert(w * vh == vh * w && h * vw == vw * h) by (nonlinear_arith);
}

} // verus!
