//! Colours with premultiplied alpha, and the two ways an element is blended onto what lies
//! under it.

use vstd::prelude::*;

verus! {

/// A colour of four channels. In a pixel buffer the three colour channels are premultiplied:
/// none of them is above the alpha.
#[derive(Clone, Copy, Debug, PartialEq, Eq, Structural)]
pub struct Rgba {
    pub red: u8,
    pub green: u8,
    pub blue: u8,
    pub alpha: u8,
}

/// The largest of four channel values.
pub open spec fn max_channel(a: u8, b: u8, c: u8, d: u8) -> u8 {
    let ab = if a >= b {
        a
    } else {
        b
    };
    let cd = if c >= d {
        c
    } else {
        d
    };
    if ab >= cd {
        ab
    } else {
        cd
    }
}

/// The whole number nearest to `n / 255`, for `n` that is not negative. No such quotient lies
/// halfway between two whole numbers.
pub open spec fn nearest_255th(n: int) -> int {
    (2 * n + 255) / 510
}

/// One channel of the foreground laid over one of the background: the foreground's value plus
/// the share of the background's that the foreground's alpha lets through, and at most 255.
pub open spec fn over_channel(foreground: u8, background: u8, foreground_alpha: u8) -> u8 {
    let sum = foreground + nearest_255th(background * (255 - foreground_alpha));
    if sum > 255 {
        255u8
    } else {
        sum as u8
    }
}

/// One channel of the foreground multiplied with one of the background, both taken as
/// fractions of 255.
pub open spec fn product_channel(foreground: u8, background: u8) -> u8 {
    nearest_255th(foreground * background) as u8
}

impl Rgba {
    /// Opaque white.
    pub open spec fn white() -> Rgba {
        Rgba { red: 255, green: 255, blue: 255, alpha: 255 }
    }

    /// Whether no colour channel is above the alpha.
    pub open spec fn is_premultiplied(self) -> bool {
        self.red <= self.alpha && self.green <= self.alpha && self.blue <= self.alpha
    }

    /// The colour with the given channels and the alpha raised to the largest of them, so
    /// that it is premultiplied.
    pub open spec fn with_raised_alpha(red: u8, green: u8, blue: u8, alpha: u8) -> Rgba {
        Rgba { red, green, blue, alpha: max_channel(red, green, blue, alpha) }
    }

    /// The foreground laid over the background, channel by channel.
    pub open spec fn over(background: Rgba, foreground: Rgba) -> Rgba {
        Rgba::with_raised_alpha(
            over_channel(foreground.red, background.red, foreground.alpha),
            over_channel(foreground.green, background.green, foreground.alpha),
            over_channel(foreground.blue, background.blue, foreground.alpha),
            over_channel(foreground.alpha, background.alpha, foreground.alpha),
        )
    }

    /// The foreground multiplied with the background, channel by channel.
    pub open spec fn product(background: Rgba, foreground: Rgba) -> Rgba {
        Rgba::with_raised_alpha(
            product_channel(foreground.red, background.red),
            product_channel(foreground.green, background.green),
            product_channel(foreground.blue, background.blue),
            product_channel(foreground.alpha, background.alpha),
        )
    }
}

/// The largest of four channel values.
pub fn largest_channel(a: u8, b: u8, c: u8, d: u8) -> (res: u8)
    ensures
        res == max_channel(a, b, c, d),
{
    let ab: u8 = if a >= b {
        a
    } else {
        b
    };
    let cd: u8 = if c >= d {
        c
    } else {
        d
    };
    if ab >= cd {
        ab
    } else {
        cd
    }
}

/// Lays one channel of the foreground over one of the background.
pub fn combine_over(foreground: u8, background: u8, foreground_alpha: u8) -> (res: u8)
    ensures
        res == over_channel(foreground, background, foreground_alpha),
{
    let rest: u32 = 255 - foreground_alpha as u32;
    assert(0 <= (background as int) * (rest as int) <= 255 * 255) by (nonlinear_arith)
        requires
            0 <= background <= 255,
            0 <= rest <= 255,
    ;
    let through: u32 = (background as u32) * rest;
    let sum: u32 = foreground as u32 + (2 * through + 255) / 510;
    if sum > 255 {
        255
    } else {
        sum as u8
    }
}

/// Multiplies one channel of the foreground with one of the background.
pub fn combine_product(foreground: u8, background: u8) -> (res: u8)
    ensures
        res == product_channel(foreground, background),
{
    assert(0 <= (foreground as int) * (background as int) <= 255 * 255) by (nonlinear_arith)
        requires
            0 <= foreground <= 255,
            0 <= background <= 255,
    ;
    let product: u32 = (foreground as u32) * (background as u32);
    ((2 * product + 255) / 510) as u8
}

/// Lays the foreground over the background, with the foreground's alpha as the measure of
/// what it covers.
pub fn alpha_blend_colors(background: Rgba, foreground: Rgba) -> (res: Rgba)
    ensures
        res == Rgba::over(background, foreground),
        res.is_premultiplied(),
{
    let red: u8 = combine_over(foreground.red, background.red, foreground.alpha);
    let green: u8 = combine_over(foreground.green, background.green, foreground.alpha);
    let blue: u8 = combine_over(foreground.blue, background.blue, foreground.alpha);
    let alpha: u8 = combine_over(foreground.alpha, background.alpha, foreground.alpha);
    Rgba { red, green, blue, alpha: largest_channel(red, green, blue, alpha) }
}

/// Multiplies the foreground with the background.
pub fn multiply_blend_colors(background: Rgba, foreground: Rgba) -> (res: Rgba)
    ensures
        res == Rgba::product(background, foreground),
        res.is_premultiplied(),
{
    let red: u8 = combine_product(foreground.red, background.red);
    let green: u8 = combine_product(foreground.green, background.green);
    let blue: u8 = combine_product(foreground.blue, background.blue);
    let alpha: u8 = combine_product(foreground.alpha, background.alpha);
    Rgba { red, green, blue, alpha: largest_channel(red, green, blue, alpha) }
}

/// Multiplying with opaque white leaves a premultiplied colour as it is.
pub proof fn lemma_multiply_by_white(background: Rgba)
    requires
        background.is_premultiplied(),
    ensures
        Rgba::product(background, Rgba::white()) == background,
{
    assert(product_channel(255, background.red) == background.red);
    assert(product_channel(255, background.green) == background.green);
    assert(product_channel(255, background.blue) == background.blue);
    assert(product_channel(255, background.alpha) == background.alpha);
}

/// Multiplying white with a colour gives that colour, with its alpha raised where a channel
/// lies above it.
pub proof fn lemma_multiply_onto_white(foreground: Rgba)
    ensures
        Rgba::product(Rgba::white(), foreground) == Rgba::with_raised_alpha(
            foreground.red,
            foreground.green,
            foreground.blue,
            foreground.alpha,
        ),
{
    assert(product_channel(foreground.red, 255) == foreground.red);
    assert(product_channel(foreground.green, 255) == foreground.green);
    assert(product_channel(foreground.blue, 255) == foreground.blue);
    assert(product_channel(foreground.alpha, 255) == foreground.alpha);
}

} // verus!
