//! From the layout of a handheld device to the artifact that plays it: the places of the
//! layout's items on a square canvas, the composited background, the mask of display
//! segments with the owner of each pixel, the table of the mask's runs, and the bytes of the
//! whole.

use vstd::prelude::*;

pub mod assets;
pub mod bits;
pub mod blend;
pub mod canvas;
pub mod codec;
pub mod compose;
pub mod display;
pub mod encode_format;
pub mod fit;
pub mod layout;
pub mod manifest;
pub mod mask;
pub mod render;
pub mod resolve;
pub mod svg_manage;
pub mod text;

verus! {

/// Width of the square output canvas, in pixels.
pub const WIDTH: usize = 720;

/// Height of the square output canvas, in pixels.
pub const HEIGHT: usize = 720;

} // verus!
