use vstd::prelude::*;
use crate::pattern::AsciiPattern;
use crate::raster::GrayImage;
use crate::render::{edge_render, edge_text, plain_render, plain_text, string_of};

verus! {

/// Width in glyphs of a rendered live frame.
pub const FRAME_WIDTH: i32 = 150;

/// The height of a live frame scaled to `FRAME_WIDTH` columns, aspect kept.
pub open spec fn frame_height_spec(width: int, height: int) -> int {
    height * FRAME_WIDTH / width
}

/// The height a `width` by `height` frame is scaled to.
pub fn frame_height(width: i32, height: i32) -> (r: i32)
    requires
        width > 0,
        0 <= height <= 14_000_000,
    ensures
        r == frame_height_spec(width as int, height as int),
{
    height * FRAME_WIDTH / width
}

/// Whether a key code read between frames ends the live loop.
pub fn key_stops(key: i32) -> (r: bool)
    ensures
        r == (key > 0 && key != 255),
{
    key > 0 && key != 255
}

/// The text of one live frame, rendered as a still image is: edge-aware
/// without brightening when `edge_detect` is set, else plain; rows end in
/// `'\n'`.
pub fn frame_text(img: &GrayImage, pattern: AsciiPattern, edge_detect: bool) -> (r: String)
    requires
        img.wf(),
    ensures
        edge_detect ==> r@ == edge_text(*img, pattern.ramp(), false, false),
        !edge_detect ==> r@ == plain_text(*img, pattern.ramp(), false),
{
    let ramp = pattern.pattern();
    let out = if edge_detect {
        edge_render(img, &ramp, false, false)
    } else {
        plain_render(img, &ramp, false)
    };
    string_of(&out)
}

} // verus!
