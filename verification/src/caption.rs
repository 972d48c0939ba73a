//! The caption band: a white strip appended below the QR canvas that
//! carries one line of text.

use vstd::prelude::*;

use crate::canvas::Canvas;
use crate::color::{white, Rgba};
use crate::num::{round_frac, round_ratio, spec_max};

verus! {

/// Height of the caption band: eighteen hundredths of the QR height,
/// rounded, with a floor of 120 pixels.
pub open spec fn band_height_spec(qr_h: int) -> int {
    spec_max(round_frac(qr_h * 18, 100), 120)
}

/// Height of the caption band for a canvas of height `qr_h`.
pub fn band_height(qr_h: u32) -> (b: u32)
    ensures
        b == band_height_spec(qr_h as int),
        b >= 120,
{
    proof {
        crate::num::lemma_round_frac_le((qr_h as int) * 18, 100, qr_h as int);
    }
    crate::num::max_u32(round_ratio((qr_h as u64) * 18, 100) as u32, 120)
}

/// A white canvas of the same width and `band_height` more rows, with
/// the QR canvas copied unscaled into the top-left region.
pub fn build_caption_canvas(qr: &Canvas) -> (c: Canvas)
    requires
        qr.wf(),
        qr.height as int + band_height_spec(qr.height as int) <= u32::MAX as int,
        4 * (qr.width as int) * (qr.height as int + band_height_spec(qr.height as int))
            <= usize::MAX as int,
    ensures
        c.wf(),
        c.width == qr.width,
        c.height == qr.height + band_height_spec(qr.height as int),
        c.height > qr.height,
        forall|x: int, y: int|
            qr.in_bounds(x, y) ==> c.pixel(x, y) == qr.pixel(x, y),
        forall|x: int, y: int|
            c.in_bounds(x, y) && y >= qr.height ==> c.pixel(x, y) == white(),
{
    let band: u32 = band_height(qr.height);
    let new_h: u32 = qr.height + band;
    let mut c = Canvas::new_filled(qr.width, new_h, Rgba { r: 255, g: 255, b: 255, a: 255 });
    c.copy_top_left(qr);
    c
}

} // verus!
