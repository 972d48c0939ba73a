//! RGBA pixels and source-over alpha blending.

use vstd::prelude::*;

verus! {

/// One pixel: four independent 8-bit channels.
#[derive(Clone, Copy, Debug, PartialEq, Eq, Structural)]
pub struct Rgba {
    pub r: u8,
    pub g: u8,
    pub b: u8,
    pub a: u8,
}

/// Opaque white, the background of every rendered canvas.
pub open spec fn white() -> Rgba {
    Rgba { r: 255, g: 255, b: 255, a: 255 }
}

/// Opaque black, the colour of dark modules and caption text.
pub open spec fn black() -> Rgba {
    Rgba { r: 0, g: 0, b: 0, a: 255 }
}

impl Rgba {
    pub fn new(r: u8, g: u8, b: u8, a: u8) -> (p: Rgba)
        ensures
            p == (Rgba { r, g, b, a }),
    {
        Rgba { r, g, b, a }
    }
}

pub fn rgba_white() -> (p: Rgba)
    ensures
        p == white(),
{
    Rgba { r: 255, g: 255, b: 255, a: 255 }
}

/// One channel of a source-over blend with coverage `a` out of 255:
/// the source weighted by `a`, the destination by `255 - a`.
pub open spec fn blend_channel(dst: u8, src: u8, a: u8) -> int {
    (src * a + dst * (255 - a)) / 255
}

/// The source-over blend of an opaque source colour on an opaque
/// destination, with coverage `a`; the result stays opaque.
pub open spec fn blend_spec(dst: Rgba, src: Rgba, a: u8) -> Rgba {
    Rgba {
        r: blend_channel(dst.r, src.r, a) as u8,
        g: blend_channel(dst.g, src.g, a) as u8,
        b: blend_channel(dst.b, src.b, a) as u8,
        a: 255,
    }
}

/// Blend `src` over `dst` with coverage `a` (0 = keep `dst`, 255 = take
/// `src`), treating the source as opaque; the result is opaque.
pub fn blend_over(dst: Rgba, src: Rgba, a: u8) -> (out: Rgba)
    ensures
        out == blend_spec(dst, src, a),
{
    let inv: u16 = 255u16 - a as u16;

    let dr = dst.r as u16;
    let dg = dst.g as u16;
    let db = dst.b as u16;

    let sr = src.r as u16;
    let sg = src.g as u16;
    let sb = src.b as u16;

    let aw = a as u16;

    proof {
        assert(sr * aw + dr * inv <= 255 * 255) by (nonlinear_arith)
            requires
                sr <= 255 && dr <= 255 && aw <= 255 && inv == 255 - aw,
        ;
        assert(sg * aw + dg * inv <= 255 * 255) by (nonlinear_arith)
            requires
                sg <= 255 && dg <= 255 && aw <= 255 && inv == 255 - aw,
        ;
        assert(sb * aw + db * inv <= 255 * 255) by (nonlinear_arith)
            requires
                sb <= 255 && db <= 255 && aw <= 255 && inv == 255 - aw,
        ;
    }

    let r = (sr * aw + dr * inv) / 255;
    let g = (sg * aw + dg * inv) / 255;
    let b = (sb * aw + db * inv) / 255;

    proof {
        assert(r <= 255 && g <= 255 && b <= 255);
    }

    Rgba { r: r as u8, g: g as u8, b: b as u8, a: 255 }
}

} // verus!
