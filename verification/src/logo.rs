//! Centered logo compositing with an optional protective plate.
//!
//! The logo is shrunk to a target box of `scale` times the canvas width,
//! centered, and blended source-over with its own alpha channel. When a
//! plate is requested, an opaque white rectangle padded by `pad` times the
//! logo size is drawn first, clipped silently to the canvas.

use vstd::prelude::*;

use crate::canvas::Canvas;
use crate::color::{blend_spec, white, Rgba};
use crate::error::RenderError;
use crate::num::{max_u32, round_frac, round_ratio, spec_max};
use crate::resize::{fit, fit_dims, resampled};

verus! {

/// Origin that centers a span of `inner` inside a span of `outer`
/// (integer division, truncating); zero when `inner` does not fit.
pub open spec fn centered(outer: int, inner: int) -> int {
    if inner <= outer {
        (outer - inner) / 2
    } else {
        0
    }
}

/// Side of the square target box for the logo: the canvas width times the
/// scale in thousandths, rounded.
pub open spec fn logo_target(canvas_w: int, scale_per_mille: int) -> int {
    round_frac(canvas_w * scale_per_mille, 1000)
}

/// Plate padding in pixels: the larger logo dimension times the padding
/// fraction in thousandths, rounded.
pub open spec fn pad_pixels(lw: int, lh: int, pad_per_mille: int) -> int {
    round_frac(spec_max(lw, lh) * pad_per_mille, 1000)
}

/// The RGBA pixel at `(dx, dy)` of a row-major byte buffer of width `w`.
pub open spec fn bytes_pixel(bytes: Seq<u8>, w: int, dx: int, dy: int) -> Rgba {
    Rgba {
        r: bytes[4 * (dy * w + dx)],
        g: bytes[4 * (dy * w + dx) + 1],
        b: bytes[4 * (dy * w + dx) + 2],
        a: bytes[4 * (dy * w + dx) + 3],
    }
}

/// The pixel bytes of the logo after shrinking it into the target box:
/// the logo's own bytes when the box already contains it (or a dimension
/// is zero), otherwise the Lanczos resampling at the fitted dimensions.
pub open spec fn scaled_logo_bytes(logo: Canvas, target: int) -> Seq<u8> {
    let dims = fit_dims(logo.width as int, logo.height as int, target, target);
    if logo.width <= target && logo.height <= target {
        logo.data@
    } else if logo.width == 0 || logo.height == 0 {
        logo.data@
    } else {
        resampled(logo.data@, logo.width as int, logo.height as int, dims.0, dims.1)
    }
}

/// The value each canvas pixel takes after the overlay: plate pixels
/// become white, logo pixels are blended source-over with the scaled
/// logo's own alpha on top of whatever lies beneath, and everything else
/// keeps its value.
pub open spec fn overlaid_pixel(
    before: Canvas,
    logo: Canvas,
    scale_per_mille: int,
    plate: bool,
    pad_per_mille: int,
    x: int,
    y: int,
) -> Rgba {
    let w = before.width as int;
    let h = before.height as int;
    let target = logo_target(w, scale_per_mille);
    let dims = fit_dims(logo.width as int, logo.height as int, target, target);
    let lw = dims.0;
    let lh = dims.1;
    let x0 = centered(w, lw);
    let y0 = centered(h, lh);
    let padp = pad_pixels(lw, lh, pad_per_mille);
    let base = if plate && before.in_rect(
        centered(w, lw + 2 * padp),
        centered(h, lh + 2 * padp),
        lw + 2 * padp,
        lh + 2 * padp,
        x,
        y,
    ) {
        white()
    } else {
        before.pixel(x, y)
    };
    if x0 <= x < x0 + lw && y0 <= y < y0 + lh {
        let lp = bytes_pixel(scaled_logo_bytes(logo, target), lw, x - x0, y - y0);
        blend_spec(base, lp, lp.a)
    } else {
        base
    }
}

/// Composite `logo` centered onto `canvas`.
///
/// Rejects a scale outside `[50, 350]` thousandths (0.05 to 0.35) with
/// `InvalidLogoScale`, leaving the canvas untouched; otherwise succeeds
/// and maps every pixel to `overlaid_pixel`, so pixels outside the plate
/// and logo regions keep their value.
pub fn overlay_logo(
    canvas: &mut Canvas,
    logo: &Canvas,
    scale_per_mille: u32,
    plate: bool,
    pad_per_mille: u32,
) -> (r: Result<(), RenderError>)
    requires
        old(canvas).wf(),
        logo.wf(),
    ensures
        final(canvas).wf(),
        final(canvas).same_dims(old(canvas)),
        r is Ok <==> 50 <= scale_per_mille <= 350,
        !(50 <= scale_per_mille <= 350) ==> r == Err::<(), RenderError>(
            RenderError::InvalidLogoScale { scale_per_mille },
        ),
        r is Err ==> final(canvas).data@ == old(canvas).data@,
        r is Ok ==> forall|x: int, y: int|
            old(canvas).in_bounds(x, y) ==> final(canvas).pixel(x, y) == overlaid_pixel(
                *old(canvas),
                *logo,
                scale_per_mille as int,
                plate,
                pad_per_mille as int,
                x,
                y,
            ),
{
    if !(scale_per_mille >= 50 && scale_per_mille <= 350) {
        return Err(RenderError::InvalidLogoScale { scale_per_mille });
    }
    let w: u32 = canvas.width;
    let h: u32 = canvas.height;
    proof {
        assert((w as int) * (scale_per_mille as int) <= 1000 * (w as int) && 0 <= (w as int) * (
        scale_per_mille as int)) by (nonlinear_arith)
            requires
                0 <= scale_per_mille <= 1000,
                0 <= w,
        ;
        crate::num::lemma_round_frac_le((w as int) * (scale_per_mille as int), 1000, w as int);
    }
    let target: u32 = round_ratio((w as u64) * (scale_per_mille as u64), 1000) as u32;
    let resized = fit(logo, target, target);
    let lw: u32 = resized.width;
    let lh: u32 = resized.height;
    let ghost glw = lw as int;
    let ghost glh = lh as int;
    let x0: u32 = if lw <= w {
        (w - lw) / 2
    } else {
        0
    };
    let y0: u32 = if lh <= h {
        (h - lh) / 2
    } else {
        0
    };
    if plate {
        let maxdim: u32 = max_u32(lw, lh);
        proof {
            assert((maxdim as int) * (pad_per_mille as int) < 0x1_0000_0000_0000_0000 && 0 <= (
            maxdim as int) * (pad_per_mille as int)) by (nonlinear_arith)
                requires
                    0 <= maxdim < 0x1_0000_0000,
                    0 <= pad_per_mille < 0x1_0000_0000,
            ;
        }
        let padp: u64 = round_ratio((maxdim as u64) * (pad_per_mille as u64), 1000);
        let plate_w: u128 = lw as u128 + 2 * (padp as u128);
        let plate_h: u128 = lh as u128 + 2 * (padp as u128);
        let px0: u32 = if plate_w <= w as u128 {
            (w - plate_w as u32) / 2
        } else {
            0
        };
        let py0: u32 = if plate_h <= h as u128 {
            (h - plate_h as u32) / 2
        } else {
            0
        };
        let w_eff: u32 = if plate_w <= (w - px0) as u128 {
            plate_w as u32
        } else {
            w - px0
        };
        let h_eff: u32 = if plate_h <= (h - py0) as u128 {
            plate_h as u32
        } else {
            h - py0
        };
        canvas.draw_rect(px0, py0, w_eff, h_eff, Rgba { r: 255, g: 255, b: 255, a: 255 });
        proof {
            assert(padp as int == pad_pixels(glw, glh, pad_per_mille as int));
            let pw = glw + 2 * (padp as int);
            let ph = glh + 2 * (padp as int);
            assert forall|x: int, y: int| old(canvas).in_bounds(x, y) implies canvas.pixel(x, y)
                == (if old(canvas).in_rect(
                centered(w as int, pw),
                centered(h as int, ph),
                pw,
                ph,
                x,
                y,
            ) {
                white()
            } else {
                old(canvas).pixel(x, y)
            }) by {
                assert(old(canvas).pixel(x, y) == old(canvas).pixel(x, y));
                assert(px0 == centered(w as int, pw));
                assert(py0 == centered(h as int, ph));
                assert(px0 as int + w_eff as int == crate::num::spec_min(px0 + pw, w as int));
                assert(py0 as int + h_eff as int == crate::num::spec_min(py0 + ph, h as int));
            }
        }
    }
    let ghost mid = *canvas;
    let mut dy: u32 = 0;
    while dy < lh
        invariant
            canvas.wf(),
            mid.wf(),
            canvas.same_dims(&mid),
            resized.wf(),
            glw == resized.width as int,
            glh == resized.height as int,
            glw == lw as int,
            glh == lh as int,
            dy <= lh,
            forall|x: int, y: int|
                mid.in_bounds(x, y) ==> canvas.pixel(x, y) == (if x0 <= x < x0 + glw && y0 <= y
                    < y0 + glh && y - y0 < dy {
                    {
                        let lp = bytes_pixel(resized.data@, glw, x - x0, y - y0);
                        blend_spec(mid.pixel(x, y), lp, lp.a)
                    }
                } else {
                    mid.pixel(x, y)
                }),
        decreases lh - dy,
    {
        let mut dx: u32 = 0;
        while dx < lw
            invariant
                canvas.wf(),
                mid.wf(),
                canvas.same_dims(&mid),
                resized.wf(),
                glw == resized.width as int,
                glh == resized.height as int,
                glw == lw as int,
                glh == lh as int,
                dy < lh,
                dx <= lw,
                forall|x: int, y: int|
                    mid.in_bounds(x, y) ==> canvas.pixel(x, y) == (if x0 <= x < x0 + glw && y0 <= y
                        < y0 + glh && (y - y0 < dy || (y - y0 == dy && x - x0 < dx)) {
                        {
                            let lp = bytes_pixel(resized.data@, glw, x - x0, y - y0);
                            blend_spec(mid.pixel(x, y), lp, lp.a)
                        }
                    } else {
                        mid.pixel(x, y)
                    }),
            decreases lw - dx,
        {
            let px64: u64 = x0 as u64 + dx as u64;
            let py64: u64 = y0 as u64 + dy as u64;
            if px64 < canvas.width as u64 && py64 < canvas.height as u64 {
                let px: u32 = px64 as u32;
                let py: u32 = py64 as u32;
                let lp: Rgba = resized.get_pixel(dx, dy);
                let dst: Rgba = canvas.get_pixel(px, py);
                let blended: Rgba = crate::color::blend_over(dst, lp, lp.a);
                canvas.put_pixel(px, py, blended);
                proof {
                    assert(lp == bytes_pixel(resized.data@, glw, dx as int, dy as int));
                }
            }
            dx = dx + 1;
        }
        dy = dy + 1;
    }
    proof {
        let gw = old(canvas).width as int;
        let gh = old(canvas).height as int;
        let gtarget = logo_target(gw, scale_per_mille as int);
        assert(target == gtarget);
        assert((glw, glh) == fit_dims(logo.width as int, logo.height as int, gtarget, gtarget));
        assert(resized.data@ == scaled_logo_bytes(*logo, gtarget));
        assert(x0 == centered(gw, glw));
        assert(y0 == centered(gh, glh));
        assert forall|x: int, y: int| old(canvas).in_bounds(x, y) implies canvas.pixel(x, y)
            == overlaid_pixel(
            *old(canvas),
            *logo,
            scale_per_mille as int,
            plate,
            pad_per_mille as int,
            x,
            y,
        ) by {
            assert(mid.in_bounds(x, y));
            assert(mid.pixel(x, y) == mid.pixel(x, y));
            assert(canvas.pixel(x, y) == canvas.pixel(x, y));
            assert(old(canvas).pixel(x, y) == old(canvas).pixel(x, y));
        }
    }
    Ok(())
}

} // verus!
