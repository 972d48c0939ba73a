//! Single-line text layout and glyph-mask blending.
//!
//! The glyph source is consumed as an opaque shape-and-metric provider:
//! it reports per-character advances, pairwise kernings and the font's
//! ascent and descent in font units, and rasterizes a positioned glyph
//! into a coverage mask. Those metrics scale linearly with the font
//! size — the glyph source's scale factor for a size is the size divided
//! by `ascent - descent` — so every layout decision (margins, the
//! shrink-only font-size search, centering, baseline and pen placement)
//! is exact integer arithmetic here, in thousandths of a pixel
//! (milli-pixels), and only outline parsing and coverage rasterization
//! stay with the glyph source.

use vstd::prelude::*;

use crate::canvas::Canvas;
use crate::color::{blend_spec, Rgba};
use crate::num::{max_u32, round_frac, round_ratio, sat_add_i64, sat_add_spec, spec_max};

verus! {

/// Glyph metrics for one line of text, in font units: one advance per
/// character, one kerning adjustment per character against its
/// predecessor (the first entry is unused), and the font's ascent and
/// descent.
pub struct TextMetrics {
    pub advances: Vec<i32>,
    pub kernings: Vec<i32>,
    pub ascent: i32,
    pub descent: i32,
}

impl TextMetrics {
    /// One kerning entry per advance, and a positive font height.
    pub open spec fn wf(&self) -> bool {
        self.advances@.len() == self.kernings@.len() && self.ascent > self.descent
    }

    /// The font height in font units: the distance the scale divides by.
    pub open spec fn height_units(&self) -> int {
        self.ascent - self.descent
    }

    /// Number of characters measured.
    pub open spec fn len(&self) -> int {
        self.advances@.len() as int
    }

    /// Metrics from the glyph source's tables; `None` when the vectors
    /// disagree in length or the font height is not positive.
    pub fn new(advances: Vec<i32>, kernings: Vec<i32>, ascent: i32, descent: i32) -> (r: Option<
        TextMetrics,
    >)
        ensures
            r matches Some(m) ==> m.wf() && m.advances@ == advances@ && m.kernings@ == kernings@
                && m.ascent == ascent && m.descent == descent,
            r is None ==> advances@.len() != kernings@.len() || ascent <= descent,
    {
        if advances.len() == kernings.len() && ascent > descent {
            Some(TextMetrics { advances, kernings, ascent, descent })
        } else {
            None
        }
    }
}

/// The largest scaled length the layout works with, in milli-pixels
/// (about a billion pixels); anything longer is clamped.
pub open spec fn mpx_cap() -> int {
    0x100_0000_0000
}

/// Font units scaled to milli-pixels at a font size in milli-pixels:
/// `units * size / height_units`, rounded to the nearest milli-pixel
/// away from zero on halves, clamped to `mpx_cap` in magnitude.
pub open spec fn units_to_mpx(units: int, size_mpx: int, height_units: int) -> int {
    let raw = if units >= 0 {
        round_frac(units * size_mpx, height_units)
    } else {
        -round_frac((-units) * size_mpx, height_units)
    };
    if raw > mpx_cap() {
        mpx_cap()
    } else if raw < -mpx_cap() {
        -mpx_cap()
    } else {
        raw
    }
}

/// Scale a font-unit length to milli-pixels.
pub fn scale_units(units: i32, size_mpx: u32, height_units: i64) -> (r: i64)
    requires
        1 <= height_units <= 0x1_0000_0000,
    ensures
        r == units_to_mpx(units as int, size_mpx as int, height_units as int),
        -mpx_cap() <= r <= mpx_cap(),
{
    proof {
        assert((units as int) * (size_mpx as int) < 0x8000_0000_0000_0000 && (-(units as int)) * (
        size_mpx as int) < 0x8000_0000_0000_0000) by (nonlinear_arith)
            requires
                -0x8000_0000 <= units < 0x8000_0000,
                0 <= size_mpx < 0x1_0000_0000,
        ;
    }
    if units >= 0 {
        let num: u64 = (units as u64) * (size_mpx as u64);
        let scaled: u64 = round_ratio(num, height_units as u64);
        if scaled > 0x100_0000_0000u64 {
            0x100_0000_0000i64
        } else {
            scaled as i64
        }
    } else {
        let mag: i64 = -(units as i64);
        let num: u64 = (mag as u64) * (size_mpx as u64);
        let scaled: u64 = round_ratio(num, height_units as u64);
        if scaled > 0x100_0000_0000u64 {
            -0x100_0000_0000i64
        } else {
            -(scaled as i64)
        }
    }
}

/// Width in milli-pixels of the first `i` characters: each character
/// contributes its kerning against the predecessor (from the second
/// character on) and its own advance, the sums saturating at the `i64`
/// range.
pub open spec fn width_prefix_mpx(m: TextMetrics, size_mpx: int, i: int) -> int
    decreases i,
{
    if i <= 0 {
        0
    } else {
        let prev = width_prefix_mpx(m, size_mpx, i - 1);
        let kern = if i - 1 > 0 {
            units_to_mpx(m.kernings@[i - 1] as int, size_mpx, m.height_units())
        } else {
            0
        };
        sat_add_spec(
            sat_add_spec(prev, kern),
            units_to_mpx(m.advances@[i - 1] as int, size_mpx, m.height_units()),
        )
    }
}

/// Width of the whole line in milli-pixels at a font size.
pub open spec fn line_width_mpx(m: TextMetrics, size_mpx: int) -> int {
    width_prefix_mpx(m, size_mpx, m.len())
}

/// Measure the line: the sum of every glyph's advance and of the kerning
/// of every adjacent pair, in character order.
pub fn measure_text_width(m: &TextMetrics, size_mpx: u32) -> (w: i64)
    requires
        m.wf(),
    ensures
        w == line_width_mpx(*m, size_mpx as int),
{
    let height: i64 = (m.ascent as i64) - (m.descent as i64);
    let n: usize = m.advances.len();
    let mut x: i64 = 0;
    let mut i: usize = 0;
    while i < n
        invariant
            m.wf(),
            n == m.len(),
            height == m.height_units(),
            1 <= height <= 0x1_0000_0000,
            i <= n,
            x == width_prefix_mpx(*m, size_mpx as int, i as int),
        decreases n - i,
    {
        if i > 0 {
            let k: i64 = scale_units(m.kernings[i], size_mpx, height);
            x = sat_add_i64(x, k);
        }
        let adv: i64 = scale_units(m.advances[i], size_mpx, height);
        x = sat_add_i64(x, adv);
        i = i + 1;
    }
    x
}

/// The starting font size of the fit search: 35 hundredths of the band
/// height, rounded, at least 18 pixels, in milli-pixels.
pub open spec fn initial_font_mpx(band_h: int) -> int {
    spec_max(round_frac(band_h * 35, 100), 18) * 1000
}

/// One step of the shrink-only search: the size times 92 hundredths,
/// rounded to the nearest milli-pixel.
pub open spec fn shrink_mpx(size: int) -> int {
    round_frac(size * 92, 100)
}

/// The font size the shrink-only search settles on, starting from
/// `size`: the first size at which the line fits `max_w_mpx`, or at
/// which the 14-pixel floor is reached.
pub open spec fn fitted_size_mpx(m: TextMetrics, size: int, max_w_mpx: int) -> int
    decreases size,
    via fitted_size_mpx_dec
{
    if size <= 14000 {
        size
    } else if line_width_mpx(m, size) <= max_w_mpx {
        size
    } else {
        fitted_size_mpx(m, shrink_mpx(size), max_w_mpx)
    }
}

#[via_fn]
proof fn fitted_size_mpx_dec(m: TextMetrics, size: int, max_w_mpx: int) {
    if size > 14000 && !(line_width_mpx(m, size) <= max_w_mpx) {
        assert(0 <= shrink_mpx(size) < size) by (nonlinear_arith)
            requires
                size > 14000,
        ;
    }
}

/// Choose the largest font size at which the line fits `max_w_mpx`
/// milli-pixels: start at `initial_font_mpx` of the band height and
/// multiply by 0.92 until the measured width fits or the size falls to
/// the 14-pixel floor.
pub fn choose_font_size(m: &TextMetrics, band_h: u32, max_w_mpx: i64) -> (s: u32)
    requires
        m.wf(),
        initial_font_mpx(band_h as int) <= u32::MAX as int,
    ensures
        s == fitted_size_mpx(*m, initial_font_mpx(band_h as int), max_w_mpx as int),
        12881 <= s <= initial_font_mpx(band_h as int),
{
    proof {
        let rounded = crate::num::round_frac((band_h as int) * 35, 100);
        assert(rounded * 1000 <= spec_max(rounded, 18) * 1000 <= u32::MAX as int);
    }
    let start_px: u32 = max_u32(round_ratio((band_h as u64) * 35, 100) as u32, 18);
    let mut size: u32 = start_px * 1000;
    let ghost initial = size as int;
    let mut done: bool = false;
    while !done && size > 14000
        invariant
            m.wf(),
            12881 <= size <= initial,
            initial == initial_font_mpx(band_h as int),
            fitted_size_mpx(*m, size as int, max_w_mpx as int) == fitted_size_mpx(
                *m,
                initial,
                max_w_mpx as int,
            ),
            done ==> fitted_size_mpx(*m, size as int, max_w_mpx as int) == size,
        decreases size, (if done {
            0int
        } else {
            1int
        }),
    {
        let tw: i64 = measure_text_width(m, size);
        if tw <= max_w_mpx {
            done = true;
            proof {
                assert(fitted_size_mpx(*m, size as int, max_w_mpx as int) == size);
            }
        } else {
            proof {
                assert(12881 <= round_frac((size as int) * 92, 100) && round_frac(
                    (size as int) * 92,
                    100,
                ) < size) by (nonlinear_arith)
                    requires
                        14000 < size,
                ;
                assert(fitted_size_mpx(*m, size as int, max_w_mpx as int) == fitted_size_mpx(
                    *m,
                    shrink_mpx(size as int),
                    max_w_mpx as int,
                ));
            }
            size = round_ratio((size as u64) * 92, 100) as u32;
        }
    }
    size
}

/// Side margin of the caption text: six hundredths of the canvas width,
/// rounded, at least 24 pixels.
pub open spec fn margin_px(canvas_w: int) -> int {
    spec_max(round_frac(canvas_w * 6, 100), 24)
}

/// Width available to the text: the canvas width minus a margin on each
/// side, not below zero, in milli-pixels.
pub open spec fn max_text_w_mpx(canvas_w: int) -> int {
    if canvas_w * 1000 >= 2 * (margin_px(canvas_w) * 1000) {
        canvas_w * 1000 - 2 * (margin_px(canvas_w) * 1000)
    } else {
        0
    }
}

/// The baseline of a line centered vertically in the band: the band's
/// middle plus half the text height (ascent minus descent, rounded up to
/// whole pixels), minus the descent.
pub open spec fn baseline_y_mpx(band_top: int, band_h: int, m: TextMetrics, size: int) -> int {
    let asc = units_to_mpx(m.ascent as int, size, m.height_units());
    let desc = units_to_mpx(m.descent as int, size, m.height_units());
    let raw = asc - desc;
    let text_h = if raw <= 0 {
        0
    } else {
        ((raw + 999) / 1000) * 1000
    };
    band_top * 1000 + band_h * 500 + text_h / 2 - desc
}

/// The layout chosen for one rendered line: all lengths in milli-pixels.
pub struct TextLine {
    pub font_size_mpx: u32,
    pub width_mpx: i64,
    pub start_x_mpx: i64,
    pub baseline_y_mpx: i64,
}

/// Lay out one line of text for the band `[band_top, band_top + band_h)`
/// of a canvas `canvas_w` wide: pick the font size by the shrink-only
/// search within the side margins, center the line horizontally (but
/// never start before the margin), and center the baseline vertically in
/// the band.
pub fn layout_caption(canvas_w: u32, band_top: u32, band_h: u32, m: &TextMetrics) -> (line:
    TextLine)
    requires
        m.wf(),
        initial_font_mpx(band_h as int) <= u32::MAX as int,
    ensures
        line.font_size_mpx == fitted_size_mpx(
            *m,
            initial_font_mpx(band_h as int),
            max_text_w_mpx(canvas_w as int),
        ),
        line.width_mpx == line_width_mpx(*m, line.font_size_mpx as int),
        line.start_x_mpx == spec_max(
            ((canvas_w as int) * 1000 - line.width_mpx) / 2,
            margin_px(canvas_w as int) * 1000,
        ),
        line.baseline_y_mpx == baseline_y_mpx(
            band_top as int,
            band_h as int,
            *m,
            line.font_size_mpx as int,
        ),
{
    proof {
        crate::num::lemma_round_frac_le((canvas_w as int) * 6, 100, canvas_w as int);
    }
    let margin: u32 = max_u32(round_ratio((canvas_w as u64) * 6, 100) as u32, 24);
    let wm: i64 = (canvas_w as i64) * 1000;
    let margin_mpx: i64 = (margin as i64) * 1000;
    let max_text_w: i64 = if wm >= 2 * margin_mpx {
        wm - 2 * margin_mpx
    } else {
        0
    };
    let size: u32 = choose_font_size(m, band_h, max_text_w);
    let height: i64 = (m.ascent as i64) - (m.descent as i64);
    let asc: i64 = scale_units(m.ascent, size, height);
    let desc: i64 = scale_units(m.descent, size, height);
    let raw_h: i64 = asc - desc;
    let text_h: i64 = if raw_h <= 0 {
        0
    } else {
        ((((raw_h as u64) + 999) / 1000) * 1000) as i64
    };
    let baseline: i64 = (band_top as i64) * 1000 + (band_h as i64) * 500 + (((text_h as u64) / 2)
        as i64) - desc;
    let width: i64 = measure_text_width(m, size);
    let start_x: i64 = if width >= wm {
        proof {
            assert((wm - width) / 2 <= 0);
        }
        margin_mpx
    } else {
        let cx: i64 = ((((wm as i128) - (width as i128)) as u128) / 2) as i64;
        if cx >= margin_mpx {
            cx
        } else {
            margin_mpx
        }
    };
    TextLine { font_size_mpx: size, width_mpx: width, start_x_mpx: start_x, baseline_y_mpx: baseline }
}

/// The pen position of glyph `j` in milli-pixels: the start position,
/// advanced for every earlier glyph and kerned against the predecessor,
/// saturating at the `i64` range.
pub open spec fn pen_pos_mpx(m: TextMetrics, size: int, start_x: int, j: int) -> int
    decreases j,
{
    if j <= 0 {
        start_x
    } else {
        sat_add_spec(
            sat_add_spec(
                pen_pos_mpx(m, size, start_x, j - 1),
                units_to_mpx(m.advances@[j - 1] as int, size, m.height_units()),
            ),
            units_to_mpx(m.kernings@[j] as int, size, m.height_units()),
        )
    }
}

/// The pen position of every glyph of the line at a font size, starting
/// at `start_x_mpx`: each glyph advances the pen by its kerning against
/// the previous glyph plus that glyph's advance width.
pub fn glyph_positions(m: &TextMetrics, size_mpx: u32, start_x_mpx: i64) -> (r: Vec<i64>)
    requires
        m.wf(),
    ensures
        r@.len() == m.len(),
        forall|j: int|
            0 <= j < m.len() ==> r@[j] == pen_pos_mpx(*m, size_mpx as int, start_x_mpx as int, j),
{
    let height: i64 = (m.ascent as i64) - (m.descent as i64);
    let n: usize = m.advances.len();
    let mut r: Vec<i64> = Vec::new();
    let mut pen: i64 = start_x_mpx;
    let mut i: usize = 0;
    while i < n
        invariant
            m.wf(),
            n == m.len(),
            height == m.height_units(),
            1 <= height <= 0x1_0000_0000,
            i <= n,
            r@.len() == i,
            pen == pen_pos_mpx(
                *m,
                size_mpx as int,
                start_x_mpx as int,
                if i == 0 {
                    0int
                } else {
                    i - 1
                },
            ),
            forall|j: int|
                0 <= j < i ==> r@[j] == pen_pos_mpx(*m, size_mpx as int, start_x_mpx as int, j),
        decreases n - i,
    {
        if i > 0 {
            let k: i64 = scale_units(m.kernings[i], size_mpx, height);
            let adv: i64 = scale_units(m.advances[i - 1], size_mpx, height);
            pen = sat_add_i64(sat_add_i64(pen, adv), k);
            proof {
                assert(pen == pen_pos_mpx(*m, size_mpx as int, start_x_mpx as int, i as int));
            }
        }
        r.push(pen);
        i = i + 1;
    }
    r
}

/// The coverage mask of one positioned glyph: an origin in pixel
/// coordinates (possibly negative) and one row-major coverage byte,
/// 0 to 255, per pixel of its bounding box.
pub struct GlyphMask {
    pub x0: i32,
    pub y0: i32,
    pub w: u32,
    pub h: u32,
    pub cov: Vec<u8>,
}

impl GlyphMask {
    /// One coverage byte per pixel of the bounding box.
    pub open spec fn wf(&self) -> bool {
        self.cov@.len() == (self.w as int) * (self.h as int)
    }

    /// A mask over the given coverage bytes; `None` when the buffer does
    /// not hold one byte per pixel.
    pub fn new(x0: i32, y0: i32, w: u32, h: u32, cov: Vec<u8>) -> (r: Option<GlyphMask>)
        ensures
            r matches Some(g) ==> g.wf() && g.x0 == x0 && g.y0 == y0 && g.w == w && g.h == h
                && g.cov@ == cov@,
            r is None ==> cov@.len() != (w as int) * (h as int),
    {
        proof {
            assert((w as int) * (h as int) <= u128::MAX as int) by (nonlinear_arith)
                requires
                    0 <= w <= u32::MAX,
                    0 <= h <= u32::MAX,
            ;
        }
        let expected: u128 = (w as u128) * (h as u128);
        if (cov.len() as u128) == expected {
            Some(GlyphMask { x0, y0, w, h, cov })
        } else {
            None
        }
    }
}

/// Blend a glyph mask onto the canvas in the given colour: every covered
/// in-bounds pixel is blended source-over with its coverage byte, and
/// pixels outside the mask or the canvas are untouched.
pub fn blit_mask(canvas: &mut Canvas, m: &GlyphMask, color: Rgba)
    requires
        old(canvas).wf(),
        m.wf(),
    ensures
        final(canvas).wf(),
        final(canvas).same_dims(old(canvas)),
        forall|x: int, y: int|
            old(canvas).in_bounds(x, y) ==> final(canvas).pixel(x, y) == (if m.x0 <= x < m.x0
                + m.w && m.y0 <= y < m.y0 + m.h {
                blend_spec(
                    old(canvas).pixel(x, y),
                    color,
                    m.cov@[(y - m.y0) * (m.w as int) + (x - m.x0)],
                )
            } else {
                old(canvas).pixel(x, y)
            }),
{
    let ghost orig = *canvas;
    let mut gy: u32 = 0;
    while gy < m.h
        invariant
            canvas.wf(),
            canvas.same_dims(&orig),
            orig.wf(),
            m.wf(),
            gy <= m.h,
            forall|x: int, y: int|
                orig.in_bounds(x, y) ==> canvas.pixel(x, y) == (if m.x0 <= x < m.x0 + m.w && m.y0
                    <= y < m.y0 + m.h && y - m.y0 < gy {
                    blend_spec(
                        orig.pixel(x, y),
                        color,
                        m.cov@[(y - m.y0) * (m.w as int) + (x - m.x0)],
                    )
                } else {
                    orig.pixel(x, y)
                }),
        decreases m.h - gy,
    {
        let mut gx: u32 = 0;
        while gx < m.w
            invariant
                canvas.wf(),
                canvas.same_dims(&orig),
                orig.wf(),
                m.wf(),
                gy < m.h,
                gx <= m.w,
                forall|x: int, y: int|
                    orig.in_bounds(x, y) ==> canvas.pixel(x, y) == (if m.x0 <= x < m.x0 + m.w
                        && m.y0 <= y < m.y0 + m.h && (y - m.y0 < gy || (y - m.y0 == gy && x - m.x0
                        < gx)) {
                        blend_spec(
                            orig.pixel(x, y),
                            color,
                            m.cov@[(y - m.y0) * (m.w as int) + (x - m.x0)],
                        )
                    } else {
                        orig.pixel(x, y)
                    }),
            decreases m.w - gx,
        {
            let px64: i64 = m.x0 as i64 + gx as i64;
            let py64: i64 = m.y0 as i64 + gy as i64;
            if px64 >= 0 && py64 >= 0 && px64 < canvas.width as i64 && py64 < canvas.height as i64 {
                let px: u32 = px64 as u32;
                let py: u32 = py64 as u32;
                proof {
                    assert(0 <= (gy as int) * (m.w as int) + gx && (gy as int) * (m.w as int) + gx
                        < (m.w as int) * (m.h as int)) by (nonlinear_arith)
                        requires
                            0 <= gx < m.w,
                            0 <= gy < m.h,
                    ;
                }
                // Reading the length as a usize bounds the mask for the cast below.
                let len: usize = m.cov.len();
                let idx: u64 = (gy as u64) * (m.w as u64) + gx as u64;
                let v: u8 = m.cov[idx as usize];
                let dst: Rgba = canvas.get_pixel(px, py);
                let blended: Rgba = crate::color::blend_over(dst, color, v);
                canvas.put_pixel(px, py, blended);
            }
            gx = gx + 1;
        }
        gy = gy + 1;
    }
}

} // verus!
