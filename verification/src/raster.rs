//! Module rasterization: from a boolean module grid to a crisp pixel
//! canvas.
//!
//! The canvas is white; every dark module becomes a solid black square of
//! `ppm * ppm` pixels, offset by the quiet zone. `ppm` is the requested
//! size divided by the total module count, rounded down, so the output may
//! be slightly smaller than requested but every module edge falls on a
//! whole pixel.

use vstd::prelude::*;

use crate::canvas::Canvas;
use crate::color::{black, white, Rgba};
use crate::error::RenderError;
use crate::grid::{qr_encode, qr_grid, ModuleGrid};
use vstd::arithmetic::div_mod::{lemma_fundamental_div_mod, lemma_fundamental_div_mod_converse};

verus! {

/// Side length of the symbol in modules, quiet zone included, for a grid
/// of side `n`.
pub open spec fn total_modules(n: int, quiet: int) -> int {
    n + 2 * quiet
}

/// Whole pixels that each module gets at the requested size.
pub open spec fn pixels_per_module(n: int, size: int, quiet: int) -> int {
    size / total_modules(n, quiet)
}

/// Does the pixel at `(px, py)` lie inside a dark module of the
/// row-major `n * n` grid `cells`, the quiet zone offset already
/// applied?
pub open spec fn dark_at(n: int, cells: Seq<bool>, ppm: int, quiet: int, px: int, py: int) -> bool {
    let mx = px / ppm - quiet;
    let my = py / ppm - quiet;
    0 <= mx && mx < n && 0 <= my && my < n && cells[my * n + mx]
}

/// `dark_at`, restricted to the modules before column `x` of row `y` in
/// row-major order; the rasterizer's loops grow this prefix.
spec fn dark_before(
    n: int,
    cells: Seq<bool>,
    ppm: int,
    quiet: int,
    px: int,
    py: int,
    y: int,
    x: int,
) -> bool {
    let mx = px / ppm - quiet;
    let my = py / ppm - quiet;
    dark_at(n, cells, ppm, quiet, px, py) && (my < y || (my == y && mx < x))
}

/// A pixel lies in the block of module `(mx, my)` exactly when its
/// coordinates divide down to that module.
proof fn lemma_block_membership(p: int, ppm: int, m: int)
    requires
        ppm >= 1,
        0 <= m,
        0 <= p,
    ensures
        m * ppm <= p < m * ppm + ppm <==> p / ppm == m,
{
    if m * ppm <= p < m * ppm + ppm {
        lemma_fundamental_div_mod_converse(p, ppm, m, p - m * ppm);
    }
    if p / ppm == m {
        lemma_fundamental_div_mod(p, ppm);
        vstd::arithmetic::div_mod::lemma_mod_bound(p, ppm);
        assert(p == ppm * m + p % ppm);
        assert(m * ppm <= p < m * ppm + ppm) by (nonlinear_arith)
            requires
                p == ppm * m + p % ppm,
                0 <= p % ppm < ppm,
        ;
    }
}

/// Render the module grid onto a fresh canvas.
///
/// Fails with `EmptyGrid` on a grid of side zero and with `SizeTooSmall`
/// when fewer than two pixels remain per module. On success the canvas is
/// a white square of side `ppm * total_modules`, with exactly the pixels
/// of dark modules painted opaque black.
pub fn rasterize(grid: &ModuleGrid, size: u32, quiet_modules: u32) -> (r: Result<
    Canvas,
    RenderError,
>)
    requires
        grid.wf(),
        total_modules(grid.n as int, quiet_modules as int) <= u32::MAX as int,
        4 * (size as int) * (size as int) <= usize::MAX as int,
    ensures
        grid.n == 0 ==> r == Err::<Canvas, RenderError>(RenderError::EmptyGrid),
        grid.n >= 1 && pixels_per_module(grid.n as int, size as int, quiet_modules as int) < 2
            ==> r == Err::<Canvas, RenderError>(
            RenderError::SizeTooSmall {
                size,
                total_modules: total_modules(grid.n as int, quiet_modules as int) as u32,
            },
        ),
        grid.n >= 1 && pixels_per_module(grid.n as int, size as int, quiet_modules as int) >= 2
            ==> ({
            let ppm = pixels_per_module(grid.n as int, size as int, quiet_modules as int);
            let side = ppm * total_modules(grid.n as int, quiet_modules as int);
            &&& r matches Ok(c)
            &&& c.wf()
            &&& c.width == side
            &&& c.height == side
            &&& c.width <= size
            &&& forall|px: int, py: int|
                c.in_bounds(px, py) ==> c.pixel(px, py) == (if dark_at(
                    grid.n as int,
                    grid.cells@,
                    ppm,
                    quiet_modules as int,
                    px,
                    py,
                ) {
                    black()
                } else {
                    white()
                })
        }),
{
    let n: usize = grid.n;
    if n == 0 {
        return Err(RenderError::EmptyGrid);
    }
    let total: u32 = (n as u64 + 2 * (quiet_modules as u64)) as u32;
    let ppm: u32 = size / total;
    if ppm < 2 {
        return Err(RenderError::SizeTooSmall { size, total_modules: total });
    }
    proof {
        assert((size as int / total as int) * (total as int) <= size as int) by (nonlinear_arith)
            requires
                total >= 1,
                size >= 0,
        ;
    }
    let out: u32 = ppm * total;
    proof {
        assert(4 * (out as int) * (out as int) <= 4 * (size as int) * (size as int))
            by (nonlinear_arith)
            requires
                0 <= out <= size,
        ;
    }
    let fill_white: Rgba = Rgba { r: 255, g: 255, b: 255, a: 255 };
    let fill_black: Rgba = Rgba { r: 0, g: 0, b: 0, a: 255 };
    let mut canvas = Canvas::new_filled(out, out, fill_white);
    let quiet: u32 = quiet_modules;
    let ghost gn = grid.n as int;
    let ghost gcells = grid.cells@;
    let ghost gppm = ppm as int;
    let ghost gq = quiet_modules as int;
    proof {
        assert forall|px: int, py: int| canvas.in_bounds(px, py) implies canvas.pixel(px, py) == (
        if dark_before(gn, gcells, gppm, gq, px, py, 0, 0) {
            black()
        } else {
            white()
        }) by {}
    }
    let mut y: usize = 0;
    while y < n
        invariant
            grid.wf(),
            1 <= n == grid.n,
            gn == grid.n as int,
            gcells == grid.cells@,
            gppm == ppm as int,
            gq == quiet_modules as int,
            quiet == quiet_modules,
            total == n + 2 * gq,
            ppm >= 2,
            out == ppm * total,
            fill_black == black(),
            canvas.wf(),
            canvas.width == out,
            canvas.height == out,
            y <= n,
            forall|px: int, py: int|
                canvas.in_bounds(px, py) ==> canvas.pixel(px, py) == (if dark_before(
                    gn,
                    gcells,
                    gppm,
                    gq,
                    px,
                    py,
                    y as int,
                    0,
                ) {
                    black()
                } else {
                    white()
                }),
        decreases n - y,
    {
        let mut x: usize = 0;
        while x < n
            invariant
                grid.wf(),
                1 <= n == grid.n,
                gn == grid.n as int,
                gcells == grid.cells@,
                gppm == ppm as int,
                gq == quiet_modules as int,
                quiet == quiet_modules,
                total == n + 2 * gq,
                ppm >= 2,
                out == ppm * total,
                fill_black == black(),
                canvas.wf(),
                canvas.width == out,
                canvas.height == out,
                y < n,
                x <= n,
                forall|px: int, py: int|
                    canvas.in_bounds(px, py) ==> canvas.pixel(px, py) == (if dark_before(
                        gn,
                        gcells,
                        gppm,
                        gq,
                        px,
                        py,
                        y as int,
                        x as int,
                    ) {
                        black()
                    } else {
                        white()
                    }),
            decreases n - x,
        {
            let ghost pre = canvas;
            let is_dark: bool = grid.cell_at(x, y);
            if is_dark {
                proof {
                    assert((gq + x + 1) * gppm <= (total as int) * gppm && (gq + y + 1) * gppm <= (
                    total as int) * gppm && 0 <= (gq + x) * gppm && (gq + x) * gppm + gppm == (gq
                        + x + 1) * gppm && 0 <= (gq + y) * gppm && (gq + y) * gppm + gppm == (gq + y
                        + 1) * gppm)
                        by (nonlinear_arith)
                        requires
                            0 <= gq,
                            0 <= x,
                            0 <= y,
                            gq + x + 1 <= total as int,
                            gq + y + 1 <= total as int,
                            gppm >= 2,
                    ;
                    assert((total as int) * gppm == out) by (nonlinear_arith)
                        requires
                            out == ppm * total,
                            gppm == ppm as int,
                    ;
                }
                let px0: u32 = ((quiet as u64 + x as u64) * (ppm as u64)) as u32;
                let py0: u32 = ((quiet as u64 + y as u64) * (ppm as u64)) as u32;
                canvas.draw_rect(px0, py0, ppm, ppm, fill_black);
                proof {
                    let mx = gq + x;
                    let my = gq + y;
                    assert forall|px: int, py: int| canvas.in_bounds(px, py) implies canvas.pixel(
                        px,
                        py,
                    ) == (if dark_before(gn, gcells, gppm, gq, px, py, y as int, x as int + 1) {
                        black()
                    } else {
                        white()
                    }) by {
                        lemma_block_membership(px, gppm, mx);
                        lemma_block_membership(py, gppm, my);
                        assert(pre.in_bounds(px, py));
                        assert(pre.pixel(px, py) == pre.pixel(px, py));
                        assert(px0 == mx * gppm && py0 == my * gppm);
                        if pre.in_rect(px0 as int, py0 as int, gppm, gppm, px, py) {
                            assert(mx * gppm <= px < mx * gppm + gppm);
                            assert(my * gppm <= py < my * gppm + gppm);
                            assert(px / gppm == mx && py / gppm == my);
                            assert(dark_at(gn, gcells, gppm, gq, px, py));
                            assert(canvas.pixel(px, py) == black());
                        } else {
                            assert(canvas.pixel(px, py) == pre.pixel(px, py));
                            assert(!(px / gppm == mx && py / gppm == my));
                            assert(dark_before(gn, gcells, gppm, gq, px, py, y as int, x as int + 1)
                                == dark_before(gn, gcells, gppm, gq, px, py, y as int, x as int));
                        }
                    }
                }
            } else {
                proof {
                    assert forall|px: int, py: int| canvas.in_bounds(px, py) implies canvas.pixel(
                        px,
                        py,
                    ) == (if dark_before(gn, gcells, gppm, gq, px, py, y as int, x as int + 1) {
                        black()
                    } else {
                        white()
                    }) by {
                        assert(dark_before(gn, gcells, gppm, gq, px, py, y as int, x as int + 1)
                            == dark_before(gn, gcells, gppm, gq, px, py, y as int, x as int));
                    }
                }
            }
            x = x + 1;
        }
        y = y + 1;
    }
    proof {
        assert forall|px: int, py: int| canvas.in_bounds(px, py) implies canvas.pixel(px, py) == (
        if dark_at(gn, gcells, gppm, gq, px, py) {
            black()
        } else {
            white()
        }) by {
            assert(dark_before(gn, gcells, gppm, gq, px, py, n as int, 0) == dark_at(
                gn,
                gcells,
                gppm,
                gq,
                px,
                py,
            ));
        }
    }
    Ok(canvas)
}

/// Encode a payload and rasterize the resulting symbol.
///
/// Fails with `EncodeFailure` exactly when the payload fits no QR
/// version; otherwise behaves as `rasterize` on the encoded symbol
/// `qr_grid(data)`: `SizeTooSmall` when fewer than two pixels remain per
/// module, else a square canvas, no wider than requested, with exactly
/// the dark modules' pixels painted opaque black.
pub fn render_qr(data: &[u8], size: u32, quiet_modules: u32) -> (r: Result<Canvas, RenderError>)
    requires
        2 * (quiet_modules as int) <= u32::MAX as int - 177,
        4 * (size as int) * (size as int) <= usize::MAX as int,
    ensures
        r == Err::<Canvas, RenderError>(RenderError::EncodeFailure) <==> qr_grid(data@) is None,
        qr_grid(data@) matches Some(p) ==> ({
            let total = total_modules(p.0, quiet_modules as int);
            let ppm = pixels_per_module(p.0, size as int, quiet_modules as int);
            &&& (ppm < 2 ==> r == Err::<Canvas, RenderError>(
                RenderError::SizeTooSmall { size, total_modules: total as u32 },
            ))
            &&& (ppm >= 2 ==> {
                &&& r matches Ok(c)
                &&& c.wf()
                &&& c.width == ppm * total
                &&& c.height == c.width
                &&& c.width <= size
                &&& forall|px: int, py: int|
                    c.in_bounds(px, py) ==> c.pixel(px, py) == (if dark_at(
                        p.0,
                        p.1,
                        ppm,
                        quiet_modules as int,
                        px,
                        py,
                    ) {
                        black()
                    } else {
                        white()
                    })
            })
        }),
        r matches Ok(c) ==> c.wf() && c.width == c.height && c.width <= size,
{
    match qr_encode(data) {
        Some(g) => {
            proof {
                assert(qr_grid(data@) == Some((g.n as int, g.cells@)));
            }
            rasterize(&g, size, quiet_modules)
        },
        None => Err(RenderError::EncodeFailure),
    }
}

} // verus!
