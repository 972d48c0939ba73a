//! The square boolean module grid of a QR symbol, and its producer.
//!
//! The grid is consumed as an opaque matrix of dark and light cells; the
//! QR symbol encoder of the `qrcode` crate fills it in.

use vstd::prelude::*;

verus! {

/// A square grid of `n * n` modules, stored row by row; `true` is a dark
/// module.
pub struct ModuleGrid {
    pub n: usize,
    pub cells: Vec<bool>,
}

impl ModuleGrid {
    /// The cell vector holds exactly one entry per module.
    pub open spec fn wf(&self) -> bool {
        self.cells@.len() == (self.n as int) * (self.n as int)
    }

    /// The cell at column `x`, row `y`.
    pub open spec fn cell(&self, x: int, y: int) -> bool {
        self.cells@[y * (self.n as int) + x]
    }

    /// A grid over the given cells; `None` when the vector does not hold
    /// exactly `n * n` entries.
    pub fn new(n: usize, cells: Vec<bool>) -> (r: Option<ModuleGrid>)
        ensures
            r matches Some(g) ==> g.wf() && g.n == n && g.cells@ == cells@,
            r is None ==> cells@.len() != (n as int) * (n as int),
    {
        proof {
            assert((n as int) * (n as int) <= u128::MAX as int) by (nonlinear_arith)
                requires
                    0 <= n <= u64::MAX,
            ;
        }
        let expected: u128 = (n as u128) * (n as u128);
        if (cells.len() as u128) == expected {
            Some(ModuleGrid { n, cells })
        } else {
            None
        }
    }

    /// The cell at column `x`, row `y`.
    pub fn cell_at(&self, x: usize, y: usize) -> (d: bool)
        requires
            self.wf(),
            x < self.n,
            y < self.n,
        ensures
            d == self.cell(x as int, y as int),
    {
        proof {
            let n = self.n as int;
            assert(0 <= (y as int) * n + x && (y as int) * n + x < n * n) by (nonlinear_arith)
                requires
                    0 <= x < n,
                    0 <= y < n,
            ;
        }
        // Reading the length as a usize bounds the vector for the cast below.
        let len: usize = self.cells.len();
        let idx: u128 = (y as u128) * (self.n as u128) + (x as u128);
        self.cells[idx as usize]
    }
}

/// The symbol the QR encoder produces for a payload at the highest
/// error-correction level: `None` when the payload fits no symbol
/// version, otherwise the side length and the row-major module cells.
/// The encoder is deterministic, so this is a function of the payload
/// bytes alone.
pub uninterp spec fn qr_grid(data: Seq<u8>) -> Option<(int, Seq<bool>)>;

/// Encode a payload as a QR symbol at the highest error-correction level.
///
/// Relies on `qrcode::QrCode::with_error_correction_level` with
/// `EcLevel::H` and on `QrCode::width` and `QrCode::to_colors`: the
/// encoder deterministically produces a square symbol of a normal QR
/// version (side 21 to 177 modules), and `to_colors` lists one entry per
/// module, row by row, `Dark` for a dark module. Returns `None` exactly
/// when the payload does not fit any symbol version.
#[verifier::external_body]
pub(crate) fn qr_encode(data: &[u8]) -> (r: Option<ModuleGrid>)
    ensures
        r is Some <==> qr_grid(data@) is Some,
        r matches Some(g) ==> g.wf() && 21 <= g.n <= 177 && qr_grid(data@) == Some(
            (g.n as int, g.cells@),
        ),
{
    match qrcode::QrCode::with_error_correction_level(data, qrcode::EcLevel::H) {
        Ok(code) => Some(ModuleGrid { n: code.width(), cells: code.to_colors().iter().map(|c| *c == qrcode::Color::Dark).collect() }),
        Err(_) => None,
    }
}

} // verus!
