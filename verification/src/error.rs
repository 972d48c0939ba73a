//! The error taxonomy of the rendering pipeline.
//!
//! Every failure aborts the current render; each variant carries the
//! offending parameter so a caller can diagnose without re-running.

use vstd::prelude::*;

verus! {

#[derive(Clone, Copy, Debug, PartialEq, Eq, Structural)]
pub enum RenderError {
    /// The module grid has side length zero.
    EmptyGrid,
    /// The requested size leaves fewer than two pixels per module.
    SizeTooSmall { size: u32, total_modules: u32 },
    /// The logo scale, in thousandths, lies outside [50, 350].
    InvalidLogoScale { scale_per_mille: u32 },
    /// The payload could not be encoded as a QR symbol.
    EncodeFailure,
    /// The logo image could not be decoded.
    ImageDecodeFailure,
    /// The font bytes could not be parsed.
    FontLoadFailure,
    /// The finished image could not be written.
    ImageWriteFailure,
}

} // verus!
