//! Aspect-preserving shrink-to-fit of a canvas into a bounding box.
//!
//! The scale factor is the smaller of `max_w / w` and `max_h / h`, capped
//! at one: the image is never enlarged. New dimensions are the source
//! dimensions times the scale, rounded to the nearest pixel and floored to
//! one. Resampling itself is done by the `image` crate with a Lanczos
//! window.

use vstd::prelude::*;

use crate::canvas::Canvas;
use crate::num::{round_frac, round_ratio, spec_max};

verus! {

/// The dimensions `fit` gives a `w * h` image inside a `max_w * max_h`
/// box: unchanged when the box already contains it (or a dimension is
/// zero), otherwise scaled down by the smaller of the two ratios, rounded
/// to the nearest pixel, and floored to one.
pub open spec fn fit_dims(w: int, h: int, max_w: int, max_h: int) -> (int, int) {
    if w == 0 || h == 0 {
        (w, h)
    } else if w <= max_w && h <= max_h {
        (w, h)
    } else if max_w * h <= max_h * w {
        (spec_max(max_w, 1), spec_max(round_frac(h * max_w, w), 1))
    } else {
        (spec_max(round_frac(w * max_h, h), 1), spec_max(max_h, 1))
    }
}

/// A fitted image never exceeds a non-degenerate box.
pub proof fn lemma_fit_within(w: int, h: int, max_w: int, max_h: int)
    requires
        1 <= w,
        1 <= h,
        1 <= max_w,
        1 <= max_h,
    ensures
        1 <= fit_dims(w, h, max_w, max_h).0 <= max_w,
        1 <= fit_dims(w, h, max_w, max_h).1 <= max_h,
{
    if w <= max_w && h <= max_h {
    } else if max_w * h <= max_h * w {
        assert(0 <= round_frac(h * max_w, w) <= max_h) by (nonlinear_arith)
            requires
                1 <= w,
                1 <= h,
                1 <= max_w,
                1 <= max_h,
                max_w * h <= max_h * w,
        ;
    } else {
        assert(0 <= round_frac(w * max_h, h) <= max_w) by (nonlinear_arith)
            requires
                1 <= w,
                1 <= h,
                1 <= max_w,
                1 <= max_h,
                max_h * w <= max_w * h,
        ;
    }
}

/// Fitting is idempotent: fitting an already fitted image into the same
/// box changes nothing.
pub proof fn lemma_fit_idempotent(w: int, h: int, max_w: int, max_h: int)
    requires
        1 <= w,
        1 <= h,
        1 <= max_w,
        1 <= max_h,
    ensures
        fit_dims(
            fit_dims(w, h, max_w, max_h).0,
            fit_dims(w, h, max_w, max_h).1,
            max_w,
            max_h,
        ) == fit_dims(w, h, max_w, max_h),
{
    lemma_fit_within(w, h, max_w, max_h);
}

/// The pixels the Lanczos resampler produces for a given source image and
/// target dimensions; determined by the source pixels and sizes alone.
pub uninterp spec fn resampled(src: Seq<u8>, w: int, h: int, new_w: int, new_h: int) -> Seq<u8>;

/// Resample a canvas to the exact dimensions `new_w * new_h`.
///
/// Relies on `image::imageops::resize` with `FilterType::Lanczos3`: it
/// returns a buffer of exactly `new_w * new_h` RGBA pixels, computed from
/// the source pixels alone.
#[verifier::external_body]
fn resample(src: &Canvas, new_w: u32, new_h: u32) -> (r: Canvas)
    requires
        src.wf(),
        4 * (new_w as int) * (new_h as int) <= usize::MAX as int,
    ensures
        r.width == new_w,
        r.height == new_h,
        r.data@ == resampled(src.data@, src.width as int, src.height as int, new_w as int, new_h as int),
        r.wf(),
{
    let buffer: image::ImageBuffer<image::Rgba<u8>, Vec<u8>> = image::ImageBuffer::from_raw(
        src.width,
        src.height,
        src.data.clone(),
    ).unwrap();
    let resized = image::imageops::resize(
        &buffer,
        new_w,
        new_h,
        image::imageops::FilterType::Lanczos3,
    );
    Canvas { width: new_w, height: new_h, data: resized.into_raw() }
}

/// Shrink `img` to fit inside a `max_w * max_h` box, preserving the
/// aspect ratio and never enlarging; an image the box already contains
/// (or with a zero dimension) is returned unchanged.
pub fn fit(img: &Canvas, max_w: u32, max_h: u32) -> (r: Canvas)
    requires
        img.wf(),
    ensures
        r.wf(),
        (r.width as int, r.height as int) == fit_dims(
            img.width as int,
            img.height as int,
            max_w as int,
            max_h as int,
        ),
        img.width <= max_w && img.height <= max_h ==> r.data@ == img.data@,
        img.width == 0 || img.height == 0 ==> r.data@ == img.data@,
        img.width >= 1 && img.height >= 1 && !(img.width <= max_w && img.height <= max_h)
            ==> r.data@ == resampled(
            img.data@,
            img.width as int,
            img.height as int,
            r.width as int,
            r.height as int,
        ),
        img.width >= 1 && img.height >= 1 && max_w >= 1 && max_h >= 1 ==> r.width <= max_w
            && r.height <= max_h,
{
    proof {
        if img.width >= 1 && img.height >= 1 && max_w >= 1 && max_h >= 1 {
            lemma_fit_within(img.width as int, img.height as int, max_w as int, max_h as int);
        }
    }
    if img.width == 0 || img.height == 0 {
        return img.duplicate();
    }
    if img.width <= max_w && img.height <= max_h {
        return img.duplicate();
    }
    let w64: u64 = img.width as u64;
    let h64: u64 = img.height as u64;
    proof {
        assert((max_w as int) * (h64 as int) < 0x1_0000_0000_0000_0000 && (max_h as int) * (
        w64 as int) < 0x1_0000_0000_0000_0000 && (h64 as int) * (max_w as int)
            < 0x1_0000_0000_0000_0000 && (w64 as int) * (max_h as int) < 0x1_0000_0000_0000_0000)
            by (nonlinear_arith)
            requires
                0 <= max_w < 0x1_0000_0000,
                0 <= max_h < 0x1_0000_0000,
                0 <= w64 < 0x1_0000_0000,
                0 <= h64 < 0x1_0000_0000,
        ;
    }
    let scaled_w: u64;
    let scaled_h: u64;
    if (max_w as u64) * h64 <= (max_h as u64) * w64 {
        scaled_w = max_w as u64;
        scaled_h = round_ratio(h64 * (max_w as u64), w64);
        proof {
            assert(round_frac(h64 * max_w, w64 as int) <= max_h && max_w <= w64 && round_frac(
                h64 * max_w,
                w64 as int,
            ) <= h64) by (nonlinear_arith)
                requires
                    1 <= w64,
                    1 <= h64,
                    0 <= max_w,
                    0 <= max_h,
                    max_w * h64 <= max_h * w64,
                    !(w64 <= max_w && h64 <= max_h),
            ;
        }
    } else {
        scaled_h = max_h as u64;
        scaled_w = round_ratio(w64 * (max_h as u64), h64);
        proof {
            assert(round_frac(w64 * max_h, h64 as int) <= max_w && max_h <= h64 && round_frac(
                w64 * max_h,
                h64 as int,
            ) <= w64) by (nonlinear_arith)
                requires
                    1 <= w64,
                    1 <= h64,
                    0 <= max_w,
                    0 <= max_h,
                    max_h * w64 <= max_w * h64,
                    !(w64 <= max_w && h64 <= max_h),
            ;
        }
    }
    let new_w: u32 = if scaled_w == 0 {
        1
    } else {
        scaled_w as u32
    };
    let new_h: u32 = if scaled_h == 0 {
        1
    } else {
        scaled_h as u32
    };
    let len: usize = img.data.len();
    proof {
        assert(4 * (new_w as int) * (new_h as int) <= 4 * (img.width as int) * (
        img.height as int)) by (nonlinear_arith)
            requires
                0 <= new_w <= img.width,
                0 <= new_h <= img.height,
        ;
        assert(4 * (new_w as int) * (new_h as int) <= len);
    }
    resample(img, new_w, new_h)
}

} // verus!
