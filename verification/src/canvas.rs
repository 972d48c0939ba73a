//! A flat RGBA pixel canvas with bounds-checked reads, writes and
//! rectangle fills.
//!
//! Pixels live in a single `Vec<u8>`, four bytes per pixel, row by row:
//! the channel `c` of the pixel at `(x, y)` is byte `4 * (y * width + x) + c`.

use vstd::prelude::*;

use crate::color::Rgba;
use crate::num::{spec_max, spec_min};

verus! {

/// An owned RGBA buffer of `width * height` pixels.
pub struct Canvas {
    pub width: u32,
    pub height: u32,
    pub data: Vec<u8>,
}

impl Canvas {
    /// The buffer holds exactly four bytes for every pixel.
    pub open spec fn wf(&self) -> bool {
        self.data@.len() == 4 * (self.width as int) * (self.height as int)
    }

    /// Byte offset of the first channel of the pixel at `(x, y)`.
    pub open spec fn offset(&self, x: int, y: int) -> int {
        4 * (y * (self.width as int) + x)
    }

    pub open spec fn in_bounds(&self, x: int, y: int) -> bool {
        0 <= x < self.width && 0 <= y < self.height
    }

    /// The pixel stored at `(x, y)`.
    pub open spec fn pixel(&self, x: int, y: int) -> Rgba {
        Rgba {
            r: self.data@[self.offset(x, y)],
            g: self.data@[self.offset(x, y) + 1],
            b: self.data@[self.offset(x, y) + 2],
            a: self.data@[self.offset(x, y) + 3],
        }
    }

    /// Both canvases have the same dimensions.
    pub open spec fn same_dims(&self, other: &Canvas) -> bool {
        self.width == other.width && self.height == other.height
    }

    /// The pixel offset stays inside the buffer for in-bounds coordinates.
    proof fn lemma_offset_in_range(&self, x: int, y: int)
        requires
            self.wf(),
            self.in_bounds(x, y),
        ensures
            0 <= self.offset(x, y),
            self.offset(x, y) + 4 <= self.data@.len(),
    {
        let w = self.width as int;
        let h = self.height as int;
        assert(0 <= 4 * (y * w + x) && 4 * (y * w + x) + 4 <= 4 * w * h) by (nonlinear_arith)
            requires
                0 <= x < w,
                0 <= y < h,
        ;
    }

    /// Distinct in-bounds coordinates use disjoint byte ranges.
    proof fn lemma_offset_distinct(&self, x1: int, y1: int, x2: int, y2: int)
        requires
            self.in_bounds(x1, y1),
            self.in_bounds(x2, y2),
            (x1, y1) != (x2, y2),
        ensures
            self.offset(x1, y1) + 4 <= self.offset(x2, y2) || self.offset(x2, y2) + 4
                <= self.offset(x1, y1),
    {
        let w = self.width as int;
        assert(y1 * w + x1 + 1 <= y2 * w + x2 || y2 * w + x2 + 1 <= y1 * w + x1)
            by (nonlinear_arith)
            requires
                0 <= x1 < w,
                0 <= x2 < w,
                0 <= y1,
                0 <= y2,
                (x1, y1) != (x2, y2),
        ;
    }

    /// A canvas of the given dimensions with every pixel set to `fill`.
    pub fn new_filled(width: u32, height: u32, fill: Rgba) -> (c: Canvas)
        requires
            4 * (width as int) * (height as int) <= usize::MAX as int,
        ensures
            c.wf(),
            c.width == width,
            c.height == height,
            forall|x: int, y: int| c.in_bounds(x, y) ==> c.pixel(x, y) == fill,
    {
        proof {
            assert((width as int) * (height as int) <= usize::MAX as int) by (nonlinear_arith)
                requires
                    4 * (width as int) * (height as int) <= usize::MAX as int,
                    width >= 0,
                    height >= 0,
            ;
            assert(4 * ((width as int) * (height as int)) == 4 * (width as int) * (height as int))
                by (nonlinear_arith);
        }
        let npixels: usize = (width as usize) * (height as usize);
        let mut data: Vec<u8> = Vec::new();
        let mut i: usize = 0;
        while i < npixels
            invariant
                i <= npixels,
                npixels == (width as int) * (height as int),
                4 * (npixels as int) <= usize::MAX as int,
                data@.len() == 4 * i,
                forall|p: int|
                    0 <= p < i ==> #[trigger] data@[4 * p] == fill.r && data@[4 * p + 1] == fill.g
                        && data@[4 * p + 2] == fill.b && data@[4 * p + 3] == fill.a,
            decreases npixels - i,
        {
            let ghost prev = data@;
            data.push(fill.r);
            data.push(fill.g);
            data.push(fill.b);
            data.push(fill.a);
            proof {
                assert(data@ == prev.push(fill.r).push(fill.g).push(fill.b).push(fill.a));
                assert forall|p: int|
                    0 <= p < i + 1 implies #[trigger] data@[4 * p] == fill.r && data@[4 * p + 1]
                    == fill.g && data@[4 * p + 2] == fill.b && data@[4 * p + 3] == fill.a by {
                    if p < i {
                        assert(data@[4 * p] == prev[4 * p]);
                        assert(data@[4 * p + 1] == prev[4 * p + 1]);
                        assert(data@[4 * p + 2] == prev[4 * p + 2]);
                        assert(data@[4 * p + 3] == prev[4 * p + 3]);
                    } else {
                        assert(data@[4 * p] == fill.r);
                    }
                }
            }
            i = i + 1;
        }
        let c = Canvas { width, height, data };
        proof {
            assert(c.wf());
            assert forall|x: int, y: int| c.in_bounds(x, y) implies c.pixel(x, y) == fill by {
                let w = width as int;
                let p = y * w + x;
                assert(0 <= y * w + x && y * w + x < w * (height as int)) by (nonlinear_arith)
                    requires
                        0 <= x < w,
                        0 <= y < height as int,
                ;
                assert(npixels == w * (height as int));
                assert(0 <= p < npixels);
                assert(c.offset(x, y) == 4 * p);
            }
        }
        c
    }

    /// A canvas over an existing byte buffer; `None` when the buffer does
    /// not hold exactly four bytes per pixel.
    pub fn from_raw(width: u32, height: u32, data: Vec<u8>) -> (r: Option<Canvas>)
        ensures
            r matches Some(c) ==> c.wf() && c.width == width && c.height == height && c.data@
                == data@,
            r is None ==> data@.len() != 4 * (width as int) * (height as int),
    {
        proof {
            assert(4 * (width as int) * (height as int) <= u128::MAX as int) by (nonlinear_arith)
                requires
                    0 <= width <= u32::MAX,
                    0 <= height <= u32::MAX,
            ;
        }
        let expected: u128 = 4 * (width as u128) * (height as u128);
        if (data.len() as u128) == expected {
            Some(Canvas { width, height, data })
        } else {
            None
        }
    }

    /// An exact copy of this canvas.
    pub fn duplicate(&self) -> (c: Canvas)
        ensures
            c.width == self.width,
            c.height == self.height,
            c.data@ == self.data@,
    {
        let mut data: Vec<u8> = Vec::new();
        let n: usize = self.data.len();
        let mut i: usize = 0;
        while i < n
            invariant
                i <= n,
                n == self.data@.len(),
                data@ == self.data@.subrange(0, i as int),
            decreases n - i,
        {
            data.push(self.data[i]);
            proof {
                assert(data@ =~= self.data@.subrange(0, i as int + 1));
            }
            i = i + 1;
        }
        proof {
            assert(self.data@.subrange(0, n as int) =~= self.data@);
        }
        Canvas { width: self.width, height: self.height, data }
    }

    /// Byte offset of the pixel at `(x, y)` inside the buffer.
    fn byte_offset(&self, x: u32, y: u32) -> (o: usize)
        requires
            self.wf(),
            self.in_bounds(x as int, y as int),
        ensures
            o == self.offset(x as int, y as int),
            o + 4 <= self.data@.len(),
    {
        proof {
            self.lemma_offset_in_range(x as int, y as int);
        }
        // Reading the length as a usize bounds the buffer for the cast below.
        let len: usize = self.data.len();
        let wide: u128 = 4 * ((y as u128) * (self.width as u128) + (x as u128));
        wide as usize
    }

    /// The pixel at `(x, y)`.
    pub fn get_pixel(&self, x: u32, y: u32) -> (p: Rgba)
        requires
            self.wf(),
            self.in_bounds(x as int, y as int),
        ensures
            p == self.pixel(x as int, y as int),
    {
        let base: usize = self.byte_offset(x, y);
        Rgba {
            r: self.data[base],
            g: self.data[base + 1],
            b: self.data[base + 2],
            a: self.data[base + 3],
        }
    }

    /// Overwrite the pixel at `(x, y)`; every other pixel is untouched.
    pub fn put_pixel(&mut self, x: u32, y: u32, p: Rgba)
        requires
            old(self).wf(),
            old(self).in_bounds(x as int, y as int),
        ensures
            final(self).wf(),
            final(self).same_dims(old(self)),
            final(self).pixel(x as int, y as int) == p,
            forall|i: int, j: int|
                old(self).in_bounds(i, j) && (i, j) != (x as int, y as int) ==> final(self).pixel(
                    i,
                    j,
                ) == old(self).pixel(i, j),
    {
        let base: usize = self.byte_offset(x, y);
        self.data.set(base, p.r);
        self.data.set(base + 1, p.g);
        self.data.set(base + 2, p.b);
        self.data.set(base + 3, p.a);
        proof {
            assert forall|i: int, j: int|
                old(self).in_bounds(i, j) && (i, j) != (x as int, y as int) implies self.pixel(i, j)
                == old(self).pixel(i, j) by {
                old(self).lemma_offset_distinct(i, j, x as int, y as int);
                old(self).lemma_offset_in_range(i, j);
            }
        }
    }

    /// Is `(x, y)` inside the rectangle of origin `(x0, y0)` and size
    /// `(w, h)`, clipped to the canvas?
    pub open spec fn in_rect(&self, x0: int, y0: int, w: int, h: int, x: int, y: int) -> bool {
        x0 <= x < spec_min(x0 + w, self.width as int) && y0 <= y < spec_min(
            y0 + h,
            self.height as int,
        )
    }

    /// Fill a rectangle with `fill`, silently clipping it to the canvas;
    /// pixels outside the rectangle keep their value.
    pub fn draw_rect(&mut self, x0: u32, y0: u32, w: u32, h: u32, fill: Rgba)
        requires
            old(self).wf(),
        ensures
            final(self).wf(),
            final(self).same_dims(old(self)),
            forall|x: int, y: int|
                old(self).in_bounds(x, y) ==> final(self).pixel(x, y) == (if old(self).in_rect(
                    x0 as int,
                    y0 as int,
                    w as int,
                    h as int,
                    x,
                    y,
                ) {
                    fill
                } else {
                    old(self).pixel(x, y)
                }),
    {
        let max_x: u32 = {
            let e: u64 = x0 as u64 + w as u64;
            if e > self.width as u64 {
                self.width
            } else {
                e as u32
            }
        };
        let max_y: u32 = {
            let e: u64 = y0 as u64 + h as u64;
            if e > self.height as u64 {
                self.height
            } else {
                e as u32
            }
        };
        let ghost orig = *self;
        proof {
            assert(max_x == spec_min(x0 + w, orig.width as int));
            assert(max_y == spec_min(y0 + h, orig.height as int));
        }
        let mut y: u32 = y0;
        while y < max_y
            invariant
                self.wf(),
                self.same_dims(&orig),
                orig.wf(),
                y0 <= y <= spec_max(max_y as int, y0 as int),
                max_x == spec_min(x0 + w, orig.width as int),
                max_y == spec_min(y0 + h, orig.height as int),
                max_x <= orig.width,
                max_y <= orig.height,
                forall|i: int, j: int|
                    orig.in_bounds(i, j) ==> self.pixel(i, j) == (if orig.in_rect(
                        x0 as int,
                        y0 as int,
                        w as int,
                        h as int,
                        i,
                        j,
                    ) && j < y {
                        fill
                    } else {
                        orig.pixel(i, j)
                    }),
            decreases max_y - y,
        {
            let mut x: u32 = x0;
            while x < max_x
                invariant
                    self.wf(),
                    self.same_dims(&orig),
                    orig.wf(),
                    y0 <= y < max_y,
                    max_y == spec_min(y0 + h, orig.height as int),
                    max_y <= orig.height,
                    x0 <= x <= spec_max(max_x as int, x0 as int),
                    max_x == spec_min(x0 + w, orig.width as int),
                    max_x <= orig.width,
                    forall|i: int, j: int|
                        orig.in_bounds(i, j) ==> self.pixel(i, j) == (if orig.in_rect(
                            x0 as int,
                            y0 as int,
                            w as int,
                            h as int,
                            i,
                            j,
                        ) && (j < y || (j == y && i < x)) {
                            fill
                        } else {
                            orig.pixel(i, j)
                        }),
                decreases max_x - x,
            {
                self.put_pixel(x, y, fill);
                x = x + 1;
            }
            y = y + 1;
        }
    }

    /// Copy `src` into the top-left corner; pixels outside the copied
    /// region keep their value.
    pub fn copy_top_left(&mut self, src: &Canvas)
        requires
            old(self).wf(),
            src.wf(),
            src.width <= old(self).width,
            src.height <= old(self).height,
        ensures
            final(self).wf(),
            final(self).same_dims(old(self)),
            forall|x: int, y: int|
                old(self).in_bounds(x, y) ==> final(self).pixel(x, y) == (if src.in_bounds(x, y) {
                    src.pixel(x, y)
                } else {
                    old(self).pixel(x, y)
                }),
    {
        let ghost orig = *self;
        let mut y: u32 = 0;
        while y < src.height
            invariant
                self.wf(),
                self.same_dims(&orig),
                orig.wf(),
                src.wf(),
                src.width <= orig.width,
                src.height <= orig.height,
                y <= src.height,
                forall|i: int, j: int|
                    orig.in_bounds(i, j) ==> self.pixel(i, j) == (if src.in_bounds(i, j) && j < y {
                        src.pixel(i, j)
                    } else {
                        orig.pixel(i, j)
                    }),
            decreases src.height - y,
        {
            let mut x: u32 = 0;
            while x < src.width
                invariant
                    self.wf(),
                    self.same_dims(&orig),
                    orig.wf(),
                    src.wf(),
                    src.width <= orig.width,
                    src.height <= orig.height,
                    y < src.height,
                    x <= src.width,
                    forall|i: int, j: int|
                        orig.in_bounds(i, j) ==> self.pixel(i, j) == (if src.in_bounds(i, j) && (j
                            < y || (j == y && i < x)) {
                            src.pixel(i, j)
                        } else {
                            orig.pixel(i, j)
                        }),
                decreases src.width - x,
            {
                let p = src.get_pixel(x, y);
                self.put_pixel(x, y, p);
                x = x + 1;
            }
            y = y + 1;
        }
    }
}

} // verus!
