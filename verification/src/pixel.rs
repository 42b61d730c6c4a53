//! The pixel and frame model: an exact four-channel color and a row-major
//! RGBA buffer with its well-formedness invariant.

use vstd::prelude::*;

verus! {

/// One pixel: four 8-bit channels. Matching is exact on all four channels,
/// alpha included.
#[derive(Clone, Copy, PartialEq, Eq, Structural, Debug)]
pub struct Rgba {
    pub r: u8,
    pub g: u8,
    pub b: u8,
    pub a: u8,
}

/// A captured frame: `width * height` pixels, row-major (increasing x within
/// each row of increasing y).
pub struct Frame {
    width: u32,
    height: u32,
    data: Vec<Rgba>,
}

impl Frame {
    /// The buffer holds exactly one pixel per coordinate, and the pixel count
    /// fits a `u32` (a machine limit on capture sizes).
    pub closed spec fn wf(self) -> bool {
        &&& self.data@.len() == self.width * self.height
        &&& self.width * self.height <= u32::MAX
    }

    pub closed spec fn spec_width(self) -> u32 {
        self.width
    }

    pub closed spec fn spec_height(self) -> u32 {
        self.height
    }

    /// The pixel at (x, y), row-major.
    pub closed spec fn pix(self, x: int, y: int) -> Rgba {
        self.data@[y * self.width + x]
    }

    /// A well-formed frame's pixel count fits a `u32`.
    pub proof fn lemma_wf_dims(self)
        requires
            self.wf(),
        ensures
            self.spec_width() * self.spec_height() <= u32::MAX,
    {
    }

    pub fn width(&self) -> (r: u32)
        ensures
            r == self.spec_width(),
    {
        self.width
    }

    pub fn height(&self) -> (r: u32)
        ensures
            r == self.spec_height(),
    {
        self.height
    }

    /// A frame filled with one color.
    pub fn new(width: u32, height: u32, fill: Rgba) -> (r: Frame)
        requires
            width * height <= u32::MAX,
        ensures
            r.wf(),
            r.spec_width() == width,
            r.spec_height() == height,
            forall|x: int, y: int|
                0 <= x < width && 0 <= y < height ==> r.pix(x, y) == fill,
    {
        let total: usize = (width as usize) * (height as usize);
        let mut data: Vec<Rgba> = Vec::new();
        let mut i: usize = 0;
        while i < total
            invariant
                i <= total,
                data@.len() == i,
                forall|k: int| 0 <= k < i ==> data@[k] == fill,
            decreases total - i,
        {
            data.push(fill);
            i = i + 1;
        }
        let r = Frame { width, height, data };
        proof {
            assert forall|x: int, y: int|
                0 <= x < width && 0 <= y < height implies r.pix(x, y) == fill by {
                lemma_row_major_in_range(width as int, height as int, x, y);
            }
        }
        r
    }

    /// Overwrite the pixel at (x, y), leaving every other pixel unchanged.
    pub fn set_pixel(&mut self, x: u32, y: u32, c: Rgba)
        requires
            old(self).wf(),
            x < old(self).spec_width(),
            y < old(self).spec_height(),
        ensures
            final(self).wf(),
            final(self).spec_width() == old(self).spec_width(),
            final(self).spec_height() == old(self).spec_height(),
            final(self).pix(x as int, y as int) == c,
            forall|i: int, j: int|
                0 <= i < old(self).spec_width() && 0 <= j < old(self).spec_height()
                    && !(i == x && j == y) ==> final(self).pix(i, j) == old(self).pix(i, j),
    {
        proof {
            lemma_row_major_in_range(
                self.width as int,
                self.height as int,
                x as int,
                y as int,
            );
        }
        let idx: usize = (y as usize) * (self.width as usize) + (x as usize);
        self.data[idx] = c;
        proof {
            assert forall|i: int, j: int|
                0 <= i < old(self).spec_width() && 0 <= j < old(self).spec_height()
                    && !(i == x && j == y) implies final(self).pix(i, j) == old(self).pix(i, j) by {
                lemma_row_major_distinct(self.width as int, i, j, x as int, y as int);
                lemma_row_major_in_range(self.width as int, self.height as int, i, j);
            }
        }
    }

    /// Read the pixel at (x, y).
    pub fn pixel(&self, x: u32, y: u32) -> (r: Rgba)
        requires
            self.wf(),
            x < self.spec_width(),
            y < self.spec_height(),
        ensures
            r == self.pix(x as int, y as int),
    {
        proof {
            lemma_row_major_in_range(
                self.width as int,
                self.height as int,
                x as int,
                y as int,
            );
        }
        let idx: usize = (y as usize) * (self.width as usize) + (x as usize);
        self.data[idx]
    }
}

/// A row-major index of an in-range coordinate is in range of the buffer.
proof fn lemma_row_major_in_range(w: int, h: int, x: int, y: int)
    requires
        0 <= x < w,
        0 <= y < h,
    ensures
        0 <= y * w + x < w * h,
{
    assert(y * w + x < w * h) by (nonlinear_arith)
        requires
            0 <= x < w,
            0 <= y < h,
    ;
    assert(0 <= y * w) by (nonlinear_arith)
        requires
            0 <= y,
            0 <= w,
    ;
}

/// Distinct in-range coordinates have distinct row-major indices.
proof fn lemma_row_major_distinct(w: int, x1: int, y1: int, x2: int, y2: int)
    requires
        0 <= x1 < w,
        0 <= x2 < w,
        !(x1 == x2 && y1 == y2),
    ensures
        y1 * w + x1 != y2 * w + x2,
{
    assert(y1 * w + x1 != y2 * w + x2) by (nonlinear_arith)
        requires
            0 <= x1 < w,
            0 <= x2 < w,
            !(x1 == x2 && y1 == y2),
    ;
}

} // verus!
