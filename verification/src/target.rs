//! The signature registry: each recognizable dialog-advance pattern is an
//! exact color, a normalized bounding region, a required consecutive-run
//! threshold, and the synthetic input that advances it.

use vstd::prelude::*;
use crate::pixel::Rgba;

verus! {

/// Which synthetic input dismisses a detected dialog element.
#[derive(Clone, Copy, PartialEq, Eq, Structural, Debug)]
pub enum InputMode {
    Keyboard,
    Mouse,
}

/// The four region divisors, each stored as an exact ratio `num / den`.
///
/// For a frame of width `w` and height `h` the scan region is
/// `x in [w / (x1_num/x1_den), w / (x2_num/x2_den))` and likewise for `y`,
/// i.e. the stored numbers are divisors of the frame dimensions, not direct
/// fractions. Bounds are computed afresh from each frame's dimensions.
#[derive(Clone, Copy, PartialEq, Eq, Structural, Debug)]
pub struct RangeScale {
    pub x1_num: u32,
    pub x1_den: u32,
    pub y1_num: u32,
    pub y1_den: u32,
    pub x2_num: u32,
    pub x2_den: u32,
    pub y2_num: u32,
    pub y2_den: u32,
}

impl RangeScale {
    /// All divisor numerators are positive, so every bound is well defined.
    pub open spec fn wf(self) -> bool {
        &&& self.x1_num > 0
        &&& self.y1_num > 0
        &&& self.x2_num > 0
        &&& self.y2_num > 0
    }
}

/// One recognizable dialog-advance pattern together with its scan-local
/// state (`n`, `last_x`, `last_y`), which is meaningful only within a single
/// full-frame scan and is reinitialized before every scan.
#[derive(Clone, Copy, PartialEq, Eq, Structural, Debug)]
pub struct ColorRow {
    pub color: Rgba,
    pub count: u32,
    pub range_scale: RangeScale,
    pub mode: InputMode,
    pub n: u32,
    pub last_x: u32,
    pub last_y: u32,
}

/// Lower x bound of the scan region: `w / (x1_num/x1_den)`, truncated.
pub open spec fn x_lo(t: ColorRow, w: u32) -> int {
    (w * t.range_scale.x1_den) / (t.range_scale.x1_num as int)
}

/// Upper x bound of the scan region: `w / (x2_num/x2_den)`, truncated.
pub open spec fn x_hi(t: ColorRow, w: u32) -> int {
    (w * t.range_scale.x2_den) / (t.range_scale.x2_num as int)
}

/// Lower y bound of the scan region: `h / (y1_num/y1_den)`, truncated.
pub open spec fn y_lo(t: ColorRow, h: u32) -> int {
    (h * t.range_scale.y1_den) / (t.range_scale.y1_num as int)
}

/// Upper y bound of the scan region: `h / (y2_num/y2_den)`, truncated.
pub open spec fn y_hi(t: ColorRow, h: u32) -> int {
    (h * t.range_scale.y2_den) / (t.range_scale.y2_num as int)
}

/// (x, y) lies in the signature's region for a `w` by `h` frame: inclusive
/// at each lower bound, exclusive at each upper bound.
pub open spec fn spec_in_region(t: ColorRow, w: u32, h: u32, x: int, y: int) -> bool {
    &&& x_lo(t, w) <= x < x_hi(t, w)
    &&& y_lo(t, h) <= y < y_hi(t, h)
}

impl ColorRow {
    pub open spec fn wf(self) -> bool {
        self.range_scale.wf()
    }

    /// A fresh signature: the given pattern data with cleared scan state.
    pub fn new(color: Rgba, count: u32, range_scale: RangeScale, mode: InputMode) -> (r: ColorRow)
        ensures
            r.color == color,
            r.count == count,
            r.range_scale == range_scale,
            r.mode == mode,
            r.n == 0,
            r.last_x == 0,
            r.last_y == 0,
    {
        ColorRow { color, count, range_scale, mode, n: 0, last_x: 0, last_y: 0 }
    }
}

/// Decide whether (x, y) lies in `t`'s scan region for a `w` by `h` frame.
pub fn in_region(t: &ColorRow, w: u32, h: u32, x: u32, y: u32) -> (r: bool)
    requires
        t.wf(),
    ensures
        r == spec_in_region(*t, w, h, x as int, y as int),
{
    proof {
        lemma_u32_mul_fits_u64(w, t.range_scale.x1_den);
        lemma_u32_mul_fits_u64(w, t.range_scale.x2_den);
        lemma_u32_mul_fits_u64(h, t.range_scale.y1_den);
        lemma_u32_mul_fits_u64(h, t.range_scale.y2_den);
    }
    let xl: u64 = (w as u64) * (t.range_scale.x1_den as u64) / (t.range_scale.x1_num as u64);
    let xh: u64 = (w as u64) * (t.range_scale.x2_den as u64) / (t.range_scale.x2_num as u64);
    let yl: u64 = (h as u64) * (t.range_scale.y1_den as u64) / (t.range_scale.y1_num as u64);
    let yh: u64 = (h as u64) * (t.range_scale.y2_den as u64) / (t.range_scale.y2_num as u64);
    xl <= (x as u64) && (x as u64) < xh && yl <= (y as u64) && (y as u64) < yh
}

/// The product of two `u32` values fits a `u64`.
proof fn lemma_u32_mul_fits_u64(a: u32, b: u32)
    ensures
        0 <= (a as int) * (b as int) <= u64::MAX,
{
    assert(0 <= (a as int) * (b as int) <= u64::MAX) by (nonlinear_arith)
        requires
            0 <= a <= u32::MAX,
            0 <= b <= u32::MAX,
    ;
}

/// The three shipped signatures, in registry order.
pub open spec fn spec_registry() -> Seq<ColorRow> {
    seq![
        (ColorRow {
            color: Rgba { r: 0x3B, g: 0x43, b: 0x54, a: 255 },
            count: 5,
            range_scale: RangeScale {
                x1_num: 2560, x1_den: 240,
                y1_num: 1440, y1_den: 19,
                x2_num: 2560, x2_den: 440,
                y2_num: 1440, y2_den: 89,
            },
            mode: InputMode::Keyboard,
            n: 0,
            last_x: 0,
            last_y: 0,
        }),
        (ColorRow {
            color: Rgba { r: 0x4A, g: 0x52, b: 0x65, a: 255 },
            count: 50,
            range_scale: RangeScale {
                x1_num: 2560, x1_den: 1156,
                y1_num: 1440, y1_den: 883,
                x2_num: 2560, x2_den: 1404,
                y2_num: 1440, y2_den: 925,
            },
            mode: InputMode::Mouse,
            n: 0,
            last_x: 0,
            last_y: 0,
        }),
        (ColorRow {
            color: Rgba { r: 0x00, g: 0x00, b: 0x00, a: 255 },
            count: 100,
            range_scale: RangeScale {
                x1_num: 2560, x1_den: 1180,
                y1_num: 1440, y1_den: 1200,
                x2_num: 2560, x2_den: 1400,
                y2_num: 1440, y2_den: 1267,
            },
            mode: InputMode::Mouse,
            n: 0,
            last_x: 0,
            last_y: 0,
        }),
    ]
}

/// Build the registry afresh: fixed pattern data, cleared scan state.
pub fn default_registry() -> (v: Vec<ColorRow>)
    ensures
        v@ == spec_registry(),
        v@.len() == 3,
        forall|j: int| 0 <= j < v@.len() ==> (#[trigger] v@[j]).wf() && v@[j].n == 0,
{
    let mut v: Vec<ColorRow> = Vec::new();
    v.push(ColorRow::new(
        Rgba { r: 0x3B, g: 0x43, b: 0x54, a: 255 },
        5,
        RangeScale {
            x1_num: 2560, x1_den: 240,
            y1_num: 1440, y1_den: 19,
            x2_num: 2560, x2_den: 440,
            y2_num: 1440, y2_den: 89,
        },
        InputMode::Keyboard,
    ));
    v.push(ColorRow::new(
        Rgba { r: 0x4A, g: 0x52, b: 0x65, a: 255 },
        50,
        RangeScale {
            x1_num: 2560, x1_den: 1156,
            y1_num: 1440, y1_den: 883,
            x2_num: 2560, x2_den: 1404,
            y2_num: 1440, y2_den: 925,
        },
        InputMode::Mouse,
    ));
    v.push(ColorRow::new(
        Rgba { r: 0x00, g: 0x00, b: 0x00, a: 255 },
        100,
        RangeScale {
            x1_num: 2560, x1_den: 1180,
            y1_num: 1440, y1_den: 1200,
            x2_num: 2560, x2_den: 1400,
            y2_num: 1440, y2_den: 1267,
        },
        InputMode::Mouse,
    ));
    proof {
        assert(v@ =~= spec_registry());
    }
    v
}

/// A region boundary is inclusive below and exclusive above: a pixel exactly
/// at an upper bound, or just under a lower bound, is outside the region.
pub proof fn lemma_region_boundaries(t: ColorRow, w: u32, h: u32, x: int, y: int)
    ensures
        spec_in_region(t, w, h, x, y) <==> (x_lo(t, w) <= x && x < x_hi(t, w) && y_lo(t, h) <= y
            && y < y_hi(t, h)),
        x == x_hi(t, w) ==> !spec_in_region(t, w, h, x, y),
        y == y_hi(t, h) ==> !spec_in_region(t, w, h, x, y),
        x == x_lo(t, w) - 1 ==> !spec_in_region(t, w, h, x, y),
        y == y_lo(t, h) - 1 ==> !spec_in_region(t, w, h, x, y),
{
}

} // verus!
