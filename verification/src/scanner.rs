//! The frame scanner: a single row-major pass over a captured frame that
//! returns the first signature whose consecutive-run condition is satisfied
//! inside its region, or nothing.
//!
//! The specification models the pass exactly: each signature carries a
//! scan-local state (run counter and last-match coordinates) that evolves
//! pixel by pixel, and the scan returns at the earliest position, and there
//! at the lowest registry index, where a counter first exceeds its
//! threshold.

use vstd::prelude::*;
use crate::pixel::{Frame, Rgba};
use crate::target::{ColorRow, spec_in_region};

verus! {

/// The pixel color equals the signature color on all four channels.
pub open spec fn color_match(t: ColorRow, c: Rgba) -> bool {
    t.color == c
}

/// The pixel at (x, y) matches `t`: exact color, inside `t`'s region.
pub open spec fn pixel_hit(t: ColorRow, fr: Frame, x: int, y: int) -> bool {
    &&& color_match(t, fr.pix(x, y))
    &&& spec_in_region(t, fr.spec_width(), fr.spec_height(), x, y)
}

/// (x, y) is immediately to the right of `t`'s last recorded match.
pub open spec fn adjacent(t: ColorRow, x: int, y: int) -> bool {
    t.last_y == y && t.last_x + 1 == x
}

/// How one signature's scan state evolves over the pixel at (x, y): a match
/// increments the run counter only when adjacent, and records the match
/// coordinates unconditionally; a non-match changes nothing.
pub open spec fn scan_step(t: ColorRow, fr: Frame, x: int, y: int) -> ColorRow {
    if pixel_hit(t, fr, x, y) {
        ColorRow {
            n: if adjacent(t, x, y) { (t.n + 1) as u32 } else { t.n },
            last_x: x as u32,
            last_y: y as u32,
            ..t
        }
    } else {
        t
    }
}

/// `t`'s scan state after every pixel strictly before (x, y) in row-major
/// order, starting from `t` itself; `x` ranges over `0 ..= width`, with
/// (y, width) equivalent to (y + 1, 0).
pub open spec fn state_at(t: ColorRow, fr: Frame, y: int, x: int) -> ColorRow
    decreases y, x,
{
    if y <= 0 && x <= 0 {
        t
    } else if x <= 0 {
        state_at(t, fr, y - 1, fr.spec_width() as int)
    } else {
        scan_step(state_at(t, fr, y, x - 1), fr, x - 1, y)
    }
}

/// Processing the pixel at (x, y) pushes `t`'s run counter past its
/// threshold, which ends the scan.
pub open spec fn fires(t: ColorRow, fr: Frame, x: int, y: int) -> bool {
    &&& pixel_hit(t, fr, x, y)
    &&& adjacent(t, x, y)
    &&& t.n + 1 > t.count
}

/// The signature whose scan starts from `t` fires on the pixel at (x, y).
pub open spec fn fires_at(t: ColorRow, fr: Frame, y: int, x: int) -> bool {
    fires(state_at(t, fr, y, x), fr, x, y)
}

/// The value the scan returns when a signature fires: the run counter
/// incremented, the last-match coordinates still those of the previous
/// match.
pub open spec fn fired_value(t: ColorRow) -> ColorRow {
    ColorRow { n: (t.n + 1) as u32, ..t }
}

/// (y1, x1) comes strictly before (y2, x2) in row-major order.
pub open spec fn pos_before(y1: int, x1: int, y2: int, x2: int) -> bool {
    y1 < y2 || (y1 == y2 && x1 < x2)
}

/// (x, y) is a pixel coordinate of the frame.
pub open spec fn valid_pos(fr: Frame, y: int, x: int) -> bool {
    0 <= y < fr.spec_height() && 0 <= x < fr.spec_width()
}

/// No signature of `ts` ever fires anywhere on the frame.
pub open spec fn no_fire(ts: Seq<ColorRow>, fr: Frame) -> bool {
    forall|y: int, x: int, j: int|
        valid_pos(fr, y, x) && 0 <= j < ts.len() ==> !(#[trigger] fires_at(ts[j], fr, y, x))
}

/// Signature `j` fires at (y, x), no signature fires at any earlier
/// position, and no lower-indexed signature fires at the same position:
/// the unique point at which the scan returns.
pub open spec fn is_winning_fire(ts: Seq<ColorRow>, fr: Frame, y: int, x: int, j: int) -> bool {
    &&& valid_pos(fr, y, x)
    &&& 0 <= j < ts.len()
    &&& fires_at(ts[j], fr, y, x)
    &&& forall|y2: int, x2: int, j2: int|
        valid_pos(fr, y2, x2) && 0 <= j2 < ts.len() && pos_before(y2, x2, y, x)
            ==> !(#[trigger] fires_at(ts[j2], fr, y2, x2))
    &&& forall|j2: int| 0 <= j2 < j ==> !(#[trigger] fires_at(ts[j2], fr, y, x))
}

/// A scan step never changes a signature's pattern data, only its scan
/// state.
proof fn lemma_state_static(t: ColorRow, fr: Frame, y: int, x: int)
    ensures
        state_at(t, fr, y, x).color == t.color,
        state_at(t, fr, y, x).count == t.count,
        state_at(t, fr, y, x).range_scale == t.range_scale,
        state_at(t, fr, y, x).mode == t.mode,
    decreases y, x,
{
    if y <= 0 && x <= 0 {
    } else if x <= 0 {
        lemma_state_static(t, fr, y - 1, fr.spec_width() as int);
    } else {
        lemma_state_static(t, fr, y, x - 1);
    }
}

/// The run counter grows by at most one per processed pixel.
proof fn lemma_n_bound(t: ColorRow, fr: Frame, y: int, x: int)
    requires
        0 <= y,
        0 <= x <= fr.spec_width(),
    ensures
        state_at(t, fr, y, x).n <= t.n + y * fr.spec_width() + x,
    decreases y, x,
{
    let w = fr.spec_width() as int;
    if y <= 0 && x <= 0 {
    } else if x <= 0 {
        lemma_n_bound(t, fr, y - 1, w);
        assert((y - 1) * w + w == y * w) by (nonlinear_arith);
    } else {
        lemma_n_bound(t, fr, y, x - 1);
    }
}

/// Number of pixels strictly before (y, x) in row-major order that match
/// `t`'s color inside `t`'s region.
pub open spec fn hit_count(t: ColorRow, fr: Frame, y: int, x: int) -> int
    decreases y, x,
{
    if y <= 0 && x <= 0 {
        0
    } else if x <= 0 {
        hit_count(t, fr, y - 1, fr.spec_width() as int)
    } else {
        hit_count(t, fr, y, x - 1) + if pixel_hit(t, fr, x - 1, y) {
            1int
        } else {
            0int
        }
    }
}

/// Number of matching pixels on the whole frame.
pub open spec fn total_hits(t: ColorRow, fr: Frame) -> int {
    hit_count(t, fr, fr.spec_height() as int, 0)
}

/// Whether a pixel matches depends only on the signature's pattern data,
/// never on its scan state.
proof fn lemma_hit_static(t1: ColorRow, t2: ColorRow, fr: Frame, x: int, y: int)
    requires
        t1.color == t2.color,
        t1.range_scale == t2.range_scale,
    ensures
        pixel_hit(t1, fr, x, y) == pixel_hit(t2, fr, x, y),
{
}

/// The run counter never exceeds the initial counter plus the number of
/// matching pixels seen so far.
proof fn lemma_n_hit_bound(t: ColorRow, fr: Frame, y: int, x: int)
    requires
        0 <= y,
        0 <= x <= fr.spec_width(),
    ensures
        state_at(t, fr, y, x).n <= t.n + hit_count(t, fr, y, x),
    decreases y, x,
{
    if y <= 0 && x <= 0 {
    } else if x <= 0 {
        lemma_n_hit_bound(t, fr, y - 1, fr.spec_width() as int);
    } else {
        lemma_n_hit_bound(t, fr, y, x - 1);
        lemma_state_static(t, fr, y, x - 1);
        lemma_hit_static(state_at(t, fr, y, x - 1), t, fr, x - 1, y);
    }
}

/// Counted matches only accumulate along the traversal.
proof fn lemma_hit_mono(t: ColorRow, fr: Frame, y1: int, x1: int, y2: int, x2: int)
    requires
        0 <= y1,
        0 <= x1 <= fr.spec_width(),
        0 <= y2,
        0 <= x2 <= fr.spec_width(),
        !pos_before(y2, x2, y1, x1),
    ensures
        hit_count(t, fr, y1, x1) <= hit_count(t, fr, y2, x2),
    decreases y2, x2,
{
    if y1 == y2 && x1 == x2 {
    } else if x2 <= 0 {
        lemma_hit_mono(t, fr, y1, x1, y2 - 1, fr.spec_width() as int);
    } else {
        lemma_hit_mono(t, fr, y1, x1, y2, x2 - 1);
    }
}

/// A signature that fires was seen, up to and including the firing pixel, on
/// strictly more matching pixels than its threshold: `count` matching pixels
/// alone can never trigger it.
pub proof fn lemma_fire_needs_excess_hits(t: ColorRow, fr: Frame, y: int, x: int)
    requires
        fr.wf(),
        t.n == 0,
        valid_pos(fr, y, x),
        fires_at(t, fr, y, x),
    ensures
        hit_count(t, fr, y, x) >= t.count,
        pixel_hit(t, fr, x, y),
        hit_count(t, fr, y, x + 1) > t.count,
{
    lemma_n_hit_bound(t, fr, y, x);
    lemma_state_static(t, fr, y, x);
    lemma_hit_static(state_at(t, fr, y, x), t, fr, x, y);
}

/// A frame with at most `count` matching pixels for `t` never makes `t`
/// fire, anywhere.
pub proof fn lemma_threshold_pixels_never_fire(t: ColorRow, fr: Frame)
    requires
        fr.wf(),
        t.n == 0,
        total_hits(t, fr) <= t.count,
    ensures
        forall|y: int, x: int| valid_pos(fr, y, x) ==> !(#[trigger] fires_at(t, fr, y, x)),
{
    assert forall|y: int, x: int| valid_pos(fr, y, x) implies !(#[trigger] fires_at(
        t,
        fr,
        y,
        x,
    )) by {
        if fires_at(t, fr, y, x) {
            lemma_fire_needs_excess_hits(t, fr, y, x);
            lemma_hit_mono(t, fr, y, x + 1, fr.spec_height() as int, 0);
        }
    }
}

/// The matching pixels of `t` on the frame are exactly `len` consecutive
/// pixels of one row, starting at (x0, y0).
pub open spec fn single_run(t: ColorRow, fr: Frame, x0: int, y0: int, len: int) -> bool {
    &&& valid_pos(fr, y0, x0)
    &&& 1 <= len
    &&& x0 + len <= fr.spec_width()
    &&& forall|x: int, y: int|
        valid_pos(fr, y, x) ==> (#[trigger] pixel_hit(t, fr, x, y) <==> (y == y0 && x0 <= x < x0
            + len))
}

/// How many pixels of the run lie strictly before (y, x) in the traversal.
pub open spec fn run_processed(x0: int, y0: int, len: int, y: int, x: int) -> int {
    if y > y0 {
        len
    } else if y < y0 {
        0
    } else if x - x0 > len {
        len
    } else if x - x0 < 0 {
        0
    } else {
        x - x0
    }
}

/// Along a single-run frame the scan state is fully determined: after `k`
/// processed run pixels the counter reads `k - 1` (the first pixel of the
/// run cannot be adjacent to anything) and the last match is the run's
/// `k`-th pixel.
proof fn lemma_single_run_state(t: ColorRow, fr: Frame, x0: int, y0: int, len: int, y: int, x: int)
    requires
        fr.wf(),
        t.n == 0,
        t.last_x == 0,
        t.last_y == 0,
        single_run(t, fr, x0, y0, len),
        !(y0 == 0 && x0 == 1),
        0 <= y <= fr.spec_height(),
        0 <= x <= fr.spec_width(),
        y == fr.spec_height() ==> x == 0,
    ensures
        state_at(t, fr, y, x) == if run_processed(x0, y0, len, y, x) >= 1 {
            ColorRow {
                n: (run_processed(x0, y0, len, y, x) - 1) as u32,
                last_x: (x0 + run_processed(x0, y0, len, y, x) - 1) as u32,
                last_y: y0 as u32,
                ..t
            }
        } else {
            t
        },
    decreases y, x,
{
    let w = fr.spec_width() as int;
    if y <= 0 && x <= 0 {
    } else if x <= 0 {
        lemma_single_run_state(t, fr, x0, y0, len, y - 1, w);
        assert(run_processed(x0, y0, len, y - 1, w) == run_processed(x0, y0, len, y, 0));
    } else {
        lemma_single_run_state(t, fr, x0, y0, len, y, x - 1);
        let prev = state_at(t, fr, y, x - 1);
        let kp = run_processed(x0, y0, len, y, x - 1);
        if pixel_hit(t, fr, x - 1, y) {
            assert(valid_pos(fr, y, x - 1));
            assert(y == y0 && x0 <= x - 1 < x0 + len);
            assert(kp == x - 1 - x0);
            if kp >= 1 {
                assert(adjacent(prev, x - 1, y));
            } else {
                assert(prev == t);
                assert(!adjacent(prev, x - 1, y));
            }
        } else {
            if 0 <= y < fr.spec_height() && 0 <= x - 1 < fr.spec_width() {
                assert(!(y == y0 && x0 <= x - 1 < x0 + len));
            } else {
                assert(y == y0 ==> x - 1 >= fr.spec_width());
            }
            assert(run_processed(x0, y0, len, y, x) == kp);
        }
    }
}

/// On a frame whose matching pixels for `t` form one consecutive same-row
/// run, the signature fires somewhere iff the run is longer than
/// `count + 1`: at least `count + 1` consecutive same-row adjacent matching
/// pixels must be observed before any fire, and `count` of them alone can
/// never trigger one.
pub proof fn lemma_single_run_threshold(t: ColorRow, fr: Frame, x0: int, y0: int, len: int)
    requires
        fr.wf(),
        t.n == 0,
        t.last_x == 0,
        t.last_y == 0,
        single_run(t, fr, x0, y0, len),
        !(y0 == 0 && x0 == 1),
    ensures
        (exists|y: int, x: int| valid_pos(fr, y, x) && #[trigger] fires_at(t, fr, y, x)) <==> len
            > t.count + 1,
{
    if len > t.count + 1 {
        let xf = x0 + t.count + 1;
        lemma_single_run_state(t, fr, x0, y0, len, y0, xf);
        assert(run_processed(x0, y0, len, y0, xf) == t.count + 1);
        assert(pixel_hit(t, fr, xf, y0));
        assert(fires_at(t, fr, y0, xf));
        assert(valid_pos(fr, y0, xf));
    }
    if exists|y: int, x: int| valid_pos(fr, y, x) && #[trigger] fires_at(t, fr, y, x) {
        let (y, x) = choose|y: int, x: int|
            valid_pos(fr, y, x) && #[trigger] fires_at(t, fr, y, x);
        lemma_single_run_state(t, fr, x0, y0, len, y, x);
        let k = run_processed(x0, y0, len, y, x);
        let s = state_at(t, fr, y, x);
        assert(pixel_hit(t, fr, x, y));
        assert(y == y0 && x0 <= x < x0 + len);
        if k < 1 {
            assert(s == t);
            assert(!adjacent(s, x, y));
        } else {
            assert(adjacent(s, x, y) ==> x == x0 + k);
            assert(s.n + 1 > t.count ==> k > t.count);
            assert(x < x0 + len);
        }
    }
}

/// At most one winning fire exists per scan: the scan returns at most one
/// signature, the one satisfied earliest in traversal order, ties going to
/// the first in registry order.
pub proof fn lemma_winning_fire_unique(
    ts: Seq<ColorRow>,
    fr: Frame,
    y1: int,
    x1: int,
    j1: int,
    y2: int,
    x2: int,
    j2: int,
)
    requires
        is_winning_fire(ts, fr, y1, x1, j1),
        is_winning_fire(ts, fr, y2, x2, j2),
    ensures
        y1 == y2,
        x1 == x2,
        j1 == j2,
{
    if pos_before(y1, x1, y2, x2) {
        assert(!fires_at(ts[j1], fr, y1, x1));
    } else if pos_before(y2, x2, y1, x1) {
        assert(!fires_at(ts[j2], fr, y2, x2));
    } else {
        if j1 < j2 {
            assert(!fires_at(ts[j1], fr, y1, x1));
        } else if j2 < j1 {
            assert(!fires_at(ts[j2], fr, y2, x2));
        }
    }
}

/// A scan starting from fresh state can only return a signature that
/// matched on strictly more pixels of the frame than its threshold.
pub proof fn lemma_winning_fire_needs_matches(ts: Seq<ColorRow>, fr: Frame, y: int, x: int, j: int)
    requires
        fr.wf(),
        is_winning_fire(ts, fr, y, x, j),
        ts[j].n == 0,
    ensures
        total_hits(ts[j], fr) > ts[j].count,
{
    lemma_fire_needs_excess_hits(ts[j], fr, y, x);
    lemma_hit_mono(ts[j], fr, y, x + 1, fr.spec_height() as int, 0);
}

/// Color matching is exact on all four channels: a pixel identical in the
/// three color channels but differing in alpha does not match.
pub proof fn lemma_alpha_mismatch(t: ColorRow, c: Rgba)
    requires
        t.color.r == c.r,
        t.color.g == c.g,
        t.color.b == c.b,
        t.color.a != c.a,
    ensures
        !color_match(t, c),
{
}

/// A pixel outside the signature's region leaves the scan state unchanged
/// and can never fire, whatever its color.
pub proof fn lemma_outside_region_no_effect(t: ColorRow, fr: Frame, x: int, y: int)
    requires
        !spec_in_region(t, fr.spec_width(), fr.spec_height(), x, y),
    ensures
        scan_step(t, fr, x, y) == t,
        !fires(t, fr, x, y),
{
}

/// Scan the frame for the first satisfied signature.
///
/// Returns `Some` exactly when some signature fires somewhere on the frame,
/// and then the returned value is the fired state of the earliest fire in
/// row-major traversal order, ties going to the lowest registry index.
/// Scan state must be fresh (`n == 0`): it is never carried across frames.
#[verifier::loop_isolation(false)]
pub fn find_pixel_chat(image: &Frame, target_all: Vec<ColorRow>) -> (r: Option<ColorRow>)
    requires
        image.wf(),
        forall|j: int|
            0 <= j < target_all@.len() ==> (#[trigger] target_all@[j]).wf() && target_all@[j].n
                == 0,
    ensures
        match r {
            Some(c) => exists|y: int, x: int, j: int|
                #[trigger] is_winning_fire(target_all@, *image, y, x, j)
                && c == fired_value(state_at(target_all@[j], *image, y, x)),
            None => no_fire(target_all@, *image),
        },
{
    let ghost orig = target_all@;
    let ghost fr = *image;
    let w = image.width();
    let h = image.height();
    let mut target_all = target_all;
    let mut y: u32 = 0;
    while y < h
        invariant
            image.wf(),
            *image == fr,
            w == fr.spec_width(),
            h == fr.spec_height(),
            y <= h,
            target_all@.len() == orig.len(),
            forall|j: int|
                0 <= j < orig.len() ==> (#[trigger] orig[j]).wf() && orig[j].n == 0,
            forall|j: int|
                0 <= j < orig.len() ==> #[trigger] target_all@[j] == state_at(
                    orig[j],
                    fr,
                    y as int,
                    0,
                ),
            forall|y2: int, x2: int, j: int|
                valid_pos(fr, y2, x2) && 0 <= j < orig.len() && pos_before(y2, x2, y as int, 0)
                    ==> !(#[trigger] fires_at(orig[j], fr, y2, x2)),
        decreases h - y,
    {
        let mut x: u32 = 0;
        while x < w
            invariant
                image.wf(),
                *image == fr,
                w == fr.spec_width(),
                h == fr.spec_height(),
                y < h,
                x <= w,
                target_all@.len() == orig.len(),
                forall|j: int|
                    0 <= j < orig.len() ==> (#[trigger] orig[j]).wf() && orig[j].n == 0,
                forall|j: int|
                    0 <= j < orig.len() ==> #[trigger] target_all@[j] == state_at(
                        orig[j],
                        fr,
                        y as int,
                        x as int,
                    ),
                forall|y2: int, x2: int, j: int|
                    valid_pos(fr, y2, x2) && 0 <= j < orig.len() && pos_before(
                        y2,
                        x2,
                        y as int,
                        x as int,
                    ) ==> !(#[trigger] fires_at(orig[j], fr, y2, x2)),
            decreases w - x,
        {
            let px = image.pixel(x, y);
            let mut j: usize = 0;
            while j < target_all.len()
                invariant
                    image.wf(),
                    *image == fr,
                    w == fr.spec_width(),
                    h == fr.spec_height(),
                    y < h,
                    x < w,
                    j <= target_all@.len(),
                    px == fr.pix(x as int, y as int),
                    target_all@.len() == orig.len(),
                    forall|j2: int|
                        0 <= j2 < orig.len() ==> (#[trigger] orig[j2]).wf() && orig[j2].n == 0,
                    forall|j2: int|
                        j <= j2 < orig.len() ==> #[trigger] target_all@[j2] == state_at(
                            orig[j2],
                            fr,
                            y as int,
                            x as int,
                        ),
                    forall|j2: int|
                        0 <= j2 < j ==> #[trigger] target_all@[j2] == state_at(
                            orig[j2],
                            fr,
                            y as int,
                            x as int + 1,
                        ),
                    forall|j2: int|
                        0 <= j2 < j ==> !(#[trigger] fires_at(orig[j2], fr, y as int, x as int)),
                    forall|y2: int, x2: int, j2: int|
                        valid_pos(fr, y2, x2) && 0 <= j2 < orig.len() && pos_before(
                            y2,
                            x2,
                            y as int,
                            x as int,
                        ) ==> !(#[trigger] fires_at(orig[j2], fr, y2, x2)),
                decreases target_all@.len() - j,
            {
                let t = target_all[j];
                proof {
                    lemma_state_static(orig[j as int], fr, y as int, x as int);
                }
                if t.color == px && crate::target::in_region(&t, w, h, x, y) {
                    let mut t2 = t;
                    let adj = t.last_y == y && (t.last_x as u64) + 1 == (x as u64);
                    if adj {
                        proof {
                            lemma_n_bound(orig[j as int], fr, y as int, x as int);
                            assert((y as int) * (w as int) + (x as int) < (h as int) * (
                            w as int)) by (nonlinear_arith)
                                requires
                                    0 <= y < h,
                                    0 <= x < w,
                            ;
                            assert((h as int) * (w as int) == (w as int) * (h as int));
                            fr.lemma_wf_dims();
                            assert(t.n + 1 <= u32::MAX);
                        }
                        t2.n = t.n + 1;
                        if t2.n > t.count {
                            proof {
                                assert(fires_at(orig[j as int], fr, y as int, x as int));
                                assert(is_winning_fire(orig, fr, y as int, x as int, j as int));
                                assert(t2 == fired_value(
                                    state_at(orig[j as int], fr, y as int, x as int),
                                ));
                            }
                            return Some(t2);
                        }
                    }
                    t2.last_y = y;
                    t2.last_x = x;
                    target_all[j] = t2;
                    proof {
                        assert(target_all@[j as int] == scan_step(t, fr, x as int, y as int));
                    }
                } else {
                    proof {
                        assert(!pixel_hit(t, fr, x as int, y as int));
                        assert(target_all@[j as int] == scan_step(t, fr, x as int, y as int));
                    }
                }
                proof {
                    assert(state_at(orig[j as int], fr, y as int, x as int + 1) == scan_step(
                        t,
                        fr,
                        x as int,
                        y as int,
                    ));
                    assert(!fires_at(orig[j as int], fr, y as int, x as int));
                }
                j = j + 1;
            }
            proof {
                assert forall|y2: int, x2: int, j2: int|
                    valid_pos(fr, y2, x2) && 0 <= j2 < orig.len() && pos_before(
                        y2,
                        x2,
                        y as int,
                        x as int + 1,
                    ) implies !(#[trigger] fires_at(orig[j2], fr, y2, x2)) by {
                    if pos_before(y2, x2, y as int, x as int) {
                    } else {
                        assert(y2 == y as int && x2 == x as int);
                    }
                }
            }
            x = x + 1;
        }
        proof {
            assert forall|j: int| 0 <= j < orig.len() implies #[trigger] target_all@[j]
                == state_at(orig[j], fr, y as int + 1, 0) by {
                assert(state_at(orig[j], fr, y as int + 1, 0) == state_at(
                    orig[j],
                    fr,
                    y as int,
                    w as int,
                ));
            }
            assert forall|y2: int, x2: int, j: int|
                valid_pos(fr, y2, x2) && 0 <= j < orig.len() && pos_before(
                    y2,
                    x2,
                    y as int + 1,
                    0,
                ) implies !(#[trigger] fires_at(orig[j], fr, y2, x2)) by {
                assert(pos_before(y2, x2, y as int, w as int));
            }
        }
        y = y + 1;
    }
    proof {
        assert forall|y2: int, x2: int, j: int|
            valid_pos(fr, y2, x2) && 0 <= j < orig.len() implies !(#[trigger] fires_at(
            orig[j],
            fr,
            y2,
            x2,
        )) by {
            assert(pos_before(y2, x2, h as int, 0));
        }
    }
    None
}

} // verus!
