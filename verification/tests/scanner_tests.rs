use genshin_auto::pixel::{Frame, Rgba};
use genshin_auto::scanner::find_pixel_chat;
use genshin_auto::target::{default_registry, in_region, ColorRow, InputMode, RangeScale};

const WHITE: Rgba = Rgba { r: 0xFF, g: 0xFF, b: 0xFF, a: 0xFF };
const BLACK: Rgba = Rgba { r: 0x00, g: 0x00, b: 0x00, a: 0xFF };

fn reference_frame() -> Frame {
    Frame::new(2560, 1440, WHITE)
}

fn paint_run(frame: &mut Frame, x0: u32, y: u32, len: u32, color: Rgba) {
    let mut i = 0;
    while i < len {
        frame.set_pixel(x0 + i, y, color);
        i += 1;
    }
}

// A run long enough to push the adjacency counter past the third spec's
// threshold of 100 fires inside its region x in [1180, 1400), y in [1200, 1267).
#[test]
fn long_black_run_returns_third_spec() {
    let mut frame = reference_frame();
    paint_run(&mut frame, 1180, 1230, 102, BLACK);
    let r = find_pixel_chat(&frame, default_registry()).expect("run should satisfy third spec");
    assert_eq!(r.color, BLACK);
    assert_eq!(r.count, 100);
    assert!(matches!(r.mode, InputMode::Mouse));
    // The returned clone carries the incremented counter and the coordinates
    // of the match before the firing one.
    assert_eq!(r.n, 101);
    assert_eq!(r.last_y, 1230);
    assert_eq!(r.last_x, 1280);
}

// A run of threshold + 1 pixels yields only `count == threshold` adjacency
// increments, which does not exceed the threshold: no match.
#[test]
fn run_of_threshold_plus_one_is_not_enough() {
    let mut frame = reference_frame();
    paint_run(&mut frame, 1180, 1230, 101, BLACK);
    assert!(find_pixel_chat(&frame, default_registry()).is_none());
}

#[test]
fn short_black_run_returns_nothing() {
    let mut frame = reference_frame();
    paint_run(&mut frame, 1180, 1230, 99, BLACK);
    assert!(find_pixel_chat(&frame, default_registry()).is_none());
}

// The upper x bound 1400 is exclusive: a run whose tail would only satisfy
// the threshold by counting the pixel at x == 1400 does not match.
#[test]
fn region_upper_x_bound_is_exclusive() {
    let mut frame = reference_frame();
    paint_run(&mut frame, 1299, 1230, 102, BLACK);
    assert!(find_pixel_chat(&frame, default_registry()).is_none());
}

// The lower x bound 1180 is inclusive: the same run length starting exactly
// at the lower bound matches (see long_black_run_returns_third_spec).
// The upper y bound 1267 is exclusive: a row at y == 1267 never matches.
#[test]
fn region_upper_y_bound_is_exclusive() {
    let mut frame = reference_frame();
    paint_run(&mut frame, 1180, 1267, 102, BLACK);
    assert!(find_pixel_chat(&frame, default_registry()).is_none());
}

#[test]
fn in_region_bounds_are_half_open() {
    let t = default_registry()[2];
    assert!(in_region(&t, 2560, 1440, 1180, 1200));
    assert!(!in_region(&t, 2560, 1440, 1179, 1200));
    assert!(in_region(&t, 2560, 1440, 1399, 1266));
    assert!(!in_region(&t, 2560, 1440, 1400, 1266));
    assert!(!in_region(&t, 2560, 1440, 1399, 1267));
    assert!(!in_region(&t, 2560, 1440, 1399, 1199));
}

// Color matching is exact on all four channels: same RGB with another alpha
// never matches.
#[test]
fn alpha_difference_prevents_match() {
    let first_color_wrong_alpha = Rgba { r: 0x3B, g: 0x43, b: 0x54, a: 0xFE };
    let mut frame = reference_frame();
    paint_run(&mut frame, 240, 30, 200, first_color_wrong_alpha);
    assert!(find_pixel_chat(&frame, default_registry()).is_none());
}

#[test]
fn exact_color_matches() {
    let first_color = Rgba { r: 0x3B, g: 0x43, b: 0x54, a: 0xFF };
    let mut frame = reference_frame();
    paint_run(&mut frame, 240, 30, 200, first_color);
    let r = find_pixel_chat(&frame, default_registry()).expect("exact color should match");
    assert!(matches!(r.mode, InputMode::Keyboard));
    assert_eq!(r.count, 5);
}

// When two specs could both be satisfied in one frame, the one whose fire
// comes first in row-major traversal wins; only one result is returned.
#[test]
fn earliest_fire_in_traversal_order_wins() {
    let first_color = Rgba { r: 0x3B, g: 0x43, b: 0x54, a: 0xFF };
    let mut frame = reference_frame();
    paint_run(&mut frame, 1180, 1230, 200, BLACK);
    paint_run(&mut frame, 240, 30, 200, first_color);
    let r = find_pixel_chat(&frame, default_registry()).expect("both specs are satisfiable");
    assert!(matches!(r.mode, InputMode::Keyboard));
}

// Two specs firing on the same pixel: the one earlier in registry order is
// returned.
#[test]
fn registry_order_breaks_ties() {
    let region = RangeScale {
        x1_num: 100,
        x1_den: 10,
        y1_num: 100,
        y1_den: 10,
        x2_num: 100,
        x2_den: 90,
        y2_num: 100,
        y2_den: 90,
    };
    let a = ColorRow::new(BLACK, 3, region, InputMode::Keyboard);
    let b = ColorRow::new(BLACK, 3, region, InputMode::Mouse);
    let mut frame = Frame::new(100, 100, WHITE);
    paint_run(&mut frame, 20, 50, 10, BLACK);
    let r = find_pixel_chat(&frame, vec![a, b]).expect("both specs fire on the same pixel");
    assert!(matches!(r.mode, InputMode::Keyboard));
}

#[test]
fn empty_registry_returns_nothing() {
    let frame = Frame::new(64, 64, BLACK);
    assert!(find_pixel_chat(&frame, Vec::new()).is_none());
}

// Matching pixels scattered without horizontal adjacency never increment the
// counter enough: only adjacent same-row matches count.
#[test]
fn scattered_matches_do_not_fire() {
    let mut frame = reference_frame();
    let mut x = 1180;
    while x < 1400 {
        frame.set_pixel(x, 1230, BLACK);
        x += 2;
    }
    assert!(find_pixel_chat(&frame, default_registry()).is_none());
}

#[test]
fn registry_holds_the_three_fixed_signatures() {
    let v = default_registry();
    assert_eq!(v.len(), 3);
    assert_eq!(v[0].color, Rgba { r: 0x3B, g: 0x43, b: 0x54, a: 0xFF });
    assert_eq!(v[0].count, 5);
    assert!(matches!(v[0].mode, InputMode::Keyboard));
    assert_eq!(v[1].color, Rgba { r: 0x4A, g: 0x52, b: 0x65, a: 0xFF });
    assert_eq!(v[1].count, 50);
    assert!(matches!(v[1].mode, InputMode::Mouse));
    assert_eq!(v[2].color, BLACK);
    assert_eq!(v[2].count, 100);
    assert!(matches!(v[2].mode, InputMode::Mouse));
    for t in &v {
        assert_eq!(t.n, 0);
        assert_eq!(t.last_x, 0);
        assert_eq!(t.last_y, 0);
    }
    assert_eq!(v[2].range_scale.x1_num, 2560);
    assert_eq!(v[2].range_scale.x1_den, 1180);
    assert_eq!(v[2].range_scale.y2_num, 1440);
    assert_eq!(v[2].range_scale.y2_den, 1267);
}
