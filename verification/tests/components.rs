//! Unit tests of the individual components: random source, fixed-point
//! helpers, color conversions and geometry.

use shape_field::color::{hsv_to_rgb, quantize, rgb_to_hsv, ColorInfo, Rgb};
use shape_field::fixed::{fx_mul, FP_ONE};
use shape_field::generate::Settings;
use shape_field::geom::{quad_corners, Point};
use shape_field::rng::MyRandom;

#[test]
fn seeding_is_deterministic() {
    let mut a = MyRandom::seed_from_u64(77);
    let mut b = MyRandom::seed_from_u64(77);
    for _ in 0..32 {
        assert_eq!(a.from_range(0, 1_000_000_007), b.from_range(0, 1_000_000_007));
    }
}

#[test]
fn from_range_stays_in_bounds() {
    let mut rng = MyRandom::seed_from_u64(1);
    for _ in 0..500 {
        let r = rng.from_range(10, 17);
        assert!((10..17).contains(&r));
    }
}

#[test]
fn from_range_varies_with_the_stream() {
    // A draw over a wide range almost surely differs between positions of
    // the stream; a wrapper that ignored its source would fail this.
    let mut rng = MyRandom::seed_from_u64(3);
    let first = rng.from_range(0, u64::MAX - 1);
    let second = rng.from_range(0, u64::MAX - 1);
    assert_ne!(first, second);
}

#[test]
fn get_float_is_quantized_to_resolution() {
    let mut rng = MyRandom::seed_from_u64(4);
    for _ in 0..500 {
        let f = rng.get_float();
        assert!((0..FP_ONE).contains(&f));
    }
}

#[test]
fn fx_mul_concrete() {
    assert_eq!(fx_mul(FP_ONE, FP_ONE), FP_ONE);
    assert_eq!(fx_mul(FP_ONE / 2, FP_ONE / 2), FP_ONE / 4);
    assert_eq!(fx_mul(2 * FP_ONE, 3 * FP_ONE), 6 * FP_ONE);
    assert_eq!(fx_mul(0, 5 * FP_ONE), 0);
}

#[test]
fn quantize_concrete() {
    assert_eq!(quantize(0), 0);
    assert_eq!(quantize(FP_ONE), 255);
    assert_eq!(quantize(FP_ONE / 2), 127);
    assert_eq!(quantize(FP_ONE / 4), 63);
}

#[test]
fn rgb_to_hsv_primaries() {
    // Full red: hue 0, full saturation, full value.
    assert_eq!(rgb_to_hsv(Rgb { r: FP_ONE, g: 0, b: 0 }), (0, FP_ONE, FP_ONE));
    // Full green: hue 120 degrees.
    assert_eq!(rgb_to_hsv(Rgb { r: 0, g: FP_ONE, b: 0 }), (120 * FP_ONE, FP_ONE, FP_ONE));
    // Full blue: hue 240 degrees.
    assert_eq!(rgb_to_hsv(Rgb { r: 0, g: 0, b: FP_ONE }), (240 * FP_ONE, FP_ONE, FP_ONE));
    // Grey: no saturation, hue 0.
    assert_eq!(rgb_to_hsv(Rgb { r: FP_ONE / 2, g: FP_ONE / 2, b: FP_ONE / 2 }), (
        0,
        0,
        FP_ONE / 2,
    ));
}

#[test]
fn hsv_to_rgb_primaries() {
    assert_eq!(hsv_to_rgb(0, FP_ONE, FP_ONE), (FP_ONE, 0, 0));
    assert_eq!(hsv_to_rgb(120 * FP_ONE, FP_ONE, FP_ONE), (0, FP_ONE, 0));
    assert_eq!(hsv_to_rgb(240 * FP_ONE, FP_ONE, FP_ONE), (0, 0, FP_ONE));
    // Zero saturation keeps the value on all channels.
    assert_eq!(hsv_to_rgb(57 * FP_ONE, 0, FP_ONE / 2), (FP_ONE / 2, FP_ONE / 2, FP_ONE / 2));
}

#[test]
fn hsv_round_trip_on_primaries() {
    for c in [
        Rgb { r: FP_ONE, g: 0, b: 0 },
        Rgb { r: 0, g: FP_ONE, b: 0 },
        Rgb { r: 0, g: 0, b: FP_ONE },
        Rgb { r: FP_ONE, g: FP_ONE, b: 0 },
    ] {
        let (h, s, v) = rgb_to_hsv(c);
        let (r, g, b) = hsv_to_rgb(h, s, v);
        assert_eq!((r, g, b), (c.r, c.g, c.b));
    }
}

#[test]
fn negative_hue_is_normalized_by_conversion() {
    // A hue that jitter pushed below zero is taken one whole turn up.
    assert_eq!(hsv_to_rgb(-120 * FP_ONE, FP_ONE, FP_ONE), hsv_to_rgb(240 * FP_ONE, FP_ONE, FP_ONE));
}

#[test]
fn quad_corners_concrete() {
    let c = Point { x: 10 * FP_ONE, y: -2 * FP_ONE };
    let (v1, v2, v3, v4) = quad_corners(c, 4 * FP_ONE);
    assert_eq!(v1, Point { x: 12 * FP_ONE, y: 0 });
    assert_eq!(v2, Point { x: 12 * FP_ONE, y: -4 * FP_ONE });
    assert_eq!(v3, Point { x: 8 * FP_ONE, y: -4 * FP_ONE });
    assert_eq!(v4, Point { x: 8 * FP_ONE, y: 0 });
}

#[test]
fn default_settings_match_the_documented_session_start() {
    let s = Settings::default();
    assert_eq!(s.grid_count_x, 27);
    assert_eq!(s.grid_count_y, 20);
    assert_eq!(s.base_size, 70_000);
    assert_eq!(s.max_scale, FP_ONE);
    assert_eq!(s.pct_circles, FP_ONE / 2);
    assert_eq!(s.alpha, 255);
    assert_eq!(s.inset_count, 1);
    assert!(!s.fixed_inset_count);
    assert!(s.inversed_radii);
    // Red circle palette, blue square palette, single enabled slot each.
    assert_eq!(s.circle_info.colors[0], Rgb { r: FP_ONE, g: 0, b: 0 });
    assert_eq!(s.square_info.colors[0], Rgb { r: 0, g: 0, b: FP_ONE });
    assert_eq!(s.circle_info.enabled, [true, false, false, false]);
    assert_eq!(s.square_info.enabled, [true, false, false, false]);
}

#[test]
fn default_color_info_is_red_with_no_jitter() {
    let info = ColorInfo::default();
    assert_eq!(info.colors[0], Rgb { r: FP_ONE, g: 0, b: 0 });
    assert_eq!(info.enabled, [true, false, false, false]);
    assert_eq!(info.h_rnd, 0);
    assert_eq!(info.s_rnd, 0);
    assert_eq!(info.v_rnd, 0);
}
