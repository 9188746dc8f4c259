//! End-to-end tests of the generation pass.

use shape_field::color::{ColorInfo, Rgb};
use shape_field::fixed::FP_ONE;
use shape_field::generate::{generate, Settings, ShapeKind};
use shape_field::geom::{grid_positions, Point, Rect};
use shape_field::rng::MyRandom;

fn test_boundary() -> Rect {
    Rect { left: -4 * FP_ONE, right: 4 * FP_ONE, bottom: -3 * FP_ONE, top: 3 * FP_ONE }
}

fn base_settings() -> Settings {
    let mut s = Settings::default();
    s.grid_count_x = 4;
    s.grid_count_y = 3;
    s.rng_seed = 12345;
    s
}

#[test]
fn determinism_same_seed_same_output() {
    let settings = base_settings();
    let boundary = test_boundary();
    let a = generate(&settings, &boundary);
    let b = generate(&settings, &boundary);
    assert_eq!(a.len(), b.len());
    for (x, y) in a.iter().zip(b.iter()) {
        assert_eq!(x, y);
    }
}

#[test]
fn determinism_across_jittered_palettes() {
    let mut settings = base_settings();
    settings.circle_info.h_rnd = FP_ONE / 2;
    settings.circle_info.s_rnd = FP_ONE / 4;
    settings.circle_info.v_rnd = FP_ONE / 4;
    settings.square_info.h_rnd = FP_ONE;
    settings.inset_count = 4;
    settings.max_scale = 3 * FP_ONE;
    let boundary = test_boundary();
    let a = generate(&settings, &boundary);
    let b = generate(&settings, &boundary);
    assert_eq!(a, b);
}

#[test]
fn cell_coverage_single_inset() {
    let mut settings = base_settings();
    settings.inset_count = 1;
    let boundary = test_boundary();
    let out = generate(&settings, &boundary);
    assert_eq!(out.len(), 12);

    let mut emitted: Vec<(i64, i64)> = out.iter().map(|p| (p.center.x, p.center.y)).collect();
    let mut expected: Vec<(i64, i64)> = grid_positions(&boundary, 4, 3)
        .iter()
        .map(|p| (p.x, p.y))
        .collect();
    emitted.sort();
    expected.sort();
    assert_eq!(emitted, expected);
}

#[test]
fn grid_positions_concrete() {
    let boundary = Rect { left: 0, right: 4 * FP_ONE, bottom: 0, top: 2 * FP_ONE };
    let v = grid_positions(&boundary, 2, 1);
    assert_eq!(v.len(), 2);
    assert_eq!(v[0], Point { x: FP_ONE, y: FP_ONE });
    assert_eq!(v[1], Point { x: 3 * FP_ONE, y: FP_ONE });
}

#[test]
fn shuffle_two_positions_is_permutation_and_one_draw() {
    let boundary = Rect { left: 0, right: 2 * FP_ONE, bottom: 0, top: FP_ONE };
    let original = grid_positions(&boundary, 2, 1);
    for seed in 0..16u64 {
        let mut positions = grid_positions(&boundary, 2, 1);
        let mut rng = MyRandom::seed_from_u64(seed);
        shape_field::generate::shuffle(&mut positions, &mut rng);

        let mut got: Vec<(i64, i64)> = positions.iter().map(|p| (p.x, p.y)).collect();
        let mut expected: Vec<(i64, i64)> = original.iter().map(|p| (p.x, p.y)).collect();
        got.sort();
        expected.sort();
        assert_eq!(got, expected);

        // Exactly one draw was consumed: a twin source that makes one draw
        // by hand is at the same stream position afterwards.
        let mut twin = MyRandom::seed_from_u64(seed);
        let _ = twin.from_range(0, 1);
        assert_eq!(rng.from_range(0, 1_000_000), twin.from_range(0, 1_000_000));
    }
}

#[test]
fn palette_degenerate_yields_black_without_draws() {
    let info = ColorInfo {
        colors: [
            Rgb { r: FP_ONE, g: 0, b: 0 },
            Rgb { r: 0, g: FP_ONE, b: 0 },
            Rgb { r: 0, g: 0, b: FP_ONE },
            Rgb { r: FP_ONE, g: FP_ONE, b: 0 },
        ],
        enabled: [false, false, false, false],
        h_rnd: FP_ONE,
        s_rnd: FP_ONE,
        v_rnd: FP_ONE,
    };
    let mut rng = MyRandom::seed_from_u64(7);
    let c = info.pick_color(&mut rng);
    assert_eq!(c, (0, 0, 0));

    // No draw was consumed: the source is still at its seeded position.
    let mut twin = MyRandom::seed_from_u64(7);
    assert_eq!(rng.from_range(0, 1_000_000), twin.from_range(0, 1_000_000));
}

#[test]
fn no_jitter_single_slot_quantizes_directly() {
    let info = ColorInfo {
        colors: [
            Rgb { r: FP_ONE / 4, g: FP_ONE / 2, b: FP_ONE / 4 * 3 },
            Rgb { r: 0, g: 0, b: 0 },
            Rgb { r: 0, g: 0, b: 0 },
            Rgb { r: 0, g: 0, b: 0 },
        ],
        enabled: [true, false, false, false],
        h_rnd: 0,
        s_rnd: 0,
        v_rnd: 0,
    };
    let mut rng = MyRandom::seed_from_u64(99);
    let c = info.pick_color(&mut rng);
    // 0.25 * 255.9 = 63.975, 0.5 * 255.9 = 127.95, 0.75 * 255.9 = 191.925
    assert_eq!(c, (63, 127, 191));

    // Exactly the slot draw was consumed.
    let mut twin = MyRandom::seed_from_u64(99);
    let _ = twin.from_range(0, 1);
    assert_eq!(rng.from_range(0, 1_000_000), twin.from_range(0, 1_000_000));
}

#[test]
fn jittered_pick_consumes_slot_and_hue_draws() {
    let info = ColorInfo {
        colors: [
            Rgb { r: FP_ONE, g: FP_ONE / 2, b: 0 },
            Rgb { r: 0, g: 0, b: 0 },
            Rgb { r: 0, g: 0, b: 0 },
            Rgb { r: 0, g: 0, b: 0 },
        ],
        enabled: [true, false, false, false],
        h_rnd: FP_ONE / 2,
        s_rnd: 0,
        v_rnd: 0,
    };
    let mut rng = MyRandom::seed_from_u64(5);
    let _ = info.pick_color(&mut rng);

    // The slot draw and one hue draw were consumed, and nothing else.
    let mut twin = MyRandom::seed_from_u64(5);
    let _ = twin.from_range(0, 1);
    let _ = twin.get_float();
    assert_eq!(rng.from_range(0, 1_000_000), twin.from_range(0, 1_000_000));
}

#[test]
fn ring_count_draws_stay_in_bounds_and_reach_endpoints() {
    let mut rng = MyRandom::seed_from_u64(2024);
    let mut low_seen = false;
    let mut high_seen = false;
    for _ in 0..1000 {
        let r = rng.from_range(1, 6);
        assert!((1..=5).contains(&r));
        if r == 1 {
            low_seen = true;
        }
        if r == 5 {
            high_seen = true;
        }
    }
    assert!(low_seen && high_seen);
}

#[test]
fn ring_counts_in_generated_output() {
    let mut settings = base_settings();
    settings.inset_count = 5;
    settings.fixed_inset_count = false;
    let boundary = test_boundary();
    let out = generate(&settings, &boundary);
    // 12 cells, between one and five rings each.
    assert!(out.len() >= 12 && out.len() <= 60);

    // Rings of one cell share center and kind; count per center stays in bounds.
    let mut per_center: std::collections::BTreeMap<(i64, i64), usize> =
        std::collections::BTreeMap::new();
    for p in out.iter() {
        *per_center.entry((p.center.x, p.center.y)).or_insert(0) += 1;
    }
    assert_eq!(per_center.len(), 12);
    for (_, n) in per_center.iter() {
        assert!(*n >= 1 && *n <= 5);
    }
}

#[test]
fn single_cell_scenario_exact_output() {
    let red = Rgb { r: FP_ONE, g: 0, b: 0 };
    let black = Rgb { r: 0, g: 0, b: 0 };
    let square_info = ColorInfo {
        colors: [red, black, black, black],
        enabled: [true, false, false, false],
        h_rnd: 0,
        s_rnd: 0,
        v_rnd: 0,
    };
    let mut settings = Settings::default();
    settings.grid_count_x = 1;
    settings.grid_count_y = 1;
    settings.base_size = FP_ONE;
    settings.max_scale = FP_ONE;
    settings.pct_circles = 0;
    settings.alpha = 255;
    settings.inset_count = 1;
    settings.fixed_inset_count = true;
    settings.inversed_radii = true;
    settings.square_info = square_info;
    settings.rng_seed = 42;
    let boundary = Rect { left: -FP_ONE, right: FP_ONE, bottom: -FP_ONE, top: FP_ONE };
    let out = generate(&settings, &boundary);
    assert_eq!(out.len(), 1);
    let p = &out[0];
    assert_eq!(p.kind, ShapeKind::Square);
    assert_eq!(p.center, Point { x: 0, y: 0 });
    assert_eq!(p.size, 2 * FP_ONE);
    assert_eq!((p.red, p.green, p.blue), (255, 0, 0));
    assert_eq!(p.alpha, 255);

    // The outcome does not depend on the seed: no draw affects it.
    for seed in [0u64, 1, 7, 123456789] {
        settings.rng_seed = seed;
        let again = generate(&settings, &boundary);
        assert_eq!(again.len(), 1);
        assert_eq!(&again[0], p);
    }
}
