//! The general laws of the generator, each stated over the specification
//! functions that the executable contracts pin, and proved once for all
//! inputs.

use vstd::prelude::*;
use crate::color::{ColorInfo, Rgb, enabled_seq, spec_pick_color, spec_quantize_rgb};
use crate::fixed::FP_ONE;
use crate::generate::{
    Primitive,
    Settings,
    ShapeKind,
    spec_cell,
    spec_cells,
    spec_generate,
    spec_rings,
    spec_shuffle,
    spec_shuffle_from,
};
use crate::geom::{Point, Rect, spec_grid};
use crate::rng::range_draw;

verus! {

/// Determinism: for a fixed seed and fixed settings, two generation passes
/// over the same boundary yield the same primitive sequence.
pub proof fn lemma_generate_deterministic(
    s1: Seq<Primitive>,
    s2: Seq<Primitive>,
    settings: Settings,
    rect: Rect,
)
    requires
        s1 == spec_generate(settings, rect),
        s2 == spec_generate(settings, rect),
    ensures
        s1 == s2,
{
}

/// One shuffle step preserves the multiset of positions.
proof fn lemma_swap_preserves_multiset(s: Seq<Point>, i: int, j: int)
    requires
        0 <= i < s.len(),
        0 <= j < s.len(),
    ensures
        s.update(i, s[j]).update(j, s[i]).to_multiset() == s.to_multiset(),
{
    broadcast use vstd::seq_lib::group_to_multiset_ensures;
    broadcast use vstd::seq_lib::to_multiset_update;

    let s1 = s.update(i, s[j]);
    let s2 = s1.update(j, s[i]);
    assert(s.to_multiset().count(s[i]) > 0);
    assert(s.to_multiset().count(s[j]) > 0);
    if i == j {
        assert(s2 =~= s);
    } else {
        assert(s1[j] == s[j]);
        assert(s1.to_multiset() == s.to_multiset().insert(s[j]).remove(s[i]));
        assert(s2.to_multiset() == s1.to_multiset().insert(s[i]).remove(s[j]));
        assert(s2.to_multiset() =~= s.to_multiset());
    }
}

/// The shuffle from step `i` on preserves the multiset of positions.
proof fn lemma_shuffle_from_permutes(s: Seq<Point>, st: int, i: nat)
    ensures
        spec_shuffle_from(s, st, i).0.to_multiset() == s.to_multiset(),
    decreases s.len() - i,
{
    if i + 1 >= s.len() {
    } else {
        let d = range_draw(st, i as u64, (s.len() - 1) as u64);
        let j = if i <= d.0 < s.len() - 1 {
            d.0 as int
        } else {
            i as int
        };
        let swapped = s.update(i as int, s[j]).update(j, s[i as int]);
        lemma_swap_preserves_multiset(s, i as int, j);
        lemma_shuffle_from_permutes(swapped, d.1, (i + 1) as nat);
    }
}

/// Shuffling is a permutation: the multiset of positions before and after
/// the shuffle is the same, whatever the draws were.
pub proof fn lemma_shuffle_permutes(s: Seq<Point>, st: int)
    ensures
        spec_shuffle(s, st).0.to_multiset() == s.to_multiset(),
        spec_shuffle(s, st).0.len() == s.len(),
{
    lemma_shuffle_from_permutes(s, st, 0);
    s.to_multiset_ensures();
    spec_shuffle(s, st).0.to_multiset_ensures();
}

/// Palette degeneracy: a palette with no enabled slot yields opaque black
/// and leaves the random source untouched.
pub proof fn lemma_palette_degenerate(info: ColorInfo, st: int)
    requires
        !info.enabled[0],
        !info.enabled[1],
        !info.enabled[2],
        !info.enabled[3],
    ensures
        spec_pick_color(info, st) == (((0u8, 0u8, 0u8), st)),
{
    assert(enabled_seq(info) =~= Seq::<Rgb>::empty());
}

/// No-jitter pick: with exactly one enabled slot and all jitter magnitudes
/// at zero, the pick returns that slot's color quantized to 8 bits — no
/// round trip through hue/saturation/value space — and consumes exactly the
/// one slot draw.
pub proof fn lemma_no_jitter_single_slot(info: ColorInfo, slot: int, st: int)
    requires
        0 <= slot < 4,
        info.enabled[slot],
        forall|k: int| 0 <= k < 4 && k != slot ==> !info.enabled[k],
        info.h_rnd <= 0,
        info.s_rnd <= 0,
        info.v_rnd <= 0,
    ensures
        ({
            let c = info.colors[slot];
            spec_pick_color(info, st) == ((
                spec_quantize_rgb(c.r as int, c.g as int, c.b as int),
                range_draw(st, 0u64, 1u64).1,
            ))
        }),
{
    assert(enabled_seq(info) =~= seq![info.colors[slot]]);
}

/// The rings of one cell from step `i` on: one primitive per ring, all
/// sharing the cell's center and kind.
proof fn lemma_rings_shape(
    kind: ShapeKind,
    center: Point,
    cur_size: int,
    delta: int,
    insets: int,
    i: int,
    info: ColorInfo,
    alpha: u8,
    inversed: bool,
    st: int,
)
    requires
        1 <= i <= insets + 1,
    ensures
        ({
            let r = spec_rings(kind, center, cur_size, delta, insets, i, info, alpha, inversed, st).0;
            r.len() == insets + 1 - i && forall|m: int|
                0 <= m < r.len() ==> (#[trigger] r[m]).center == center && r[m].kind == kind
                    && r[m].alpha == alpha
        }),
    decreases insets + 1 - i,
{
    if i > insets || i < 1 {
    } else {
        let pc = spec_pick_color(info, st);
        let next_size = if inversed {
            cur_size
        } else {
            cur_size - delta
        };
        lemma_rings_shape(kind, center, next_size, delta, insets, i + 1, info, alpha, inversed, pc.1);
    }
}

/// Ring count bound: every cell emits at least one and at most
/// `inset_count` primitives, and all of them share the cell's center and
/// kind and carry the pass-wide alpha.
pub proof fn lemma_cell_shape(settings: Settings, center: Point, shape_size: int, st: int)
    requires
        1 <= settings.inset_count,
    ensures
        ({
            let c = spec_cell(settings, center, shape_size, st).0;
            1 <= c.len() <= settings.inset_count && forall|m: int|
                0 <= m < c.len() ==> (#[trigger] c[m]).center == center && c[m].kind == c[0].kind
                    && c[m].alpha == settings.alpha
        }),
{
    let one = FP_ONE as int;
    let f1 = crate::rng::float_draw(st);
    let scale = (f1.0 * (settings.max_scale - one)) / one + one;
    let cur_size = (shape_size * scale) / one;
    let after_insets: (int, int) = if settings.fixed_inset_count {
        (settings.inset_count as int, f1.1)
    } else {
        let d = range_draw(f1.1, 1u64, (settings.inset_count + 1) as u64);
        (
            if 1 <= d.0 <= settings.inset_count {
                d.0 as int
            } else {
                1
            },
            d.1,
        )
    };
    let insets = after_insets.0;
    let delta = cur_size / insets;
    let f2 = crate::rng::float_draw(after_insets.1);
    let kind = if f2.0 < settings.pct_circles {
        ShapeKind::Circle
    } else {
        ShapeKind::Square
    };
    let info = if f2.0 < settings.pct_circles {
        settings.circle_info
    } else {
        settings.square_info
    };
    lemma_rings_shape(
        kind,
        center,
        cur_size,
        delta,
        insets,
        1,
        info,
        settings.alpha,
        settings.inversed_radii,
        f2.1,
    );
}

/// With a single ring per cell, the cells from `k` on emit one primitive
/// each, in order, centered at their positions.
proof fn lemma_cells_single_inset(
    positions: Seq<Point>,
    settings: Settings,
    shape_size: int,
    st: int,
    k: nat,
)
    requires
        settings.inset_count == 1,
        k <= positions.len(),
    ensures
        ({
            let r = spec_cells(positions, settings, shape_size, st, k).0;
            r.len() == positions.len() - k && forall|m: int|
                0 <= m < r.len() ==> (#[trigger] r[m]).center == positions[k + m]
        }),
    decreases positions.len() - k,
{
    if k >= positions.len() {
    } else {
        let c = spec_cell(settings, positions[k as int], shape_size, st);
        lemma_cell_shape(settings, positions[k as int], shape_size, st);
        lemma_cells_single_inset(positions, settings, shape_size, c.1, (k + 1) as nat);
    }
}

/// Cell coverage: with a single ring per cell the pass emits exactly one
/// primitive per grid cell, and the multiset of emitted centers is exactly
/// the multiset of grid cell centers — the shuffle changes only the order.
pub proof fn lemma_cell_coverage(settings: Settings, rect: Rect)
    requires
        settings.wf(),
        settings.inset_count == 1,
    ensures
        ({
            let out = spec_generate(settings, rect);
            let grid = spec_grid(rect, settings.grid_count_x, settings.grid_count_y);
            out.len() == settings.grid_count_x * settings.grid_count_y && out.map_values(
                |p: Primitive| p.center,
            ).to_multiset() == grid.to_multiset()
        }),
{
    broadcast use vstd::seq_lib::group_to_multiset_ensures;

    let st0 = crate::rng::seed_state(settings.rng_seed);
    let grid = spec_grid(rect, settings.grid_count_x, settings.grid_count_y);
    let sh = spec_shuffle(grid, st0);
    lemma_shuffle_permutes(grid, st0);
    lemma_cells_single_inset(sh.0, settings, crate::generate::spec_shape_size(settings, rect), sh.1, 0);
    let out = spec_generate(settings, rect);
    assert(out.map_values(|p: Primitive| p.center) =~= sh.0);
}

/// The cells from `k` on emit at least one and at most `inset_count`
/// primitives each.
proof fn lemma_cells_count(
    positions: Seq<Point>,
    settings: Settings,
    shape_size: int,
    st: int,
    k: nat,
)
    requires
        1 <= settings.inset_count,
        k <= positions.len(),
    ensures
        ({
            let r = spec_cells(positions, settings, shape_size, st, k).0;
            positions.len() - k <= r.len() <= (positions.len() - k) * settings.inset_count
        }),
    decreases positions.len() - k,
{
    if k >= positions.len() {
    } else {
        let c = spec_cell(settings, positions[k as int], shape_size, st);
        lemma_cell_shape(settings, positions[k as int], shape_size, st);
        lemma_cells_count(positions, settings, shape_size, c.1, (k + 1) as nat);
        assert((positions.len() - k) * settings.inset_count == settings.inset_count + (
        positions.len() - (k + 1)) * settings.inset_count) by (nonlinear_arith);
    }
}

/// Every cell is visited: one pass emits at least one primitive per grid
/// cell and at most `inset_count` of them per cell.
pub proof fn lemma_generate_count_bounds(settings: Settings, rect: Rect)
    requires
        settings.wf(),
    ensures
        ({
            let n = settings.grid_count_x * settings.grid_count_y;
            let out = spec_generate(settings, rect);
            n <= out.len() <= n * settings.inset_count
        }),
{
    let st0 = crate::rng::seed_state(settings.rng_seed);
    let grid = spec_grid(rect, settings.grid_count_x, settings.grid_count_y);
    let sh = spec_shuffle(grid, st0);
    lemma_shuffle_permutes(grid, st0);
    lemma_cells_count(sh.0, settings, crate::generate::spec_shape_size(settings, rect), sh.1, 0);
}

/// The single-cell scenario: a one-by-one grid over the square from
/// `(-1, -1)` to `(1, 1)`, unit base size, no extra scale, no chance of a
/// circle, one fixed ring, and a single enabled full-red square slot with
/// no jitter. The pass emits exactly one full-red square of size two at
/// the origin — whatever the seed, since no draw can affect the outcome.
pub proof fn lemma_single_cell_scenario(settings: Settings, rect: Rect)
    requires
        settings.wf(),
        settings.grid_count_x == 1,
        settings.grid_count_y == 1,
        settings.base_size == FP_ONE,
        settings.max_scale == FP_ONE,
        settings.pct_circles == 0,
        settings.alpha == 255,
        settings.inset_count == 1,
        settings.fixed_inset_count == true,
        settings.inversed_radii == true,
        settings.square_info.enabled[0],
        !settings.square_info.enabled[1],
        !settings.square_info.enabled[2],
        !settings.square_info.enabled[3],
        settings.square_info.colors[0] == (Rgb { r: FP_ONE, g: 0, b: 0 }),
        settings.square_info.h_rnd == 0,
        settings.square_info.s_rnd == 0,
        settings.square_info.v_rnd == 0,
        rect == (Rect { left: (-FP_ONE) as i64, right: FP_ONE, bottom: (-FP_ONE) as i64, top: FP_ONE }),
    ensures
        spec_generate(settings, rect) == seq![
            Primitive {
                kind: ShapeKind::Square,
                center: Point { x: 0, y: 0 },
                size: (2 * FP_ONE) as i64,
                red: 255,
                green: 0,
                blue: 0,
                alpha: 255,
            },
        ],
{
    let one = FP_ONE as int;
    let st0 = crate::rng::seed_state(settings.rng_seed);
    let grid = spec_grid(rect, settings.grid_count_x, settings.grid_count_y);
    assert((2 * one) / 1int == 2 * one) by {
        vstd::arithmetic::div_mod::lemma_fundamental_div_mod_converse(2 * one, 1, 2 * one, 0);
    };
    assert((2 * one) / 2int == one) by {
        vstd::arithmetic::div_mod::lemma_fundamental_div_mod_converse(2 * one, 2, one, 0);
    };
    assert(grid =~= seq![Point { x: 0, y: 0 }]);
    let sh = spec_shuffle(grid, st0);
    assert(sh == (grid, st0));
    assert((2 * one * one) / one == 2 * one) by {
        vstd::arithmetic::div_mod::lemma_div_multiples_vanish(2 * one, one);
    };
    let shape_size = crate::generate::spec_shape_size(settings, rect);
    assert(shape_size == 2 * one);
    let f1 = crate::rng::float_draw(sh.1);
    assert(f1.0 * (settings.max_scale - one) == 0);
    assert(0int / one == 0) by {
        vstd::arithmetic::div_mod::lemma_div_of0(one);
    };
    let c = spec_cell(settings, Point { x: 0, y: 0 }, shape_size, sh.1);
    let f2 = crate::rng::float_draw(f1.1);
    let pc = spec_pick_color(settings.square_info, f2.1);
    lemma_no_jitter_single_slot(settings.square_info, 0, f2.1);
    assert((one * 2559) / 1_000_000 == 255) by {
        vstd::arithmetic::div_mod::lemma_fundamental_div_mod_converse(
            one * 2559,
            1_000_000,
            255,
            900_000,
        );
    };
    assert(0int * 2559 == 0 && 0int / 1_000_000 == 0) by {
        vstd::arithmetic::div_mod::lemma_div_of0(1_000_000);
    };
    assert(pc.0 == (255u8, 0u8, 0u8));
    let prim = Primitive {
        kind: ShapeKind::Square,
        center: Point { x: 0, y: 0 },
        size: (2 * FP_ONE) as i64,
        red: 255,
        green: 0,
        blue: 0,
        alpha: 255,
    };
    assert(spec_rings(
        ShapeKind::Square,
        Point { x: 0, y: 0 },
        2 * one,
        2 * one,
        1,
        2,
        settings.square_info,
        255u8,
        true,
        pc.1,
    ).0 =~= Seq::<Primitive>::empty());
    assert(c.0 =~= seq![prim] + spec_rings(
        ShapeKind::Square,
        Point { x: 0, y: 0 },
        2 * one,
        2 * one,
        1,
        2,
        settings.square_info,
        255u8,
        true,
        pc.1,
    ).0);
    assert(c.0 =~= seq![prim]);
    assert(spec_cells(sh.0, settings, shape_size, sh.1, 0).0 =~= c.0 + spec_cells(
        sh.0,
        settings,
        shape_size,
        c.1,
        1,
    ).0);
    assert(spec_generate(settings, rect) =~= seq![prim]);
}

} // verus!

