//! The generation pass: seed and settings in, an ordered sequence of
//! drawable primitives out.
//!
//! One pass seeds the random source, lays the grid out, shuffles the cell
//! centers so draw order is decoupled from grid position, and then expands
//! every cell into one or more concentric primitives, each colored
//! independently. The random source is consumed strictly sequentially: one
//! scale draw per cell, one ring-count draw per cell unless the count is
//! fixed, one shape-kind draw per cell, then the color draws ring by ring.
//! The whole pass is a function of the seed and the settings, which
//! `spec_generate` states draw by draw.

use vstd::prelude::*;
use crate::color::{ColorInfo, spec_default_color_info, spec_pick_color, lemma_scaled_ratio_bounds};
use crate::fixed::{FP_ONE, fx_mul, spec_fx_mul};
use crate::geom::{COORD_LIMIT, Point, Rect, spec_cell_w, spec_cell_h, spec_grid, grid_positions};
use crate::rng::{MyRandom, range_draw, float_draw, seed_state};

verus! {

/// What a primitive is drawn as.
#[derive(Clone, Copy, Debug, PartialEq, Eq, Structural)]
pub enum ShapeKind {
    Circle,
    Square,
}

/// One drawable shape: kind, center, size (side length or diameter), an
/// 8-bit color and the pass-wide alpha.
#[derive(Clone, Copy, Debug, PartialEq, Eq, Structural)]
pub struct Primitive {
    pub kind: ShapeKind,
    pub center: Point,
    pub size: i64,
    pub red: u8,
    pub green: u8,
    pub blue: u8,
    pub alpha: u8,
}

/// The settings of one generation pass, immutable for its duration.
pub struct Settings {
    pub grid_count_x: usize,
    pub grid_count_y: usize,
    pub base_size: i64,
    pub max_scale: i64,
    pub pct_circles: i64,
    pub alpha: u8,
    pub rng_seed: u64,
    pub inset_count: u8,
    pub fixed_inset_count: bool,
    pub inversed_radii: bool,
    pub circle_info: ColorInfo,
    pub square_info: ColorInfo,
}

impl Settings {
    /// Grid counts at least one and small enough for every intermediate
    /// product to fit, fractional fields within their ranges, palettes
    /// well-formed.
    pub open spec fn wf(self) -> bool {
        &&& 1 <= self.grid_count_x <= 100_000
        &&& 1 <= self.grid_count_y <= 100_000
        &&& self.grid_count_x * self.grid_count_y <= 100_000_000
        &&& 0 <= self.base_size <= 100 * FP_ONE
        &&& FP_ONE <= self.max_scale <= 100 * FP_ONE
        &&& 0 <= self.pct_circles <= FP_ONE
        &&& 1 <= self.inset_count
        &&& self.circle_info.wf()
        &&& self.square_info.wf()
    }
}

impl Default for Settings {
    /// The settings a fresh session starts from: a 27 by 20 grid, shapes at
    /// seven tenths of a cell, no extra scaling, half circles, full alpha,
    /// single rings, a red circle palette and a blue square palette. The
    /// seed starts at zero; the caller reseeds for a new picture.
    fn default() -> (r: Settings)
        ensures
            r == spec_default_settings(),
            r.wf(),
    {
        let blue = crate::color::Rgb { r: 0, g: 0, b: FP_ONE };
        let black = crate::color::Rgb { r: 0, g: 0, b: 0 };
        let square_info = ColorInfo {
            colors: [blue, black, black, black],
            enabled: [true, false, false, false],
            h_rnd: 0,
            s_rnd: 0,
            v_rnd: 0,
        };
        Settings {
            grid_count_x: 27,
            grid_count_y: 20,
            base_size: 70_000,
            max_scale: FP_ONE,
            pct_circles: 50_000,
            alpha: 255,
            rng_seed: 0,
            inset_count: 1,
            fixed_inset_count: false,
            inversed_radii: true,
            circle_info: Default::default(),
            square_info,
        }
    }
}

/// The settings `Settings::default` builds.
pub open spec fn spec_default_settings() -> Settings {
    Settings {
        grid_count_x: 27,
        grid_count_y: 20,
        base_size: 70_000,
        max_scale: FP_ONE,
        pct_circles: 50_000,
        alpha: 255,
        rng_seed: 0,
        inset_count: 1,
        fixed_inset_count: false,
        inversed_radii: true,
        circle_info: spec_default_color_info(),
        square_info: ColorInfo {
            colors: [
                crate::color::Rgb { r: 0, g: 0, b: FP_ONE },
                crate::color::Rgb { r: 0, g: 0, b: 0 },
                crate::color::Rgb { r: 0, g: 0, b: 0 },
                crate::color::Rgb { r: 0, g: 0, b: 0 },
            ],
            enabled: [true, false, false, false],
            h_rnd: 0,
            s_rnd: 0,
            v_rnd: 0,
        },
    }
}

/// The position sequence from step `i` of the shuffle on: each step draws a
/// swap target from `[i, len - 1)` and exchanges the two positions. The
/// upper bound really is `len - 1`, one short of the last index, exactly as
/// the draw order of the pass requires; the last step, with an empty choice,
/// still consumes its draw. A draw outside its own range (which the source
/// never yields) would leave the step a plain swap with itself.
pub open spec fn spec_shuffle_from(s: Seq<Point>, st: int, i: nat) -> (Seq<Point>, int)
    decreases s.len() - i,
{
    if i + 1 >= s.len() {
        (s, st)
    } else {
        let d = range_draw(st, i as u64, (s.len() - 1) as u64);
        let j = if i <= d.0 < s.len() - 1 {
            d.0 as int
        } else {
            i as int
        };
        let swapped = s.update(i as int, s[j]).update(j, s[i as int]);
        spec_shuffle_from(swapped, d.1, (i + 1) as nat)
    }
}

/// The whole shuffle: the position sequence in draw order, and the state of
/// the random source after it.
pub open spec fn spec_shuffle(s: Seq<Point>, st: int) -> (Seq<Point>, int) {
    spec_shuffle_from(s, st, 0)
}

/// Shuffle the positions in place, consuming one draw per step exactly as
/// `spec_shuffle` describes.
pub fn shuffle(positions: &mut Vec<Point>, rng: &mut MyRandom)
    requires
        old(positions)@.len() <= 100_000_000,
    ensures
        final(positions)@ == spec_shuffle(old(positions)@, old(rng).model()).0,
        final(rng).model() == spec_shuffle(old(positions)@, old(rng).model()).1,
{
    let ghost orig: Seq<Point> = positions@;
    let ghost st0: int = rng.model();
    let n = positions.len();
    if n == 0 {
        return;
    }
    let mut i: usize = 0;
    while i < n - 1
        invariant
            n == positions@.len(),
            1 <= n <= 100_000_000,
            0 <= i <= n - 1,
            spec_shuffle_from(orig, st0, 0) == spec_shuffle_from(positions@, rng.model(), i as nat),
        decreases n - i,
    {
        let ghost before: Seq<Point> = positions@;
        let ghost st_pre: int = rng.model();
        let j = rng.from_range(i as u64, (n - 1) as u64);
        let a = positions[i];
        let b = positions[j as usize];
        positions.set(i, b);
        positions.set(j as usize, a);
        proof {
            assert(positions@ == before.update(i as int, before[j as int]).update(
                j as int,
                before[i as int],
            ));
            assert(spec_shuffle_from(before, st_pre, i as nat) == spec_shuffle_from(
                positions@,
                rng.model(),
                (i + 1) as nat,
            ));
        }
        i = i + 1;
    }
}

/// The concentric rings of one cell from ring `i` (1-indexed) on, and the
/// state of the random source after them. Every ring picks its own color.
/// With inversed radii ring `i` has size `cur_size / i` and the working
/// size never changes; otherwise each ring is emitted at the working size,
/// which then shrinks by the fixed step `delta`.
pub open spec fn spec_rings(
    kind: ShapeKind,
    center: Point,
    cur_size: int,
    delta: int,
    insets: int,
    i: int,
    info: ColorInfo,
    alpha: u8,
    inversed: bool,
    st: int,
) -> (Seq<Primitive>, int)
    decreases insets + 1 - i,
{
    if i > insets || i < 1 {
        (Seq::empty(), st)
    } else {
        let pc = spec_pick_color(info, st);
        let size = if inversed {
            cur_size / i
        } else {
            cur_size
        };
        let prim = Primitive {
            kind,
            center,
            size: size as i64,
            red: pc.0.0,
            green: pc.0.1,
            blue: pc.0.2,
            alpha,
        };
        let next_size = if inversed {
            cur_size
        } else {
            cur_size - delta
        };
        let rest = spec_rings(kind, center, next_size, delta, insets, i + 1, info, alpha, inversed, pc.1);
        (seq![prim] + rest.0, rest.1)
    }
}

/// All primitives one cell emits, and the state of the random source after
/// them. The draws come in fixed order: the size scale, then the ring count
/// unless it is fixed, then the shape kind, then the colors ring by ring.
/// A ring-count draw outside its own range (which the source never yields)
/// would fall back to a single ring.
pub open spec fn spec_cell(settings: Settings, center: Point, shape_size: int, st: int) -> (
    Seq<Primitive>,
    int,
) {
    let one = FP_ONE as int;
    let f1 = float_draw(st);
    let scale = (f1.0 * (settings.max_scale - one)) / one + one;
    let cur_size = (shape_size * scale) / one;
    let after_insets: (int, int) = if settings.fixed_inset_count {
        (settings.inset_count as int, f1.1)
    } else {
        let d = range_draw(f1.1, 1u64, (settings.inset_count + 1) as u64);
        (
            if 1 <= d.0 <= settings.inset_count {
                d.0 as int
            } else {
                1
            },
            d.1,
        )
    };
    let insets = after_insets.0;
    let delta = cur_size / insets;
    let f2 = float_draw(after_insets.1);
    let kind = if f2.0 < settings.pct_circles {
        ShapeKind::Circle
    } else {
        ShapeKind::Square
    };
    let info = if f2.0 < settings.pct_circles {
        settings.circle_info
    } else {
        settings.square_info
    };
    spec_rings(
        kind,
        center,
        cur_size,
        delta,
        insets,
        1,
        info,
        settings.alpha,
        settings.inversed_radii,
        f2.1,
    )
}

/// The primitives of the cells at `positions[k..]`, and the state of the
/// random source after them.
pub open spec fn spec_cells(
    positions: Seq<Point>,
    settings: Settings,
    shape_size: int,
    st: int,
    k: nat,
) -> (Seq<Primitive>, int)
    decreases positions.len() - k,
{
    if k >= positions.len() {
        (Seq::empty(), st)
    } else {
        let c = spec_cell(settings, positions[k as int], shape_size, st);
        let rest = spec_cells(positions, settings, shape_size, c.1, (k + 1) as nat);
        (c.0 + rest.0, rest.1)
    }
}

/// The nominal shape size of the pass: the smaller cell extent scaled by
/// `base_size`, computed once and shared by all cells.
pub open spec fn spec_shape_size(settings: Settings, rect: Rect) -> int {
    let cw = spec_cell_w(rect, settings.grid_count_x);
    let ch = spec_cell_h(rect, settings.grid_count_y);
    let m = if cw <= ch {
        cw
    } else {
        ch
    };
    spec_fx_mul(m, settings.base_size as int)
}

/// The whole pass as a function of settings and boundary: seed, lay out the
/// grid, shuffle, then expand cell by cell.
pub open spec fn spec_generate(settings: Settings, rect: Rect) -> Seq<Primitive> {
    let st0 = seed_state(settings.rng_seed);
    let grid = spec_grid(rect, settings.grid_count_x, settings.grid_count_y);
    let sh = spec_shuffle(grid, st0);
    spec_cells(sh.0, settings, spec_shape_size(settings, rect), sh.1, 0).0
}

/// Emit all rings of one cell into `out`, consuming draws exactly as
/// `spec_cell` describes.
pub fn emit_cell(
    settings: &Settings,
    center: Point,
    shape_size: i64,
    rng: &mut MyRandom,
    out: &mut Vec<Primitive>,
)
    requires
        settings.wf(),
        0 <= shape_size <= 200 * COORD_LIMIT,
    ensures
        final(out)@ == old(out)@ + spec_cell(*settings, center, shape_size as int, old(
            rng,
        ).model()).0,
        final(rng).model() == spec_cell(*settings, center, shape_size as int, old(rng).model()).1,
{
    let ghost st0: int = rng.model();
    let ghost cellspec: (Seq<Primitive>, int) = spec_cell(
        *settings,
        center,
        shape_size as int,
        st0,
    );
    let f1 = rng.get_float();
    proof {
        lemma_scaled_ratio_bounds(f1 as int, FP_ONE as int, (settings.max_scale - FP_ONE) as int);
    }
    let scale = fx_mul(f1, settings.max_scale - FP_ONE) + FP_ONE;
    assert(FP_ONE <= scale <= settings.max_scale);
    proof {
        assert(shape_size * scale <= 2_000_000_000_000_000_000) by (nonlinear_arith)
            requires 0 <= shape_size <= 200 * 1_000_000_000i64 && 0 <= scale <= 10_000_000i64;
    }
    let cur_size = fx_mul(shape_size, scale);
    let insets: u8 = if settings.fixed_inset_count {
        settings.inset_count
    } else {
        let d = rng.from_range(1, settings.inset_count as u64 + 1);
        d as u8
    };
    let delta = cur_size / (insets as i64);
    proof {
        vstd::arithmetic::div_mod::lemma_div_pos_is_pos(cur_size as int, insets as int);
        vstd::arithmetic::div_mod::lemma_fundamental_div_mod(cur_size as int, insets as int);
    }
    let f2 = rng.get_float();
    let is_circle = f2 < settings.pct_circles;
    let kind = if is_circle {
        ShapeKind::Circle
    } else {
        ShapeKind::Square
    };
    let info = if is_circle {
        &settings.circle_info
    } else {
        &settings.square_info
    };
    let ghost tgt: (Seq<Primitive>, int) = spec_rings(
        kind,
        center,
        cur_size as int,
        delta as int,
        insets as int,
        1,
        *info,
        settings.alpha,
        settings.inversed_radii,
        rng.model(),
    );
    proof {
        assert(cellspec == tgt);
    }
    let ghost base: Seq<Primitive> = out@;
    let mut i: u16 = 1;
    let mut cur = cur_size;
    while i <= insets as u16
        invariant
            settings.wf(),
            info.wf(),
            1 <= insets,
            1 <= i <= insets as int + 1,
            0 <= delta,
            (insets as int) * (delta as int) <= cur_size as int,
            settings.inversed_radii ==> cur == cur_size,
            !settings.inversed_radii ==> cur as int == cur_size - (i - 1) * delta,
            0 <= cur <= cur_size,
            out@ + spec_rings(
                kind,
                center,
                cur as int,
                delta as int,
                insets as int,
                i as int,
                *info,
                settings.alpha,
                settings.inversed_radii,
                rng.model(),
            ).0 == base + tgt.0,
            spec_rings(
                kind,
                center,
                cur as int,
                delta as int,
                insets as int,
                i as int,
                *info,
                settings.alpha,
                settings.inversed_radii,
                rng.model(),
            ).1 == tgt.1,
        decreases insets as int + 1 - i as int,
    {
        let color = info.pick_color(rng);
        let size = if settings.inversed_radii {
            cur / (i as i64)
        } else {
            cur
        };
        proof {
            if settings.inversed_radii {
                vstd::arithmetic::div_mod::lemma_div_pos_is_pos(cur as int, i as int);
            }
        }
        out.push(
            Primitive {
                kind,
                center,
                size,
                red: color.0,
                green: color.1,
                blue: color.2,
                alpha: settings.alpha,
            },
        );
        if !settings.inversed_radii {
            proof {
                vstd::arithmetic::mul::lemma_mul_inequality(i as int, insets as int, delta as int);
                assert((i - 1) * delta + delta == i as int * delta) by (nonlinear_arith);
            }
            cur = cur - delta;
        }
        i = i + 1;
    }
    proof {
        assert(out@ + Seq::<Primitive>::empty() =~= out@);
        assert(out@ == base + tgt.0);
    }
}

/// Run one whole generation pass: exactly the primitive sequence that
/// `spec_generate` states for these settings and this boundary.
pub fn generate(settings: &Settings, boundary: &Rect) -> (out: Vec<Primitive>)
    requires
        settings.wf(),
        boundary.wf(),
    ensures
        out@ == spec_generate(*settings, *boundary),
{
    let mut rng = MyRandom::seed_from_u64(settings.rng_seed);
    let mut positions = grid_positions(boundary, settings.grid_count_x, settings.grid_count_y);
    proof {
        assert(positions@.len() == settings.grid_count_x * settings.grid_count_y);
    }
    shuffle(&mut positions, &mut rng);
    let cw: i64 = (boundary.right - boundary.left) / (settings.grid_count_x as i64);
    let ch: i64 = (boundary.top - boundary.bottom) / (settings.grid_count_y as i64);
    let cell_size = if cw <= ch {
        cw
    } else {
        ch
    };
    proof {
        vstd::arithmetic::div_mod::lemma_div_pos_is_pos(
            (boundary.right - boundary.left) as int,
            settings.grid_count_x as int,
        );
        vstd::arithmetic::div_mod::lemma_div_pos_is_pos(
            (boundary.top - boundary.bottom) as int,
            settings.grid_count_y as int,
        );
        vstd::arithmetic::div_mod::lemma_div_nonincreasing(
            (boundary.right - boundary.left) as int,
            settings.grid_count_x as int,
        );
        vstd::arithmetic::div_mod::lemma_div_nonincreasing(
            (boundary.top - boundary.bottom) as int,
            settings.grid_count_y as int,
        );
        assert(cell_size * settings.base_size <= 2_000_000_000_000_000_0) by (nonlinear_arith)
            requires 0 <= cell_size <= 2_000_000_000i64 && 0 <= settings.base_size
                <= 10_000_000i64;
    }
    let shape_size = fx_mul(cell_size, settings.base_size);
    proof {
        vstd::arithmetic::div_mod::lemma_div_is_ordered(
            cell_size as int * settings.base_size as int,
            20_000_000_000_000_000,
            FP_ONE as int,
        );
        vstd::arithmetic::div_mod::lemma_fundamental_div_mod_converse(
            20_000_000_000_000_000,
            100_000,
            200_000_000_000,
            0,
        );
    }
    let ghost shuffled: Seq<Point> = positions@;
    let ghost st1: int = rng.model();
    let mut out: Vec<Primitive> = Vec::new();
    let n = positions.len();
    let mut k: usize = 0;
    while k < n
        invariant
            settings.wf(),
            n == positions@.len(),
            positions@ == shuffled,
            0 <= shape_size <= 200 * COORD_LIMIT,
            0 <= k <= n,
            out@ + spec_cells(shuffled, *settings, shape_size as int, rng.model(), k as nat).0
                == spec_cells(shuffled, *settings, shape_size as int, st1, 0).0,
            spec_cells(shuffled, *settings, shape_size as int, rng.model(), k as nat).1
                == spec_cells(shuffled, *settings, shape_size as int, st1, 0).1,
        decreases n - k,
    {
        let c = positions[k];
        emit_cell(settings, c, shape_size, &mut rng, &mut out);
        k = k + 1;
    }
    proof {
        assert(out@ + Seq::<Primitive>::empty() =~= out@);
        assert(out@ == spec_cells(shuffled, *settings, shape_size as int, st1, 0).0);
        assert(shape_size as int == spec_shape_size(*settings, *boundary));
        assert(out@ == spec_generate(*settings, *boundary));
    }
    out
}

} // verus!
