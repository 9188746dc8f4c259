//! The grid layout: a bounding rectangle tiled into equally sized cells,
//! visited with the horizontal index in the outer loop and the vertical
//! index in the inner one, each cell contributing its center point.
//!
//! Coordinates are fixed-point values (units of `1/FP_ONE`), bounded so
//! that every intermediate product of the generator stays within `i64`.

use vstd::prelude::*;

verus! {

/// The largest magnitude a boundary coordinate may have: ten thousand
/// whole units in fixed-point.
pub const COORD_LIMIT: i64 = 1_000_000_000;

/// A point in the plane, in fixed-point coordinates.
#[derive(Clone, Copy, Debug, PartialEq, Eq, Structural)]
pub struct Point {
    pub x: i64,
    pub y: i64,
}

/// A bounding rectangle, in fixed-point coordinates.
#[derive(Clone, Copy, Debug, PartialEq, Eq, Structural)]
pub struct Rect {
    pub left: i64,
    pub right: i64,
    pub bottom: i64,
    pub top: i64,
}

impl Rect {
    /// A non-degenerate rectangle within the coordinate bounds.
    pub open spec fn wf(self) -> bool {
        &&& -COORD_LIMIT <= self.left <= self.right <= COORD_LIMIT
        &&& -COORD_LIMIT <= self.bottom <= self.top <= COORD_LIMIT
    }
}

/// The width of one grid cell.
pub open spec fn spec_cell_w(rect: Rect, nx: usize) -> int {
    (rect.right - rect.left) / (nx as int)
}

/// The height of one grid cell.
pub open spec fn spec_cell_h(rect: Rect, ny: usize) -> int {
    (rect.top - rect.bottom) / (ny as int)
}

/// The center of the cell at column `ix`, row `iy`: half a cell in from the
/// bottom-left corner, stepped by whole cells.
pub open spec fn spec_cell_center(rect: Rect, nx: usize, ny: usize, ix: int, iy: int) -> Point {
    let cw = spec_cell_w(rect, nx);
    let ch = spec_cell_h(rect, ny);
    Point {
        x: (rect.left - cw / 2 + (ix + 1) * cw) as i64,
        y: (rect.bottom - ch / 2 + (iy + 1) * ch) as i64,
    }
}

/// All cell centers in visit order: the column index outermost, so the
/// center of column `ix` and row `iy` stands at position `ix * ny + iy`.
pub open spec fn spec_grid(rect: Rect, nx: usize, ny: usize) -> Seq<Point> {
    Seq::new(
        (nx * ny) as nat,
        |k: int| spec_cell_center(rect, nx, ny, k / (ny as int), k % (ny as int)),
    )
}

/// For a non-negative width split into `n` cells, every prefix of cells
/// spans at most the whole width.
proof fn lemma_cell_span(width: int, n: int, i: int)
    requires
        0 <= width,
        1 <= n,
        0 <= i <= n,
    ensures
        0 <= width / n,
        0 <= i * (width / n) <= width,
{
    vstd::arithmetic::div_mod::lemma_div_pos_is_pos(width, n);
    vstd::arithmetic::mul::lemma_mul_inequality(i, n, width / n);
    vstd::arithmetic::div_mod::lemma_fundamental_div_mod(width, n);
    assert(n * (width / n) <= width);
    assert(i * (width / n) >= 0) by (nonlinear_arith)
        requires 0 <= i && 0 <= width / n;
}

/// Compute all cell centers of the grid, in visit order.
pub fn grid_positions(rect: &Rect, nx: usize, ny: usize) -> (v: Vec<Point>)
    requires
        rect.wf(),
        1 <= nx <= 100_000,
        1 <= ny <= 100_000,
        nx * ny <= 100_000_000,
    ensures
        v@ == spec_grid(*rect, nx, ny),
{
    let cw: i64 = (rect.right - rect.left) / (nx as i64);
    let ch: i64 = (rect.top - rect.bottom) / (ny as i64);
    proof {
        lemma_cell_span((rect.right - rect.left) as int, nx as int, nx as int);
        lemma_cell_span((rect.top - rect.bottom) as int, ny as int, ny as int);
    }
    let mut v: Vec<Point> = Vec::with_capacity(nx * ny);
    let mut ix: usize = 0;
    while ix < nx
        invariant
            rect.wf(),
            1 <= nx <= 100_000,
            1 <= ny <= 100_000,
            nx * ny <= 100_000_000,
            0 <= ix <= nx,
            cw == spec_cell_w(*rect, nx),
            ch == spec_cell_h(*rect, ny),
            0 <= cw <= 2 * COORD_LIMIT,
            0 <= ch <= 2 * COORD_LIMIT,
            v@.len() == ix * ny,
            forall|k: int|
                0 <= k < ix * ny ==> v@[k] == spec_grid(*rect, nx, ny)[k],
        decreases nx - ix,
    {
        let mut iy: usize = 0;
        while iy < ny
            invariant
                rect.wf(),
                1 <= nx <= 100_000,
                1 <= ny <= 100_000,
                nx * ny <= 100_000_000,
                0 <= ix < nx,
                0 <= iy <= ny,
                cw == spec_cell_w(*rect, nx),
                ch == spec_cell_h(*rect, ny),
                0 <= cw <= 2 * COORD_LIMIT,
                0 <= ch <= 2 * COORD_LIMIT,
                v@.len() == ix * ny + iy,
                forall|k: int|
                    0 <= k < ix * ny + iy ==> v@[k] == spec_grid(*rect, nx, ny)[k],
            decreases ny - iy,
        {
            proof {
                lemma_cell_span((rect.right - rect.left) as int, nx as int, ix + 1 as int);
                lemma_cell_span((rect.top - rect.bottom) as int, ny as int, iy + 1 as int);
                vstd::arithmetic::mul::lemma_mul_inequality(
                    ix as int + 1,
                    nx as int,
                    ny as int,
                );
                vstd::arithmetic::div_mod::lemma_fundamental_div_mod_converse(
                    ix * ny + iy,
                    ny as int,
                    ix as int,
                    iy as int,
                );
            }
            let x: i64 = rect.left - cw / 2 + ((ix + 1) as i64) * cw;
            let y: i64 = rect.bottom - ch / 2 + ((iy + 1) as i64) * ch;
            v.push(Point { x, y });
            proof {
                assert((ix + 1) * ny == ix * ny + ny) by (nonlinear_arith);
                assert(ix * ny + iy < nx * ny);
                assert((ix * ny + iy) / (ny as int) == ix as int);
                assert((ix * ny + iy) % (ny as int) == iy as int);
                assert(v@[ix * ny + iy] == spec_grid(*rect, nx, ny)[ix * ny + iy]);
            }
            iy = iy + 1;
        }
        ix = ix + 1;
        proof {
            assert(ix * ny == (ix - 1) * ny + ny) by (nonlinear_arith);
        }
    }
    proof {
        assert(v@ =~= spec_grid(*rect, nx, ny));
    }
    v
}

/// The four corners of an axis-aligned square of side `size` around
/// `center`, in the order top-right, bottom-right, bottom-left, top-left.
pub open spec fn spec_quad_corners(center: Point, size: int) -> (Point, Point, Point, Point) {
    let d = size / 2;
    (
        Point { x: (center.x + d) as i64, y: (center.y + d) as i64 },
        Point { x: (center.x + d) as i64, y: (center.y - d) as i64 },
        Point { x: (center.x - d) as i64, y: (center.y - d) as i64 },
        Point { x: (center.x - d) as i64, y: (center.y + d) as i64 },
    )
}

/// Compute the corner points a square primitive spans.
pub fn quad_corners(center: Point, size: i64) -> (corners: (Point, Point, Point, Point))
    requires
        -100 * COORD_LIMIT <= center.x <= 100 * COORD_LIMIT,
        -100 * COORD_LIMIT <= center.y <= 100 * COORD_LIMIT,
        0 <= size <= 100 * COORD_LIMIT,
    ensures
        corners == spec_quad_corners(center, size as int),
{
    let d = size / 2;
    proof {
        vstd::arithmetic::div_mod::lemma_div_pos_is_pos(size as int, 2);
        vstd::arithmetic::div_mod::lemma_div_is_ordered(size as int, 100 * COORD_LIMIT as int, 2);
    }
    (
        Point { x: center.x + d, y: center.y + d },
        Point { x: center.x + d, y: center.y - d },
        Point { x: center.x - d, y: center.y - d },
        Point { x: center.x - d, y: center.y + d },
    )
}

} // verus!
