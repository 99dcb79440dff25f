//! The play area: a square grid of cells centred on the origin, the frame of
//! wall cells around it, and the mapping from grid indices to cells.

use vstd::prelude::*;

verus! {

/// Side length of the square play area, in cells.
pub const PLAY_SIDE: i32 = 30;

/// Half the side length: the play area spans `-HALF_PLAY_SIDE ..
/// HALF_PLAY_SIDE` on both axes, the upper end excluded.
pub const HALF_PLAY_SIDE: i32 = 15;

/// Number of cells of the play area.
pub const CELL_COUNT: usize = 900;

/// Number of wall cells around the play area.
pub const WALL_COUNT: usize = 128;

/// A position on the grid. All snake segments, the apple and the walls sit on
/// the same depth plane, so two coordinates identify a position.
#[derive(Clone, Copy, Debug, PartialEq, Eq, Hash, Structural)]
pub struct Cell {
    pub x: i32,
    pub y: i32,
}

/// Whether `c` lies in the play area.
pub open spec fn in_play_area(c: Cell) -> bool {
    -HALF_PLAY_SIDE <= c.x < HALF_PLAY_SIDE && -HALF_PLAY_SIDE <= c.y < HALF_PLAY_SIDE
}

/// The coordinate of the play area nearest to `v`.
pub open spec fn clamp_axis(v: int) -> int {
    if v < -HALF_PLAY_SIDE {
        -HALF_PLAY_SIDE
    } else if v >= HALF_PLAY_SIDE {
        HALF_PLAY_SIDE - 1
    } else {
        v
    }
}

/// The cell of the play area nearest to the point `(x, y)`.
pub open spec fn clamped(x: int, y: int) -> Cell {
    Cell { x: clamp_axis(x) as i32, y: clamp_axis(y) as i32 }
}

/// Row-major order of cells: lower rows first, and within a row from left to
/// right.
pub open spec fn row_major_before(a: Cell, b: Cell) -> bool {
    a.y < b.y || (a.y == b.y && a.x < b.x)
}

/// Whether the cells of `s` stand in strictly ascending row-major order. Such
/// a sequence holds no cell twice.
pub open spec fn ascending_row_major(s: Seq<Cell>) -> bool {
    forall|i: int, j: int| 0 <= i < j < s.len() ==> row_major_before(#[trigger] s[i], #[trigger] s[j])
}

/// Whether `c` is a wall cell: a cell of the one-cell frame that encloses the
/// grid indices `0 ..= PLAY_SIDE` on both axes.
pub open spec fn on_frame(c: Cell) -> bool {
    &&& -HALF_PLAY_SIDE - 1 <= c.x <= HALF_PLAY_SIDE + 1
    &&& -HALF_PLAY_SIDE - 1 <= c.y <= HALF_PLAY_SIDE + 1
    &&& (c.x == -HALF_PLAY_SIDE - 1 || c.x == HALF_PLAY_SIDE + 1 || c.y == -HALF_PLAY_SIDE - 1
        || c.y == HALF_PLAY_SIDE + 1)
}

/// The cell that the grid index pair `(col, row)` denotes: indices count from
/// the lower left corner of the play area, cells from its centre.
pub open spec fn world_cell(col: int, row: int) -> Cell {
    Cell { x: (col - HALF_PLAY_SIDE) as i32, y: (row - HALF_PLAY_SIDE) as i32 }
}

impl Cell {
    /// Whether the cell lies in the play area.
    pub fn is_in_play_area(&self) -> (inside: bool)
        ensures
            inside == in_play_area(*self),
    {
        -HALF_PLAY_SIDE <= self.x && self.x < HALF_PLAY_SIDE && -HALF_PLAY_SIDE <= self.y && self.y
            < HALF_PLAY_SIDE
    }
}

/// Clamps the point `(x, y)` into the play area, axis by axis.
pub fn clamp_to_play_area(x: i64, y: i64) -> (c: Cell)
    ensures
        c == clamped(x as int, y as int),
        in_play_area(c),
{
    let low: i64 = -15;
    let high: i64 = 14;
    let cx: i64 = if x < low {
        low
    } else if x > high {
        high
    } else {
        x
    };
    let cy: i64 = if y < low {
        low
    } else if y > high {
        high
    } else {
        y
    };
    Cell { x: cx as i32, y: cy as i32 }
}

/// Maps a grid index pair to its cell.
pub fn to_world(col: i32, row: i32) -> (c: Cell)
    requires
        col - HALF_PLAY_SIDE >= i32::MIN,
        row - HALF_PLAY_SIDE >= i32::MIN,
    ensures
        c == world_cell(col as int, row as int),
{
    Cell { x: col - HALF_PLAY_SIDE, y: row - HALF_PLAY_SIDE }
}

/// Whether the grid index pair `(x, y)` lies within `0 ..= side` on both
/// axes.
pub fn is_inside(x: i32, y: i32, side: i32) -> (inside: bool)
    ensures
        inside == (0 <= x <= side && 0 <= y <= side),
{
    if (x < 0 || x > side) || (y < 0 || y > side) {
        return false;
    }
    true
}

/// What a row-major scan of the grid has found when it stands before the
/// cell `upto`: every cell before `upto` that `keep` holds of, once and in
/// row-major order.
pub open spec fn scanned(found: Seq<Cell>, keep: spec_fn(Cell) -> bool, upto: Cell) -> bool {
    &&& forall|c: Cell|
        #![trigger found.contains(c)]
        #![trigger keep(c)]
        found.contains(c) <==> (keep(c) && row_major_before(c, upto))
    &&& ascending_row_major(found)
}

/// A scan that stands before `cell` and takes it if `keep` holds of it then
/// stands before `next`, the cell that follows `cell`.
pub proof fn lemma_scan_step(found: Seq<Cell>, keep: spec_fn(Cell) -> bool, cell: Cell, next: Cell)
    requires
        scanned(found, keep, cell),
        forall|c: Cell|
            #[trigger] row_major_before(c, next) <==> (row_major_before(c, cell) || c == cell),
    ensures
        scanned(
            if keep(cell) {
                found.push(cell)
            } else {
                found
            },
            keep,
            next,
        ),
{
    if keep(cell) {
        let longer = found.push(cell);
        assert(longer[found.len() as int] == cell);
        assert forall|c: Cell| longer.contains(c) implies (keep(c) && row_major_before(c, next)) by {
            let i = choose|i: int| 0 <= i < longer.len() && longer[i] == c;
            if i < found.len() {
                assert(found[i] == c);
                assert(found.contains(c));
            }
        }
        assert forall|c: Cell| keep(c) && row_major_before(c, next) implies longer.contains(c) by {
            if row_major_before(c, cell) {
                assert(found.contains(c));
                let i = choose|i: int| 0 <= i < found.len() && found[i] == c;
                assert(longer[i] == c);
            }
        }
        assert forall|i: int, j: int| 0 <= i < j < longer.len() implies row_major_before(
            #[trigger] longer[i],
            #[trigger] longer[j],
        ) by {
            assert(longer[i] == found[i]);
            if j < found.len() {
                assert(longer[j] == found[j]);
            } else {
                assert(found.contains(found[i]));
            }
        }
    } else {
        assert forall|c: Cell| keep(c) && row_major_before(c, next) implies found.contains(c) by {
            assert(row_major_before(c, cell));
        }
    }
}

/// A scan that stands before `a` stands before `b` as well if the two have
/// the same kept cells before them.
pub proof fn lemma_scan_skip(found: Seq<Cell>, keep: spec_fn(Cell) -> bool, a: Cell, b: Cell)
    requires
        scanned(found, keep, a),
        forall|c: Cell| #[trigger] keep(c) ==> (row_major_before(c, a) <==> row_major_before(c, b)),
    ensures
        scanned(found, keep, b),
{
}

/// Number of wall cells that precede the grid index pair `(x, y)` in row-major
/// order, for indices in `-1 ..= PLAY_SIDE + 1` (`x` may be one past the end
/// of a row, `y` one past the last row).
spec fn walls_before(x: int, y: int) -> int {
    let rows = if y == -1 {
        0
    } else if y <= PLAY_SIDE + 1 {
        33 + 2 * y
    } else {
        128
    };
    let in_row = if y == -1 || y == PLAY_SIDE + 1 {
        x + 1
    } else if x <= -1 {
        0
    } else if x <= PLAY_SIDE + 1 {
        1
    } else {
        2
    };
    rows + in_row
}

/// The wall cells around the play area: every cell of the frame exactly once,
/// in row-major order.
pub fn wall_cells() -> (walls: Vec<Cell>)
    ensures
        forall|c: Cell|
            #![trigger walls@.contains(c)]
            #![trigger on_frame(c)]
            walls@.contains(c) <==> on_frame(c),
        ascending_row_major(walls@),
        walls@.len() == WALL_COUNT,
{
    let ghost keep = |c: Cell| on_frame(c);
    let mut walls: Vec<Cell> = Vec::new();
    let mut y: i32 = -1;
    while y <= PLAY_SIDE + 1
        invariant
            -1 <= y <= PLAY_SIDE + 2,
            keep == |c: Cell| on_frame(c),
            walls@.len() == walls_before(-1, y as int),
            scanned(walls@, keep, world_cell(-1, y as int)),
        decreases PLAY_SIDE + 2 - y,
    {
        let mut x: i32 = -1;
        while x <= PLAY_SIDE + 1
            invariant
                -1 <= y <= PLAY_SIDE + 1,
                -1 <= x <= PLAY_SIDE + 2,
                keep == |c: Cell| on_frame(c),
                walls@.len() == walls_before(x as int, y as int),
                scanned(walls@, keep, world_cell(x as int, y as int)),
            decreases PLAY_SIDE + 2 - x,
        {
            let cell = to_world(x, y);
            proof {
                lemma_scan_step(walls@, keep, cell, world_cell(x + 1, y as int));
            }
            if !is_inside(x, y, PLAY_SIDE) {
                walls.push(cell);
            }
            x = x + 1;
        }
        proof {
            lemma_scan_skip(walls@, keep, world_cell(x as int, y as int), world_cell(-1, y + 1));
        }
        y = y + 1;
    }
    proof {
        assert forall|c: Cell| on_frame(c) implies walls@.contains(c) by {
            assert(keep(c));
        }
        assert forall|c: Cell| walls@.contains(c) implies on_frame(c) by {
            assert(keep(c));
        }
    }
    walls
}

} // verus!
