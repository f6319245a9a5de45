//! The grid of points: where each point rests and where it is drawn.

use vstd::arithmetic::div_mod::lemma_fundamental_div_mod_converse;
use vstd::prelude::*;
use crate::controls::Mode;
use crate::displacement::{displace, displaced, position_of};
use crate::geometry::{magnitude, Point, Position};
use crate::numeric::floor_div;
use crate::units::{COORD_LIMIT, MAX_REACH};

verus! {

/// Number of columns of the usual layout.
pub const GRID_COLUMNS: usize = 20;

/// Number of rows of the usual layout.
pub const GRID_ROWS: usize = 14;

/// Number of points of every grid.
pub const GRID_POINTS: usize = 280;

/// Why a layout was refused.
#[derive(Clone, Copy, Debug, PartialEq, Eq, Structural)]
pub enum LayoutError {
    /// The columns and rows asked for do not make up the points of a grid.
    InvalidLayout,
}

/// The model of a [`Grid`]: for each point, in order, the position at which
/// it rests and the position at which it is drawn, if it has one.
pub ghost struct GridView {
    pub base: Seq<Position>,
    pub current: Seq<Option<Position>>,
}

impl GridView {
    /// Both sequences hold one entry for each point of a grid, and the rest
    /// positions lie within the coordinate limit.
    pub open spec fn wf(self) -> bool {
        &&& self.base.len() == GRID_POINTS
        &&& self.current.len() == GRID_POINTS
        &&& forall|i: int|
            0 <= i < self.base.len() ==> (#[trigger] self.base[i]).within(COORD_LIMIT as int)
    }

    /// Every point is drawn where it rests.
    pub open spec fn at_rest(self) -> bool {
        &&& self.current.len() == self.base.len()
        &&& forall|i: int|
            0 <= i < self.base.len() ==> #[trigger] self.current[i] == Some(self.base[i])
    }
}

/// The positions of a sequence of points.
pub open spec fn positions(points: Seq<Point>) -> Seq<Position> {
    Seq::new(points.len(), |i: int| points[i]@)
}

/// The positions of a sequence of points that may have none.
pub open spec fn placements(points: Seq<Option<Point>>) -> Seq<Option<Position>> {
    Seq::new(points.len(), |i: int| position_of(points[i]))
}

/// The coordinate of line `k` among `count` lines that lie `cell` apart and
/// are centred on the origin.
pub open spec fn lattice_coordinate(cell: int, k: int, count: int) -> int {
    k * cell - cell * (count - 1) / 2
}

/// Whether `count` lines that lie `cell` apart and are centred on the origin
/// all lie within the coordinate limit: the lattice is less than twice the
/// limit wide.
pub open spec fn lattice_fits(cell: int, count: int) -> bool {
    magnitude(cell) * (count - 1) < 2 * COORD_LIMIT
}

/// The rest position of point `i` of a lattice that is filled column by
/// column.
pub open spec fn lattice_position(cell: int, columns: int, rows: int, i: int) -> Position {
    Position {
        x: lattice_coordinate(cell, i / rows, columns),
        y: lattice_coordinate(cell, i % rows, rows),
    }
}

/// The grid that a layout of `columns` by `rows` points with the given cell
/// size makes: every point rests on the lattice and is drawn where it rests.
pub open spec fn generated(cell: int, columns: int, rows: int) -> GridView {
    GridView {
        base: Seq::new((columns * rows) as nat, |i: int| lattice_position(cell, columns, rows, i)),
        current: Seq::new(
            (columns * rows) as nat,
            |i: int| Some(lattice_position(cell, columns, rows, i)),
        ),
    }
}

/// The grid after the drawn positions have been computed anew for a cursor
/// position, a mode and a reach: the rest positions stay, and each point is
/// drawn where its rest position is displaced to.
pub open spec fn updated(grid: GridView, cursor: Position, mode: Mode, reach: nat) -> GridView {
    GridView {
        base: grid.base,
        current: Seq::new(grid.base.len(), |i: int| displaced(grid.base[i], cursor, mode, reach)),
    }
}

/// The rest positions and the drawn positions of the points, index by index.
#[derive(Clone, Debug, PartialEq, Eq)]
pub struct Grid {
    base: Vec<Point>,
    current: Vec<Option<Point>>,
}

impl View for Grid {
    type V = GridView;

    closed spec fn view(&self) -> GridView {
        GridView { base: positions(self.base@), current: placements(self.current@) }
    }
}

impl Grid {
    /// The grid holds its full number of points, within the coordinate limit.
    pub open spec fn wf(&self) -> bool {
        self@.wf()
    }

    /// The rest positions, in order.
    pub fn base(&self) -> (points: &Vec<Point>)
        ensures
            positions(points@) == self@.base,
    {
        &self.base
    }

    /// The drawn positions, in the order of the rest positions.
    pub fn current(&self) -> (points: &Vec<Option<Point>>)
        ensures
            placements(points@) == self@.current,
    {
        &self.current
    }
}

/// Computes a coordinate of the lattice.
fn lattice_line(cell_size: i32, k: usize, count: usize) -> (v: i32)
    requires
        k < count <= GRID_POINTS,
        lattice_fits(cell_size as int, count as int),
    ensures
        v == lattice_coordinate(cell_size as int, k as int, count as int),
        -COORD_LIMIT <= v <= COORD_LIMIT,
{
    let cell: i64 = cell_size as i64;
    let lines: i64 = (count - 1) as i64;
    let place: i64 = k as i64;
    proof {
        let m = magnitude(cell as int);
        assert(-(m * lines) <= cell * (2 * place - lines) <= m * lines) by (nonlinear_arith)
            requires
                m == magnitude(cell as int),
                0 <= place <= lines,
        ;
        assert(cell * (2 * place - lines) == 2 * (place * cell) - cell * lines)
            by (nonlinear_arith);
        assert(-(m * lines) <= cell * lines <= m * lines) by (nonlinear_arith)
            requires
                m == magnitude(cell as int),
                0 <= lines,
        ;
    }
    let centre: i64 = floor_div(cell * lines, 2);
    let v: i64 = place * cell - centre;
    v as i32
}

/// Lays out a grid of `columns` by `rows` points that lie `cell_size` apart,
/// centred on the origin and filled column by column. A layout that does not
/// make up the points of a grid is refused.
pub fn generate(cell_size: i32, columns: usize, rows: usize) -> (made: Result<Grid, LayoutError>)
    requires
        columns * rows == GRID_POINTS ==> lattice_fits(cell_size as int, columns as int)
            && lattice_fits(cell_size as int, rows as int),
    ensures
        made is Ok <==> columns * rows == GRID_POINTS,
        made matches Ok(grid) ==> grid.wf() && grid@.at_rest() && grid@ == generated(
            cell_size as int,
            columns as int,
            rows as int,
        ),
        made matches Err(e) ==> e == LayoutError::InvalidLayout,
{
    if columns > GRID_POINTS || rows > GRID_POINTS {
        assert(columns * rows != GRID_POINTS) by (nonlinear_arith)
            requires
                columns > GRID_POINTS || rows > GRID_POINTS,
        ;
        return Err(LayoutError::InvalidLayout);
    }
    assert(columns * rows <= 280 * 280) by (nonlinear_arith)
        requires
            columns <= 280,
            rows <= 280,
    ;
    if columns * rows != GRID_POINTS {
        return Err(LayoutError::InvalidLayout);
    }
    let mut base: Vec<Point> = Vec::new();
    let mut current: Vec<Option<Point>> = Vec::new();
    let mut x: usize = 0;
    while x < columns
        invariant
            lattice_fits(cell_size as int, columns as int),
            lattice_fits(cell_size as int, rows as int),
            columns * rows == GRID_POINTS,
            columns <= GRID_POINTS,
            rows <= GRID_POINTS,
            x <= columns,
            base.len() == x * rows,
            current.len() == base.len(),
            forall|i: int|
                0 <= i < base.len() ==> (#[trigger] base[i])@ == lattice_position(
                    cell_size as int,
                    columns as int,
                    rows as int,
                    i,
                ) && base[i]@.within(COORD_LIMIT as int),
            forall|i: int| 0 <= i < base.len() ==> #[trigger] current[i] == Some(base[i]),
        decreases columns - x,
    {
        let px: i32 = lattice_line(cell_size, x, columns);
        let mut y: usize = 0;
        while y < rows
            invariant
                lattice_fits(cell_size as int, columns as int),
                lattice_fits(cell_size as int, rows as int),
                columns * rows == GRID_POINTS,
                columns <= GRID_POINTS,
                rows <= GRID_POINTS,
                x < columns,
                y <= rows,
                px == lattice_coordinate(cell_size as int, x as int, columns as int),
                -COORD_LIMIT <= px <= COORD_LIMIT,
                base.len() == x * rows + y,
                current.len() == base.len(),
                forall|i: int|
                    0 <= i < base.len() ==> (#[trigger] base[i])@ == lattice_position(
                        cell_size as int,
                        columns as int,
                        rows as int,
                        i,
                    ) && base[i]@.within(COORD_LIMIT as int),
                forall|i: int| 0 <= i < base.len() ==> #[trigger] current[i] == Some(base[i]),
            decreases rows - y,
        {
            let py: i32 = lattice_line(cell_size, y, rows);
            let point = Point { x: px, y: py };
            proof {
                let i = base.len() as int;
                lemma_fundamental_div_mod_converse(i, rows as int, x as int, y as int);
            }
            base.push(point);
            current.push(Some(point));
            y = y + 1;
        }
        proof {
            assert((x + 1) * rows == x * rows + rows) by (nonlinear_arith);
        }
        x = x + 1;
    }
    let grid = Grid { base, current };
    proof {
        assert(grid@.base =~= generated(cell_size as int, columns as int, rows as int).base);
        assert(grid@.current =~= generated(cell_size as int, columns as int, rows as int).current);
    }
    Ok(grid)
}

/// Computes anew where every point of the grid is drawn, from its rest
/// position, the cursor, the mode and a reach given in units. Where the
/// points were drawn before has no part in it.
pub fn update(grid: &mut Grid, cursor: Point, mode: Mode, reach: u32)
    requires
        old(grid).wf(),
        mode is Push ==> reach <= MAX_REACH,
    ensures
        final(grid).wf(),
        final(grid)@ == updated(old(grid)@, cursor@, mode, reach as nat),
{
    let mut drawn: Vec<Option<Point>> = Vec::new();
    let mut i: usize = 0;
    while i < grid.base.len()
        invariant
            grid == old(grid),
            grid.wf(),
            mode is Push ==> reach <= MAX_REACH,
            i <= grid.base.len(),
            drawn.len() == i,
            forall|j: int|
                0 <= j < i ==> position_of(#[trigger] drawn[j]) == displaced(
                    grid.base[j]@,
                    cursor@,
                    mode,
                    reach as nat,
                ),
        decreases grid.base.len() - i,
    {
        assert(grid@.base[i as int] == grid.base[i as int]@);
        drawn.push(displace(grid.base[i], cursor, mode, reach));
        i = i + 1;
    }
    grid.current = drawn;
    proof {
        assert(grid@.current =~= updated(old(grid)@, cursor@, mode, reach as nat).current);
    }
}

/// The lines of a lattice are regular and centred: neighbours lie one cell
/// apart, and the first and the last line lie opposite each other about the
/// origin, to within the one unit that halving an odd width leaves.
pub proof fn lattice_is_regular_and_centred(cell: int, k: int, count: int)
    ensures
        lattice_coordinate(cell, k + 1, count) - lattice_coordinate(cell, k, count) == cell,
        0 <= lattice_coordinate(cell, 0, count) + lattice_coordinate(cell, count - 1, count) <= 1,
{
    assert((k + 1) * cell == k * cell + cell) by (nonlinear_arith);
    assert((count - 1) * cell == cell * (count - 1)) by (nonlinear_arith);
    assert(0 * cell == 0) by (nonlinear_arith);
}

/// A layout that makes up the points of a grid gives every one of them, and
/// draws each where it rests.
pub proof fn generated_is_complete_and_at_rest(cell: int, columns: int, rows: int)
    requires
        columns * rows == GRID_POINTS,
    ensures
        generated(cell, columns, rows).base.len() == GRID_POINTS,
        generated(cell, columns, rows).current.len() == GRID_POINTS,
        generated(cell, columns, rows).at_rest(),
{
}

/// After the drawn positions have been computed anew, the points rest where
/// they did, and each is drawn where its rest position is displaced to.
pub proof fn updated_draws_each_point_displaced(
    grid: GridView,
    cursor: Position,
    mode: Mode,
    reach: nat,
    i: int,
)
    requires
        0 <= i < grid.base.len(),
    ensures
        updated(grid, cursor, mode, reach).base == grid.base,
        updated(grid, cursor, mode, reach).current.len() == grid.base.len(),
        updated(grid, cursor, mode, reach).current[i] == displaced(
            grid.base[i],
            cursor,
            mode,
            reach,
        ),
{
}

/// Computing the drawn positions depends on the rest positions alone: two
/// grids with the same rest positions are drawn alike, and computing a
/// second time with the same cursor, mode and reach changes nothing.
pub proof fn update_depends_on_rest_positions_alone(
    first: GridView,
    second: GridView,
    cursor: Position,
    mode: Mode,
    reach: nat,
)
    requires
        first.base == second.base,
    ensures
        updated(first, cursor, mode, reach) == updated(second, cursor, mode, reach),
        updated(updated(first, cursor, mode, reach), cursor, mode, reach) == updated(
            first,
            cursor,
            mode,
            reach,
        ),
{
}

} // verus!
