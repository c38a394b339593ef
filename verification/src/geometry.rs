//! Grid dimensions, positions and the four scan directions.

use vstd::prelude::*;

verus! {

/// Number of columns.
pub const CELLS_WIDTH: usize = 7;

/// Number of rows. Row 0 is the bottom row.
pub const CELLS_HEIGHT: usize = 6;

/// Whether `(row, col)` names a cell of the grid.
pub open spec fn in_grid(row: int, col: int) -> bool {
    0 <= row < CELLS_HEIGHT && 0 <= col < CELLS_WIDTH
}

/// A cell of the grid: `x` is the column, `y` the row, both counted from zero.
#[derive(Clone, Copy, Debug, PartialEq, Eq, Structural)]
pub struct Position {
    pub x: usize,
    pub y: usize,
}

impl Position {
    /// Whether the position lies on the grid.
    pub open spec fn in_grid(self) -> bool {
        in_grid(self.y as int, self.x as int)
    }
}

/// A direction in which a line of cells is followed. Together with their
/// opposites these four cover the vertical, the horizontal and both diagonals.
#[derive(Clone, Copy, Debug, PartialEq, Eq, Structural)]
pub enum Direction {
    Up,
    UpLeft,
    UpRight,
    Right,
}

impl Direction {
    /// Change of column made by one step.
    pub open spec fn dx(self) -> int {
        match self {
            Direction::Up => 0,
            Direction::UpLeft => -1,
            Direction::UpRight => 1,
            Direction::Right => 1,
        }
    }

    /// Change of row made by one step.
    pub open spec fn dy(self) -> int {
        match self {
            Direction::Up => 1,
            Direction::UpLeft => 1,
            Direction::UpRight => 1,
            Direction::Right => 0,
        }
    }

    /// The row reached from `row` after `steps` steps.
    pub open spec fn row_after(self, row: int, steps: int) -> int {
        row + steps * self.dy()
    }

    /// The column reached from `col` after `steps` steps.
    pub open spec fn col_after(self, col: int, steps: int) -> int {
        col + steps * self.dx()
    }

    /// A bound on the cells that a walk from `(row, col)` can still visit,
    /// that cell included: the rows up to the top edge, or, for a walk along
    /// a row, the columns up to the right edge. Each step lowers it by one.
    pub open spec fn steps_to_edge(self, row: int, col: int) -> int {
        match self {
            Direction::Right => CELLS_WIDTH - col,
            _ => CELLS_HEIGHT - row,
        }
    }

    /// The boundary rule of each direction: a step upwards is refused on the
    /// top row, a step to the left on the first column, a step to the right on
    /// the last column.
    pub open spec fn can_extend(self, pos: Position) -> bool {
        match self {
            Direction::Up => pos.y != CELLS_HEIGHT - 1,
            Direction::UpLeft => pos.y != CELLS_HEIGHT - 1 && pos.x != 0,
            Direction::UpRight => pos.y != CELLS_HEIGHT - 1 && pos.x != CELLS_WIDTH - 1,
            Direction::Right => pos.x != CELLS_WIDTH - 1,
        }
    }

    /// The four directions, in the order in which lines are scanned.
    pub fn all_directions() -> (dirs: [Direction; 4])
        ensures
            dirs@ == seq![Direction::Up, Direction::UpLeft, Direction::UpRight, Direction::Right],
    {
        [Direction::Up, Direction::UpLeft, Direction::UpRight, Direction::Right]
    }

    /// Whether one step from `pos` stays on the grid.
    pub fn can_be_applied_to(&self, pos: Position) -> (ok: bool)
        ensures
            ok == self.can_extend(pos),
            pos.in_grid() ==> (ok <==> in_grid(self.row_after(pos.y as int, 1), self.col_after(pos.x as int, 1))),
    {
        match self {
            Direction::Up => pos.y != CELLS_HEIGHT - 1,
            Direction::UpLeft => pos.y != CELLS_HEIGHT - 1 && pos.x != 0,
            Direction::UpRight => pos.y != CELLS_HEIGHT - 1 && pos.x != CELLS_WIDTH - 1,
            Direction::Right => pos.x != CELLS_WIDTH - 1,
        }
    }

    /// The neighbour of `pos` one step away.
    pub fn apply_to(&self, pos: Position) -> (next: Position)
        requires
            pos.in_grid(),
            self.can_extend(pos),
        ensures
            next.y == self.row_after(pos.y as int, 1),
            next.x == self.col_after(pos.x as int, 1),
            next.in_grid(),
    {
        match self {
            Direction::Up => Position { x: pos.x, y: pos.y + 1 },
            Direction::UpLeft => Position { x: pos.x - 1, y: pos.y + 1 },
            Direction::UpRight => Position { x: pos.x + 1, y: pos.y + 1 },
            Direction::Right => Position { x: pos.x + 1, y: pos.y },
        }
    }
}

} // verus!
