//! The board: its mathematical model and the operations on it.

use vstd::prelude::*;
use crate::cell::{CellState, Player};
use crate::geometry::{in_grid, Direction, Position, CELLS_HEIGHT, CELLS_WIDTH};
use crate::theorems::lemma_drop_preserves_gravity;

verus! {

/// The board as a mathematical value: `cells[row][col]`, row 0 at the bottom,
/// and the player whose turn it is.
pub struct BoardView {
    pub cells: Seq<Seq<CellState>>,
    pub current_player: Player,
}

impl BoardView {
    /// The grid has `CELLS_HEIGHT` rows of `CELLS_WIDTH` cells each.
    pub open spec fn wf(self) -> bool {
        &&& self.cells.len() == CELLS_HEIGHT
        &&& forall|row: int| 0 <= row < CELLS_HEIGHT ==> (#[trigger] self.cells[row]).len() == CELLS_WIDTH
    }

    /// The content of the cell at `(row, col)`.
    pub open spec fn at(self, row: int, col: int) -> CellState {
        self.cells[row][col]
    }

    /// The board before the first move: every cell empty, first player to move.
    pub open spec fn empty() -> BoardView {
        BoardView {
            cells: Seq::new(
                CELLS_HEIGHT as nat,
                |row: int| Seq::new(CELLS_WIDTH as nat, |col: int| CellState::Empty),
            ),
            current_player: Player::PlayerOne,
        }
    }

    /// The same board with the cell at `(row, col)` replaced by `piece`.
    pub open spec fn with_cell(self, row: int, col: int, piece: CellState) -> BoardView {
        BoardView {
            cells: self.cells.update(row, self.cells[row].update(col, piece)),
            current_player: self.current_player,
        }
    }

    /// The same grid with the turn passed to the other player.
    pub open spec fn switched(self) -> BoardView {
        BoardView { cells: self.cells, current_player: self.current_player.other() }
    }

    /// Whether column `col` has an empty cell.
    pub open spec fn column_has_room(self, col: int) -> bool {
        exists|row: int| 0 <= row < CELLS_HEIGHT && #[trigger] self.at(row, col) == CellState::Empty
    }

    /// Whether every cell of column `col` is taken.
    pub open spec fn column_is_full(self, col: int) -> bool {
        forall|row: int| 0 <= row < CELLS_HEIGHT ==> #[trigger] self.at(row, col) != CellState::Empty
    }

    /// Whether `row` is the lowest empty row of column `col`.
    pub open spec fn is_landing_row(self, row: int, col: int) -> bool {
        &&& 0 <= row < CELLS_HEIGHT
        &&& self.at(row, col) == CellState::Empty
        &&& forall|below: int| 0 <= below < row ==> #[trigger] self.at(below, col) != CellState::Empty
    }

    /// The row on which a piece dropped into column `col` comes to rest.
    /// Meaningful where the column has room.
    pub open spec fn landing_row(self, col: int) -> int {
        choose|row: int| self.is_landing_row(row, col)
    }

    /// The board after `piece` has been dropped into column `col`.
    pub open spec fn dropped(self, col: int, piece: CellState) -> BoardView {
        self.with_cell(self.landing_row(col), col, piece)
    }

    /// No piece floats: below a taken cell every cell of the column is taken.
    pub open spec fn obeys_gravity(self) -> bool {
        forall|lo: int, hi: int, col: int|
            #![trigger self.at(lo, col), self.at(hi, col)]
            0 <= lo <= hi < CELLS_HEIGHT && 0 <= col < CELLS_WIDTH && self.at(hi, col) != CellState::Empty
                ==> self.at(lo, col) != CellState::Empty
    }

    /// Column `col` is stacked `height` high: taken below that row, empty
    /// from it upwards.
    pub open spec fn column_height_is(self, col: int, height: int) -> bool {
        &&& 0 <= height <= CELLS_HEIGHT
        &&& forall|row: int| 0 <= row < height ==> #[trigger] self.at(row, col) != CellState::Empty
        &&& forall|row: int| height <= row < CELLS_HEIGHT ==> #[trigger] self.at(row, col) == CellState::Empty
    }

    /// The board after the pieces have been dropped into column `col` one
    /// after the other, the first of them first.
    pub open spec fn dropped_all(self, col: int, pieces: Seq<CellState>) -> BoardView
        decreases pieces.len(),
    {
        if pieces.len() == 0 {
            self
        } else {
            self.dropped_all(col, pieces.drop_last()).dropped(col, pieces.last())
        }
    }

    /// Replacing a cell changes that cell and no other, and keeps the shape
    /// of the grid and the turn.
    pub proof fn lemma_with_cell(self, row: int, col: int, piece: CellState)
        requires
            self.wf(),
            in_grid(row, col),
        ensures
            self.with_cell(row, col, piece).wf(),
            self.with_cell(row, col, piece).current_player == self.current_player,
            self.with_cell(row, col, piece).at(row, col) == piece,
            forall|r: int, c: int|
                in_grid(r, c) && (r != row || c != col) ==> #[trigger] self.with_cell(row, col, piece).at(r, c)
                    == self.at(r, c),
    {
    }

    /// A column with room has a landing row.
    pub proof fn lemma_landing_row_exists(self, col: int)
        requires
            self.column_has_room(col),
        ensures
            self.is_landing_row(self.landing_row(col), col),
    {
        let some = choose|row: int| 0 <= row < CELLS_HEIGHT && self.at(row, col) == CellState::Empty;
        self.lemma_lowest_empty_row(col, some);
    }

    /// Below an empty cell of a column lies the column's landing row, or the
    /// cell is that row itself.
    proof fn lemma_lowest_empty_row(self, col: int, row: int)
        requires
            0 <= row < CELLS_HEIGHT,
            self.at(row, col) == CellState::Empty,
        ensures
            exists|lowest: int| self.is_landing_row(lowest, col),
        decreases row,
    {
        if exists|below: int| 0 <= below < row && self.at(below, col) == CellState::Empty {
            let below = choose|below: int| 0 <= below < row && self.at(below, col) == CellState::Empty;
            self.lemma_lowest_empty_row(col, below);
        } else {
            assert(self.is_landing_row(row, col));
        }
    }

    /// A column has at most one landing row.
    pub proof fn lemma_landing_row_is_unique(self, row: int, col: int)
        requires
            self.is_landing_row(row, col),
        ensures
            self.landing_row(col) == row,
    {
        let chosen = self.landing_row(col);
        assert(self.is_landing_row(chosen, col));
        if chosen < row {
            assert(self.at(chosen, col) != CellState::Empty);
        }
        if row < chosen {
            assert(self.at(row, col) != CellState::Empty);
        }
    }

    /// Whether the cell `k` steps from `(row, col)` along `dir` lies on the
    /// grid and holds `color`.
    pub open spec fn holds(self, row: int, col: int, dir: Direction, k: int, color: CellState) -> bool {
        &&& in_grid(dir.row_after(row, k), dir.col_after(col, k))
        &&& self.at(dir.row_after(row, k), dir.col_after(col, k)) == color
    }

    /// The number of cells in a row that hold `color`, counted from
    /// `(row, col)` along `dir` up to the first cell that is off the grid or
    /// holds something else. The opposite direction is not looked at.
    pub open spec fn run_length(self, row: int, col: int, dir: Direction, color: CellState) -> nat
        decreases dir.steps_to_edge(row, col),
    {
        if in_grid(row, col) && self.at(row, col) == color {
            1 + self.run_length(dir.row_after(row, 1), dir.col_after(col, 1), dir, color)
        } else {
            0
        }
    }

    /// The longest run of the current player's colour that starts at
    /// `(row, col)` and follows one of the four directions; 0 where the cell
    /// does not hold that colour.
    pub open spec fn greatest_chain_from(self, row: int, col: int) -> nat {
        let color = self.current_player.spec_color();
        if self.at(row, col) != color {
            0
        } else {
            larger(
                larger(
                    self.run_length(row, col, Direction::Up, color),
                    self.run_length(row, col, Direction::UpLeft, color),
                ),
                larger(
                    self.run_length(row, col, Direction::UpRight, color),
                    self.run_length(row, col, Direction::Right, color),
                ),
            )
        }
    }

    /// Whether the four cells from `(row, col)` along `dir` all lie on the
    /// grid and hold `color`.
    pub open spec fn line_of_four(self, row: int, col: int, dir: Direction, color: CellState) -> bool {
        &&& self.holds(row, col, dir, 0, color)
        &&& self.holds(row, col, dir, 1, color)
        &&& self.holds(row, col, dir, 2, color)
        &&& self.holds(row, col, dir, 3, color)
    }

    /// Whether four cells next to each other on one line, vertical, horizontal
    /// or diagonal, hold `color`.
    pub open spec fn has_four_in_a_row(self, color: CellState) -> bool {
        exists|row: int, col: int, dir: Direction| self.line_of_four(row, col, dir, color)
    }

    /// Whether the player to move has four in a row.
    pub open spec fn has_win(self) -> bool {
        self.has_four_in_a_row(self.current_player.spec_color())
    }

    /// A run reaches `n` cells exactly when the first `n` cells along the
    /// direction all hold the colour.
    pub proof fn lemma_run_length_reaches(self, row: int, col: int, dir: Direction, color: CellState, n: nat)
        ensures
            self.run_length(row, col, dir, color) >= n <==> (forall|k: int|
                0 <= k < n ==> self.holds(row, col, dir, k, color)),
        decreases n,
    {
        if n > 0 {
            let next_row = dir.row_after(row, 1);
            let next_col = dir.col_after(col, 1);
            self.lemma_run_length_reaches(next_row, next_col, dir, color, (n - 1) as nat);
            assert forall|k: int| self.holds(next_row, next_col, dir, k, color) == self.holds(row, col, dir, k + 1, color) by {
                assert((k + 1) * dir.dy() == k * dir.dy() + dir.dy()) by (nonlinear_arith);
                assert((k + 1) * dir.dx() == k * dir.dx() + dir.dx()) by (nonlinear_arith);
            }
            if self.run_length(row, col, dir, color) >= n {
                assert forall|k: int| 0 <= k < n implies self.holds(row, col, dir, k, color) by {
                    if k > 0 {
                        assert(self.holds(next_row, next_col, dir, k - 1, color));
                    }
                }
            }
            if forall|k: int| 0 <= k < n ==> self.holds(row, col, dir, k, color) {
                assert(self.holds(row, col, dir, 0, color));
                assert forall|k: int| 0 <= k < n - 1 implies self.holds(next_row, next_col, dir, k, color) by {
                    assert(self.holds(row, col, dir, k + 1, color));
                }
            }
        }
    }

    /// A cell starts a chain of four or more exactly when it starts a line of
    /// four of the current player's colour in one of the four directions.
    pub proof fn lemma_chain_of_four(self, row: int, col: int)
        ensures
            self.greatest_chain_from(row, col) >= 4 <==> (exists|dir: Direction|
                self.line_of_four(row, col, dir, self.current_player.spec_color())),
    {
        let color = self.current_player.spec_color();
        self.lemma_run_length_reaches(row, col, Direction::Up, color, 4);
        self.lemma_run_length_reaches(row, col, Direction::UpLeft, color, 4);
        self.lemma_run_length_reaches(row, col, Direction::UpRight, color, 4);
        self.lemma_run_length_reaches(row, col, Direction::Right, color, 4);
        if self.greatest_chain_from(row, col) >= 4 {
            let dir = if self.run_length(row, col, Direction::Up, color) >= 4 {
                Direction::Up
            } else if self.run_length(row, col, Direction::UpLeft, color) >= 4 {
                Direction::UpLeft
            } else if self.run_length(row, col, Direction::UpRight, color) >= 4 {
                Direction::UpRight
            } else {
                Direction::Right
            };
            assert(self.line_of_four(row, col, dir, color));
        }
        if exists|dir: Direction| self.line_of_four(row, col, dir, color) {
            let dir = choose|dir: Direction| self.line_of_four(row, col, dir, color);
            assert(self.holds(row, col, dir, 0, color));
            assert(self.run_length(row, col, dir, color) >= 4);
        }
    }

    /// The player to move has won exactly when some cell of the grid starts a
    /// chain of four or more.
    pub proof fn lemma_win_is_chain_of_four(self)
        ensures
            self.has_win() <==> (exists|row: int, col: int|
                in_grid(row, col) && self.greatest_chain_from(row, col) >= 4),
    {
        let color = self.current_player.spec_color();
        if self.has_win() {
            let (row, col, dir) = choose|row: int, col: int, dir: Direction| self.line_of_four(row, col, dir, color);
            assert(self.holds(row, col, dir, 0, color));
            self.lemma_chain_of_four(row, col);
            assert(in_grid(row, col) && self.greatest_chain_from(row, col) >= 4);
        }
        if exists|row: int, col: int| in_grid(row, col) && self.greatest_chain_from(row, col) >= 4 {
            let (row, col) = choose|row: int, col: int| in_grid(row, col) && self.greatest_chain_from(row, col) >= 4;
            self.lemma_chain_of_four(row, col);
            let dir = choose|dir: Direction| self.line_of_four(row, col, dir, color);
            assert(self.line_of_four(row, col, dir, color));
        }
    }
}

/// The larger of two numbers.
pub open spec fn larger(a: nat, b: nat) -> nat {
    if a >= b {
        a
    } else {
        b
    }
}

/// The playing field and the player to move.
#[derive(Clone, Copy, Debug, PartialEq, Eq)]
pub struct Board {
    pub cells: [[CellState; CELLS_WIDTH]; CELLS_HEIGHT],
    pub current_player: Player,
}

impl View for Board {
    type V = BoardView;

    open spec fn view(&self) -> BoardView {
        BoardView {
            cells: Seq::new(CELLS_HEIGHT as nat, |row: int| self.cells[row]@),
            current_player: self.current_player,
        }
    }
}

impl Default for Board {
    /// An empty board on which the first player is to move.
    fn default() -> (board: Board)
        ensures
            board@ == BoardView::empty(),
    {
        Board::new()
    }
}

impl Board {
    /// The view of a board always has the shape of the grid.
    pub proof fn lemma_view_wf(&self)
        ensures
            self@.wf(),
            forall|row: int, col: int| in_grid(row, col) ==> self@.at(row, col) == #[trigger] self.cells[row][col],
    {
    }

    /// An empty board on which the first player is to move.
    pub fn new() -> (board: Board)
        ensures
            board@ == BoardView::empty(),
    {
        let board = Board {
            cells: [[CellState::Empty; CELLS_WIDTH]; CELLS_HEIGHT],
            current_player: Player::PlayerOne,
        };
        assert forall|row: int| 0 <= row < CELLS_HEIGHT implies #[trigger] board.cells[row]@ =~= Seq::new(
            CELLS_WIDTH as nat,
            |col: int| CellState::Empty,
        ) by {
            assert(forall|col: int| 0 <= col < CELLS_WIDTH ==> board.cells[row][col] == CellState::Empty);
        }
        assert(board@.cells =~= BoardView::empty().cells);
        board
    }

    /// Passes the turn to the other player. The grid is left as it is.
    pub fn switch_player(&mut self)
        ensures
            final(self)@ == old(self)@.switched(),
    {
        self.current_player = match self.current_player {
            Player::PlayerOne => Player::PlayerTwo,
            Player::PlayerTwo => Player::PlayerOne,
        };
    }

    /// Overwrites one cell.
    pub fn set_cell(&mut self, row: usize, col: usize, piece: CellState)
        requires
            row < CELLS_HEIGHT,
            col < CELLS_WIDTH,
        ensures
            final(self)@ == old(self)@.with_cell(row as int, col as int, piece),
    {
        self.cells[row][col] = piece;
        let ghost expected = old(self)@.with_cell(row as int, col as int, piece);
        assert forall|r: int| 0 <= r < CELLS_HEIGHT implies #[trigger] self@.cells[r] == expected.cells[r] by {
            if r == row {
                assert(self.cells[r]@ =~= old(self).cells[r]@.update(col as int, piece));
            }
        }
        assert(self@.cells =~= expected.cells);
    }

    /// Whether a piece can still be dropped into the column.
    pub fn check_if_valid_row(&self, col_number: &usize) -> (has_room: bool)
        requires
            *col_number < CELLS_WIDTH,
        ensures
            has_room == self@.column_has_room(*col_number as int),
            !has_room <==> self@.column_is_full(*col_number as int),
    {
        let col = *col_number;
        for row in 0..CELLS_HEIGHT
            invariant
                col == *col_number,
                col < CELLS_WIDTH,
                forall|below: int| 0 <= below < row ==> #[trigger] self@.at(below, col as int) != CellState::Empty,
        {
            if self.cells[row][col] == CellState::Empty {
                assert(self@.at(row as int, col as int) == CellState::Empty);
                return true;
            }
        }
        false
    }

    /// Drops `piece` into the column: the lowest empty cell of the column
    /// takes it, and nothing else changes. The turn is not passed on.
    pub fn place_piece(&mut self, col_number: usize, piece: CellState)
        requires
            col_number < CELLS_WIDTH,
            old(self)@.column_has_room(col_number as int),
        ensures
            final(self)@ == old(self)@.dropped(col_number as int, piece),
            old(self)@.obeys_gravity() ==> final(self)@.obeys_gravity(),
    {
        proof {
            self.lemma_view_wf();
            if self@.obeys_gravity() {
                lemma_drop_preserves_gravity(self@, col_number as int, piece);
            }
        }
        let mut index: usize = 0;
        while index < CELLS_HEIGHT
            invariant_except_break
                *self == *old(self),
                forall|below: int| 0 <= below < index ==> #[trigger] self@.at(below, col_number as int) != CellState::Empty,
            invariant
                index <= CELLS_HEIGHT,
                col_number < CELLS_WIDTH,
                old(self)@.column_has_room(col_number as int),
            ensures
                self@ == old(self)@.dropped(col_number as int, piece),
            decreases CELLS_HEIGHT - index,
        {
            if self.cells[index][col_number] == CellState::Empty {
                proof {
                    assert(self@.at(index as int, col_number as int) == CellState::Empty);
                    self@.lemma_landing_row_is_unique(index as int, col_number as int);
                }
                self.set_cell(index, col_number, piece);
                break ;
            }
            index += 1;
        }
    }

    /// The longest run of the current player's pieces that starts at the
    /// given cell, over the four directions, the cell itself included.
    pub fn get_greatest_chain_from_cell(&self, row_index: usize, col_index: usize) -> (longest: usize)
        requires
            row_index < CELLS_HEIGHT,
            col_index < CELLS_WIDTH,
        ensures
            longest == self@.greatest_chain_from(row_index as int, col_index as int),
    {
        let directions = Direction::all_directions();
        let cell_position = Position { x: col_index, y: row_index };
        let color = self.current_player.color();
        let ghost row = row_index as int;
        let ghost col = col_index as int;

        let current_cell = self.cells[cell_position.y][cell_position.x];
        if current_cell == CellState::Empty {
            return 0;
        }
        if current_cell != color {
            return 0;
        }
        let mut longest_chain: usize = 1;

        let mut d: usize = 0;
        while d < 4
            invariant
                d <= 4,
                row == row_index,
                col == col_index,
                row_index < CELLS_HEIGHT,
                col_index < CELLS_WIDTH,
                color == self@.current_player.spec_color(),
                self@.at(row, col) == color,
                directions@ == seq![Direction::Up, Direction::UpLeft, Direction::UpRight, Direction::Right],
                1 <= longest_chain,
                forall|k: int| 0 <= k < d ==> self@.run_length(row, col, #[trigger] directions@[k], color) <= longest_chain,
                longest_chain == 1 || exists|k: int| 0 <= k < d && self@.run_length(row, col, #[trigger] directions@[k], color) == longest_chain,
            decreases 4 - d,
        {
            let direction = directions[d];
            let mut temp_position: Position = Position { x: col_index, y: row_index };
            let mut chain_length: usize = 1;

            loop
                invariant_except_break
                    temp_position.in_grid(),
                    self@.at(temp_position.y as int, temp_position.x as int) == color,
                    1 <= chain_length,
                    chain_length + direction.steps_to_edge(temp_position.y as int, temp_position.x as int)
                        <= CELLS_WIDTH + 1,
                    self@.run_length(row, col, direction, color) == (chain_length - 1) + self@.run_length(
                        temp_position.y as int,
                        temp_position.x as int,
                        direction,
                        color,
                    ),
                ensures
                    chain_length == self@.run_length(row, col, direction, color),
                decreases direction.steps_to_edge(temp_position.y as int, temp_position.x as int),
            {
                let ghost next_row = direction.row_after(temp_position.y as int, 1);
                let ghost next_col = direction.col_after(temp_position.x as int, 1);
                if !direction.can_be_applied_to(temp_position) {
                    assert(self@.run_length(next_row, next_col, direction, color) == 0);
                    break ;
                }
                temp_position = direction.apply_to(temp_position);

                let new_cell = self.cells[temp_position.y][temp_position.x];
                if new_cell != color {
                    assert(self@.run_length(next_row, next_col, direction, color) == 0);
                    break ;
                }
                chain_length += 1;
            }

            if chain_length > longest_chain {
                longest_chain = chain_length
            }
            d += 1;
        }

        longest_chain
    }

    /// Whether the player to move has four or more pieces in a row. Meant to
    /// be asked right after that player's move, before the turn is passed on.
    pub fn check_for_win(&self) -> (won: bool)
        ensures
            won == self@.has_win(),
    {
        let mut longest_chain: usize = 0;

        for row_index in 0..CELLS_HEIGHT
            invariant
                forall|row: int, col: int|
                    0 <= row < row_index && 0 <= col < CELLS_WIDTH ==> #[trigger] self@.greatest_chain_from(row, col)
                        <= longest_chain,
                longest_chain == 0 || exists|row: int, col: int|
                    in_grid(row, col) && #[trigger] self@.greatest_chain_from(row, col) == longest_chain,
        {
            for col_index in 0..CELLS_WIDTH
                invariant
                    row_index < CELLS_HEIGHT,
                    forall|row: int, col: int|
                        0 <= row < row_index && 0 <= col < CELLS_WIDTH ==> #[trigger] self@.greatest_chain_from(
                            row,
                            col,
                        ) <= longest_chain,
                    forall|col: int|
                        0 <= col < col_index ==> #[trigger] self@.greatest_chain_from(row_index as int, col)
                            <= longest_chain,
                    longest_chain == 0 || exists|row: int, col: int|
                        in_grid(row, col) && #[trigger] self@.greatest_chain_from(row, col) == longest_chain,
            {
                if self.cells[row_index][col_index] != CellState::Empty {
                    let temp_longest_chain: usize = self.get_greatest_chain_from_cell(row_index, col_index);
                    if temp_longest_chain > longest_chain {
                        longest_chain = temp_longest_chain
                    }
                } else {
                    assert(self@.greatest_chain_from(row_index as int, col_index as int) == 0);
                }
            }
        }

        proof {
            self@.lemma_win_is_chain_of_four();
        }
        longest_chain >= 4
    }
}

} // verus!
