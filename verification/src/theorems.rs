//! What holds of every board: statements that relate the operations of the
//! board to each other, each proved from the model in `board`.

use vstd::prelude::*;
use crate::board::BoardView;
use crate::cell::CellState;
use crate::geometry::{in_grid, Direction, CELLS_HEIGHT, CELLS_WIDTH};

verus! {

/// On a grid without pieces nobody has four in a row, whoever is to move, and
/// no cell starts a chain.
pub proof fn lemma_no_win_without_pieces(board: BoardView)
    requires
        forall|row: int, col: int| in_grid(row, col) ==> board.at(row, col) == CellState::Empty,
    ensures
        !board.has_win(),
        !board.has_four_in_a_row(CellState::Red),
        !board.has_four_in_a_row(CellState::Black),
        forall|row: int, col: int| in_grid(row, col) ==> board.greatest_chain_from(row, col) == 0,
{
    assert forall|row: int, col: int, dir: Direction, color: CellState|
        color != CellState::Empty implies !board.line_of_four(row, col, dir, color) by {
        if board.holds(row, col, dir, 0, color) {
            assert(board.at(row, col) == CellState::Empty);
        }
    }
}

/// The board before the first move has the shape of the grid, no piece on
/// it and no winner.
pub proof fn lemma_empty_board()
    ensures
        BoardView::empty().wf(),
        BoardView::empty().obeys_gravity(),
        forall|row: int, col: int| in_grid(row, col) ==> BoardView::empty().at(row, col) == CellState::Empty,
        forall|col: int| 0 <= col < CELLS_WIDTH ==> BoardView::empty().column_height_is(col, 0),
        !BoardView::empty().has_win(),
{
    lemma_no_win_without_pieces(BoardView::empty());
}

/// Passing the turn twice gives back the board one started with; passing it
/// once changes the player to move and nothing on the grid.
pub proof fn lemma_switch_twice_is_identity(board: BoardView)
    ensures
        board.switched().switched() == board,
        board.current_player.other().other() == board.current_player,
        board.switched().current_player != board.current_player,
        board.switched().cells == board.cells,
{
}

/// A column has room exactly when it is not full.
pub proof fn lemma_room_is_not_full(board: BoardView, col: int)
    ensures
        board.column_has_room(col) <==> !board.column_is_full(col),
{
    if !board.column_is_full(col) {
        let row = choose|row: int| 0 <= row < CELLS_HEIGHT && board.at(row, col) == CellState::Empty;
        assert(0 <= row < CELLS_HEIGHT && board.at(row, col) == CellState::Empty);
    }
}

/// A dropped piece comes to rest on the lowest empty cell of its column. No
/// other cell changes, and the turn stays where it was.
pub proof fn lemma_drop_changes_one_cell(board: BoardView, col: int, piece: CellState)
    requires
        board.wf(),
        0 <= col < CELLS_WIDTH,
        board.column_has_room(col),
    ensures
        board.is_landing_row(board.landing_row(col), col),
        board.dropped(col, piece).wf(),
        board.dropped(col, piece).current_player == board.current_player,
        board.dropped(col, piece).at(board.landing_row(col), col) == piece,
        forall|r: int, c: int|
            in_grid(r, c) && (r != board.landing_row(col) || c != col) ==> #[trigger] board.dropped(col, piece).at(r, c)
                == board.at(r, c),
{
    board.lemma_landing_row_exists(col);
    board.lemma_with_cell(board.landing_row(col), col, piece);
}

/// On a column stacked `height` high a piece lands on row `height`, and the
/// column is then stacked one higher.
pub proof fn lemma_drop_raises_column(board: BoardView, col: int, height: int, piece: CellState)
    requires
        board.wf(),
        0 <= col < CELLS_WIDTH,
        board.column_height_is(col, height),
        height < CELLS_HEIGHT,
        piece != CellState::Empty,
    ensures
        board.column_has_room(col),
        board.landing_row(col) == height,
        board.dropped(col, piece).at(height, col) == piece,
        board.dropped(col, piece).column_height_is(col, height + 1),
{
    assert(board.at(height, col) == CellState::Empty);
    assert(board.is_landing_row(height, col));
    board.lemma_landing_row_is_unique(height, col);
    lemma_drop_changes_one_cell(board, col, piece);
}

/// Pieces dropped into one column fill its rows from the bottom upwards, in
/// the order in which they are dropped: on a column stacked `height` high (an
/// untouched column is stacked 0 high) the first piece takes row `height`, the
/// next the row above, and so on. The cells below, the other columns and the
/// turn stay as they were. Once the top row is taken the column has no room,
/// so that no further piece may be dropped into it.
pub proof fn lemma_drops_fill_column_upwards(board: BoardView, col: int, height: int, pieces: Seq<CellState>)
    requires
        board.wf(),
        0 <= col < CELLS_WIDTH,
        board.column_height_is(col, height),
        height + pieces.len() <= CELLS_HEIGHT,
        forall|i: int| 0 <= i < pieces.len() ==> pieces[i] != CellState::Empty,
    ensures
        board.dropped_all(col, pieces).wf(),
        board.dropped_all(col, pieces).current_player == board.current_player,
        board.dropped_all(col, pieces).column_height_is(col, height + pieces.len()),
        forall|i: int| 0 <= i < pieces.len() ==> #[trigger] board.dropped_all(col, pieces).at(height + i, col) == pieces[i],
        forall|r: int, c: int|
            in_grid(r, c) && (c != col || r < height) ==> #[trigger] board.dropped_all(col, pieces).at(r, c) == board.at(
                r,
                c,
            ),
        height + pieces.len() == CELLS_HEIGHT ==> !board.dropped_all(col, pieces).column_has_room(col),
    decreases pieces.len(),
{
    let after = board.dropped_all(col, pieces);
    if pieces.len() > 0 {
        let before = board.dropped_all(col, pieces.drop_last());
        let top = height + pieces.len() - 1;
        lemma_drops_fill_column_upwards(board, col, height, pieces.drop_last());
        lemma_drop_raises_column(before, col, top, pieces.last());
        lemma_drop_changes_one_cell(before, col, pieces.last());
        assert forall|i: int| 0 <= i < pieces.len() implies #[trigger] after.at(height + i, col) == pieces[i] by {
            if i < pieces.len() - 1 {
                assert(before.at(height + i, col) == pieces.drop_last()[i]);
            }
        }
    }
    if height + pieces.len() == CELLS_HEIGHT {
        assert(after.column_is_full(col));
        lemma_room_is_not_full(after, col);
    }
}

/// Dropping a piece leaves no piece floating if none floated before.
pub proof fn lemma_drop_preserves_gravity(board: BoardView, col: int, piece: CellState)
    requires
        board.wf(),
        0 <= col < CELLS_WIDTH,
        board.column_has_room(col),
        board.obeys_gravity(),
    ensures
        board.dropped(col, piece).obeys_gravity(),
{
    let after = board.dropped(col, piece);
    let landing = board.landing_row(col);
    lemma_drop_changes_one_cell(board, col, piece);
    assert forall|lo: int, hi: int, c: int|
        0 <= lo <= hi < CELLS_HEIGHT && 0 <= c < CELLS_WIDTH && after.at(hi, c) != CellState::Empty implies after.at(lo, c)
            != CellState::Empty by {
        if c == col && hi == landing {
            if lo < landing {
                assert(board.at(lo, col) != CellState::Empty);
                assert(after.at(lo, col) == board.at(lo, col));
            }
        } else {
            assert(after.at(hi, c) == board.at(hi, c));
            assert(board.at(lo, c) != CellState::Empty);
            if c == col && lo == landing {
                assert(board.at(landing, col) == CellState::Empty);
            } else {
                assert(after.at(lo, c) == board.at(lo, c));
            }
        }
    }
}

/// A colour that stands on no more than three cells of the grid has no four
/// in a row. The three cells need not differ.
pub proof fn lemma_three_cells_make_no_line(
    board: BoardView,
    color: CellState,
    first: (int, int),
    second: (int, int),
    third: (int, int),
)
    requires
        forall|row: int, col: int|
            in_grid(row, col) && #[trigger] board.at(row, col) == color ==> (row, col) == first || (row, col) == second
                || (row, col) == third,
    ensures
        !board.has_four_in_a_row(color),
{
    assert forall|row: int, col: int, dir: Direction| !board.line_of_four(row, col, dir, color) by {
        if board.line_of_four(row, col, dir, color) {
            // Four cells that differ from each other would share three places.
            assert(board.holds(row, col, dir, 0, color));
            assert(board.holds(row, col, dir, 1, color));
            assert(board.holds(row, col, dir, 2, color));
            assert(board.holds(row, col, dir, 3, color));
        }
    }
}

/// Three pieces of one colour next to each other on a line, shut off at one
/// end by a piece of the other colour, on a grid that is otherwise empty:
/// nobody has four in a row, and no cell starts a chain of four, whichever
/// cell is taken as the start and whoever is to move.
///
/// The four cells are those from `(row, col)` along `dir`. The blocking piece
/// stands on the first of them if `blocked_at_start`, else on the last.
pub proof fn lemma_blocked_three_is_no_win(
    board: BoardView,
    row: int,
    col: int,
    dir: Direction,
    color: CellState,
    blocker: CellState,
    blocked_at_start: bool,
)
    requires
        color != CellState::Empty,
        blocker != CellState::Empty,
        blocker != color,
        in_grid(row, col),
        in_grid(dir.row_after(row, 3), dir.col_after(col, 3)),
        forall|r: int, c: int|
            in_grid(r, c) ==> #[trigger] board.at(r, c) == (if exists|k: int|
                0 <= k < 4 && r == dir.row_after(row, k) && c == dir.col_after(col, k) {
                if r == dir.row_after(row, if blocked_at_start { 0 } else { 3 })
                    && c == dir.col_after(col, if blocked_at_start { 0 } else { 3 }) {
                    blocker
                } else {
                    color
                }
            } else {
                CellState::Empty
            }),
    ensures
        !board.has_four_in_a_row(color),
        !board.has_four_in_a_row(blocker),
        !board.has_win(),
        !board.switched().has_win(),
        forall|r: int, c: int| in_grid(r, c) ==> board.greatest_chain_from(r, c) < 4,
        forall|r: int, c: int| in_grid(r, c) ==> board.switched().greatest_chain_from(r, c) < 4,
{
    let cell = |k: int| (dir.row_after(row, k), dir.col_after(col, k));
    if blocked_at_start {
        lemma_three_cells_make_no_line(board, color, cell(1), cell(2), cell(3));
        lemma_three_cells_make_no_line(board, blocker, cell(0), cell(0), cell(0));
    } else {
        lemma_three_cells_make_no_line(board, color, cell(0), cell(1), cell(2));
        lemma_three_cells_make_no_line(board, blocker, cell(3), cell(3), cell(3));
    }
    board.lemma_win_is_chain_of_four();
    board.switched().lemma_win_is_chain_of_four();
}

/// Four pieces of the colour of the player to move, dropped one after another
/// into a column that has four empty rows on top of its stack, come to stand
/// on top of each other and win.
pub proof fn lemma_four_drops_in_a_column_win(board: BoardView, col: int, height: int)
    requires
        board.wf(),
        0 <= col < CELLS_WIDTH,
        board.column_height_is(col, height),
        height + 4 <= CELLS_HEIGHT,
    ensures
        board.dropped_all(col, Seq::new(4, |i: int| board.current_player.spec_color())).has_win(),
{
    let color = board.current_player.spec_color();
    let pieces = Seq::new(4, |i: int| color);
    let after = board.dropped_all(col, pieces);
    lemma_drops_fill_column_upwards(board, col, height, pieces);
    assert(after.at(height + 0, col) == pieces[0]);
    assert(after.at(height + 1, col) == pieces[1]);
    assert(after.at(height + 2, col) == pieces[2]);
    assert(after.at(height + 3, col) == pieces[3]);
    assert(after.line_of_four(height, col, Direction::Up, color));
}

/// The four scan directions cover every line: four cells of one colour that
/// follow each other in any of the eight directions of the grid make a line
/// of four in one of the four scan directions.
pub proof fn lemma_four_directions_suffice(
    board: BoardView,
    row: int,
    col: int,
    row_step: int,
    col_step: int,
    color: CellState,
)
    requires
        -1 <= row_step <= 1,
        -1 <= col_step <= 1,
        row_step != 0 || col_step != 0,
        in_grid(row, col) && board.at(row, col) == color,
        in_grid(row + row_step, col + col_step) && board.at(row + row_step, col + col_step) == color,
        in_grid(row + 2 * row_step, col + 2 * col_step) && board.at(row + 2 * row_step, col + 2 * col_step) == color,
        in_grid(row + 3 * row_step, col + 3 * col_step) && board.at(row + 3 * row_step, col + 3 * col_step) == color,
    ensures
        board.has_four_in_a_row(color),
{
    // A line that runs downwards, or to the left on a row, is read from its
    // other end.
    let forwards = row_step > 0 || (row_step == 0 && col_step > 0);
    let start_row = if forwards { row } else { row + 3 * row_step };
    let start_col = if forwards { col } else { col + 3 * col_step };
    let up = if forwards { row_step } else { -row_step };
    let right = if forwards { col_step } else { -col_step };
    let dir = if up == 0 {
        Direction::Right
    } else if right == 0 {
        Direction::Up
    } else if right > 0 {
        Direction::UpRight
    } else {
        Direction::UpLeft
    };
    assert(board.holds(start_row, start_col, dir, 0, color));
    assert(board.holds(start_row, start_col, dir, 1, color));
    assert(board.holds(start_row, start_col, dir, 2, color));
    assert(board.holds(start_row, start_col, dir, 3, color));
    assert(board.line_of_four(start_row, start_col, dir, color));
}

} // verus!
