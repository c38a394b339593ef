//! One turn of play: from a line of input to the move it asks for, and from
//! the move to the board that follows.

use vstd::prelude::*;
use vstd::string::*;
use crate::board::{Board, BoardView};
use crate::cell::CellState;
use crate::geometry::CELLS_WIDTH;

verus! {

/// How a line of input was received.
#[derive(Clone, Copy, Debug, PartialEq, Eq, Structural)]
pub enum TurnOutcome {
    /// The input names no column. The board is as it was.
    NotAColumn,
    /// The column named is full. The board is as it was.
    ColumnFull,
    /// The piece was dropped and the turn passed to the other player.
    Placed,
    /// The piece was dropped and gave its player four in a row. The turn stays
    /// with the winner.
    Won,
}

/// The column that a line of input names: the input is one of the digits 1 to
/// 7 and nothing else, and names the columns from left to right, counted from
/// zero.
pub open spec fn named_column(input: Seq<char>) -> Option<usize> {
    if input.len() == 1 && '1' <= input[0] <= '7' {
        Some((input[0] as int - '1' as int) as usize)
    } else {
        None
    }
}

/// Reads a column out of a line of input.
pub fn parse_column(input: &str) -> (column: Option<usize>)
    ensures
        column == named_column(input@),
        column matches Some(col) ==> col < CELLS_WIDTH,
{
    if input.unicode_len() != 1 {
        return None;
    }
    match input.get_char(0) {
        '1' => Some(0),
        '2' => Some(1),
        '3' => Some(2),
        '4' => Some(3),
        '5' => Some(4),
        '6' => Some(5),
        '7' => Some(6),
        _ => None,
    }
}

impl BoardView {
    /// The board after the player to move has dropped a piece into column
    /// `col`: the turn passes on unless the piece made four in a row.
    pub open spec fn after_move(self, col: int) -> BoardView {
        let placed = self.dropped(col, self.current_player.spec_color());
        if placed.has_win() {
            placed
        } else {
            placed.switched()
        }
    }

    /// How a line of input is received.
    pub open spec fn outcome_of(self, input: Seq<char>) -> TurnOutcome {
        match named_column(input) {
            None => TurnOutcome::NotAColumn,
            Some(col) => if !self.column_has_room(col as int) {
                TurnOutcome::ColumnFull
            } else if self.dropped(col as int, self.current_player.spec_color()).has_win() {
                TurnOutcome::Won
            } else {
                TurnOutcome::Placed
            },
        }
    }

    /// The board after a line of input: as it was where the input is turned
    /// down, else the board after the move.
    pub open spec fn after_input(self, input: Seq<char>) -> BoardView {
        match named_column(input) {
            None => self,
            Some(col) => if !self.column_has_room(col as int) {
                self
            } else {
                self.after_move(col as int)
            },
        }
    }
}

impl Board {
    /// Makes the move of the player whose turn it is: drops a piece of that
    /// player's colour into the column and, unless this wins, passes the turn
    /// on. Returns whether the move has won.
    pub fn take_turn(&mut self, col_number: usize) -> (won: bool)
        requires
            col_number < CELLS_WIDTH,
            old(self)@.column_has_room(col_number as int),
        ensures
            won == old(self)@.dropped(col_number as int, old(self)@.current_player.spec_color()).has_win(),
            final(self)@ == old(self)@.after_move(col_number as int),
    {
        let current_piece: CellState = self.current_player.color();
        self.place_piece(col_number, current_piece);
        let player_has_won: bool = self.check_for_win();
        if !player_has_won {
            self.switch_player();
        }
        player_has_won
    }

    /// Receives a line of input from the player whose turn it is: turns it
    /// down if it names no column or a full one, else makes the move.
    pub fn advance(&mut self, input: &str) -> (outcome: TurnOutcome)
        ensures
            outcome == old(self)@.outcome_of(input@),
            final(self)@ == old(self)@.after_input(input@),
    {
        match parse_column(input) {
            None => TurnOutcome::NotAColumn,
            Some(chosen_col) => {
                if !self.check_if_valid_row(&chosen_col) {
                    TurnOutcome::ColumnFull
                } else if self.take_turn(chosen_col) {
                    TurnOutcome::Won
                } else {
                    TurnOutcome::Placed
                }
            },
        }
    }
}

} // verus!
