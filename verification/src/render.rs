//! The board as lines of text, the top row first.

use vstd::prelude::*;
use vstd::string::*;
use crate::board::{Board, BoardView};
use crate::cell::CellState;
use crate::geometry::{CELLS_HEIGHT, CELLS_WIDTH};

verus! {

impl CellState {
    /// The text of one cell: a bar, then the piece between two blanks. Red is
    /// drawn as `@`, black as `O`.
    pub open spec fn text(self) -> Seq<char> {
        match self {
            CellState::Empty => seq!['|', ' ', ' ', ' '],
            CellState::Black => seq!['|', ' ', 'O', ' '],
            CellState::Red => seq!['|', ' ', '@', ' '],
        }
    }
}

impl BoardView {
    /// The text of the first `cols` cells of a row, from left to right.
    pub open spec fn cells_text(self, row: int, cols: int) -> Seq<char>
        decreases cols,
    {
        if cols <= 0 {
            Seq::empty()
        } else {
            self.cells_text(row, cols - 1) + self.at(row, cols - 1).text()
        }
    }

    /// The text of a row: its cells from left to right and a closing bar.
    pub open spec fn row_text(self, row: int) -> Seq<char> {
        self.cells_text(row, CELLS_WIDTH as int) + seq!['|']
    }

    /// The text of the board: one line for each row, the top row first.
    pub open spec fn text(self) -> Seq<Seq<char>> {
        Seq::new(CELLS_HEIGHT as nat, |line: int| self.row_text(CELLS_HEIGHT - 1 - line))
    }
}

impl Board {
    /// The lines that show the board, from the top row down.
    pub fn render(&self) -> (lines: Vec<String>)
        ensures
            lines@.len() == CELLS_HEIGHT,
            forall|line: int| 0 <= line < CELLS_HEIGHT ==> (#[trigger] lines@[line])@ == self@.text()[line],
            lines.deep_view() == self@.text(),
    {
        let mut lines: Vec<String> = Vec::new();
        let mut remaining: usize = CELLS_HEIGHT;
        while remaining > 0
            invariant
                remaining <= CELLS_HEIGHT,
                lines@.len() == CELLS_HEIGHT - remaining,
                forall|line: int|
                    0 <= line < lines@.len() ==> (#[trigger] lines@[line])@ == self@.row_text(CELLS_HEIGHT - 1 - line),
            decreases remaining,
        {
            remaining -= 1;
            let mut row_contents: String = String::new();
            for col in 0..CELLS_WIDTH
                invariant
                    remaining < CELLS_HEIGHT,
                    row_contents@ == self@.cells_text(remaining as int, col as int),
            {
                proof {
                    reveal_strlit("|   ");
                    reveal_strlit("| O ");
                    reveal_strlit("| @ ");
                }
                match self.cells[remaining][col] {
                    CellState::Empty => {
                        assert("|   "@ =~= CellState::Empty.text());
                        row_contents.append("|   ")
                    },
                    CellState::Black => {
                        assert("| O "@ =~= CellState::Black.text());
                        row_contents.append("| O ")
                    },
                    CellState::Red => {
                        assert("| @ "@ =~= CellState::Red.text());
                        row_contents.append("| @ ")
                    },
                }
            }
            proof {
                reveal_strlit("|");
                assert("|"@ =~= seq!['|']);
            }
            row_contents.append("|");
            lines.push(row_contents);
        }
        assert(lines.deep_view() =~= self@.text());
        lines
    }
}

} // verus!
