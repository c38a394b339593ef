//! Cell contents and the two players.

use vstd::prelude::*;

verus! {

/// What one cell of the grid holds.
#[derive(Clone, Copy, Debug, PartialEq, Eq, Structural)]
pub enum CellState {
    Empty,
    Red,
    Black,
}

/// One of the two sides. `PlayerOne` moves first.
#[derive(Clone, Copy, Debug, PartialEq, Eq, Structural)]
pub enum Player {
    PlayerOne,
    PlayerTwo,
}

impl Default for CellState {
    /// A cell starts out empty.
    fn default() -> (cell: CellState)
        ensures
            cell == CellState::Empty,
    {
        CellState::Empty
    }
}

impl Default for Player {
    /// The first player opens.
    fn default() -> (player: Player)
        ensures
            player == Player::PlayerOne,
    {
        Player::PlayerOne
    }
}

impl Player {
    /// The colour this player drops: red for the first player, black for the
    /// second.
    pub open spec fn spec_color(&self) -> CellState {
        match *self {
            Player::PlayerOne => CellState::Red,
            Player::PlayerTwo => CellState::Black,
        }
    }

    /// The player who moves after this one.
    pub open spec fn other(self) -> Player {
        match self {
            Player::PlayerOne => Player::PlayerTwo,
            Player::PlayerTwo => Player::PlayerOne,
        }
    }

    /// The colour of the pieces that this player drops.
    #[verifier::when_used_as_spec(spec_color)]
    pub fn color(&self) -> (piece: CellState)
        ensures
            piece == self.spec_color(),
    {
        match self {
            Player::PlayerOne => CellState::Red,
            Player::PlayerTwo => CellState::Black,
        }
    }
}

} // verus!
