use connect_four::board::Board;
use connect_four::cell::{CellState, Player};
use connect_four::geometry::{CELLS_HEIGHT, CELLS_WIDTH};

fn board_for(player: Player) -> Board {
    let mut board = Board::new();
    if player == Player::PlayerTwo {
        board.switch_player();
    }
    board
}

fn count_pieces(board: &Board) -> usize {
    let mut pieces = 0;
    for row in 0..CELLS_HEIGHT {
        for col in 0..CELLS_WIDTH {
            if board.cells[row][col] != CellState::Empty {
                pieces += 1;
            }
        }
    }
    pieces
}

#[test]
fn new_board_is_empty_and_first_player_moves() {
    let board = Board::new();
    assert_eq!(board.current_player, Player::PlayerOne);
    assert_eq!(board.cells, [[CellState::Empty; 7]; 6]);
    assert_eq!(Board::default(), board);
}

#[test]
fn empty_board_has_no_win_for_either_player() {
    let mut board = Board::new();
    assert!(!board.check_for_win());
    board.switch_player();
    assert!(!board.check_for_win());
}

#[test]
fn empty_board_has_no_chain_anywhere() {
    let board = Board::new();
    for row in 0..CELLS_HEIGHT {
        for col in 0..CELLS_WIDTH {
            assert_eq!(board.get_greatest_chain_from_cell(row, col), 0);
        }
    }
}

#[test]
fn pieces_fill_a_column_from_the_bottom_up() {
    for col in 0..CELLS_WIDTH {
        let mut board = Board::new();
        let pieces = [
            CellState::Red,
            CellState::Black,
            CellState::Black,
            CellState::Red,
            CellState::Black,
            CellState::Red,
        ];
        for (row, piece) in pieces.iter().enumerate() {
            assert!(board.check_if_valid_row(&col));
            board.place_piece(col, *piece);
            assert_eq!(board.cells[row][col], *piece);
            assert_eq!(count_pieces(&board), row + 1);
            for above in row + 1..CELLS_HEIGHT {
                assert_eq!(board.cells[above][col], CellState::Empty);
            }
        }
        assert!(!board.check_if_valid_row(&col));
        for other in 0..CELLS_WIDTH {
            if other != col {
                assert!(board.check_if_valid_row(&other));
                for row in 0..CELLS_HEIGHT {
                    assert_eq!(board.cells[row][other], CellState::Empty);
                }
            }
        }
        assert_eq!(board.current_player, Player::PlayerOne);
    }
}

#[test]
fn place_piece_does_not_pass_the_turn() {
    let mut board = board_for(Player::PlayerTwo);
    board.place_piece(3, CellState::Black);
    assert_eq!(board.current_player, Player::PlayerTwo);
}

#[test]
fn piece_lands_on_the_lowest_empty_cell_even_under_a_floating_piece() {
    let mut board = Board::new();
    board.set_cell(2, 4, CellState::Black);
    board.place_piece(4, CellState::Red);
    assert_eq!(board.cells[0][4], CellState::Red);
    board.place_piece(4, CellState::Red);
    assert_eq!(board.cells[1][4], CellState::Red);
    assert_eq!(board.cells[2][4], CellState::Black);
    board.place_piece(4, CellState::Red);
    assert_eq!(board.cells[3][4], CellState::Red);
    assert_eq!(count_pieces(&board), 4);
}

#[test]
fn placing_an_empty_piece_changes_nothing() {
    let mut board = Board::new();
    board.place_piece(1, CellState::Red);
    let before = board;
    board.place_piece(1, CellState::Empty);
    assert_eq!(board, before);
}

#[test]
fn set_cell_overwrites_one_cell() {
    let mut board = Board::new();
    board.set_cell(5, 6, CellState::Black);
    assert_eq!(board.cells[5][6], CellState::Black);
    assert_eq!(count_pieces(&board), 1);
    board.set_cell(5, 6, CellState::Red);
    assert_eq!(board.cells[5][6], CellState::Red);
    board.set_cell(5, 6, CellState::Empty);
    assert_eq!(board, Board::new());
}

#[test]
fn column_has_room_exactly_when_some_cell_is_empty() {
    // Each column pattern is a set of taken rows, written as bits.
    for pattern in 0u32..64 {
        let mut board = Board::new();
        for row in 0..CELLS_HEIGHT {
            if pattern & (1 << row) != 0 {
                board.set_cell(row, 2, CellState::Black);
            }
        }
        assert_eq!(board.check_if_valid_row(&2), pattern != 63);
    }
}

#[test]
fn full_column_leaves_the_others_open() {
    let mut board = Board::new();
    for _ in 0..CELLS_HEIGHT {
        board.place_piece(6, CellState::Red);
    }
    assert!(!board.check_if_valid_row(&6));
    for col in 0..6 {
        assert!(board.check_if_valid_row(&col));
    }
}

#[test]
fn horizontal_win_needs_the_fourth_piece() {
    let mut board = Board::new();
    for col in 0..3 {
        board.place_piece(col, CellState::Red);
    }
    assert!(!board.check_for_win());
    board.place_piece(3, CellState::Red);
    assert!(board.check_for_win());
}

#[test]
fn vertical_win_needs_the_fourth_piece() {
    for player in [Player::PlayerOne, Player::PlayerTwo] {
        let mut board = board_for(player);
        for _ in 0..3 {
            board.place_piece(5, player.color());
        }
        assert!(!board.check_for_win());
        board.place_piece(5, player.color());
        assert!(board.check_for_win());
    }
}

#[test]
fn diagonal_up_right_win() {
    let mut board = Board::new();
    for step in 0..4 {
        board.set_cell(step, step, CellState::Red);
    }
    assert!(board.check_for_win());
}

#[test]
fn diagonal_up_right_of_three_is_no_win() {
    let mut board = Board::new();
    for step in 0..3 {
        board.set_cell(step, step, CellState::Red);
    }
    assert!(!board.check_for_win());
}

#[test]
fn diagonal_up_left_win() {
    let mut board = board_for(Player::PlayerTwo);
    for step in 0..4 {
        board.set_cell(2 + step, 6 - step, CellState::Black);
    }
    assert!(board.check_for_win());
}

#[test]
fn win_in_the_far_corner() {
    let mut board = Board::new();
    for col in 3..7 {
        board.set_cell(5, col, CellState::Red);
    }
    assert!(board.check_for_win());
}

#[test]
fn stacked_diagonal_win_by_drops() {
    // Column c is stacked c high with black, then red lands on the diagonal.
    let mut board = Board::new();
    for col in 0..4 {
        for _ in 0..col {
            board.place_piece(col, CellState::Black);
        }
        board.place_piece(col, CellState::Red);
    }
    assert!(board.check_for_win());
    board.switch_player();
    assert!(!board.check_for_win());
}

#[test]
fn the_other_colour_does_not_win_for_the_player_to_move() {
    let mut board = Board::new();
    for col in 0..4 {
        board.place_piece(col, CellState::Black);
    }
    assert!(!board.check_for_win());
    board.switch_player();
    assert!(board.check_for_win());
}

#[test]
fn more_than_four_in_a_row_is_a_win() {
    let mut board = Board::new();
    for col in 0..5 {
        board.place_piece(col, CellState::Red);
    }
    assert_eq!(board.get_greatest_chain_from_cell(0, 0), 5);
    assert!(board.check_for_win());
    for col in 5..7 {
        board.place_piece(col, CellState::Red);
    }
    assert_eq!(board.get_greatest_chain_from_cell(0, 0), 7);
    assert!(board.check_for_win());
}

#[test]
fn six_in_a_column_is_a_win() {
    let mut board = board_for(Player::PlayerTwo);
    for _ in 0..6 {
        board.place_piece(0, CellState::Black);
    }
    assert_eq!(board.get_greatest_chain_from_cell(0, 0), 6);
    assert!(board.check_for_win());
}

#[test]
fn switching_twice_gives_back_the_board() {
    let mut board = Board::new();
    board.place_piece(2, CellState::Red);
    let before = board;
    board.switch_player();
    assert_eq!(board.current_player, Player::PlayerTwo);
    assert_eq!(board.cells, before.cells);
    board.switch_player();
    assert_eq!(board, before);
}

#[test]
fn three_blocked_by_the_other_colour_is_no_win() {
    // (row step, column step) of the four directions, with a start from
    // which four cells fit on the grid.
    let lines = [((0, 3), (1i32, 0i32)), ((0, 3), (1, -1)), ((0, 3), (1, 1)), ((0, 3), (0, 1))];
    for ((row, col), (row_step, col_step)) in lines {
        for blocked_at_start in [true, false] {
            for (color, blocker) in [(CellState::Red, CellState::Black), (CellState::Black, CellState::Red)] {
                let mut board = Board::new();
                for k in 0..4i32 {
                    let r = (row + k * row_step) as usize;
                    let c = (col + k * col_step) as usize;
                    let blocked = if blocked_at_start { k == 0 } else { k == 3 };
                    board.set_cell(r, c, if blocked { blocker } else { color });
                }
                for _ in 0..2 {
                    assert!(!board.check_for_win());
                    for r in 0..CELLS_HEIGHT {
                        for c in 0..CELLS_WIDTH {
                            assert!(board.get_greatest_chain_from_cell(r, c) < 4);
                        }
                    }
                    board.switch_player();
                }
            }
        }
    }
}

#[test]
fn three_dropped_and_blocked_on_the_bottom_row() {
    let mut board = Board::new();
    board.place_piece(0, CellState::Red);
    board.place_piece(1, CellState::Red);
    board.place_piece(2, CellState::Red);
    board.place_piece(3, CellState::Black);
    assert!(!board.check_for_win());
    assert_eq!(board.get_greatest_chain_from_cell(0, 0), 3);
    board.switch_player();
    assert!(!board.check_for_win());
    assert_eq!(board.get_greatest_chain_from_cell(0, 3), 1);
}

#[test]
fn split_run_is_no_win() {
    // Two and two with a gap: no single walk finds four.
    let mut board = Board::new();
    for col in [0, 1, 3, 4] {
        board.place_piece(col, CellState::Red);
    }
    assert!(!board.check_for_win());
    board.place_piece(2, CellState::Red);
    assert!(board.check_for_win());
}

#[test]
fn chain_counts_from_the_start_cell_in_one_direction_only() {
    let mut board = Board::new();
    for col in 1..4 {
        board.place_piece(col, CellState::Red);
    }
    assert_eq!(board.get_greatest_chain_from_cell(0, 1), 3);
    assert_eq!(board.get_greatest_chain_from_cell(0, 2), 2);
    assert_eq!(board.get_greatest_chain_from_cell(0, 3), 1);
    assert_eq!(board.get_greatest_chain_from_cell(0, 0), 0);
    assert_eq!(board.get_greatest_chain_from_cell(0, 4), 0);
}

#[test]
fn chain_is_the_longest_over_the_directions() {
    let mut board = Board::new();
    // two to the right, three upwards, two on the rising diagonal
    board.set_cell(0, 2, CellState::Red);
    board.set_cell(0, 3, CellState::Red);
    board.set_cell(1, 2, CellState::Red);
    board.set_cell(2, 2, CellState::Red);
    board.set_cell(1, 3, CellState::Red);
    assert_eq!(board.get_greatest_chain_from_cell(0, 2), 3);
    assert_eq!(board.get_greatest_chain_from_cell(0, 3), 2);
    assert_eq!(board.get_greatest_chain_from_cell(1, 3), 2);
    assert_eq!(board.get_greatest_chain_from_cell(2, 2), 1);
}

#[test]
fn chain_from_the_other_players_piece_is_zero() {
    let mut board = Board::new();
    for _ in 0..4 {
        board.place_piece(0, CellState::Black);
    }
    assert_eq!(board.get_greatest_chain_from_cell(0, 0), 0);
    board.switch_player();
    assert_eq!(board.get_greatest_chain_from_cell(0, 0), 4);
    assert_eq!(board.get_greatest_chain_from_cell(3, 0), 1);
}

#[test]
fn chain_stops_at_the_edge_of_the_grid() {
    let mut board = Board::new();
    board.set_cell(5, 6, CellState::Red);
    assert_eq!(board.get_greatest_chain_from_cell(5, 6), 1);
    board.set_cell(5, 5, CellState::Red);
    board.set_cell(4, 6, CellState::Red);
    assert_eq!(board.get_greatest_chain_from_cell(5, 5), 2);
    assert_eq!(board.get_greatest_chain_from_cell(4, 6), 2);
    board.set_cell(4, 0, CellState::Red);
    board.set_cell(5, 0, CellState::Red);
    assert_eq!(board.get_greatest_chain_from_cell(4, 0), 2);
    assert_eq!(board.get_greatest_chain_from_cell(5, 0), 1);
}
