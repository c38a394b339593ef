use connect_four::cell::{CellState, Player};
use connect_four::geometry::{Direction, Position, CELLS_HEIGHT, CELLS_WIDTH};

#[test]
fn grid_is_seven_wide_and_six_high() {
    assert_eq!(CELLS_WIDTH, 7);
    assert_eq!(CELLS_HEIGHT, 6);
}

#[test]
fn first_player_is_red_second_is_black() {
    assert_eq!(Player::PlayerOne.color(), CellState::Red);
    assert_eq!(Player::PlayerTwo.color(), CellState::Black);
}

#[test]
fn defaults_are_empty_cell_and_first_player() {
    assert_eq!(CellState::default(), CellState::Empty);
    assert_eq!(Player::default(), Player::PlayerOne);
}

#[test]
fn directions_come_in_scan_order() {
    assert_eq!(
        Direction::all_directions(),
        [Direction::Up, Direction::UpLeft, Direction::UpRight, Direction::Right]
    );
}

#[test]
fn up_stops_at_top_row_only() {
    for x in 0..CELLS_WIDTH {
        assert!(!Direction::Up.can_be_applied_to(Position { x, y: 5 }));
        for y in 0..5 {
            assert!(Direction::Up.can_be_applied_to(Position { x, y }));
        }
    }
}

#[test]
fn up_left_stops_at_top_row_and_first_column() {
    assert!(!Direction::UpLeft.can_be_applied_to(Position { x: 3, y: 5 }));
    assert!(!Direction::UpLeft.can_be_applied_to(Position { x: 0, y: 2 }));
    assert!(!Direction::UpLeft.can_be_applied_to(Position { x: 0, y: 5 }));
    assert!(Direction::UpLeft.can_be_applied_to(Position { x: 1, y: 4 }));
    assert!(Direction::UpLeft.can_be_applied_to(Position { x: 6, y: 0 }));
}

#[test]
fn up_right_stops_at_top_row_and_last_column() {
    assert!(!Direction::UpRight.can_be_applied_to(Position { x: 3, y: 5 }));
    assert!(!Direction::UpRight.can_be_applied_to(Position { x: 6, y: 2 }));
    assert!(!Direction::UpRight.can_be_applied_to(Position { x: 6, y: 5 }));
    assert!(Direction::UpRight.can_be_applied_to(Position { x: 5, y: 4 }));
    assert!(Direction::UpRight.can_be_applied_to(Position { x: 0, y: 0 }));
}

#[test]
fn right_stops_at_last_column_only() {
    for y in 0..CELLS_HEIGHT {
        assert!(!Direction::Right.can_be_applied_to(Position { x: 6, y }));
        for x in 0..6 {
            assert!(Direction::Right.can_be_applied_to(Position { x, y }));
        }
    }
}

#[test]
fn a_step_is_allowed_exactly_when_it_stays_on_the_grid() {
    let offsets = [(0i64, 1i64), (-1, 1), (1, 1), (1, 0)];
    let directions = Direction::all_directions();
    for (direction, (dx, dy)) in directions.iter().zip(offsets.iter()) {
        for x in 0..CELLS_WIDTH {
            for y in 0..CELLS_HEIGHT {
                let nx = x as i64 + dx;
                let ny = y as i64 + dy;
                let stays = 0 <= nx && nx < 7 && 0 <= ny && ny < 6;
                assert_eq!(direction.can_be_applied_to(Position { x, y }), stays);
                if stays {
                    let next = direction.apply_to(Position { x, y });
                    assert_eq!(next, Position { x: nx as usize, y: ny as usize });
                }
            }
        }
    }
}

#[test]
fn apply_to_moves_one_step() {
    let from = Position { x: 3, y: 2 };
    assert_eq!(Direction::Up.apply_to(from), Position { x: 3, y: 3 });
    assert_eq!(Direction::UpLeft.apply_to(from), Position { x: 2, y: 3 });
    assert_eq!(Direction::UpRight.apply_to(from), Position { x: 4, y: 3 });
    assert_eq!(Direction::Right.apply_to(from), Position { x: 4, y: 2 });
}

#[test]
fn apply_to_reaches_the_corners() {
    assert_eq!(Direction::UpLeft.apply_to(Position { x: 1, y: 4 }), Position { x: 0, y: 5 });
    assert_eq!(Direction::UpRight.apply_to(Position { x: 5, y: 4 }), Position { x: 6, y: 5 });
    assert_eq!(Direction::Right.apply_to(Position { x: 5, y: 0 }), Position { x: 6, y: 0 });
    assert_eq!(Direction::Up.apply_to(Position { x: 0, y: 4 }), Position { x: 0, y: 5 });
}

#[test]
fn boundary_rules_look_at_the_named_edge_only() {
    assert!(Direction::Up.can_be_applied_to(Position { x: 9, y: 9 }));
    assert!(Direction::Right.can_be_applied_to(Position { x: 0, y: 5 }));
    assert!(Direction::Up.can_be_applied_to(Position { x: 6, y: 0 }));
    assert!(!Direction::UpLeft.can_be_applied_to(Position { x: 0, y: 9 }));
    assert!(!Direction::UpRight.can_be_applied_to(Position { x: 9, y: 5 }));
}
