use tetris_engine::cell::{Color, Playcell};
use tetris_engine::collision::{Direction, ShiftError};
use tetris_engine::playfield::Playfield;
use tetris_engine::tetromino::{RotationState, Shape, Tetromino};

fn locked(color: Color) -> Option<Playcell> {
    Some(Playcell::new(false, color))
}

fn falling(color: Color) -> Option<Playcell> {
    Some(Playcell::new(true, color))
}

fn snapshot(playfield: &Playfield) -> Vec<Vec<Option<Playcell>>> {
    let mut rows = Vec::new();
    for y in 0..playfield.height() {
        let mut row = Vec::new();
        for x in 0..playfield.width() {
            row.push(playfield.cell(x, y));
        }
        rows.push(row);
    }
    rows
}

fn occupied(playfield: &Playfield) -> Vec<(usize, usize)> {
    let mut squares = Vec::new();
    for y in 0..playfield.height() {
        for x in 0..playfield.width() {
            if playfield.cell(x, y).is_some() {
                squares.push((x, y));
            }
        }
    }
    squares
}

fn spawned(shape: Shape, playfield: &mut Playfield) -> Tetromino {
    let mut piece = Tetromino::new(shape);
    assert!(piece.can_spawn(playfield));
    piece.spawn(playfield);
    piece
}

fn sorted(body: [(usize, usize); 4]) -> Vec<(usize, usize)> {
    let mut squares = body.to_vec();
    squares.sort();
    squares
}

#[test]
fn new_pieces_by_shape() {
    let expected = [
        (Shape::O, [(0, 0), (0, 1), (1, 0), (1, 1)], Color::Yellow),
        (Shape::I, [(1, 0), (2, 0), (0, 0), (3, 0)], Color::Cyan),
        (Shape::J, [(1, 1), (0, 1), (0, 0), (2, 1)], Color::Gray),
        (Shape::L, [(1, 1), (0, 1), (2, 1), (2, 0)], Color::Blue),
        (Shape::S, [(1, 1), (0, 1), (1, 0), (2, 0)], Color::Green),
        (Shape::Z, [(1, 1), (1, 0), (0, 0), (2, 1)], Color::Red),
        (Shape::T, [(1, 1), (0, 1), (1, 0), (2, 1)], Color::White),
    ];
    for (shape, body, color) in expected {
        let piece = Tetromino::new(shape);
        assert_eq!(piece.shape, shape);
        assert_eq!(piece.body, body);
        assert_eq!(piece.color, color);
        assert_eq!(piece.rotation, RotationState::Normal);
    }
}

#[test]
fn spawn_puts_the_square_piece_in_the_middle() {
    let mut playfield = Playfield::new(10, 20);
    let piece = spawned(Shape::O, &mut playfield);
    assert_eq!(piece.body, [(4, 0), (4, 1), (5, 0), (5, 1)]);
    assert_eq!(occupied(&playfield), vec![(4, 0), (5, 0), (4, 1), (5, 1)]);
    for (x, y) in piece.body {
        assert_eq!(playfield.cell(x, y), falling(Color::Yellow));
    }
}

#[test]
fn spawn_by_shape() {
    let expected = [
        (Shape::I, [(4, 0), (5, 0), (3, 0), (6, 0)]),
        (Shape::J, [(5, 1), (4, 1), (4, 0), (6, 1)]),
        (Shape::L, [(5, 1), (4, 1), (6, 1), (6, 0)]),
        (Shape::S, [(5, 1), (4, 1), (5, 0), (6, 0)]),
        (Shape::Z, [(5, 1), (5, 0), (4, 0), (6, 1)]),
        (Shape::T, [(5, 1), (4, 1), (5, 0), (6, 1)]),
    ];
    for (shape, body) in expected {
        let mut playfield = Playfield::new(10, 20);
        let piece = spawned(shape, &mut playfield);
        assert_eq!(piece.body, body);
        assert_eq!(sorted_squares(&playfield), sorted(body));
    }
}

fn sorted_squares(playfield: &Playfield) -> Vec<(usize, usize)> {
    let mut squares = occupied(playfield);
    squares.sort();
    squares
}

#[test]
fn spawn_in_a_grid_of_odd_width() {
    let mut playfield = Playfield::new(7, 4);
    let piece = spawned(Shape::I, &mut playfield);
    assert_eq!(piece.body, [(2, 0), (3, 0), (1, 0), (4, 0)]);
}

#[test]
fn can_spawn_tells_when_there_is_no_room() {
    let mut playfield = Playfield::new(10, 20);
    playfield.set_cell(5, 1, locked(Color::Red));
    assert!(!Tetromino::new(Shape::O).can_spawn(&playfield));
    assert!(Tetromino::new(Shape::I).can_spawn(&playfield));
    let mut playfield = Playfield::new(10, 20);
    playfield.set_cell(4, 0, falling(Color::Red));
    assert!(!Tetromino::new(Shape::O).can_spawn(&playfield));
    assert!(!Tetromino::new(Shape::O).can_spawn(&Playfield::new(10, 1)));
    assert!(Tetromino::new(Shape::I).can_spawn(&Playfield::new(10, 1)));
    assert!(!Tetromino::new(Shape::I).can_spawn(&Playfield::new(3, 5)));
    assert!(Tetromino::new(Shape::I).can_spawn(&Playfield::new(4, 5)));
    assert!(!Tetromino::new(Shape::I).can_spawn(&Playfield::new(0, 0)));
    assert!(Tetromino::new(Shape::O).can_spawn(&Playfield::new(2, 2)));
    assert!(!Tetromino::new(Shape::T).can_spawn(&Playfield::new(2, 2)));
}

#[test]
fn square_piece_falls_to_the_floor() {
    let mut playfield = Playfield::new(10, 20);
    let mut piece = spawned(Shape::O, &mut playfield);
    for step in 0..18 {
        assert!(piece.shift(&mut playfield, Direction::Down).is_ok(), "step {}", step);
    }
    assert_eq!(piece.body, [(4, 18), (4, 19), (5, 18), (5, 19)]);
    let before = snapshot(&playfield);
    assert!(matches!(
        piece.shift(&mut playfield, Direction::Down),
        Err(ShiftError::BottomCollision)
    ));
    assert_eq!(piece.body, [(4, 18), (4, 19), (5, 18), (5, 19)]);
    assert_eq!(snapshot(&playfield), before);
    piece.place_in_playfield(&mut playfield);
    assert_eq!(occupied(&playfield), vec![(4, 18), (5, 18), (4, 19), (5, 19)]);
    for (x, y) in [(4, 18), (5, 18), (4, 19), (5, 19)] {
        assert_eq!(playfield.cell(x, y), locked(Color::Yellow));
    }
    assert!(!playfield.clear_lines());
    assert_eq!(occupied(&playfield), vec![(4, 18), (5, 18), (4, 19), (5, 19)]);
}

#[test]
fn square_piece_completes_a_row() {
    let mut playfield = Playfield::new(10, 20);
    for x in [0, 1, 2, 3, 6, 7, 8, 9] {
        playfield.set_cell(x, 19, locked(Color::Red));
    }
    let mut piece = spawned(Shape::O, &mut playfield);
    assert!(matches!(piece.hard_drop(&mut playfield), ShiftError::BottomCollision));
    assert_eq!(piece.body, [(4, 18), (4, 19), (5, 18), (5, 19)]);
    piece.place_in_playfield(&mut playfield);
    let row_above = snapshot(&playfield)[18].clone();
    assert!(playfield.clear_lines());
    let after = snapshot(&playfield);
    assert_eq!(after[19], row_above);
    let mut expected = vec![None; 10];
    expected[4] = locked(Color::Yellow);
    expected[5] = locked(Color::Yellow);
    assert_eq!(after[19], expected);
    for y in 0..19 {
        assert_eq!(after[y], vec![None; 10], "row {}", y);
    }
}

#[test]
fn left_raises_the_column_and_right_lowers_it() {
    let mut playfield = Playfield::new(10, 20);
    let mut piece = spawned(Shape::O, &mut playfield);
    assert!(piece.shift(&mut playfield, Direction::Left).is_ok());
    assert_eq!(piece.body, [(5, 0), (5, 1), (6, 0), (6, 1)]);
    assert_eq!(occupied(&playfield), vec![(5, 0), (6, 0), (5, 1), (6, 1)]);
    assert!(piece.shift(&mut playfield, Direction::Right).is_ok());
    assert!(piece.shift(&mut playfield, Direction::Right).is_ok());
    assert_eq!(piece.body, [(3, 0), (3, 1), (4, 0), (4, 1)]);
    assert_eq!(occupied(&playfield), vec![(3, 0), (4, 0), (3, 1), (4, 1)]);
}

#[test]
fn up_lowers_the_row() {
    let mut playfield = Playfield::new(10, 20);
    let mut piece = spawned(Shape::T, &mut playfield);
    assert!(piece.shift(&mut playfield, Direction::Down).is_ok());
    assert_eq!(piece.body, [(5, 2), (4, 2), (5, 1), (6, 2)]);
    assert!(piece.shift(&mut playfield, Direction::Up).is_ok());
    assert_eq!(piece.body, [(5, 1), (4, 1), (5, 0), (6, 1)]);
    assert!(matches!(
        piece.shift(&mut playfield, Direction::Up),
        Err(ShiftError::BorderCollision)
    ));
    assert_eq!(piece.body, [(5, 1), (4, 1), (5, 0), (6, 1)]);
}

#[test]
fn the_sides_of_the_grid_are_walls() {
    let mut playfield = Playfield::new(10, 20);
    let mut piece = spawned(Shape::O, &mut playfield);
    for _ in 0..4 {
        assert!(piece.shift(&mut playfield, Direction::Left).is_ok());
    }
    assert_eq!(piece.body, [(8, 0), (8, 1), (9, 0), (9, 1)]);
    let before = snapshot(&playfield);
    assert!(matches!(
        piece.shift(&mut playfield, Direction::Left),
        Err(ShiftError::BorderCollision)
    ));
    assert_eq!(piece.body, [(8, 0), (8, 1), (9, 0), (9, 1)]);
    assert_eq!(snapshot(&playfield), before);
    for _ in 0..8 {
        assert!(piece.shift(&mut playfield, Direction::Right).is_ok());
    }
    assert_eq!(piece.body, [(0, 0), (0, 1), (1, 0), (1, 1)]);
    assert!(matches!(
        piece.shift(&mut playfield, Direction::Right),
        Err(ShiftError::BorderCollision)
    ));
    assert_eq!(piece.body, [(0, 0), (0, 1), (1, 0), (1, 1)]);
}

#[test]
fn locked_cells_stop_a_piece() {
    let mut playfield = Playfield::new(10, 20);
    playfield.set_cell(4, 2, locked(Color::Red));
    playfield.set_cell(6, 1, locked(Color::Red));
    playfield.set_cell(3, 0, locked(Color::Red));
    let mut piece = spawned(Shape::O, &mut playfield);
    let before = snapshot(&playfield);
    assert!(matches!(
        piece.shift(&mut playfield, Direction::Down),
        Err(ShiftError::BottomCollision)
    ));
    assert!(matches!(
        piece.shift(&mut playfield, Direction::Left),
        Err(ShiftError::BorderCollision)
    ));
    assert!(matches!(
        piece.shift(&mut playfield, Direction::Right),
        Err(ShiftError::BorderCollision)
    ));
    assert_eq!(piece.body, [(4, 0), (4, 1), (5, 0), (5, 1)]);
    assert_eq!(snapshot(&playfield), before);
}

#[test]
fn collides_tells_obstacles_apart() {
    let mut playfield = Playfield::new(10, 20);
    playfield.set_cell(2, 5, locked(Color::Red));
    playfield.set_cell(3, 5, falling(Color::Blue));
    let piece = Tetromino::new(Shape::O);
    let sideways = [Direction::Up, Direction::Left, Direction::Right];

    assert!(piece.collides(&[(0, 0), (9, 19), (3, 5), (4, 4)], &playfield, Direction::Down).is_ok());
    assert!(piece.collides(&[], &playfield, Direction::Down).is_ok());

    assert!(matches!(
        piece.collides(&[(0, 20)], &playfield, Direction::Down),
        Err(ShiftError::BottomCollision)
    ));
    assert!(matches!(
        piece.collides(&[(10, 0)], &playfield, Direction::Down),
        Err(ShiftError::BorderCollision)
    ));
    assert!(matches!(
        piece.collides(&[(2, 5)], &playfield, Direction::Down),
        Err(ShiftError::BottomCollision)
    ));
    for direction in sideways {
        assert!(matches!(
            piece.collides(&[(0, 20)], &playfield, direction),
            Err(ShiftError::BorderCollision)
        ));
        assert!(matches!(
            piece.collides(&[(10, 0)], &playfield, direction),
            Err(ShiftError::BorderCollision)
        ));
        assert!(matches!(
            piece.collides(&[(2, 5)], &playfield, direction),
            Err(ShiftError::BorderCollision)
        ));
        assert!(piece.collides(&[(3, 5)], &playfield, direction).is_ok());
    }
}

#[test]
fn collides_goes_by_the_first_square_in_the_way() {
    let playfield = Playfield::new(10, 20);
    let piece = Tetromino::new(Shape::O);
    assert!(matches!(
        piece.collides(&[(0, 0), (10, 3), (0, 20)], &playfield, Direction::Down),
        Err(ShiftError::BorderCollision)
    ));
    assert!(matches!(
        piece.collides(&[(0, 0), (0, 20), (10, 3)], &playfield, Direction::Down),
        Err(ShiftError::BottomCollision)
    ));
    assert!(matches!(
        piece.collides(&[(10, 20)], &playfield, Direction::Down),
        Err(ShiftError::BottomCollision)
    ));
}

#[test]
fn change_position_empties_and_fills() {
    let mut playfield = Playfield::new(10, 20);
    playfield.set_cell(0, 19, locked(Color::Red));
    let mut piece = spawned(Shape::O, &mut playfield);
    piece.change_position(&[(5, 1), (5, 2), (6, 1), (6, 2)], &mut playfield);
    assert_eq!(piece.body, [(5, 1), (5, 2), (6, 1), (6, 2)]);
    assert_eq!(piece.shape, Shape::O);
    assert_eq!(piece.rotation, RotationState::Normal);
    assert_eq!(
        occupied(&playfield),
        vec![(5, 1), (6, 1), (5, 2), (6, 2), (0, 19)]
    );
    assert_eq!(playfield.cell(5, 1), falling(Color::Yellow));
    assert_eq!(playfield.cell(0, 19), locked(Color::Red));
}

#[test]
fn place_in_playfield_locks_what_is_there() {
    let mut playfield = Playfield::new(10, 20);
    let piece = spawned(Shape::T, &mut playfield);
    playfield.set_cell(0, 0, falling(Color::Red));
    playfield.set_cell(4, 1, None);
    piece.place_in_playfield(&mut playfield);
    assert_eq!(playfield.cell(5, 1), locked(Color::White));
    assert_eq!(playfield.cell(5, 0), locked(Color::White));
    assert_eq!(playfield.cell(6, 1), locked(Color::White));
    assert_eq!(playfield.cell(4, 1), None);
    assert_eq!(playfield.cell(0, 0), falling(Color::Red));
}

#[test]
fn hard_drop_comes_to_rest_on_the_floor() {
    let mut playfield = Playfield::new(10, 20);
    let mut piece = spawned(Shape::I, &mut playfield);
    assert!(matches!(piece.hard_drop(&mut playfield), ShiftError::BottomCollision));
    assert_eq!(piece.body, [(4, 19), (5, 19), (3, 19), (6, 19)]);
    assert_eq!(occupied(&playfield), vec![(3, 19), (4, 19), (5, 19), (6, 19)]);
    assert_eq!(playfield.cell(3, 19), falling(Color::Cyan));
}

#[test]
fn hard_drop_comes_to_rest_on_locked_cells() {
    let mut playfield = Playfield::new(10, 20);
    playfield.set_cell(6, 10, locked(Color::Red));
    let mut piece = spawned(Shape::T, &mut playfield);
    piece.hard_drop(&mut playfield);
    assert_eq!(piece.body, [(5, 9), (4, 9), (5, 8), (6, 9)]);
}

#[test]
fn hard_drop_twice_is_hard_drop_once() {
    let mut playfield = Playfield::new(10, 20);
    playfield.set_cell(4, 15, locked(Color::Red));
    let mut piece = spawned(Shape::L, &mut playfield);
    piece.hard_drop(&mut playfield);
    let body = piece.body;
    let grid = snapshot(&playfield);
    assert_eq!(body, [(5, 14), (4, 14), (6, 14), (6, 13)]);
    assert!(matches!(piece.hard_drop(&mut playfield), ShiftError::BottomCollision));
    assert_eq!(piece.body, body);
    assert_eq!(snapshot(&playfield), grid);
}

#[test]
fn the_square_piece_does_not_turn() {
    let mut playfield = Playfield::new(10, 20);
    let mut piece = spawned(Shape::O, &mut playfield);
    piece.shift(&mut playfield, Direction::Down).unwrap_or(());
    let body = piece.body;
    let grid = snapshot(&playfield);
    for turn in 0..9 {
        piece.rotate(&mut playfield, turn % 3 != 0);
        assert_eq!(piece.body, body);
        assert_eq!(piece.rotation, RotationState::Normal);
        assert_eq!(snapshot(&playfield), grid);
    }
}

#[test]
fn turning_clockwise_in_the_open() {
    let mut playfield = Playfield::new(10, 20);
    let mut piece = spawned(Shape::T, &mut playfield);
    piece.rotate(&mut playfield, true);
    assert_eq!(piece.body, [(5, 1), (5, 0), (6, 1), (5, 2)]);
    assert_eq!(piece.rotation, RotationState::QuarterTurned);
    assert_eq!(sorted_squares(&playfield), sorted(piece.body));
    assert_eq!(playfield.cell(5, 2), falling(Color::White));
    piece.rotate(&mut playfield, true);
    assert_eq!(piece.body, [(5, 1), (6, 1), (5, 2), (4, 1)]);
    assert_eq!(piece.rotation, RotationState::HalfTurned);
    piece.rotate(&mut playfield, true);
    assert_eq!(piece.body, [(5, 1), (5, 2), (4, 1), (5, 0)]);
    assert_eq!(piece.rotation, RotationState::ThreeQuartersTurned);
    piece.rotate(&mut playfield, true);
    assert_eq!(piece.body, [(5, 1), (4, 1), (5, 0), (6, 1)]);
    assert_eq!(piece.rotation, RotationState::Normal);
    assert_eq!(sorted_squares(&playfield), sorted(piece.body));
}

#[test]
fn turning_counter_clockwise_in_the_open() {
    let mut playfield = Playfield::new(10, 20);
    let mut piece = spawned(Shape::T, &mut playfield);
    piece.rotate(&mut playfield, false);
    assert_eq!(piece.body, [(5, 1), (5, 2), (4, 1), (5, 0)]);
    assert_eq!(piece.rotation, RotationState::ThreeQuartersTurned);
    piece.rotate(&mut playfield, false);
    assert_eq!(piece.rotation, RotationState::HalfTurned);
    piece.rotate(&mut playfield, false);
    assert_eq!(piece.rotation, RotationState::QuarterTurned);
    piece.rotate(&mut playfield, false);
    assert_eq!(piece.body, [(5, 1), (4, 1), (5, 0), (6, 1)]);
    assert_eq!(piece.rotation, RotationState::Normal);
}

#[test]
fn long_piece_at_the_right_wall_is_kicked() {
    let mut playfield = Playfield::new(10, 20);
    let mut piece = spawned(Shape::I, &mut playfield);
    for _ in 0..3 {
        assert!(piece.shift(&mut playfield, Direction::Left).is_ok());
    }
    assert_eq!(piece.body, [(7, 0), (8, 0), (6, 0), (9, 0)]);
    assert!(piece.shift(&mut playfield, Direction::Left).is_err());
    piece.rotate(&mut playfield, true);
    assert_eq!(piece.body, [(6, 1), (6, 2), (6, 0), (6, 3)]);
    assert_eq!(piece.rotation, RotationState::QuarterTurned);
    assert_eq!(sorted_squares(&playfield), sorted(piece.body));
    for (x, y) in piece.body {
        assert!(x < 10 && y < 20);
        assert_eq!(playfield.cell(x, y), falling(Color::Cyan));
    }
}

#[test]
fn long_piece_below_the_top_takes_the_first_kick() {
    let mut playfield = Playfield::new(10, 20);
    let mut piece = spawned(Shape::I, &mut playfield);
    for _ in 0..3 {
        assert!(piece.shift(&mut playfield, Direction::Left).is_ok());
    }
    for _ in 0..2 {
        assert!(piece.shift(&mut playfield, Direction::Down).is_ok());
    }
    piece.rotate(&mut playfield, true);
    assert_eq!(piece.body, [(8, 2), (8, 3), (8, 1), (8, 4)]);
    assert_eq!(piece.rotation, RotationState::QuarterTurned);
    assert!(piece.shift(&mut playfield, Direction::Left).is_ok());
    assert_eq!(piece.body, [(9, 2), (9, 3), (9, 1), (9, 4)]);
    piece.rotate(&mut playfield, true);
    assert_eq!(piece.body, [(8, 3), (7, 3), (9, 3), (6, 3)]);
    assert_eq!(piece.rotation, RotationState::HalfTurned);
    assert_eq!(sorted_squares(&playfield), sorted(piece.body));
}

#[test]
fn a_turn_that_has_no_room_is_left_out() {
    let mut playfield = Playfield::new(10, 20);
    let mut piece = spawned(Shape::I, &mut playfield);
    for y in 1..5 {
        for x in 0..10 {
            playfield.set_cell(x, y, locked(Color::Red));
        }
    }
    let grid = snapshot(&playfield);
    piece.rotate(&mut playfield, true);
    assert_eq!(piece.body, [(4, 0), (5, 0), (3, 0), (6, 0)]);
    assert_eq!(piece.rotation, RotationState::Normal);
    assert_eq!(snapshot(&playfield), grid);
    piece.rotate(&mut playfield, false);
    assert_eq!(piece.body, [(4, 0), (5, 0), (3, 0), (6, 0)]);
    assert_eq!(piece.rotation, RotationState::Normal);
    assert_eq!(snapshot(&playfield), grid);
}

#[test]
fn kicks_go_round_locked_cells() {
    let mut playfield = Playfield::new(10, 20);
    let mut piece = spawned(Shape::T, &mut playfield);
    playfield.set_cell(5, 2, locked(Color::Red));
    piece.rotate(&mut playfield, true);
    assert_eq!(piece.body, [(4, 1), (4, 0), (5, 1), (4, 2)]);
    assert_eq!(piece.rotation, RotationState::QuarterTurned);
    assert_eq!(playfield.cell(5, 2), locked(Color::Red));
    assert_eq!(playfield.cell(6, 1), None);
    assert_eq!(playfield.cell(5, 0), None);
}
