use tetris_engine::kicks::{kick_of, turn_of, KICKS};
use tetris_engine::tetromino::RotationState::{
    self, HalfTurned, Normal, QuarterTurned, ThreeQuartersTurned,
};
use tetris_engine::tetromino::Shape;

fn kicks(shape: Shape, from: RotationState, to: RotationState) -> Vec<(i32, i32)> {
    (0..KICKS).map(|k| kick_of(shape, from, to, k)).collect()
}

#[test]
fn turns_go_round_in_four_steps() {
    assert_eq!(turn_of(Normal, true), QuarterTurned);
    assert_eq!(turn_of(QuarterTurned, true), HalfTurned);
    assert_eq!(turn_of(HalfTurned, true), ThreeQuartersTurned);
    assert_eq!(turn_of(ThreeQuartersTurned, true), Normal);
    assert_eq!(turn_of(Normal, false), ThreeQuartersTurned);
    assert_eq!(turn_of(ThreeQuartersTurned, false), HalfTurned);
    assert_eq!(turn_of(HalfTurned, false), QuarterTurned);
    assert_eq!(turn_of(QuarterTurned, false), Normal);
}

#[test]
fn kicks_of_the_long_piece() {
    assert_eq!(
        kicks(Shape::I, Normal, QuarterTurned),
        vec![(1, 0), (-1, 0), (2, 0), (-1, 1), (2, -2)]
    );
    assert_eq!(
        kicks(Shape::I, QuarterTurned, HalfTurned),
        vec![(0, 1), (-1, 1), (2, 1), (-1, -1), (2, 2)]
    );
    assert_eq!(
        kicks(Shape::I, HalfTurned, ThreeQuartersTurned),
        vec![(-1, 0), (1, 0), (-2, 0), (1, -1), (-2, 2)]
    );
    assert_eq!(
        kicks(Shape::I, ThreeQuartersTurned, Normal),
        vec![(0, -1), (1, -1), (-2, -1), (1, 1), (-2, -2)]
    );
    assert_eq!(
        kicks(Shape::I, QuarterTurned, Normal),
        vec![(-1, 0), (1, 0), (-2, 0), (1, -1), (-2, 2)]
    );
}

#[test]
fn kicks_of_the_other_pieces() {
    for shape in [Shape::J, Shape::L, Shape::S, Shape::Z, Shape::T] {
        assert_eq!(
            kicks(shape, Normal, QuarterTurned),
            vec![(0, 0), (-1, 0), (-1, -1), (0, 2), (-1, 2)]
        );
        assert_eq!(
            kicks(shape, QuarterTurned, Normal),
            vec![(0, 0), (1, 0), (1, 1), (0, -2), (1, -2)]
        );
        assert_eq!(
            kicks(shape, QuarterTurned, HalfTurned),
            vec![(0, 0), (1, 0), (1, 1), (0, -2), (1, -2)]
        );
        assert_eq!(
            kicks(shape, HalfTurned, ThreeQuartersTurned),
            vec![(0, 0), (1, 0), (1, -1), (0, 2), (1, 2)]
        );
        assert_eq!(
            kicks(shape, ThreeQuartersTurned, Normal),
            vec![(0, 0), (-1, 0), (-1, 1), (0, -2), (-1, -2)]
        );
        assert_eq!(
            kicks(shape, Normal, ThreeQuartersTurned),
            vec![(0, 0), (1, 0), (1, -1), (0, 2), (1, 2)]
        );
    }
}
