//! Turning a piece: the quarter turn about its first square, and the table of
//! small displacements that are tried when the turned piece does not fit.

use vstd::prelude::*;
use crate::collision::{displaced, fits, Point};
use crate::playfield::Grid;
use crate::tetromino::{RotationState, Shape};

verus! {

/// The number of displacements tried for one turn.
pub const KICKS: usize = 5;

/// No displacement is by more columns or rows than this.
pub const REACH: i32 = 4;

/// The state that a quarter turn leads to.
pub open spec fn turn(rotation: RotationState, clockwise: bool) -> RotationState {
    match rotation {
        RotationState::Normal => if clockwise {
            RotationState::QuarterTurned
        } else {
            RotationState::ThreeQuartersTurned
        },
        RotationState::QuarterTurned => if clockwise {
            RotationState::HalfTurned
        } else {
            RotationState::Normal
        },
        RotationState::HalfTurned => if clockwise {
            RotationState::ThreeQuartersTurned
        } else {
            RotationState::QuarterTurned
        },
        RotationState::ThreeQuartersTurned => if clockwise {
            RotationState::Normal
        } else {
            RotationState::HalfTurned
        },
    }
}

/// The five offsets that belong to a rotation state, with rows counted upwards.
/// The long piece has a table of its own; all other pieces share one.
pub open spec fn offsets(shape: Shape, rotation: RotationState) -> Seq<Point> {
    if shape == Shape::I {
        match rotation {
            RotationState::Normal => seq![(0, 0), (-1, 0), (2, 0), (-1, 0), (2, 0)],
            RotationState::QuarterTurned => seq![(-1, 0), (0, 0), (0, 0), (0, 1), (0, -2)],
            RotationState::HalfTurned => seq![(-1, 1), (1, 1), (-2, 1), (1, 0), (-2, 0)],
            RotationState::ThreeQuartersTurned => seq![(0, 1), (0, 1), (0, 1), (0, -1), (0, 2)],
        }
    } else {
        match rotation {
            RotationState::Normal => seq![(0, 0), (0, 0), (0, 0), (0, 0), (0, 0)],
            RotationState::QuarterTurned => seq![(0, 0), (1, 0), (1, -1), (0, 2), (1, 2)],
            RotationState::HalfTurned => seq![(0, 0), (0, 0), (0, 0), (0, 0), (0, 0)],
            RotationState::ThreeQuartersTurned => seq![(0, 0), (-1, 0), (-1, -1), (0, 2), (-1, 2)],
        }
    }
}

/// The `k`-th displacement tried for the turn from `from` to `to`, as columns
/// and rows to add: the offset of `from` less that of `to`, with the rows turned
/// over because the grid counts them downwards.
pub open spec fn kick(shape: Shape, from: RotationState, to: RotationState, k: int) -> Point {
    let a = offsets(shape, from)[k];
    let b = offsets(shape, to)[k];
    (a.0 - b.0, b.1 - a.1)
}

/// The squares of `body` after a quarter turn about its first square.
pub open spec fn turned(body: Seq<Point>, clockwise: bool) -> Seq<Point> {
    Seq::new(
        body.len(),
        |i: int|
            {
                let dx = body[i].0 - body[0].0;
                let dy = body[i].1 - body[0].1;
                if clockwise {
                    (body[0].0 - dy, body[0].1 + dx)
                } else {
                    (body[0].0 + dy, body[0].1 - dx)
                }
            },
    )
}

/// Where the `k`-th try of a turn would put a piece.
pub open spec fn attempt(
    shape: Shape,
    body: Seq<Point>,
    rotation: RotationState,
    clockwise: bool,
    k: int,
) -> Seq<Point> {
    displaced(turned(body, clockwise), kick(shape, rotation, turn(rotation, clockwise), k))
}

/// The first of the tries from the `k`-th on that the grid has room for.
pub open spec fn first_fit(
    grid: Grid,
    shape: Shape,
    body: Seq<Point>,
    rotation: RotationState,
    clockwise: bool,
    k: int,
) -> Option<int>
    decreases KICKS - k,
{
    if k < 0 || k >= KICKS {
        None
    } else if fits(grid, attempt(shape, body, rotation, clockwise, k)) {
        Some(k)
    } else {
        first_fit(grid, shape, body, rotation, clockwise, k + 1)
    }
}

/// The state that a quarter turn leads to.
pub fn turn_of(rotation: RotationState, clockwise: bool) -> (next: RotationState)
    ensures
        next == turn(rotation, clockwise),
{
    match rotation {
        RotationState::Normal => if clockwise {
            RotationState::QuarterTurned
        } else {
            RotationState::ThreeQuartersTurned
        },
        RotationState::QuarterTurned => if clockwise {
            RotationState::HalfTurned
        } else {
            RotationState::Normal
        },
        RotationState::HalfTurned => if clockwise {
            RotationState::ThreeQuartersTurned
        } else {
            RotationState::QuarterTurned
        },
        RotationState::ThreeQuartersTurned => if clockwise {
            RotationState::Normal
        } else {
            RotationState::HalfTurned
        },
    }
}

/// The five offsets that belong to a rotation state.
fn offsets_of(shape: Shape, rotation: RotationState) -> (table: [(i32, i32); 5])
    ensures
        offsets(shape, rotation).len() == KICKS,
        forall|k: int|
            0 <= k < KICKS ==> offsets(shape, rotation)[k] == (
                (#[trigger] table[k]).0 as int,
                table[k].1 as int,
            ),
        forall|k: int|
            0 <= k < KICKS ==> -2 <= (#[trigger] table[k]).0 <= 2 && -2 <= table[k].1 <= 2,
{
    match shape {
        Shape::I => match rotation {
            RotationState::Normal => [(0, 0), (-1, 0), (2, 0), (-1, 0), (2, 0)],
            RotationState::QuarterTurned => [(-1, 0), (0, 0), (0, 0), (0, 1), (0, -2)],
            RotationState::HalfTurned => [(-1, 1), (1, 1), (-2, 1), (1, 0), (-2, 0)],
            RotationState::ThreeQuartersTurned => [(0, 1), (0, 1), (0, 1), (0, -1), (0, 2)],
        },
        _ => match rotation {
            RotationState::Normal => [(0, 0), (0, 0), (0, 0), (0, 0), (0, 0)],
            RotationState::QuarterTurned => [(0, 0), (1, 0), (1, -1), (0, 2), (1, 2)],
            RotationState::HalfTurned => [(0, 0), (0, 0), (0, 0), (0, 0), (0, 0)],
            RotationState::ThreeQuartersTurned => [(0, 0), (-1, 0), (-1, -1), (0, 2), (-1, 2)],
        },
    }
}

/// The `k`-th displacement tried for the turn from `from` to `to`.
pub fn kick_of(shape: Shape, from: RotationState, to: RotationState, k: usize) -> (by: (i32, i32))
    requires
        k < KICKS,
    ensures
        (by.0 as int, by.1 as int) == kick(shape, from, to, k as int),
        -REACH <= by.0 <= REACH,
        -REACH <= by.1 <= REACH,
{
    let a = offsets_of(shape, from);
    let b = offsets_of(shape, to);
    (a[k].0 - b[k].0, b[k].1 - a[k].1)
}

} // verus!
