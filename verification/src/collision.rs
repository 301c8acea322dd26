//! Where a piece may be: the verdict on a set of squares against the grid.

use vstd::prelude::*;
use crate::playfield::{rectangular, Grid};

verus! {

/// A square of the grid as the executable code holds it: column, then row.
pub type Coordinates = (usize, usize);

/// A square as mathematics: column, then row. Either may lie outside the grid,
/// to the left of it or above it too.
pub type Point = (int, int);

/// The way a piece is pushed. `Left` raises the column and `Right` lowers it.
#[derive(Clone, Copy, Debug, PartialEq, Eq, Structural)]
pub enum Direction {
    Up,
    Down,
    Left,
    Right,
}

/// Why a piece could not go where it was sent.
#[derive(Clone, Copy, Debug, PartialEq, Eq, Structural)]
pub enum ShiftError {
    /// The move is not possible; nothing has changed.
    BorderCollision,
    /// The piece has come to rest and is to be locked.
    BottomCollision,
}

/// The squares of `body` as points.
pub open spec fn points(body: Seq<Coordinates>) -> Seq<Point> {
    Seq::new(body.len(), |i: int| (body[i].0 as int, body[i].1 as int))
}

/// The squares of `body`, each displaced by `by`.
pub open spec fn displaced(body: Seq<Point>, by: Point) -> Seq<Point> {
    Seq::new(body.len(), |i: int| (body[i].0 + by.0, body[i].1 + by.1))
}

/// One step in `direction`, as columns and rows to add.
pub open spec fn unit(direction: Direction) -> Point {
    match direction {
        Direction::Up => (0, -1),
        Direction::Down => (0, 1),
        Direction::Left => (1, 0),
        Direction::Right => (-1, 0),
    }
}

/// How an obstacle counts for a piece pushed in `direction`: as the floor when
/// it was going down, as a wall otherwise.
pub open spec fn obstacle(direction: Direction) -> ShiftError {
    if direction == Direction::Down {
        ShiftError::BottomCollision
    } else {
        ShiftError::BorderCollision
    }
}

/// `at` lies in the grid.
pub open spec fn inside(grid: Grid, at: Point) -> bool {
    0 <= at.1 < grid.len() && 0 <= at.0 < grid[at.1].len()
}

/// `at` lies in the grid and holds no locked cell: it is empty, or part of the
/// piece that is falling.
pub open spec fn passable(grid: Grid, at: Point) -> bool {
    inside(grid, at) && match grid[at.1][at.0] {
        Some(cell) => cell.is_active,
        None => true,
    }
}

/// `at` lies in the grid and is empty.
pub open spec fn vacant(grid: Grid, at: Point) -> bool {
    inside(grid, at) && grid[at.1][at.0] is None
}

/// The verdict on one square. A row outside the grid and a locked cell are
/// obstacles; a column outside the grid is always a wall.
pub open spec fn square_verdict(grid: Grid, at: Point, direction: Direction) -> Option<ShiftError> {
    if !(0 <= at.1 < grid.len()) {
        Some(obstacle(direction))
    } else if !(0 <= at.0 < grid[at.1].len()) {
        Some(ShiftError::BorderCollision)
    } else if !passable(grid, at) {
        Some(obstacle(direction))
    } else {
        None
    }
}

/// The verdict on a body: that of its first square that is not passable, and
/// `None` where all of them are.
pub open spec fn collision(grid: Grid, body: Seq<Point>, direction: Direction) -> Option<ShiftError>
    decreases body.len(),
{
    if body.len() == 0 {
        None
    } else {
        match square_verdict(grid, body[0], direction) {
            Some(e) => Some(e),
            None => collision(grid, body.skip(1), direction),
        }
    }
}

/// Every square of `body` lies in the grid.
pub open spec fn within(grid: Grid, body: Seq<Point>) -> bool {
    forall|i: int| 0 <= i < body.len() ==> inside(grid, #[trigger] body[i])
}

/// Every square of `body` is passable.
pub open spec fn fits(grid: Grid, body: Seq<Point>) -> bool {
    forall|i: int| 0 <= i < body.len() ==> passable(grid, #[trigger] body[i])
}

/// A body that fits lies in the grid.
pub proof fn lemma_fits_within(grid: Grid, body: Seq<Point>)
    requires
        fits(grid, body),
    ensures
        within(grid, body),
{
    assert forall|i: int| 0 <= i < body.len() implies inside(grid, #[trigger] body[i]) by {
        assert(passable(grid, body[i]));
    }
}

/// A body meets no obstacle exactly when all its squares are passable, whatever
/// the direction.
pub proof fn lemma_collision_none_iff_fits(grid: Grid, body: Seq<Point>, direction: Direction)
    ensures
        collision(grid, body, direction) is None <==> fits(grid, body),
    decreases body.len(),
{
    if body.len() > 0 {
        let rest = body.skip(1);
        lemma_collision_none_iff_fits(grid, rest, direction);
        if fits(grid, body) {
            assert(passable(grid, body[0]));
            assert forall|i: int| 0 <= i < rest.len() implies passable(
                grid,
                #[trigger] rest[i],
            ) by {
                assert(rest[i] == body[i + 1]);
            }
        }
        if collision(grid, body, direction) is None {
            assert forall|i: int| 0 <= i < body.len() implies passable(
                grid,
                #[trigger] body[i],
            ) by {
                if i > 0 {
                    assert(body[i] == rest[i - 1]);
                }
            }
        }
    }
}

/// A piece that was going down meets the floor, and no wall, as long as its
/// columns lie in a grid whose rows are all equally wide.
pub proof fn lemma_collision_down_is_bottom(grid: Grid, width: nat, body: Seq<Point>)
    requires
        rectangular(grid, width),
        forall|i: int| 0 <= i < body.len() ==> 0 <= (#[trigger] body[i]).0 < width,
    ensures
        collision(grid, body, Direction::Down) != Some(ShiftError::BorderCollision),
    decreases body.len(),
{
    if body.len() > 0 {
        let rest = body.skip(1);
        assert forall|i: int| 0 <= i < rest.len() implies 0 <= (#[trigger] rest[i]).0 < width by {
            assert(rest[i] == body[i + 1]);
        }
        lemma_collision_down_is_bottom(grid, width, rest);
        assert(0 <= body[0].0 < width);
    }
}

/// A piece pushed any way but down meets walls only.
pub proof fn lemma_collision_sideways_is_border(grid: Grid, body: Seq<Point>, direction: Direction)
    requires
        direction != Direction::Down,
    ensures
        collision(grid, body, direction) != Some(ShiftError::BottomCollision),
    decreases body.len(),
{
    if body.len() > 0 {
        lemma_collision_sideways_is_border(grid, body.skip(1), direction);
    }
}

/// A piece that lies in the grid and is pushed one step either has room, or
/// meets an obstacle that counts by the way it was going: as the floor when it
/// was pushed down, as a wall when it was pushed left, right or up.
pub proof fn lemma_push_verdict(grid: Grid, width: nat, body: Seq<Point>, direction: Direction)
    requires
        rectangular(grid, width),
        within(grid, body),
    ensures
        collision(grid, displaced(body, unit(direction)), direction) is None <==> fits(
            grid,
            displaced(body, unit(direction)),
        ),
        collision(grid, displaced(body, unit(direction)), direction) is Some ==> collision(
            grid,
            displaced(body, unit(direction)),
            direction,
        ) == Some(obstacle(direction)),
{
    let target = displaced(body, unit(direction));
    lemma_collision_none_iff_fits(grid, target, direction);
    if direction == Direction::Down {
        assert forall|i: int| 0 <= i < target.len() implies 0 <= (#[trigger] target[i]).0
            < width by {
            assert(inside(grid, body[i]));
        }
        lemma_collision_down_is_bottom(grid, width, target);
    } else {
        lemma_collision_sideways_is_border(grid, target, direction);
    }
}

} // verus!
