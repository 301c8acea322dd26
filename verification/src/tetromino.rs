//! The falling piece: where it is, and how it moves, turns and comes to rest.

use vstd::prelude::*;
use crate::cell::{Color, Playcell};
use crate::collision::{
    collision, displaced, fits, inside, lemma_collision_none_iff_fits, obstacle, points, vacant,
    within, Coordinates, Direction, Point, ShiftError,
};
use crate::placement::{
    lemma_moved_nothing, lemma_moved_one_more, lemma_settled_nothing, lemma_settled_one_more,
    lemma_wiped_one_more, moved, settled,
};
use crate::playfield::{Grid, Playfield};

verus! {

/// The seven shapes.
#[derive(Clone, Copy, Debug, PartialEq, Eq, Structural)]
pub enum Shape {
    O,
    I,
    J,
    L,
    S,
    Z,
    T,
}

/// How far a piece has been turned from the way it appeared, clockwise.
#[derive(Clone, Copy, Debug, PartialEq, Eq, Structural)]
pub enum RotationState {
    Normal,
    QuarterTurned,
    HalfTurned,
    ThreeQuartersTurned,
}

/// A piece. The first square of `body` is the one it turns about.
#[derive(Clone, Copy, Debug)]
pub struct Tetromino {
    pub shape: Shape,
    pub body: [Coordinates; 4],
    pub color: Color,
    pub rotation: RotationState,
}

/// The colour that pieces of `shape` have.
pub open spec fn color_of(shape: Shape) -> Color {
    match shape {
        Shape::O => Color::Yellow,
        Shape::I => Color::Cyan,
        Shape::J => Color::Gray,
        Shape::L => Color::Blue,
        Shape::S => Color::Green,
        Shape::Z => Color::Red,
        Shape::T => Color::White,
    }
}

/// The squares of a piece of `shape` before it is put in a grid: it lies in the
/// top rows against the left edge, its pivot first.
pub open spec fn home(shape: Shape) -> [Coordinates; 4] {
    match shape {
        Shape::O => [(0, 0), (0, 1), (1, 0), (1, 1)],
        Shape::I => [(1, 0), (2, 0), (0, 0), (3, 0)],
        Shape::J => [(1, 1), (0, 1), (0, 0), (2, 1)],
        Shape::L => [(1, 1), (0, 1), (2, 1), (2, 0)],
        Shape::S => [(1, 1), (0, 1), (1, 0), (2, 0)],
        Shape::Z => [(1, 1), (1, 0), (0, 0), (2, 1)],
        Shape::T => [(1, 1), (0, 1), (1, 0), (2, 1)],
    }
}

/// The piece of `shape` as it comes out of the bag.
pub open spec fn fresh(shape: Shape) -> Tetromino {
    Tetromino {
        shape,
        body: home(shape),
        color: color_of(shape),
        rotation: RotationState::Normal,
    }
}

/// The least column among the squares of `body`.
pub open spec fn leftmost(body: Seq<Point>) -> int
    decreases body.len(),
{
    if body.len() == 0 {
        0
    } else if body.len() == 1 {
        body[0].0
    } else {
        let rest = leftmost(body.drop_last());
        if body.last().0 < rest {
            body.last().0
        } else {
            rest
        }
    }
}

/// The greatest column among the squares of `body`.
pub open spec fn rightmost(body: Seq<Point>) -> int
    decreases body.len(),
{
    if body.len() == 0 {
        0
    } else if body.len() == 1 {
        body[0].0
    } else {
        let rest = rightmost(body.drop_last());
        if body.last().0 > rest {
            body.last().0
        } else {
            rest
        }
    }
}

/// The number of columns that `body` spans.
pub open spec fn extent(body: Seq<Point>) -> int {
    rightmost(body) - leftmost(body) + 1
}

fn obstacle_for(direction: Direction) -> (e: ShiftError)
    ensures
        e == obstacle(direction),
{
    match direction {
        Direction::Down => ShiftError::BottomCollision,
        _ => ShiftError::BorderCollision,
    }
}

impl Tetromino {
    /// The squares of the piece as points.
    pub open spec fn squares(&self) -> Seq<Point> {
        points(self.body@)
    }

    /// How far to the right a piece is put when it appears in a grid of `cols`
    /// columns: the middle column less half the width of the piece.
    pub open spec fn spawn_offset(&self, cols: nat) -> int {
        cols / 2 - extent(self.squares()) / 2
    }

    /// The squares that the piece takes when it appears in a grid of `cols`
    /// columns.
    pub open spec fn spawn_target(&self, cols: nat) -> Seq<Point> {
        displaced(self.squares(), (self.spawn_offset(cols), 0))
    }

    /// The grid has room for the piece to appear: the squares it would take
    /// lie in the grid and are empty.
    pub open spec fn spawns_in(&self, grid: Grid, cols: nat) -> bool {
        &&& self.spawn_offset(cols) >= 0
        &&& forall|i: int| 0 <= i < 4 ==> vacant(grid, #[trigger] self.spawn_target(cols)[i])
    }

    /// The piece lies in the grid.
    pub open spec fn in_grid(&self, playfield: &Playfield) -> bool {
        within(playfield@, self.squares())
    }

    /// A piece of `shape` as it comes out of the bag.
    pub fn new(shape: Shape) -> (piece: Tetromino)
        ensures
            piece == fresh(shape),
    {
        let piece = match shape {
            Shape::O => Tetromino {
                shape,
                body: [(0, 0), (0, 1), (1, 0), (1, 1)],
                color: Color::Yellow,
                rotation: RotationState::Normal,
            },
            Shape::I => Tetromino {
                shape,
                body: [(1, 0), (2, 0), (0, 0), (3, 0)],
                color: Color::Cyan,
                rotation: RotationState::Normal,
            },
            Shape::J => Tetromino {
                shape,
                body: [(1, 1), (0, 1), (0, 0), (2, 1)],
                color: Color::Gray,
                rotation: RotationState::Normal,
            },
            Shape::L => Tetromino {
                shape,
                body: [(1, 1), (0, 1), (2, 1), (2, 0)],
                color: Color::Blue,
                rotation: RotationState::Normal,
            },
            Shape::S => Tetromino {
                shape,
                body: [(1, 1), (0, 1), (1, 0), (2, 0)],
                color: Color::Green,
                rotation: RotationState::Normal,
            },
            Shape::Z => Tetromino {
                shape,
                body: [(1, 1), (1, 0), (0, 0), (2, 1)],
                color: Color::Red,
                rotation: RotationState::Normal,
            },
            Shape::T => Tetromino {
                shape,
                body: [(1, 1), (0, 1), (1, 0), (2, 1)],
                color: Color::White,
                rotation: RotationState::Normal,
            },
        };
        assert(piece.body@ =~= home(shape)@);
        piece
    }

    /// The number of columns that the piece spans.
    fn get_length(&self) -> (length: usize)
        requires
            forall|i: int| 0 <= i < 4 ==> (#[trigger] self.body@[i]).0 < usize::MAX,
        ensures
            length == extent(self.squares()),
    {
        let ghost body = self.squares();
        let mut max = self.body[0].0;
        let mut min = self.body[0].0;
        let mut i: usize = 1;
        while i < 4
            invariant
                1 <= i <= 4,
                body == points(self.body@),
                min == leftmost(body.take(i as int)),
                max == rightmost(body.take(i as int)),
                min <= max < usize::MAX,
                forall|i: int| 0 <= i < 4 ==> (#[trigger] self.body@[i]).0 < usize::MAX,
            decreases 4 - i,
        {
            let x = self.body[i].0;
            proof {
                assert(body.take(i + 1).drop_last() =~= body.take(i as int));
                assert(body.take(i + 1).last() == body[i as int]);
            }
            if x > max {
                max = x;
            }
            if x < min {
                min = x;
            }
            i += 1;
        }
        proof {
            assert(body.take(4) =~= body);
        }
        max - min + 1
    }

    /// Tells whether the grid has room for the piece to appear.
    pub fn can_spawn(&self, playfield: &Playfield) -> (ok: bool)
        requires
            playfield.wf(),
        ensures
            ok == self.spawns_in(playfield@, playfield.cols()),
    {
        let cols = playfield.width();
        let rows = playfield.height();
        let ghost grid = playfield@;
        let ghost body = self.squares();
        let mut i: usize = 0;
        while i < 4
            invariant
                i <= 4,
                playfield.wf(),
                grid == playfield@,
                cols == playfield.cols(),
                rows == grid.len(),
                body == self.squares(),
                forall|j: int| 0 <= j < i ==> inside(grid, #[trigger] body[j]),
            decreases 4 - i,
        {
            let (x, y) = self.body[i];
            if x >= cols || y >= rows {
                proof {
                    if self.spawn_offset(cols as nat) >= 0 {
                        assert(!inside(grid, self.spawn_target(cols as nat)[i as int]));
                    }
                }
                return false;
            }
            assert(inside(grid, body[i as int]));
            i += 1;
        }
        assert forall|j: int| 0 <= j < 4 implies (#[trigger] self.body@[j]).0 < usize::MAX by {
            assert(inside(grid, body[j]));
        }
        let half = self.get_length() / 2;
        let middle = playfield.get_x_midpoint();
        if middle < half {
            return false;
        }
        let offset = middle - half;
        let ghost target = self.spawn_target(cols as nat);
        let mut i: usize = 0;
        while i < 4
            invariant
                i <= 4,
                playfield.wf(),
                grid == playfield@,
                cols == playfield.cols(),
                rows == grid.len(),
                body == self.squares(),
                offset == self.spawn_offset(cols as nat),
                target == self.spawn_target(cols as nat),
                within(grid, body),
                forall|j: int| 0 <= j < i ==> vacant(grid, #[trigger] target[j]),
            decreases 4 - i,
        {
            let (x, y) = self.body[i];
            assert(inside(grid, body[i as int]));
            assert(target[i as int] == (x + offset, y as int));
            if offset >= cols - x {
                return false;
            }
            if playfield.cell(x + offset, y).is_some() {
                return false;
            }
            i += 1;
        }
        true
    }

    /// Puts the piece in the grid, in the top rows and in the middle: each of
    /// its squares moves right by the same number of columns and is filled.
    /// The caller sees to it that the grid has room; `can_spawn` tells.
    pub fn spawn(&mut self, playfield: &mut Playfield)
        requires
            old(playfield).wf(),
            old(self).spawns_in(old(playfield)@, old(playfield).cols()),
        ensures
            final(self).squares() == old(self).spawn_target(old(playfield).cols()),
            final(self).shape == old(self).shape,
            final(self).color == old(self).color,
            final(self).rotation == old(self).rotation,
            final(self).in_grid(final(playfield)),
            final(playfield).wf(),
            final(playfield).cols() == old(playfield).cols(),
            final(playfield)@ == moved(
                old(playfield)@,
                Seq::empty(),
                old(self).spawn_target(old(playfield).cols()),
                old(self).color,
            ),
    {
        let ghost grid = playfield@;
        let cols = playfield.width();
        let ghost target = self.spawn_target(cols as nat);
        let ghost color = self.color;
        proof {
            assert forall|j: int| 0 <= j < 4 implies (#[trigger] self.body@[j]).0 < usize::MAX by {
                assert(vacant(grid, target[j]));
            }
            assert(vacant(grid, target[0]));
            assert(vacant(grid, target[1]));
            assert(vacant(grid, target[2]));
            assert(vacant(grid, target[3]));
        }
        let middle_point: usize = playfield.get_x_midpoint() - self.get_length() / 2;
        let new_body: [Coordinates; 4] = [
            (self.body[0].0 + middle_point, self.body[0].1),
            (self.body[1].0 + middle_point, self.body[1].1),
            (self.body[2].0 + middle_point, self.body[2].1),
            (self.body[3].0 + middle_point, self.body[3].1),
        ];
        proof {
            assert(points(new_body@) =~= target);
            lemma_moved_nothing(grid, color);
            assert(target.take(0) =~= Seq::<Point>::empty());
        }
        let mut i: usize = 0;
        while i < 4
            invariant
                i <= 4,
                target == points(new_body@),
                within(grid, target),
                color == self.color,
                playfield.wf(),
                playfield.cols() == old(playfield).cols(),
                playfield@ == moved(grid, Seq::empty(), target.take(i as int), color),
            decreases 4 - i,
        {
            let (x, y) = new_body[i];
            proof {
                assert(inside(grid, target[i as int]));
                lemma_moved_one_more(grid, Seq::empty(), target, i as int, color);
            }
            playfield.set_cell(x, y, Some(Playcell::new(true, self.color)));
            i += 1;
        }
        proof {
            assert(target.take(4) =~= target);
        }
        self.body = new_body;
    }

    /// Locks the piece where it lies: what its squares hold stays in the grid
    /// for good, and the piece is given up.
    pub fn place_in_playfield(self, playfield: &mut Playfield)
        requires
            old(playfield).wf(),
            self.in_grid(old(playfield)),
        ensures
            final(playfield).wf(),
            final(playfield).cols() == old(playfield).cols(),
            final(playfield)@ == settled(old(playfield)@, self.squares()),
    {
        let ghost grid = playfield@;
        let ghost body = self.squares();
        proof {
            lemma_settled_nothing(grid);
            assert(body.take(0) =~= Seq::<Point>::empty());
        }
        let mut i: usize = 0;
        while i < 4
            invariant
                i <= 4,
                body == points(self.body@),
                within(grid, body),
                playfield.wf(),
                playfield.cols() == old(playfield).cols(),
                playfield@ == settled(grid, body.take(i as int)),
            decreases 4 - i,
        {
            let (x, y) = self.body[i];
            proof {
                assert(inside(grid, body[i as int]));
                lemma_settled_one_more(grid, body, i as int);
            }
            match playfield.cell(x, y) {
                Some(cell) => {
                    playfield.set_cell(x, y, Some(Playcell::new(false, cell.color)));
                },
                None => {},
            }
            i += 1;
        }
        proof {
            assert(body.take(4) =~= body);
        }
    }

    /// Tells whether the squares of `new_body` can take the piece: whether each
    /// lies in the grid and holds no locked cell. Where one does not, the first
    /// such square decides how the obstacle counts.
    pub fn collides(
        &self,
        new_body: &[Coordinates],
        playfield: &Playfield,
        direction: Direction,
    ) -> (verdict: Result<(), ShiftError>)
        requires
            playfield.wf(),
        ensures
            match collision(playfield@, points(new_body@), direction) {
                None => verdict is Ok,
                Some(e) => verdict == Err::<(), ShiftError>(e),
            },
            verdict is Ok <==> fits(playfield@, points(new_body@)),
    {
        let ghost grid = playfield@;
        let ghost body = points(new_body@);
        proof {
            lemma_collision_none_iff_fits(grid, body, direction);
            assert(body.skip(0) =~= body);
        }
        let mut i: usize = 0;
        while i < new_body.len()
            invariant
                i <= new_body.len(),
                playfield.wf(),
                grid == playfield@,
                body == points(new_body@),
                collision(grid, body, direction) == collision(grid, body.skip(i as int), direction),
            decreases new_body.len() - i,
        {
            let (x, y) = new_body[i];
            proof {
                let rest = body.skip(i as int);
                assert(rest[0] == (x as int, y as int));
                assert(rest.skip(1) =~= body.skip(i + 1));
            }
            if y >= playfield.height() {
                return Err(obstacle_for(direction));
            }
            if x >= playfield.width() {
                return Err(ShiftError::BorderCollision);
            }
            match playfield.cell(x, y) {
                Some(cell) => {
                    if !cell.is_active {
                        return Err(obstacle_for(direction));
                    }
                },
                None => {},
            }
            i += 1;
        }
        Ok(())
    }

    /// Takes the piece from the squares it is in to those of `new_body`: its old
    /// squares are emptied, then its new ones are filled.
    pub fn change_position(&mut self, new_body: &[Coordinates], playfield: &mut Playfield)
        requires
            new_body@.len() == 4,
            old(playfield).wf(),
            old(self).in_grid(old(playfield)),
            within(old(playfield)@, points(new_body@)),
        ensures
            final(self).body@ == new_body@,
            final(self).in_grid(final(playfield)),
            final(self).shape == old(self).shape,
            final(self).color == old(self).color,
            final(self).rotation == old(self).rotation,
            final(playfield).wf(),
            final(playfield).cols() == old(playfield).cols(),
            final(playfield)@ == moved(
                old(playfield)@,
                old(self).squares(),
                points(new_body@),
                old(self).color,
            ),
    {
        let ghost grid = playfield@;
        let ghost from = self.squares();
        let ghost to = points(new_body@);
        let ghost color = self.color;
        proof {
            lemma_moved_nothing(grid, color);
            assert(from.take(0) =~= Seq::<Point>::empty());
        }
        let mut i: usize = 0;
        while i < 4
            invariant
                i <= 4,
                from.len() == 4,
                from == points(self.body@),
                within(grid, from),
                playfield.wf(),
                playfield.cols() == old(playfield).cols(),
                playfield@ == moved(grid, from.take(i as int), Seq::empty(), color),
            decreases 4 - i,
        {
            let (x, y) = self.body[i];
            proof {
                assert(inside(grid, from[i as int]));
                lemma_wiped_one_more(grid, from, i as int, color);
            }
            playfield.set_cell(x, y, None);
            i += 1;
        }
        proof {
            assert(from.take(4) =~= from);
            assert(to.take(0) =~= Seq::<Point>::empty());
        }
        let mut j: usize = 0;
        while j < 4
            invariant
                j <= 4,
                new_body@.len() == 4,
                to == points(new_body@),
                within(grid, to),
                color == self.color,
                playfield.wf(),
                playfield.cols() == old(playfield).cols(),
                playfield@ == moved(grid, from, to.take(j as int), color),
            decreases 4 - j,
        {
            let (x, y) = new_body[j];
            proof {
                assert(inside(grid, to[j as int]));
                lemma_moved_one_more(grid, from, to, j as int, color);
            }
            playfield.set_cell(x, y, Some(Playcell::new(true, self.color)));
            j += 1;
        }
        proof {
            assert(to.take(4) =~= to);
        }
        self.body = [new_body[0], new_body[1], new_body[2], new_body[3]];
        assert(self.body@ =~= new_body@);
    }
}

} // verus!
