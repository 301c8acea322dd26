//! Turning a piece in the grid.

use vstd::prelude::*;
use crate::collision::{displaced, fits, passable, points, Coordinates, Direction};
use crate::kicks::{attempt, first_fit, kick_of, turn, turn_of, turned, KICKS, REACH};
use crate::placement::moved;
use crate::playfield::{Grid, Playfield};
use crate::tetromino::{Shape, Tetromino};

verus! {

/// The square `at` among the executable coordinates, where it has a place there.
fn as_coordinates(at: (i128, i128)) -> (place: Option<Coordinates>)
    ensures
        match place {
            Some(c) => c.0 == at.0 && c.1 == at.1,
            None => at.0 < 0 || at.1 < 0 || at.0 > usize::MAX || at.1 > usize::MAX,
        },
{
    if at.0 < 0 || at.1 < 0 || at.0 > usize::MAX as i128 || at.1 > usize::MAX as i128 {
        None
    } else {
        Some((at.0 as usize, at.1 as usize))
    }
}

impl Tetromino {
    /// The kick that a quarter turn of the piece comes to rest with, if any:
    /// the first of the five that the grid has room for. The square piece is
    /// not turned at all.
    pub open spec fn turn_kick(&self, grid: Grid, clockwise: bool) -> Option<int> {
        if self.shape == Shape::O {
            None
        } else {
            first_fit(grid, self.shape, self.squares(), self.rotation, clockwise, 0)
        }
    }

    /// Square `i` of the piece after a quarter turn about its first square and
    /// a displacement by `by`.
    fn turned_square(&self, i: usize, clockwise: bool, by: (i32, i32)) -> (at: (i128, i128))
        requires
            i < 4,
            -REACH <= by.0 <= REACH,
            -REACH <= by.1 <= REACH,
        ensures
            (at.0 as int, at.1 as int) == displaced(
                turned(self.squares(), clockwise),
                (by.0 as int, by.1 as int),
            )[i as int],
    {
        let x_pivot = self.body[0].0 as i128;
        let y_pivot = self.body[0].1 as i128;
        let x_relative = self.body[i].0 as i128 - x_pivot;
        let y_relative = self.body[i].1 as i128 - y_pivot;
        if clockwise {
            (x_pivot - y_relative + by.0 as i128, y_pivot + x_relative + by.1 as i128)
        } else {
            (x_pivot + y_relative + by.0 as i128, y_pivot - x_relative + by.1 as i128)
        }
    }

    /// The piece after a quarter turn and a displacement by `by`, where all
    /// four squares have a place among the executable coordinates.
    fn turned_body(&self, clockwise: bool, by: (i32, i32)) -> (body: Option<[Coordinates; 4]>)
        requires
            -REACH <= by.0 <= REACH,
            -REACH <= by.1 <= REACH,
        ensures
            match body {
                Some(b) => points(b@) == displaced(
                    turned(self.squares(), clockwise),
                    (by.0 as int, by.1 as int),
                ),
                None => exists|i: int|
                    0 <= i < 4 && {
                        let at = #[trigger] displaced(
                            turned(self.squares(), clockwise),
                            (by.0 as int, by.1 as int),
                        )[i];
                        at.0 < 0 || at.1 < 0 || at.0 > usize::MAX || at.1 > usize::MAX
                    },
            },
    {
        let a = as_coordinates(self.turned_square(0, clockwise, by));
        let b = as_coordinates(self.turned_square(1, clockwise, by));
        let c = as_coordinates(self.turned_square(2, clockwise, by));
        let d = as_coordinates(self.turned_square(3, clockwise, by));
        match (a, b, c, d) {
            (Some(a), Some(b), Some(c), Some(d)) => {
                let body = [a, b, c, d];
                assert(points(body@) =~= displaced(
                    turned(self.squares(), clockwise),
                    (by.0 as int, by.1 as int),
                ));
                Some(body)
            },
            _ => None,
        }
    }

    /// Turns the piece a quarter about its first square. Where the turned piece
    /// does not fit, up to five small displacements are tried in the order of
    /// the table, and the first that fits is taken. Where none fits, and for the
    /// square piece, nothing changes.
    pub fn rotate(&mut self, playfield: &mut Playfield, clockwise: bool)
        requires
            old(playfield).wf(),
            old(self).in_grid(old(playfield)),
        ensures
            final(playfield).wf(),
            final(playfield).cols() == old(playfield).cols(),
            final(self).in_grid(final(playfield)),
            final(self).shape == old(self).shape,
            final(self).color == old(self).color,
            old(self).shape == Shape::O ==> *final(self) == *old(self) && final(playfield)@ == old(
                playfield,
            )@,
            match old(self).turn_kick(old(playfield)@, clockwise) {
                None => *final(self) == *old(self) && final(playfield)@ == old(playfield)@,
                Some(k) => {
                    let to = attempt(
                        old(self).shape,
                        old(self).squares(),
                        old(self).rotation,
                        clockwise,
                        k,
                    );
                    &&& 0 <= k < KICKS
                    &&& fits(old(playfield)@, to)
                    &&& final(self).squares() == to
                    &&& final(self).rotation == turn(old(self).rotation, clockwise)
                    &&& final(playfield)@ == moved(
                        old(playfield)@,
                        old(self).squares(),
                        to,
                        old(self).color,
                    )
                },
            },
    {
        if let Shape::O = self.shape {
            return ;
        }
        let new_rotation = turn_of(self.rotation, clockwise);
        let ghost grid = playfield@;
        let ghost shape = self.shape;
        let ghost body = self.squares();
        let ghost rotation = self.rotation;
        let rows = playfield.height();
        let cols = playfield.width();
        let mut k: usize = 0;
        while k < KICKS
            invariant
                k <= KICKS,
                *self == *old(self),
                *playfield == *old(playfield),
                playfield.wf(),
                self.in_grid(playfield),
                grid == playfield@,
                rows == grid.len(),
                cols == playfield.cols(),
                shape == self.shape,
                shape != Shape::O,
                body == self.squares(),
                rotation == self.rotation,
                new_rotation == turn(rotation, clockwise),
                first_fit(grid, shape, body, rotation, clockwise, 0) == first_fit(
                    grid,
                    shape,
                    body,
                    rotation,
                    clockwise,
                    k as int,
                ),
            decreases KICKS - k,
        {
            let by = kick_of(self.shape, self.rotation, new_rotation, k);
            let ghost target = attempt(shape, body, rotation, clockwise, k as int);
            match self.turned_body(clockwise, by) {
                Some(to_try) => {
                    if self.collides(to_try.as_slice(), playfield, Direction::Up).is_ok() {
                        self.change_position(to_try.as_slice(), playfield);
                        self.rotation = new_rotation;
                        return ;
                    }
                },
                None => {
                    let ghost i = choose|i: int|
                        0 <= i < 4 && {
                            let at = #[trigger] target[i];
                            at.0 < 0 || at.1 < 0 || at.0 > usize::MAX || at.1 > usize::MAX
                        };
                    assert(!passable(grid, target[i]));
                },
            }
            k += 1;
        }
    }
}

} // verus!
