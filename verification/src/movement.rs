//! Pushing a piece one step, and dropping it as far as it falls.

use vstd::prelude::*;
use crate::collision::{
    collision, displaced, fits, inside, lemma_push_verdict, obstacle, passable, points, unit,
    Coordinates, Direction, ShiftError,
};
use crate::placement::{drop_distance, drop_from, lowered, moved};
use crate::playfield::Playfield;
use crate::tetromino::Tetromino;

verus! {

/// The square one step from `at` in `direction`, unless that step would take
/// it past column or row zero.
fn step_of(at: Coordinates, direction: Direction) -> (next: Option<Coordinates>)
    requires
        at.0 < usize::MAX,
        at.1 < usize::MAX,
    ensures
        match next {
            Some(n) => n.0 == at.0 + unit(direction).0 && n.1 == at.1 + unit(direction).1,
            None => at.0 + unit(direction).0 < 0 || at.1 + unit(direction).1 < 0,
        },
{
    match direction {
        Direction::Up => if at.1 == 0 {
            None
        } else {
            Some((at.0, at.1 - 1))
        },
        Direction::Down => Some((at.0, at.1 + 1)),
        Direction::Left => Some((at.0 + 1, at.1)),
        Direction::Right => if at.0 == 0 {
            None
        } else {
            Some((at.0 - 1, at.1))
        },
    }
}

impl Tetromino {
    /// Pushes the piece one step in `direction`. Where the squares it would
    /// take lie in the grid and hold no locked cell, it moves there; where not,
    /// nothing changes and the obstacle is reported.
    pub fn shift(&mut self, playfield: &mut Playfield, direction: Direction) -> (verdict: Result<
        (),
        ShiftError,
    >)
        requires
            old(playfield).wf(),
            old(self).in_grid(old(playfield)),
        ensures
            final(playfield).wf(),
            final(playfield).cols() == old(playfield).cols(),
            final(self).in_grid(final(playfield)),
            final(self).shape == old(self).shape,
            final(self).color == old(self).color,
            final(self).rotation == old(self).rotation,
            verdict is Ok <==> fits(
                old(playfield)@,
                displaced(old(self).squares(), unit(direction)),
            ),
            verdict is Err ==> verdict == Err::<(), ShiftError>(obstacle(direction)),
            match collision(
                old(playfield)@,
                displaced(old(self).squares(), unit(direction)),
                direction,
            ) {
                None => {
                    &&& verdict is Ok
                    &&& final(self).squares() == displaced(old(self).squares(), unit(direction))
                    &&& final(playfield)@ == moved(
                        old(playfield)@,
                        old(self).squares(),
                        displaced(old(self).squares(), unit(direction)),
                        old(self).color,
                    )
                },
                Some(e) => {
                    &&& verdict == Err::<(), ShiftError>(e)
                    &&& *final(self) == *old(self)
                    &&& final(playfield)@ == old(playfield)@
                },
            },
    {
        let ghost grid = playfield@;
        let ghost body = self.squares();
        let ghost target = displaced(body, unit(direction));
        let cols = playfield.width();
        let rows = playfield.height();
        proof {
            assert(inside(grid, body[0]));
            assert(inside(grid, body[1]));
            assert(inside(grid, body[2]));
            assert(inside(grid, body[3]));
            lemma_push_verdict(grid, cols as nat, body, direction);
        }
        let a = step_of(self.body[0], direction);
        let b = step_of(self.body[1], direction);
        let c = step_of(self.body[2], direction);
        let d = step_of(self.body[3], direction);
        match (a, b, c, d) {
            (Some(a), Some(b), Some(c), Some(d)) => {
                let new_body = [a, b, c, d];
                assert(points(new_body@) =~= target);
                match self.collides(new_body.as_slice(), playfield, direction) {
                    Ok(()) => {
                        self.change_position(new_body.as_slice(), playfield);
                        Ok(())
                    },
                    Err(e) => Err(e),
                }
            },
            _ => {
                proof {
                    let i = if a is None {
                        0int
                    } else if b is None {
                        1int
                    } else if c is None {
                        2int
                    } else {
                        3int
                    };
                    assert(!passable(grid, target[i]));
                    assert(direction != Direction::Down);
                }
                Err(ShiftError::BorderCollision)
            },
        }
    }

    /// Drops the piece as far as it falls: row by row, for as long as the next
    /// row has room for it. It then lies at rest, which the result says.
    pub fn hard_drop(&mut self, playfield: &mut Playfield) -> (verdict: ShiftError)
        requires
            old(playfield).wf(),
            fits(old(playfield)@, old(self).squares()),
        ensures
            verdict == ShiftError::BottomCollision,
            final(playfield).wf(),
            final(playfield).cols() == old(playfield).cols(),
            final(self).shape == old(self).shape,
            final(self).color == old(self).color,
            final(self).rotation == old(self).rotation,
            fits(final(playfield)@, final(self).squares()),
            final(self).in_grid(final(playfield)),
            final(self).squares() == lowered(
                old(self).squares(),
                drop_distance(old(playfield)@, old(self).squares()),
            ),
            final(playfield)@ == moved(
                old(playfield)@,
                old(self).squares(),
                final(self).squares(),
                old(self).color,
            ),
    {
        let ghost grid = playfield@;
        let ghost body = self.squares();
        let rows = playfield.height();
        let mut trial: [Coordinates; 4] = self.body;
        let ghost mut k: int = 0;
        let mut resting = false;
        proof {
            assert(lowered(body, 0) =~= body);
            assert(points(trial@) =~= lowered(body, 0));
        }
        while !resting
            invariant
                *self == *old(self),
                *playfield == *old(playfield),
                playfield.wf(),
                grid == playfield@,
                rows == grid.len(),
                body == self.squares(),
                0 <= k,
                points(trial@) == lowered(body, k),
                fits(grid, lowered(body, k)),
                drop_distance(grid, body) == drop_from(grid, body, k),
                resting ==> !fits(grid, lowered(body, k + 1)),
            decreases
                    (if resting {
                        0
                    } else {
                        grid.len() - k + 1
                    }),
        {
            proof {
                let here = lowered(body, k);
                assert(passable(grid, here[0]));
                assert(passable(grid, here[1]));
                assert(passable(grid, here[2]));
                assert(passable(grid, here[3]));
            }
            let next: [Coordinates; 4] = [
                (trial[0].0, trial[0].1 + 1),
                (trial[1].0, trial[1].1 + 1),
                (trial[2].0, trial[2].1 + 1),
                (trial[3].0, trial[3].1 + 1),
            ];
            assert(points(next@) =~= lowered(body, k + 1));
            if self.collides(next.as_slice(), playfield, Direction::Down).is_ok() {
                trial = next;
                proof {
                    k = k + 1;
                }
            } else {
                resting = true;
            }
        }
        self.change_position(trial.as_slice(), playfield);
        proof {
            let after = playfield@;
            let rest = lowered(body, k);
            assert forall|i: int| 0 <= i < 4 implies passable(after, #[trigger] rest[i]) by {
                assert(passable(grid, rest[i]));
                assert(rest.contains(rest[i]));
            }
        }
        ShiftError::BottomCollision
    }
}

} // verus!
