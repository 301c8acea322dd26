//! One game: a grid, the bag, and the piece that is falling. Commands come in
//! one at a time; each is answered with what became of it.

use vstd::prelude::*;
use crate::bag::{draw, BagState, TetrominosBag, PIECES};
use crate::cell::Color;
use crate::collision::{
    displaced, fits, inside, lemma_fits_within, unit, vacant, within, Direction, Point,
    ShiftError,
};
use crate::kicks::{attempt, turn};
use crate::lines::{cleared, empty_rows, lemma_cleared_nothing_falling};
use crate::placement::{
    drop_distance, holds, lemma_drop_distance, lemma_holds_fits, lemma_moved_holds,
    lemma_moved_only_falling, lemma_settled_nothing_falling, lowered, moved, only_falling_in,
    settled,
};
use crate::playfield::{rectangular, Grid, Playfield};
use crate::tetromino::{Shape, Tetromino};

verus! {

/// What the player, or the clock, asks for.
#[derive(Clone, Copy, Debug, PartialEq, Eq, Structural)]
pub enum Command {
    MoveLeft,
    MoveRight,
    MoveDown,
    RotateClockwise,
    RotateCounterClockwise,
    HardDrop,
    GravityTick,
}

/// What became of a command.
#[derive(Clone, Copy, Debug, PartialEq, Eq, Structural)]
pub enum Outcome {
    /// The piece is still falling. It has moved or turned, unless it was asked
    /// to turn and had no room to.
    Moved,
    /// The piece could not move that way. Nothing has changed.
    Blocked,
    /// The piece came to rest and was locked, full rows were taken out, and the
    /// next piece has appeared.
    Landed,
    /// The game is over: the next piece had no room to appear.
    GameOver,
}

/// The game as mathematics.
pub struct GameState {
    pub grid: Grid,
    pub cols: nat,
    pub piece: Tetromino,
    pub bag: BagState,
    pub over: bool,
}

impl GameState {
    /// The grid and the bag are in order. While the game is on, the grid
    /// holds the falling piece in its squares and nothing else is falling;
    /// once it is over, nothing is.
    pub open spec fn wf(self) -> bool {
        &&& rectangular(self.grid, self.cols)
        &&& self.bag.wf()
        &&& if self.over {
            only_falling_in(self.grid, Seq::empty())
        } else {
            &&& holds(self.grid, self.piece.squares(), self.piece.color)
            &&& only_falling_in(self.grid, self.piece.squares())
        }
    }
}

/// The piece that a draw gives which takes the bag from `pre` to `post`.
pub open spec fn drawn(pre: BagState, post: BagState) -> Tetromino {
    if pre.cursor < PIECES {
        pre.order[pre.cursor as int]
    } else {
        post.order[0]
    }
}

/// The piece `next` enters `grid`, which gives the game `post`: where the grid
/// has room for it, it appears there; where not, the game is over and the
/// grid is left as it is.
pub open spec fn entered(grid: Grid, next: Tetromino, post: GameState) -> bool {
    if next.spawns_in(grid, post.cols) {
        &&& !post.over
        &&& post.piece.squares() == next.spawn_target(post.cols)
        &&& post.piece.shape == next.shape
        &&& post.piece.color == next.color
        &&& post.piece.rotation == next.rotation
        &&& post.grid == moved(grid, Seq::empty(), next.spawn_target(post.cols), next.color)
    } else {
        &&& post.over
        &&& post.piece == next
        &&& post.grid == grid
    }
}

/// The piece of `pre` comes to rest in the squares `body` of `grid`, which
/// gives the game `post`: the piece is locked, the full rows are taken out,
/// and the next piece is drawn and enters.
pub open spec fn landed(grid: Grid, body: Seq<Point>, pre: GameState, post: GameState) -> bool {
    &&& post.cols == pre.cols
    &&& draw(pre.bag, post.bag, drawn(pre.bag, post.bag))
    &&& entered(cleared(settled(grid, body), pre.cols), drawn(pre.bag, post.bag), post)
}

/// The piece of `pre` has gone to the squares `to` and is still falling.
pub open spec fn went(pre: GameState, to: Seq<Point>, post: GameState) -> bool {
    &&& post.cols == pre.cols
    &&& post.bag == pre.bag
    &&& !post.over
    &&& post.piece.squares() == to
    &&& post.piece.shape == pre.piece.shape
    &&& post.piece.color == pre.piece.color
    &&& post.grid == moved(pre.grid, pre.piece.squares(), to, pre.piece.color)
}

/// What a landing is answered with.
pub open spec fn landing_outcome(post: GameState) -> Outcome {
    if post.over {
        Outcome::GameOver
    } else {
        Outcome::Landed
    }
}

/// The piece of `pre` is pushed one step in `direction`, which gives the game
/// `post` and the answer `outcome`: where it has room, it goes there; where it
/// has none, it lands if it was going down, and is blocked otherwise.
pub open spec fn pushed(
    pre: GameState,
    direction: Direction,
    post: GameState,
    outcome: Outcome,
) -> bool {
    let to = displaced(pre.piece.squares(), unit(direction));
    if fits(pre.grid, to) {
        &&& went(pre, to, post)
        &&& post.piece.rotation == pre.piece.rotation
        &&& outcome == Outcome::Moved
    } else if direction == Direction::Down {
        &&& landed(pre.grid, pre.piece.squares(), pre, post)
        &&& outcome == landing_outcome(post)
    } else {
        &&& post == pre
        &&& outcome == Outcome::Blocked
    }
}

/// The piece of `pre` is turned a quarter, which gives the game `post`: it
/// goes where the first kick that fits puts it, and where none fits nothing
/// changes.
pub open spec fn spun(pre: GameState, clockwise: bool, post: GameState) -> bool {
    match pre.piece.turn_kick(pre.grid, clockwise) {
        None => post == pre,
        Some(k) => {
            &&& went(
                pre,
                attempt(pre.piece.shape, pre.piece.squares(), pre.piece.rotation, clockwise, k),
                post,
            )
            &&& post.piece.rotation == turn(pre.piece.rotation, clockwise)
        },
    }
}

/// The piece of `pre` is dropped, which gives the game `post`: it falls as far
/// as it can and lands there.
pub open spec fn dropped(pre: GameState, post: GameState) -> bool {
    let rest = lowered(pre.piece.squares(), drop_distance(pre.grid, pre.piece.squares()));
    landed(moved(pre.grid, pre.piece.squares(), rest, pre.piece.color), rest, pre, post)
}

/// `command` takes the game from `pre` to `post` and is answered with
/// `outcome`. A game that is over stays as it is.
pub open spec fn step(pre: GameState, command: Command, post: GameState, outcome: Outcome) -> bool {
    if pre.over {
        post == pre && outcome == Outcome::GameOver
    } else {
        match command {
            Command::MoveLeft => pushed(pre, Direction::Left, post, outcome),
            Command::MoveRight => pushed(pre, Direction::Right, post, outcome),
            Command::MoveDown => pushed(pre, Direction::Down, post, outcome),
            Command::GravityTick => pushed(pre, Direction::Down, post, outcome),
            Command::RotateClockwise => spun(pre, true, post) && outcome == Outcome::Moved,
            Command::RotateCounterClockwise => spun(pre, false, post) && outcome == Outcome::Moved,
            Command::HardDrop => dropped(pre, post) && outcome == landing_outcome(post),
        }
    }
}

/// After a move from squares that held the only falling piece, the grid holds
/// the piece in the squares it has taken, and it is still the only one.
proof fn lemma_piece_moved(grid: Grid, from: Seq<Point>, to: Seq<Point>, color: Color)
    requires
        only_falling_in(grid, from),
        within(grid, to),
    ensures
        holds(moved(grid, from, to, color), to, color),
        only_falling_in(moved(grid, from, to, color), to),
{
    lemma_moved_holds(grid, from, to, color);
    lemma_moved_only_falling(grid, from, to, color);
}

/// A game in progress, or one that is over.
pub struct Game {
    playfield: Playfield,
    bag: TetrominosBag,
    tetromino: Tetromino,
    over: bool,
}

impl View for Game {
    type V = GameState;

    closed spec fn view(&self) -> GameState {
        GameState {
            grid: self.playfield@,
            cols: self.playfield.cols(),
            piece: self.tetromino,
            bag: self.bag@,
            over: self.over,
        }
    }
}

impl Game {
    /// The game is in order.
    pub open spec fn wf(&self) -> bool {
        self@.wf()
    }

    /// A game in an empty grid of `height` rows of `width` squares, with
    /// pieces from `bag`: the bag is shuffled and the first piece enters.
    pub fn new(width: u16, height: u16, bag: TetrominosBag) -> (game: Game)
        requires
            bag.wf(),
        ensures
            game.wf(),
            game@.cols == width,
            game@.bag.cursor == 1,
            entered(empty_rows(height as nat, width as nat), game@.bag.order[0], game@),
    {
        let mut bag = bag;
        bag.shuffle();
        let mut game = Game {
            playfield: Playfield::new(width, height),
            bag,
            tetromino: Tetromino::new(Shape::O),
            over: true,
        };
        game.next_piece();
        game
    }

    /// Carries out one command.
    pub fn apply(&mut self, command: Command) -> (outcome: Outcome)
        requires
            old(self).wf(),
        ensures
            final(self).wf(),
            step(old(self)@, command, final(self)@, outcome),
    {
        if self.over {
            return Outcome::GameOver;
        }
        match command {
            Command::MoveLeft => self.push_piece(Direction::Left),
            Command::MoveRight => self.push_piece(Direction::Right),
            Command::MoveDown => self.push_piece(Direction::Down),
            Command::GravityTick => self.push_piece(Direction::Down),
            Command::RotateClockwise => {
                self.turn_piece(true);
                Outcome::Moved
            },
            Command::RotateCounterClockwise => {
                self.turn_piece(false);
                Outcome::Moved
            },
            Command::HardDrop => self.drop_piece(),
        }
    }

    /// The grid.
    pub fn playfield(&self) -> (playfield: &Playfield)
        ensures
            playfield@ == self@.grid,
            playfield.cols() == self@.cols,
            self.wf() ==> playfield.wf(),
    {
        &self.playfield
    }

    /// The piece that is falling; once the game is over, the piece that had no
    /// room to appear.
    pub fn tetromino(&self) -> (piece: Tetromino)
        ensures
            piece == self@.piece,
    {
        self.tetromino
    }

    /// Tells whether the game is over.
    pub fn is_over(&self) -> (over: bool)
        ensures
            over == self@.over,
    {
        self.over
    }

    /// Pushes the falling piece one step.
    fn push_piece(&mut self, direction: Direction) -> (outcome: Outcome)
        requires
            old(self).wf(),
            !old(self)@.over,
        ensures
            final(self).wf(),
            pushed(old(self)@, direction, final(self)@, outcome),
    {
        let ghost pre = self@;
        match self.tetromino.shift(&mut self.playfield, direction) {
            Ok(()) => {
                proof {
                    let to = self.tetromino.squares();
                    lemma_fits_within(pre.grid, to);
                    lemma_piece_moved(pre.grid, pre.piece.squares(), to, pre.piece.color);
                }
                Outcome::Moved
            },
            Err(ShiftError::BottomCollision) => self.land(),
            Err(ShiftError::BorderCollision) => Outcome::Blocked,
        }
    }

    /// Turns the falling piece a quarter.
    fn turn_piece(&mut self, clockwise: bool)
        requires
            old(self).wf(),
            !old(self)@.over,
        ensures
            final(self).wf(),
            spun(old(self)@, clockwise, final(self)@),
    {
        let ghost pre = self@;
        self.tetromino.rotate(&mut self.playfield, clockwise);
        proof {
            if pre.piece.turn_kick(pre.grid, clockwise) is Some {
                let to = self.tetromino.squares();
                lemma_fits_within(pre.grid, to);
                lemma_piece_moved(pre.grid, pre.piece.squares(), to, pre.piece.color);
            }
        }
    }

    /// Drops the falling piece and lets it land.
    fn drop_piece(&mut self) -> (outcome: Outcome)
        requires
            old(self).wf(),
            !old(self)@.over,
        ensures
            final(self).wf(),
            dropped(old(self)@, final(self)@),
            outcome == landing_outcome(final(self)@),
    {
        let ghost pre = self@;
        proof {
            lemma_holds_fits(pre.grid, pre.piece.squares(), pre.piece.color);
            lemma_drop_distance(pre.grid, pre.piece.squares());
        }
        self.tetromino.hard_drop(&mut self.playfield);
        proof {
            let to = self.tetromino.squares();
            lemma_fits_within(pre.grid, to);
            lemma_piece_moved(pre.grid, pre.piece.squares(), to, pre.piece.color);
        }
        self.land()
    }

    /// Locks the falling piece, takes the full rows out, and brings the next
    /// piece in.
    fn land(&mut self) -> (outcome: Outcome)
        requires
            old(self).wf(),
            !old(self)@.over,
        ensures
            final(self).wf(),
            landed(old(self)@.grid, old(self)@.piece.squares(), old(self)@, final(self)@),
            outcome == landing_outcome(final(self)@),
    {
        proof {
            lemma_settled_nothing_falling(self.playfield@, self.tetromino.squares());
        }
        self.tetromino.place_in_playfield(&mut self.playfield);
        proof {
            lemma_cleared_nothing_falling(self.playfield@, self.playfield.cols());
        }
        self.playfield.clear_lines();
        self.next_piece();
        if self.over {
            Outcome::GameOver
        } else {
            Outcome::Landed
        }
    }

    /// Draws the next piece and lets it enter the grid.
    fn next_piece(&mut self)
        requires
            old(self).playfield.wf(),
            old(self).bag.wf(),
            only_falling_in(old(self).playfield@, Seq::empty()),
        ensures
            final(self).wf(),
            final(self)@.cols == old(self)@.cols,
            draw(old(self)@.bag, final(self)@.bag, drawn(old(self)@.bag, final(self)@.bag)),
            entered(old(self)@.grid, drawn(old(self)@.bag, final(self)@.bag), final(self)@),
    {
        let mut next = self.bag.get();
        if next.can_spawn(&self.playfield) {
            proof {
                let target = next.spawn_target(self.playfield.cols());
                assert forall|i: int| 0 <= i < target.len() implies inside(
                    self.playfield@,
                    #[trigger] target[i],
                ) by {
                    assert(vacant(self.playfield@, target[i]));
                }
                lemma_piece_moved(self.playfield@, Seq::empty(), target, next.color);
            }
            next.spawn(&mut self.playfield);
            self.over = false;
        } else {
            self.over = true;
        }
        self.tetromino = next;
    }
}

} // verus!
