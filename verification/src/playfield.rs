//! The grid of squares.

use vstd::prelude::*;
use crate::cell::Playcell;
use crate::lines::{
    cleared, empty_rows, full, has_full_row, lemma_cleared_one_more, lemma_cleared_shape,
};

verus! {

/// One row of the grid, left to right.
pub type Row = Seq<Option<Playcell>>;

/// The grid as mathematics: rows from the top down.
pub type Grid = Seq<Row>;

/// A row of `width` empty squares.
pub open spec fn empty_row(width: nat) -> Row {
    Seq::new(width, |c: int| None::<Playcell>)
}

/// Every row of `grid` is `width` squares wide.
pub open spec fn rectangular(grid: Grid, width: nat) -> bool {
    forall|r: int| 0 <= r < grid.len() ==> (#[trigger] grid[r]).len() == width
}

/// The grid: rows of squares from the top down, each row from the left. A
/// square is empty, or holds a cell of the falling piece or a locked cell.
pub struct Playfield {
    tiles: Vec<Vec<Option<Playcell>>>,
    width: usize,
}

impl View for Playfield {
    type V = Grid;

    closed spec fn view(&self) -> Grid {
        Seq::new(self.tiles@.len(), |r: int| self.tiles@[r]@)
    }
}

/// Empties every square of `row`.
fn blank(row: &mut Vec<Option<Playcell>>)
    ensures
        final(row)@ == empty_row(old(row)@.len()),
{
    let mut x: usize = 0;
    while x < row.len()
        invariant
            x <= row@.len(),
            row@.len() == old(row)@.len(),
            forall|j: int| 0 <= j < x ==> (#[trigger] row@[j]) is None,
        decreases row@.len() - x,
    {
        row.set(x, None);
        x += 1;
    }
    assert(row@ =~= empty_row(old(row)@.len()));
}

impl Playfield {
    /// The number of columns.
    pub closed spec fn cols(&self) -> nat {
        self.width as nat
    }

    /// The number of rows.
    pub open spec fn rows(&self) -> nat {
        self@.len()
    }

    /// All rows are as wide as the grid.
    pub open spec fn wf(&self) -> bool {
        rectangular(self@, self.cols())
    }

    /// An empty grid of `height` rows of `width` squares.
    pub fn new(width: u16, height: u16) -> (playfield: Playfield)
        ensures
            playfield.wf(),
            playfield.cols() == width,
            playfield@ == empty_rows(height as nat, width as nat),
    {
        let mut tiles: Vec<Vec<Option<Playcell>>> = Vec::new();
        let mut r: u16 = 0;
        while r < height
            invariant
                r <= height,
                tiles@.len() == r,
                forall|i: int| 0 <= i < r ==> (#[trigger] tiles@[i])@ == empty_row(width as nat),
            decreases height - r,
        {
            let mut row: Vec<Option<Playcell>> = Vec::new();
            let mut c: u16 = 0;
            while c < width
                invariant
                    c <= width,
                    row@.len() == c,
                    forall|j: int| 0 <= j < c ==> (#[trigger] row@[j]) is None,
                decreases width - c,
            {
                row.push(None);
                c += 1;
            }
            assert(row@ =~= empty_row(width as nat));
            tiles.push(row);
            r += 1;
        }
        let playfield = Playfield { tiles, width: width as usize };
        assert(playfield@ =~= empty_rows(height as nat, width as nat));
        playfield
    }

    /// The number of columns.
    pub fn width(&self) -> (w: usize)
        ensures
            w == self.cols(),
    {
        self.width
    }

    /// The number of rows.
    pub fn height(&self) -> (h: usize)
        ensures
            h == self.rows(),
    {
        self.tiles.len()
    }

    /// The column in the middle of the grid, where new pieces appear.
    pub fn get_x_midpoint(&self) -> (mid: usize)
        ensures
            mid == self.cols() / 2,
    {
        self.width / 2
    }

    /// What the square in column `x` of row `y` holds.
    pub fn cell(&self, x: usize, y: usize) -> (cell: Option<Playcell>)
        requires
            self.wf(),
            y < self.rows(),
            x < self.cols(),
        ensures
            cell == self@[y as int][x as int],
    {
        assert(self@[y as int] == self.tiles@[y as int]@);
        self.tiles[y][x]
    }

    /// Puts `cell` in column `x` of row `y` and leaves every other square alone.
    pub fn set_cell(&mut self, x: usize, y: usize, cell: Option<Playcell>)
        requires
            old(self).wf(),
            y < old(self).rows(),
            x < old(self).cols(),
        ensures
            final(self).wf(),
            final(self).cols() == old(self).cols(),
            final(self)@ == old(self)@.update(
                y as int,
                old(self)@[y as int].update(x as int, cell),
            ),
    {
        assert(self@[y as int] == self.tiles@[y as int]@);
        self.tiles[y].set(x, cell);
        assert(self@ =~= old(self)@.update(y as int, old(self)@[y as int].update(x as int, cell)));
    }

    /// Tells whether no square of row `y` is empty.
    fn row_is_full(&self, y: usize) -> (is_full: bool)
        requires
            y < self.rows(),
        ensures
            is_full == full(self@[y as int]),
    {
        assert(self@[y as int] == self.tiles@[y as int]@);
        let mut x: usize = 0;
        while x < self.tiles[y].len()
            invariant
                y < self.tiles@.len(),
                x <= self.tiles@[y as int]@.len(),
                forall|j: int| 0 <= j < x ==> (#[trigger] self.tiles@[y as int]@[j]) is Some,
            decreases self.tiles@[y as int]@.len() - x,
        {
            if self.tiles[y][x].is_none() {
                return false;
            }
            x += 1;
        }
        true
    }

    /// Takes every full row out of the grid. The rows above a row that is taken
    /// out each move down by one, and an empty row comes in at the top. Tells
    /// whether any row was full.
    pub fn clear_lines(&mut self) -> (cleared_something: bool)
        requires
            old(self).wf(),
        ensures
            final(self).wf(),
            final(self).cols() == old(self).cols(),
            final(self).rows() == old(self).rows(),
            final(self)@ == cleared(old(self)@, old(self).cols()),
            cleared_something == has_full_row(old(self)@),
    {
        let ghost before = self@;
        let ghost width = self.cols();
        let mut cleared_something = false;
        let mut y: usize = 0;
        proof {
            assert(self@.take(0) =~= cleared(before.take(0), width));
            assert(self@.skip(0) =~= before.skip(0));
        }
        while y < self.tiles.len()
            invariant
                y <= before.len(),
                self@.len() == before.len(),
                self.cols() == width,
                rectangular(before, width),
                self@.take(y as int) == cleared(before.take(y as int), width),
                self@.skip(y as int) == before.skip(y as int),
                cleared_something == has_full_row(before.take(y as int)),
            decreases before.len() - y,
        {
            let ghost current = self@;
            proof {
                lemma_cleared_one_more(before, width, y as int);
                assert(current[y as int] == current.skip(y as int)[0]);
                assert(current[y as int] == before[y as int]);
            }
            if self.row_is_full(y) {
                cleared_something = true;
                let mut row = self.tiles.remove(y);
                blank(&mut row);
                self.tiles.insert(0, row);
                proof {
                    let now = self@;
                    assert(now.take(y + 1) =~= seq![empty_row(width)] + current.take(y as int));
                    assert(now.skip(y + 1) =~= current.skip(y as int).skip(1));
                    assert(before.skip(y + 1) =~= before.skip(y as int).skip(1));
                }
            } else {
                proof {
                    assert(current.take(y + 1) =~= current.take(y as int).push(current[y as int]));
                    assert(current.skip(y + 1) =~= current.skip(y as int).skip(1));
                    assert(before.skip(y + 1) =~= before.skip(y as int).skip(1));
                }
            }
            y += 1;
        }
        proof {
            assert(self@.take(y as int) =~= self@);
            assert(before.take(y as int) =~= before);
            lemma_cleared_shape(before, width);
        }
        cleared_something
    }
}

} // verus!
