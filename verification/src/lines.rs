//! Full rows and what becomes of the grid when they are taken out.

use vstd::prelude::*;
use crate::collision::Point;
use crate::placement::{is_falling, only_falling_in};
use crate::playfield::{empty_row, rectangular, Grid, Row};

verus! {

/// No square of `row` is empty.
pub open spec fn full(row: Row) -> bool {
    forall|x: int| 0 <= x < row.len() ==> (#[trigger] row[x]) is Some
}

/// The rows of `grid` that are not full, in their order.
pub open spec fn survivors(grid: Grid) -> Grid
    decreases grid.len(),
{
    if grid.len() == 0 {
        Seq::empty()
    } else if full(grid.last()) {
        survivors(grid.drop_last())
    } else {
        survivors(grid.drop_last()).push(grid.last())
    }
}

/// `count` empty rows of `width` squares.
pub open spec fn empty_rows(count: nat, width: nat) -> Grid {
    Seq::new(count, |r: int| empty_row(width))
}

/// The grid without its full rows: the rows that are not full have sunk to the
/// bottom in their order, and as many empty rows as were taken out stand above
/// them.
pub open spec fn cleared(grid: Grid, width: nat) -> Grid {
    empty_rows((grid.len() - survivors(grid).len()) as nat, width) + survivors(grid)
}

/// Some row of `grid` is full.
pub open spec fn has_full_row(grid: Grid) -> bool {
    exists|r: int| 0 <= r < grid.len() && full(#[trigger] grid[r])
}

/// No more rows survive than there are, and all do exactly when none is full.
pub proof fn lemma_survivors_len(grid: Grid)
    ensures
        survivors(grid).len() <= grid.len(),
        survivors(grid).len() == grid.len() <==> !has_full_row(grid),
        !has_full_row(grid) ==> survivors(grid) == grid,
    decreases grid.len(),
{
    if grid.len() > 0 {
        let front = grid.drop_last();
        lemma_survivors_len(front);
        if has_full_row(front) {
            let r = choose|r: int| 0 <= r < front.len() && full(#[trigger] front[r]);
            assert(full(grid[r]));
        }
        if full(grid.last()) {
            assert(full(grid[grid.len() - 1]));
        }
        if has_full_row(grid) {
            let r = choose|r: int| 0 <= r < grid.len() && full(#[trigger] grid[r]);
            if r < front.len() {
                assert(full(front[r]));
            }
        } else {
            assert(survivors(grid) =~= grid);
        }
    }
}

/// The survivors of two grids, one above the other, are those of the upper one
/// above those of the lower one.
pub proof fn lemma_survivors_concat(upper: Grid, lower: Grid)
    ensures
        survivors(upper + lower) == survivors(upper) + survivors(lower),
    decreases lower.len(),
{
    if lower.len() == 0 {
        assert(upper + lower =~= upper);
        assert(survivors(upper) + survivors(lower) =~= survivors(upper));
    } else {
        let whole = upper + lower;
        assert(whole.drop_last() =~= upper + lower.drop_last());
        assert(whole.last() == lower.last());
        lemma_survivors_concat(upper, lower.drop_last());
        if !full(lower.last()) {
            assert(survivors(whole) =~= survivors(upper) + survivors(lower));
        }
    }
}

/// What taking the full rows out of the first `y + 1` rows gives, from what it
/// gives for the first `y` rows.
pub proof fn lemma_cleared_one_more(grid: Grid, width: nat, y: int)
    requires
        0 <= y < grid.len(),
    ensures
        cleared(grid.take(y + 1), width) == if full(grid[y]) {
            seq![empty_row(width)] + cleared(grid.take(y), width)
        } else {
            cleared(grid.take(y), width).push(grid[y])
        },
        has_full_row(grid.take(y + 1)) <==> has_full_row(grid.take(y)) || full(grid[y]),
{
    let longer = grid.take(y + 1);
    let shorter = grid.take(y);
    assert(longer.drop_last() =~= shorter);
    assert(longer.last() == grid[y]);
    lemma_survivors_len(shorter);
    lemma_survivors_len(longer);
    if full(grid[y]) {
        assert(cleared(longer, width) =~= seq![empty_row(width)] + cleared(shorter, width));
        assert(full(longer[y]));
    } else {
        assert(cleared(longer, width) =~= cleared(shorter, width).push(grid[y]));
    }
    if has_full_row(shorter) {
        let r = choose|r: int| 0 <= r < shorter.len() && full(#[trigger] shorter[r]);
        assert(full(longer[r]));
    }
    if has_full_row(longer) {
        let r = choose|r: int| 0 <= r < longer.len() && full(#[trigger] longer[r]);
        if r < y {
            assert(full(shorter[r]));
        }
    }
}

/// Taking the full rows out keeps the grid's height and width.
pub proof fn lemma_cleared_shape(grid: Grid, width: nat)
    requires
        rectangular(grid, width),
    ensures
        cleared(grid, width).len() == grid.len(),
        rectangular(cleared(grid, width), width),
        !has_full_row(grid) ==> cleared(grid, width) == grid,
    decreases grid.len(),
{
    lemma_survivors_len(grid);
    lemma_survivors_rows(grid, width);
    let kept = survivors(grid);
    let after = cleared(grid, width);
    let gone = grid.len() - kept.len();
    assert forall|r: int| 0 <= r < after.len() implies (#[trigger] after[r]).len() == width by {
        if r >= gone {
            assert(after[r] == kept[r - gone]);
        }
    }
    if !has_full_row(grid) {
        assert(after =~= grid);
    }
}

proof fn lemma_survivors_rows(grid: Grid, width: nat)
    requires
        rectangular(grid, width),
    ensures
        rectangular(survivors(grid), width),
    decreases grid.len(),
{
    if grid.len() > 0 {
        let front = grid.drop_last();
        assert forall|r: int| 0 <= r < front.len() implies (#[trigger] front[r]).len() == width by {
            assert(front[r] == grid[r]);
        }
        lemma_survivors_rows(front, width);
        assert(grid.last() == grid[grid.len() - 1]);
    }
}

proof fn lemma_survivors_of_one(row: Row)
    ensures
        survivors(seq![row]) == if full(row) {
            Seq::<Row>::empty()
        } else {
            seq![row]
        },
{
    let one = seq![row];
    assert(one.last() == row);
    assert(one.drop_last() =~= Seq::<Row>::empty());
    assert(survivors(one.drop_last()) =~= Seq::<Row>::empty());
    if !full(row) {
        assert(survivors(one) =~= one);
    }
}

proof fn lemma_no_full_row_in_part(grid: Grid, from: int, to: int)
    requires
        0 <= from <= to <= grid.len(),
        forall|r: int| from <= r < to ==> !full(#[trigger] grid[r]),
    ensures
        survivors(grid.subrange(from, to)) == grid.subrange(from, to),
{
    let part = grid.subrange(from, to);
    if has_full_row(part) {
        let r = choose|r: int| 0 <= r < part.len() && full(#[trigger] part[r]);
        assert(part[r] == grid[from + r]);
    }
    lemma_survivors_len(part);
}

/// Every row that survives is a row of the grid.
pub proof fn lemma_survivors_are_rows(grid: Grid)
    ensures
        forall|i: int|
            0 <= i < survivors(grid).len() ==> exists|r: int|
                0 <= r < grid.len() && grid[r] == #[trigger] survivors(grid)[i],
    decreases grid.len(),
{
    if grid.len() > 0 {
        let front = grid.drop_last();
        lemma_survivors_are_rows(front);
        let kept = survivors(grid);
        assert forall|i: int| 0 <= i < kept.len() implies exists|r: int|
            0 <= r < grid.len() && grid[r] == #[trigger] kept[i] by {
            if i < survivors(front).len() {
                let r = choose|r: int| 0 <= r < front.len() && front[r] == survivors(front)[i];
                assert(grid[r] == kept[i]);
            } else {
                assert(grid[grid.len() - 1] == kept[i]);
            }
        }
    }
}

/// Where nothing is falling in the grid, nothing is once the full rows have
/// been taken out.
pub proof fn lemma_cleared_nothing_falling(grid: Grid, width: nat)
    requires
        only_falling_in(grid, Seq::empty()),
    ensures
        only_falling_in(cleared(grid, width), Seq::empty()),
{
    let after = cleared(grid, width);
    let kept = survivors(grid);
    lemma_survivors_len(grid);
    lemma_survivors_are_rows(grid);
    let gone = grid.len() - kept.len();
    assert forall|x: int, y: int|
        0 <= y < after.len() && 0 <= x < after[y].len() implies !is_falling(
            #[trigger] after[y][x],
        ) by {
        if y >= gone {
            let r = choose|r: int| 0 <= r < grid.len() && grid[r] == kept[y - gone];
            assert(after[y] == grid[r]);
            if is_falling(grid[r][x]) {
                assert(Seq::<Point>::empty().contains((x, r)));
            }
        }
    }
}

/// Where exactly one row of the grid is full, taking it out leaves the top row
/// empty, moves every row above the full one down by one, and leaves the rows
/// below it as they were.
pub proof fn lemma_clear_one_line(grid: Grid, width: nat, line: int)
    requires
        rectangular(grid, width),
        0 <= line < grid.len(),
        full(grid[line]),
        forall|r: int| 0 <= r < grid.len() && r != line ==> !full(#[trigger] grid[r]),
    ensures
        has_full_row(grid),
        cleared(grid, width).len() == grid.len(),
        cleared(grid, width)[0] == empty_row(width),
        forall|r: int| 0 < r <= line ==> #[trigger] cleared(grid, width)[r] == grid[r - 1],
        forall|r: int| line < r < grid.len() ==> #[trigger] cleared(grid, width)[r] == grid[r],
{
    let above = grid.subrange(0, line);
    let below = grid.subrange(line + 1, grid.len() as int);
    let one = seq![grid[line]];
    assert(grid =~= above + one + below);
    lemma_survivors_concat(above + one, below);
    lemma_survivors_concat(above, one);
    lemma_survivors_of_one(grid[line]);
    lemma_no_full_row_in_part(grid, 0, line);
    lemma_no_full_row_in_part(grid, line + 1, grid.len() as int);
    assert(survivors(grid) =~= above + below);
}

/// Where exactly two rows of the grid are full, taking them out leaves the two
/// top rows empty, moves every row above both down by two, every row between
/// them down by one, and leaves the rows below both as they were.
pub proof fn lemma_clear_two_lines(grid: Grid, width: nat, first: int, second: int)
    requires
        rectangular(grid, width),
        0 <= first < second < grid.len(),
        full(grid[first]),
        full(grid[second]),
        forall|r: int|
            0 <= r < grid.len() && r != first && r != second ==> !full(#[trigger] grid[r]),
    ensures
        has_full_row(grid),
        cleared(grid, width).len() == grid.len(),
        cleared(grid, width)[0] == empty_row(width),
        cleared(grid, width)[1] == empty_row(width),
        forall|r: int| 2 <= r <= first + 1 ==> #[trigger] cleared(grid, width)[r] == grid[r - 2],
        forall|r: int|
            first + 1 < r <= second ==> #[trigger] cleared(grid, width)[r] == grid[r - 1],
        forall|r: int| second < r < grid.len() ==> #[trigger] cleared(grid, width)[r] == grid[r],
{
    let top = grid.subrange(0, first);
    let middle = grid.subrange(first + 1, second);
    let bottom = grid.subrange(second + 1, grid.len() as int);
    let one = seq![grid[first]];
    let two = seq![grid[second]];
    assert(grid =~= top + one + middle + two + bottom);
    lemma_survivors_concat(top + one + middle + two, bottom);
    lemma_survivors_concat(top + one + middle, two);
    lemma_survivors_concat(top + one, middle);
    lemma_survivors_concat(top, one);
    lemma_survivors_of_one(grid[first]);
    lemma_survivors_of_one(grid[second]);
    lemma_no_full_row_in_part(grid, 0, first);
    lemma_no_full_row_in_part(grid, first + 1, second);
    lemma_no_full_row_in_part(grid, second + 1, grid.len() as int);
    assert(survivors(grid) =~= top + middle + bottom);
}

} // verus!
