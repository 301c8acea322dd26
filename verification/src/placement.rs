//! What a piece does to the grid when it appears, moves and comes to rest.

use vstd::prelude::*;
use crate::cell::{Color, Playcell};
use crate::collision::{displaced, fits, inside, passable, within, Point};
use crate::playfield::Grid;

verus! {

/// The cell that a falling piece of `color` puts in each of its squares.
pub open spec fn falling(color: Color) -> Option<Playcell> {
    Some(Playcell { is_active: true, color })
}

/// The grid after a piece of `color` has left the squares `from` and taken the
/// squares `to`: the squares of `to` hold the falling piece, those of `from`
/// that it has not taken again are empty, and all others are as before.
pub open spec fn moved(grid: Grid, from: Seq<Point>, to: Seq<Point>, color: Color) -> Grid {
    Seq::new(
        grid.len(),
        |y: int|
            Seq::new(
                grid[y].len(),
                |x: int|
                    if to.contains((x, y)) {
                        falling(color)
                    } else if from.contains((x, y)) {
                        None
                    } else {
                        grid[y][x]
                    },
            ),
    )
}

/// The squares of `body` lie in the grid and hold a falling piece of `color`.
pub open spec fn holds(grid: Grid, body: Seq<Point>, color: Color) -> bool {
    forall|i: int|
        0 <= i < body.len() ==> inside(grid, #[trigger] body[i]) && grid[body[i].1][body[i].0]
            == falling(color)
}

/// A piece fits in the squares that the grid holds it in.
pub proof fn lemma_holds_fits(grid: Grid, body: Seq<Point>, color: Color)
    requires
        holds(grid, body, color),
    ensures
        fits(grid, body),
{
    assert forall|i: int| 0 <= i < body.len() implies passable(grid, #[trigger] body[i]) by {}
}

/// After a move the grid holds the piece in the squares it has taken, which it
/// fits in.
pub proof fn lemma_moved_holds(grid: Grid, from: Seq<Point>, to: Seq<Point>, color: Color)
    requires
        within(grid, to),
    ensures
        holds(moved(grid, from, to, color), to, color),
        fits(moved(grid, from, to, color), to),
{
    let after = moved(grid, from, to, color);
    assert forall|i: int| 0 <= i < to.len() implies inside(after, #[trigger] to[i])
        && after[to[i].1][to[i].0] == falling(color) by {
        assert(inside(grid, to[i]));
        assert(to.contains(to[i]));
    }
}

/// The cell belongs to a piece that is falling.
pub open spec fn is_falling(cell: Option<Playcell>) -> bool {
    cell matches Some(c) && c.is_active
}

/// No cell of the grid belongs to a falling piece but in the squares of
/// `body`.
pub open spec fn only_falling_in(grid: Grid, body: Seq<Point>) -> bool {
    forall|x: int, y: int|
        0 <= y < grid.len() && 0 <= x < grid[y].len() && is_falling(#[trigger] grid[y][x])
            ==> body.contains((x, y))
}

/// Where a piece was the only one falling, it still is after a move.
pub proof fn lemma_moved_only_falling(grid: Grid, from: Seq<Point>, to: Seq<Point>, color: Color)
    requires
        only_falling_in(grid, from),
    ensures
        only_falling_in(moved(grid, from, to, color), to),
{
    let after = moved(grid, from, to, color);
    assert forall|x: int, y: int|
        0 <= y < after.len() && 0 <= x < after[y].len() && is_falling(
            #[trigger] after[y][x],
        ) implies to.contains((x, y)) by {
        if !to.contains((x, y)) && !from.contains((x, y)) {
            assert(is_falling(grid[y][x]));
        }
    }
}

/// Where a piece was the only one falling, nothing is falling once it has come
/// to rest.
pub proof fn lemma_settled_nothing_falling(grid: Grid, body: Seq<Point>)
    requires
        only_falling_in(grid, body),
    ensures
        only_falling_in(settled(grid, body), Seq::empty()),
{
    let after = settled(grid, body);
    assert forall|x: int, y: int|
        0 <= y < after.len() && 0 <= x < after[y].len() implies !is_falling(
            #[trigger] after[y][x],
        ) by {
        if is_falling(grid[y][x]) {
            assert(body.contains((x, y)));
        }
    }
}

/// The grid after the piece in the squares `body` has come to rest: what these
/// squares hold is locked, and all others are as before.
pub open spec fn settled(grid: Grid, body: Seq<Point>) -> Grid {
    Seq::new(
        grid.len(),
        |y: int|
            Seq::new(
                grid[y].len(),
                |x: int|
                    match grid[y][x] {
                        Some(cell) if body.contains((x, y)) => Some(
                            Playcell { is_active: false, color: cell.color },
                        ),
                        other => other,
                    },
            ),
    )
}

pub(crate) proof fn lemma_take_contains<A>(s: Seq<A>, i: int, a: A)
    requires
        0 <= i < s.len(),
    ensures
        s.take(i + 1).contains(a) <==> s.take(i).contains(a) || s[i] == a,
{
    let longer = s.take(i + 1);
    let shorter = s.take(i);
    if shorter.contains(a) {
        let k = choose|k: int| 0 <= k < shorter.len() && shorter[k] == a;
        assert(longer[k] == a);
    }
    if s[i] == a {
        assert(longer[i] == a);
    }
    if longer.contains(a) {
        let k = choose|k: int| 0 <= k < longer.len() && longer[k] == a;
        if k < i {
            assert(shorter[k] == a);
        }
    }
}

pub(crate) proof fn lemma_moved_one_more(
    grid: Grid,
    from: Seq<Point>,
    to: Seq<Point>,
    i: int,
    color: Color,
)
    requires
        0 <= i < to.len(),
        inside(grid, to[i]),
    ensures
        moved(grid, from, to.take(i + 1), color) == ({
            let before = moved(grid, from, to.take(i), color);
            before.update(to[i].1, before[to[i].1].update(to[i].0, falling(color)))
        }),
{
    let before = moved(grid, from, to.take(i), color);
    let after = before.update(to[i].1, before[to[i].1].update(to[i].0, falling(color)));
    let wanted = moved(grid, from, to.take(i + 1), color);
    assert forall|y: int| 0 <= y < grid.len() implies #[trigger] wanted[y] =~= after[y] by {
        assert forall|x: int| 0 <= x < grid[y].len() implies wanted[y][x] == after[y][x] by {
            lemma_take_contains(to, i, (x, y));
        }
    }
    assert(wanted =~= after);
}

pub(crate) proof fn lemma_wiped_one_more(grid: Grid, from: Seq<Point>, i: int, color: Color)
    requires
        0 <= i < from.len(),
        inside(grid, from[i]),
    ensures
        moved(grid, from.take(i + 1), Seq::empty(), color) == ({
            let before = moved(grid, from.take(i), Seq::empty(), color);
            before.update(from[i].1, before[from[i].1].update(from[i].0, None))
        }),
{
    let before = moved(grid, from.take(i), Seq::empty(), color);
    let after = before.update(from[i].1, before[from[i].1].update(from[i].0, None));
    let wanted = moved(grid, from.take(i + 1), Seq::empty(), color);
    assert forall|y: int| 0 <= y < grid.len() implies #[trigger] wanted[y] =~= after[y] by {
        assert forall|x: int| 0 <= x < grid[y].len() implies wanted[y][x] == after[y][x] by {
            lemma_take_contains(from, i, (x, y));
        }
    }
    assert(wanted =~= after);
}

pub(crate) proof fn lemma_moved_nothing(grid: Grid, color: Color)
    ensures
        moved(grid, Seq::empty(), Seq::empty(), color) == grid,
{
    let same = moved(grid, Seq::empty(), Seq::empty(), color);
    assert forall|y: int| 0 <= y < grid.len() implies #[trigger] same[y] =~= grid[y] by {}
    assert(same =~= grid);
}

pub(crate) proof fn lemma_settled_one_more(grid: Grid, body: Seq<Point>, i: int)
    requires
        0 <= i < body.len(),
        inside(grid, body[i]),
    ensures
        settled(grid, body.take(i + 1)) == ({
            let before = settled(grid, body.take(i));
            match before[body[i].1][body[i].0] {
                Some(cell) => before.update(
                    body[i].1,
                    before[body[i].1].update(
                        body[i].0,
                        Some(Playcell { is_active: false, color: cell.color }),
                    ),
                ),
                None => before,
            }
        }),
{
    let before = settled(grid, body.take(i));
    let after = match before[body[i].1][body[i].0] {
        Some(cell) => before.update(
            body[i].1,
            before[body[i].1].update(
                body[i].0,
                Some(Playcell { is_active: false, color: cell.color }),
            ),
        ),
        None => before,
    };
    let wanted = settled(grid, body.take(i + 1));
    assert forall|y: int| 0 <= y < grid.len() implies #[trigger] wanted[y] =~= after[y] by {
        assert forall|x: int| 0 <= x < grid[y].len() implies wanted[y][x] == after[y][x] by {
            lemma_take_contains(body, i, (x, y));
        }
    }
    assert(wanted =~= after);
}

pub(crate) proof fn lemma_settled_nothing(grid: Grid)
    ensures
        settled(grid, Seq::empty()) == grid,
{
    let same = settled(grid, Seq::empty());
    assert forall|y: int| 0 <= y < grid.len() implies #[trigger] same[y] =~= grid[y] by {}
    assert(same =~= grid);
}

/// The squares of `body`, each `k` rows further down.
pub open spec fn lowered(body: Seq<Point>, k: int) -> Seq<Point> {
    displaced(body, (0, k))
}

/// How far the piece in the squares `body` falls, counted from `k` rows down,
/// where it is known to fit: one row at a time, for as long as the next row
/// has room for it.
pub open spec fn drop_from(grid: Grid, body: Seq<Point>, k: int) -> int
    decreases grid.len() - k,
{
    if 0 <= k < grid.len() && fits(grid, lowered(body, k + 1)) {
        drop_from(grid, body, k + 1)
    } else {
        k
    }
}

/// The number of rows that the piece in the squares `body` falls before it
/// comes to rest.
pub open spec fn drop_distance(grid: Grid, body: Seq<Point>) -> int {
    drop_from(grid, body, 0)
}

proof fn lemma_drop_from(grid: Grid, body: Seq<Point>, k: int)
    requires
        body.len() > 0,
        body[0].1 >= 0,
        0 <= k,
        fits(grid, lowered(body, k)),
    ensures
        drop_from(grid, body, k) >= k,
        forall|j: int|
            k <= j <= drop_from(grid, body, k) ==> fits(grid, #[trigger] lowered(body, j)),
        !fits(grid, lowered(body, drop_from(grid, body, k) + 1)),
    decreases grid.len() - k,
{
    assert(passable(grid, lowered(body, k)[0]));
    if fits(grid, lowered(body, k + 1)) {
        lemma_drop_from(grid, body, k + 1);
    }
}

/// The piece fits in every row on its way down to where it comes to rest, and
/// one row further down it does not.
pub proof fn lemma_drop_distance(grid: Grid, body: Seq<Point>)
    requires
        body.len() > 0,
        fits(grid, body),
    ensures
        drop_distance(grid, body) >= 0,
        forall|j: int|
            0 <= j <= drop_distance(grid, body) ==> fits(grid, #[trigger] lowered(body, j)),
        !fits(grid, lowered(body, drop_distance(grid, body) + 1)),
{
    assert(lowered(body, 0) =~= body);
    assert(passable(grid, body[0]));
    lemma_drop_from(grid, body, 0);
}

/// A piece that has been dropped is at rest: dropped once more from where it
/// lies, it falls no further, and neither its squares nor the grid change.
pub proof fn lemma_drop_is_idempotent(grid: Grid, body: Seq<Point>, color: Color)
    requires
        body.len() > 0,
        fits(grid, body),
    ensures
        ({
            let rest = lowered(body, drop_distance(grid, body));
            let after = moved(grid, body, rest, color);
            &&& fits(after, rest)
            &&& drop_distance(after, rest) == 0
            &&& lowered(rest, drop_distance(after, rest)) == rest
            &&& moved(after, rest, rest, color) == after
        }),
{
    let k = drop_distance(grid, body);
    let rest = lowered(body, k);
    let after = moved(grid, body, rest, color);
    lemma_drop_distance(grid, body);
    assert(fits(grid, rest));
    assert forall|i: int| 0 <= i < rest.len() implies passable(after, #[trigger] rest[i]) by {
        assert(passable(grid, rest[i]));
        assert(rest.contains(rest[i]));
    }
    let below = lowered(body, k + 1);
    let i = choose|i: int| 0 <= i < below.len() && !passable(grid, #[trigger] below[i]);
    let at = below[i];
    assert(lowered(rest, 1)[i] == at);
    if inside(grid, at) {
        if rest.contains(at) {
            let j = choose|j: int| 0 <= j < rest.len() && rest[j] == at;
            assert(passable(grid, rest[j]));
        }
        if body.contains(at) {
            let j = choose|j: int| 0 <= j < body.len() && body[j] == at;
            assert(passable(grid, body[j]));
        }
        assert(after[at.1][at.0] == grid[at.1][at.0]);
    }
    assert(!passable(after, lowered(rest, 1)[i]));
    assert(!fits(after, lowered(rest, 1)));
    assert(drop_distance(after, rest) == 0);
    assert(lowered(rest, 0) =~= rest);
    let again = moved(after, rest, rest, color);
    assert forall|y: int| 0 <= y < after.len() implies #[trigger] again[y] =~= after[y] by {}
    assert(again =~= after);
}

} // verus!
