//! The bag that pieces are drawn from: all seven shapes, in an order that is
//! shuffled anew each time the bag has been emptied.

use rand::rngs::StdRng;
use rand::seq::SliceRandom;
use rand::SeedableRng;
use vstd::prelude::*;
use vstd::seq_lib::lemma_multiset_commutative;
use crate::tetromino::{fresh, Shape, Tetromino};

verus! {

/// The number of shapes, and so of pieces in the bag.
pub const PIECES: usize = 7;

#[verifier::external_type_specification]
#[verifier::external_body]
pub struct ExStdRng(rand::rngs::StdRng);

/// Calls `StdRng::from_entropy` of rand: a generator seeded by the operating
/// system. Nothing is claimed of it. The call fails only on a system that has
/// no entropy to give.
#[verifier::external_body]
fn source_from_entropy() -> (source: StdRng) {
    StdRng::from_entropy()
}

/// The generator that `StdRng::seed_from_u64` of rand makes of `seed`.
pub uninterp spec fn seeded(seed: u64) -> StdRng;

/// Calls `StdRng::seed_from_u64` of rand. It spreads the seed over the
/// generator's initial state by fixed arithmetic, so the generator it gives
/// depends on `seed` alone; which generator that is, is only named.
#[verifier::external_body]
fn source_from_seed(seed: u64) -> (source: StdRng)
    ensures
        source == seeded(seed),
{
    StdRng::seed_from_u64(seed)
}

/// Calls `SliceRandom::shuffle` of rand on the pieces. The shuffle only swaps
/// elements of the slice with each other, so the same pieces are there
/// afterwards, each as often as before; in which order is left open.
#[verifier::external_body]
fn shuffle_pieces(pieces: &mut [Tetromino; 7], source: &mut StdRng)
    ensures
        final(pieces)@.to_multiset() == old(pieces)@.to_multiset(),
{
    pieces.shuffle(source);
}

/// The seven pieces in the order in which a new bag holds them.
pub open spec fn full_set() -> Seq<Tetromino> {
    seq![
        fresh(Shape::O),
        fresh(Shape::I),
        fresh(Shape::J),
        fresh(Shape::L),
        fresh(Shape::S),
        fresh(Shape::Z),
        fresh(Shape::T),
    ]
}

/// `order` holds each of the seven pieces once.
pub open spec fn is_full_set(order: Seq<Tetromino>) -> bool {
    order.len() == PIECES && order.to_multiset() == full_set().to_multiset()
}

/// The bag as mathematics: the order its pieces lie in, and how many of them
/// have been drawn since it was last filled.
pub struct BagState {
    pub order: Seq<Tetromino>,
    pub cursor: nat,
}

impl BagState {
    /// The bag holds each of the seven pieces once, and no more than seven
    /// have been drawn from it.
    pub open spec fn wf(self) -> bool {
        is_full_set(self.order) && self.cursor <= PIECES
    }
}

/// One draw takes the bag from `pre` to `post` and gives `piece`: the next
/// piece of the order, and where none is left, the first piece of a new order
/// of all seven.
pub open spec fn draw(pre: BagState, post: BagState, piece: Tetromino) -> bool {
    if pre.cursor < PIECES {
        &&& post.order == pre.order
        &&& post.cursor == pre.cursor + 1
        &&& piece == pre.order[pre.cursor as int]
    } else {
        &&& is_full_set(post.order)
        &&& post.cursor == 1
        &&& piece == post.order[0]
    }
}

/// Each of the seven pieces lies once in the first order, and nothing else
/// lies in it.
pub proof fn lemma_full_set_counts()
    ensures
        forall|shape: Shape| #[trigger] full_set().to_multiset().count(fresh(shape)) == 1,
        forall|piece: Tetromino|
            full_set().to_multiset().count(piece) > 0 ==> piece == fresh(piece.shape),
{
    let all = full_set();
    all.to_multiset_ensures();
    assert(all.no_duplicates()) by {
        assert forall|i: int, j: int|
            0 <= i < all.len() && 0 <= j < all.len() && i != j implies all[i] != all[j] by {
            assert(all[i].shape != all[j].shape);
        }
    }
    all.lemma_multiset_has_no_duplicates();
    assert forall|shape: Shape| #[trigger] all.to_multiset().count(fresh(shape)) == 1 by {
        let i = match shape {
            Shape::O => 0int,
            Shape::I => 1int,
            Shape::J => 2int,
            Shape::L => 3int,
            Shape::S => 4int,
            Shape::Z => 5int,
            Shape::T => 6int,
        };
        assert(all[i] == fresh(shape));
        assert(all.contains(fresh(shape)));
    }
    assert forall|piece: Tetromino| all.to_multiset().count(piece) > 0 implies piece == fresh(
        piece.shape,
    ) by {
        assert(all.contains(piece));
        let i = choose|i: int| 0 <= i < all.len() && all[i] == piece;
        assert(all[i] == fresh(all[i].shape));
    }
}

/// Seven draws from a bag of which none or all have been drawn give the seven
/// pieces of one order, and leave a bag of which all have been drawn.
proof fn lemma_one_round(states: Seq<BagState>, pieces: Seq<Tetromino>, base: int)
    requires
        0 <= base,
        base + PIECES < states.len(),
        base + PIECES <= pieces.len(),
        states[base].wf(),
        states[base].cursor == 0 || states[base].cursor == PIECES,
        forall|i: int|
            base <= i < base + PIECES ==> draw(states[i], states[i + 1], #[trigger] pieces[i]),
    ensures
        states[base + PIECES as int].wf(),
        states[base + PIECES as int].cursor == PIECES,
        pieces.subrange(base, base + PIECES as int) == states[base + PIECES as int].order,
{
    let order = states[base + 1].order;
    assert(draw(states[base], states[base + 1], pieces[base]));
    assert(draw(states[base + 1], states[base + 2], pieces[base + 1]));
    assert(draw(states[base + 2], states[base + 3], pieces[base + 2]));
    assert(draw(states[base + 3], states[base + 4], pieces[base + 3]));
    assert(draw(states[base + 4], states[base + 5], pieces[base + 4]));
    assert(draw(states[base + 5], states[base + 6], pieces[base + 5]));
    assert(draw(states[base + 6], states[base + 7], pieces[base + 6]));
    assert(states[base + 7].order == order);
    assert(pieces.subrange(base, base + 7) =~= order);
}

/// From a bag of which none or all of the pieces have been drawn, seven times
/// `rounds` draws give each of the seven pieces exactly `rounds` times, and
/// nothing else. `states` holds the bag before the first draw and after each
/// draw, `pieces` what the draws gave.
pub proof fn lemma_bag_is_fair(states: Seq<BagState>, pieces: Seq<Tetromino>, rounds: nat)
    requires
        states.len() == PIECES * rounds + 1,
        pieces.len() == PIECES * rounds,
        states[0].wf(),
        states[0].cursor == 0 || states[0].cursor == PIECES,
        forall|i: int|
            0 <= i < pieces.len() ==> draw(states[i], states[i + 1], #[trigger] pieces[i]),
    ensures
        forall|shape: Shape| #[trigger] pieces.to_multiset().count(fresh(shape)) == rounds,
        forall|i: int| 0 <= i < pieces.len() ==> #[trigger] pieces[i] == fresh(pieces[i].shape),
        states.last().wf(),
        states.last().cursor == 0 || states.last().cursor == PIECES,
    decreases rounds,
{
    lemma_full_set_counts();
    if rounds == 0 {
        pieces.to_multiset_ensures();
        assert forall|shape: Shape| #[trigger] pieces.to_multiset().count(fresh(shape)) == 0 by {
            assert(!pieces.contains(fresh(shape)));
        }
    } else {
        let base = PIECES * (rounds - 1);
        let earlier_states = states.take(base + 1);
        let earlier = pieces.take(base);
        assert forall|i: int| 0 <= i < earlier.len() implies draw(
            earlier_states[i],
            earlier_states[i + 1],
            #[trigger] earlier[i],
        ) by {
            assert(draw(states[i], states[i + 1], pieces[i]));
        }
        lemma_bag_is_fair(earlier_states, earlier, (rounds - 1) as nat);
        assert(earlier_states.last() == states[base]);
        lemma_one_round(states, pieces, base);
        let round = pieces.subrange(base, base + PIECES as int);
        assert(pieces =~= earlier + round);
        lemma_multiset_commutative(earlier, round);
        assert forall|shape: Shape| #[trigger]
            pieces.to_multiset().count(fresh(shape)) == rounds by {
            assert(earlier.to_multiset().count(fresh(shape)) == rounds - 1);
            assert(full_set().to_multiset().count(fresh(shape)) == 1);
        }
        round.to_multiset_ensures();
        assert forall|i: int| 0 <= i < pieces.len() implies #[trigger] pieces[i] == fresh(
            pieces[i].shape,
        ) by {
            if i < base {
                assert(earlier[i] == pieces[i]);
            } else {
                assert(round[i - base] == pieces[i]);
                assert(round.contains(pieces[i]));
            }
        }
    }
}

/// The bag. It holds the seven pieces in some order, knows how many of them
/// have been drawn, and owns the generator that it shuffles by.
pub struct TetrominosBag {
    tetrominos: [Tetromino; 7],
    index: usize,
    source: StdRng,
}

impl View for TetrominosBag {
    type V = BagState;

    closed spec fn view(&self) -> BagState {
        BagState { order: self.tetrominos@, cursor: self.index as nat }
    }
}

impl TetrominosBag {
    /// The bag holds each of the seven pieces once.
    pub open spec fn wf(&self) -> bool {
        self@.wf()
    }

    /// The generator that the bag shuffles by, in the state it is in.
    pub closed spec fn source(&self) -> StdRng {
        self.source
    }

    /// A full bag in its first order that shuffles by `source`.
    fn filled(source: StdRng) -> (bag: TetrominosBag)
        ensures
            bag@.order == full_set(),
            bag@.cursor == 0,
            bag.source() == source,
            bag.wf(),
    {
        let bag = TetrominosBag {
            tetrominos: [
                Tetromino::new(Shape::O),
                Tetromino::new(Shape::I),
                Tetromino::new(Shape::J),
                Tetromino::new(Shape::L),
                Tetromino::new(Shape::S),
                Tetromino::new(Shape::Z),
                Tetromino::new(Shape::T),
            ],
            index: 0,
            source,
        };
        assert(bag.tetrominos@ =~= full_set());
        bag
    }

    /// A full bag in its first order, which shuffles by what the operating
    /// system gives it.
    pub fn new() -> (bag: TetrominosBag)
        ensures
            bag@.order == full_set(),
            bag@.cursor == 0,
            bag.wf(),
    {
        TetrominosBag::filled(source_from_entropy())
    }

    /// A full bag in its first order, which shuffles by the generator that
    /// `seed` gives: two bags made with the same seed start from the same
    /// generator, and are meant to give the same pieces.
    pub fn with_seed(seed: u64) -> (bag: TetrominosBag)
        ensures
            bag@.order == full_set(),
            bag@.cursor == 0,
            bag.source() == seeded(seed),
            bag.wf(),
    {
        TetrominosBag::filled(source_from_seed(seed))
    }

    /// Fills the bag and puts its pieces in a new order.
    pub fn shuffle(&mut self)
        requires
            old(self).wf(),
        ensures
            final(self).wf(),
            final(self)@.cursor == 0,
    {
        shuffle_pieces(&mut self.tetrominos, &mut self.source);
        self.index = 0;
    }

    /// Draws the next piece, after shuffling where the bag is empty.
    pub fn get(&mut self) -> (piece: Tetromino)
        requires
            old(self).wf(),
        ensures
            final(self).wf(),
            draw(old(self)@, final(self)@, piece),
    {
        if self.index >= PIECES {
            self.shuffle();
        }
        self.index += 1;
        self.tetrominos[self.index - 1]
    }
}

} // verus!
