use vstd::prelude::*;
use rand::seq::SliceRandom;
use crate::card::{Card, canonical_card, full_deck, pal_from_index, rank_at};

verus! {

/// The draw pile: cards are drawn from the end of `cards`.
pub struct Deck {
    pub cards: Vec<Card>,
}

/// Relies on rand's `SliceRandom::shuffle` with `thread_rng`: it only swaps elements, so the
/// result is a permutation of the input.
#[verifier::external_body]
pub(crate) fn shuffle_cards(v: &mut Vec<Card>)
    ensures
        final(v)@.to_multiset() == old(v)@.to_multiset(),
        final(v)@.len() == old(v)@.len(),
{
    v.shuffle(&mut rand::thread_rng());
}

fn rank_from_index(i: usize) -> (r: u8)
    requires
        i < 10,
    ensures
        r == rank_at(i as int),
{
    if i < 7 {
        (i + 1) as u8
    } else {
        (i + 3) as u8
    }
}

impl Deck {
    /// The cards left, the next to draw last.
    pub open spec fn view(&self) -> Seq<Card> {
        self.cards@
    }

    /// The 40 cards in canonical order, not shuffled.
    pub fn ordered() -> (r: Deck)
        ensures
            r@ == full_deck(),
    {
        let mut cards: Vec<Card> = Vec::new();
        let mut i: usize = 0;
        while i < 40
            invariant
                i <= 40,
                cards@.len() == i,
                forall|j: int| 0 <= j < i ==> cards@[j] == canonical_card(j),
            decreases 40 - i,
        {
            let c = Card { pal: pal_from_index(i / 10), number: rank_from_index(i % 10) };
            cards.push(c);
            i = i + 1;
        }
        assert(cards@ =~= full_deck());
        Deck { cards }
    }

    /// The 40 cards, shuffled uniformly at random.
    pub fn new() -> (r: Deck)
        ensures
            r@.to_multiset() == full_deck().to_multiset(),
            r@.len() == 40,
    {
        let mut d = Deck::ordered();
        shuffle_cards(&mut d.cards);
        d
    }

    /// How many cards are left.
    pub fn len(&self) -> (r: usize)
        ensures
            r == self@.len(),
    {
        self.cards.len()
    }

    /// Whether the deck is exhausted.
    pub fn is_empty(&self) -> (r: bool)
        ensures
            r == (self@.len() == 0),
    {
        self.cards.len() == 0
    }

    /// Removes and returns the next card, or `None` when the deck is exhausted.
    pub fn draw(&mut self) -> (r: Option<Card>)
        ensures
            old(self)@.len() == 0 ==> r is None && final(self)@ == old(self)@,
            old(self)@.len() > 0 ==> r == Some(old(self)@.last()) && final(self)@
                == old(self)@.drop_last(),
    {
        self.cards.pop()
    }
}

} // verus!
