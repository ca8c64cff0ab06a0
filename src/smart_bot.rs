use vstd::prelude::*;
use crate::behaviour::{Behaviour, play_chosen, take_post_baza_actions};
use crate::board::{Board, BoardView, GameError, GameState};
use crate::card::{Card, Pal};
use crate::round_proofs::{lemma_legal_in_hand, lemma_live_hand};

verus! {

/// Plays the strongest legal card.
pub struct SmartBot {}

/// The card kept by a left-to-right pass over `s` that keeps the current pick when it beats
/// the next card and takes the next card otherwise.
pub open spec fn best_of(s: Seq<Card>, trump: Pal) -> Card
    decreases s.len(),
{
    if s.len() <= 1 {
        s[0]
    } else {
        let a = best_of(s.drop_last(), trump);
        if a.beats(s.last(), trump) {
            a
        } else {
            s.last()
        }
    }
}

/// The strongest of `cards` as `best_of` picks it.
pub fn best_card(cards: &Vec<Card>, trump: Pal) -> (r: Card)
    requires
        cards@.len() > 0,
    ensures
        r == best_of(cards@, trump),
        cards@.contains(r),
{
    let mut best: Card = cards[0];
    let mut i: usize = 1;
    assert(cards@.subrange(0, 1).len() == 1);
    while i < cards.len()
        invariant
            1 <= i <= cards@.len(),
            best == best_of(cards@.subrange(0, i as int), trump),
            cards@.contains(best),
        decreases cards@.len() - i,
    {
        let next = cards[i];
        assert(cards@.subrange(0, i + 1).drop_last() =~= cards@.subrange(0, i as int));
        if !best.is_better_than(next, trump) {
            best = next;
        }
        i = i + 1;
    }
    assert(cards@.subrange(0, cards@.len() as int) =~= cards@);
    best
}

impl SmartBot {
    /// A new greedy player.
    pub fn new() -> (r: SmartBot) {
        SmartBot {}
    }
}

impl Behaviour for SmartBot {
    open spec fn name_spec(&self) -> Seq<char> {
        "SmartBot"@
    }

    /// The strongest legal card, as `best_of` picks it.
    open spec fn picks(&self, v: BoardView, c: Card) -> bool {
        c == best_of(v.legal(), v.trumfo.pal)
    }

    fn name(&self) -> (r: String) {
        "SmartBot".to_owned()
    }

    fn play_card(&self, board: &mut Board) -> (r: Result<GameState, GameError>) {
        proof {
            lemma_live_hand(board@);
            lemma_legal_in_hand(board@);
        }
        let legal = board.get_legal_cards();
        let c = best_card(&legal, board.current_trumfo.pal);
        play_chosen(board, c)
    }

    fn post_baza_actions(&self, board: &mut Board, player: usize) {
        take_post_baza_actions(board, player)
    }
}

} // verus!
