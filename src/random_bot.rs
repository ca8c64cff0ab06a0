use vstd::prelude::*;
use crate::behaviour::{Behaviour, play_first, take_post_baza_actions};
use crate::board::{Board, BoardView, GameError, GameState};
use crate::card::Card;
use crate::deck::shuffle_cards;

verus! {

broadcast use vstd::seq_lib::group_to_multiset_ensures;

/// Plays a legal card picked at random.
pub struct RandomBot {}

impl RandomBot {
    /// A new random player.
    pub fn new() -> (r: RandomBot) {
        RandomBot {}
    }
}

impl Behaviour for RandomBot {
    open spec fn name_spec(&self) -> Seq<char> {
        "RandomBot"@
    }

    /// Any legal card may come out of the shuffle.
    open spec fn picks(&self, v: BoardView, c: Card) -> bool {
        v.legal().contains(c)
    }

    fn name(&self) -> (r: String) {
        "RandomBot".to_owned()
    }

    /// Shuffles the legal cards and plays the first of them.
    fn play_card(&self, board: &mut Board) -> (r: Result<GameState, GameError>) {
        let mut legal = board.get_legal_cards();
        let ghost cards = legal@;
        proof {
            crate::round_proofs::lemma_live_hand(board@);
            crate::round_proofs::lemma_legal_in_hand(board@);
        }
        shuffle_cards(&mut legal);
        assert forall|j: int| 0 <= j < legal@.len() implies board@.legal().contains(
            #[trigger] legal@[j],
        ) by {
            assert(legal@.to_multiset().count(legal@[j]) > 0);
        }
        play_first(board, &legal)
    }

    fn post_baza_actions(&self, board: &mut Board, player: usize) {
        take_post_baza_actions(board, player)
    }
}

} // verus!
