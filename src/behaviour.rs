use vstd::prelude::*;
use crate::board::{Board, BoardView, GameError, GameState};
use crate::card::Card;
use crate::round_proofs::{lemma_legal_in_hand, lemma_live_hand};
use crate::rules::{first_index, position};

verus! {

/// A playing policy: it picks a legal card for the seat to act, and between tricks takes the
/// optional actions open to a seat.
pub trait Behaviour {
    /// The policy's name.
    spec fn name_spec(&self) -> Seq<char>;

    /// Whether the policy may pick card `c` on board `v`.
    spec fn picks(&self, v: BoardView, c: Card) -> bool;

    fn name(&self) -> (r: String)
        ensures
            r@ == self.name_spec(),
    ;

    /// Plays one legal card of the seat to act, one that the policy picks.
    fn play_card(&self, board: &mut Board) -> (r: Result<GameState, GameError>)
        requires
            old(board).wf(),
            !old(board)@.finished,
        ensures
            final(board).wf(),
            exists|i: int|
                0 <= i < old(board)@.hands[old(board)@.current].len() && old(board)@.legal().contains(
                    #[trigger] old(board)@.hands[old(board)@.current][i],
                ) && self.picks(old(board)@, old(board)@.hands[old(board)@.current][i]) && r
                    == Ok::<GameState, GameError>(old(board)@.outcome(i)) && final(board)@
                    == old(board)@.after_play(i),
    ;

    /// Declares every suit that `player` may declare, in suit order, then exchanges the seven
    /// of trumps if `player` may.
    fn post_baza_actions(&self, board: &mut Board, player: usize)
        requires
            old(board).wf(),
        ensures
            final(board).wf(),
            player < 4 ==> final(board)@ == old(board)@.post_actions(player as int),
            player >= 4 ==> final(board)@ == old(board)@,
            final(board)@.remaining() == old(board)@.remaining(),
            final(board)@.finished == old(board)@.finished,
    ;
}

/// Declares each suit that `player` may declare, in suit order, then exchanges the seven of
/// trumps if `player` may: the post-trick actions shared by the policies.
pub fn take_post_baza_actions(board: &mut Board, player: usize)
    requires
        old(board).wf(),
    ensures
        final(board).wf(),
        player < 4 ==> final(board)@ == old(board)@.post_actions(player as int),
        player >= 4 ==> final(board)@ == old(board)@,
        final(board)@.remaining() == old(board)@.remaining(),
        final(board)@.finished == old(board)@.finished,
{
    let ghost start = board@;
    let mut k: usize = 0;
    while k < 4
        invariant
            k <= 4,
            board.wf(),
            player < 4 ==> board@ == start.cantes_upto(player as int, k as int),
            player >= 4 ==> board@ == start,
            board@.remaining() == start.remaining(),
            board@.finished == start.finished,
        decreases 4 - k,
    {
        let pal = crate::card::pal_from_index(k);
        match board.cantar(player, pal) {
            Ok(()) => {},
            Err(_) => {},
        }
        k = k + 1;
    }
    match board.change_trumfo_card(player) {
        Ok(()) => {},
        Err(_) => {},
    }
}

/// Plays card `c`, legal for the seat to act, from the first place it holds in the hand.
pub fn play_chosen(board: &mut Board, c: Card) -> (r: Result<GameState, GameError>)
    requires
        old(board).wf(),
        !old(board)@.finished,
        old(board)@.legal().contains(c),
    ensures
        final(board).wf(),
        0 <= first_index(old(board)@.hands[old(board)@.current], c) < old(board)@.hands[old(board)@.current].len(),
        old(board)@.hands[old(board)@.current][first_index(old(board)@.hands[old(board)@.current], c)] == c,
        r == Ok::<GameState, GameError>(
            old(board)@.outcome(first_index(old(board)@.hands[old(board)@.current], c)),
        ),
        final(board)@ == old(board)@.after_play(first_index(old(board)@.hands[old(board)@.current], c)),
{
    proof {
        lemma_live_hand(board@);
        lemma_legal_in_hand(board@);
    }
    let hand = board.get_current_player_hand();
    let i = position(&hand, c).unwrap();
    board.play_card(i)
}

/// Plays the first of `cards`, all of them legal for the seat to act.
pub fn play_first(board: &mut Board, cards: &Vec<Card>) -> (r: Result<GameState, GameError>)
    requires
        old(board).wf(),
        !old(board)@.finished,
        cards@.len() > 0,
        forall|j: int| 0 <= j < cards@.len() ==> old(board)@.legal().contains(#[trigger] cards@[j]),
    ensures
        final(board).wf(),
        0 <= first_index(old(board)@.hands[old(board)@.current], cards@[0]) < old(board)@.hands[old(board)@.current].len(),
        old(board)@.hands[old(board)@.current][first_index(old(board)@.hands[old(board)@.current], cards@[0])] == cards@[0],
        r == Ok::<GameState, GameError>(
            old(board)@.outcome(first_index(old(board)@.hands[old(board)@.current], cards@[0])),
        ),
        final(board)@ == old(board)@.after_play(first_index(old(board)@.hands[old(board)@.current], cards@[0])),
{
    play_chosen(board, cards[0])
}

} // verus!
