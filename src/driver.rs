use vstd::prelude::*;
use rand::Rng;
use crate::behaviour::Behaviour;
use crate::board::{Board, BoardView, GameError, GameState};
use crate::card::Card;
use crate::random_bot::RandomBot;
use crate::round_proofs::{lemma_full_trick, lemma_place_inv};
use crate::smart_bot::SmartBot;

verus! {

/// A seat's policy, chosen when the table is set.
pub enum Bot {
    Random(RandomBot),
    Smart(SmartBot),
}

impl Behaviour for Bot {
    open spec fn name_spec(&self) -> Seq<char> {
        match self {
            Bot::Random(b) => b.name_spec(),
            Bot::Smart(b) => b.name_spec(),
        }
    }

    open spec fn picks(&self, v: BoardView, c: Card) -> bool {
        match self {
            Bot::Random(b) => b.picks(v, c),
            Bot::Smart(b) => b.picks(v, c),
        }
    }

    fn name(&self) -> (r: String) {
        match self {
            Bot::Random(b) => b.name(),
            Bot::Smart(b) => b.name(),
        }
    }

    fn play_card(&self, board: &mut Board) -> (r: Result<GameState, GameError>) {
        match self {
            Bot::Random(b) => b.play_card(board),
            Bot::Smart(b) => b.play_card(board),
        }
    }

    fn post_baza_actions(&self, board: &mut Board, player: usize) {
        match self {
            Bot::Random(b) => b.post_baza_actions(board, player),
            Bot::Smart(b) => b.post_baza_actions(board, player),
        }
    }
}

/// Relies on rand's `Rng::gen_range` with `thread_rng`: a value drawn from `0..=3`, a range
/// that is not empty.
#[verifier::external_body]
fn random_seat() -> (r: usize)
    ensures
        r < 4,
{
    rand::thread_rng().gen_range(0..=3)
}

/// After a trick, seats 0 to 3 in order take their post-trick actions.
pub fn post_baza_actions<B: Behaviour>(bots: &Vec<B>, board: &mut Board)
    requires
        old(board).wf(),
        bots@.len() == 4,
    ensures
        final(board).wf(),
        final(board)@ == old(board)@.seats_act(4),
        final(board)@.remaining() == old(board)@.remaining(),
        final(board)@.finished == old(board)@.finished,
{
    let ghost start = board@;
    let mut p: usize = 0;
    while p < 4
        invariant
            p <= 4,
            bots@.len() == 4,
            board.wf(),
            board@ == start.seats_act(p as int),
            board@.remaining() == start.remaining(),
            board@.finished == start.finished,
        decreases 4 - p,
    {
        bots[p].post_baza_actions(board, p);
        p = p + 1;
    }
}

/// Plays `board` to the end of the round, seat `s` moving by `bots[s]` and every seat taking
/// its post-trick actions after each trick. Reports the winning team.
pub fn play_round<B: Behaviour>(bots: &Vec<B>, board: &mut Board) -> (r: GameState)
    requires
        bots@.len() == 4,
        old(board).wf(),
        !old(board)@.finished,
    ensures
        final(board).wf(),
        final(board)@.finished,
        r == final(board)@.winner_state(),
{
    loop
        invariant
            bots@.len() == 4,
            board.wf(),
            !board@.finished,
        decreases board@.remaining(),
    {
        let ghost before = board@;
        let r = bots[board.current_player].play_card(board);
        proof {
            let i = choose|i: int|
                0 <= i < before.hands[before.current].len() && before.legal().contains(
                    #[trigger] before.hands[before.current][i],
                ) && bots@[before.current].picks(before, before.hands[before.current][i]) && r
                    == Ok::<GameState, GameError>(before.outcome(i)) && board@
                    == before.after_play(i);
            lemma_place_inv(before, i);
            if before.place(i).played() == 0 {
                lemma_full_trick(before, i);
            }
        }
        match r {
            Ok(GameState::Team0Won) => {
                return GameState::Team0Won;
            },
            Ok(GameState::Team1Won) => {
                return GameState::Team1Won;
            },
            Ok(GameState::BazaEnded) => {
                post_baza_actions(bots, board);
            },
            _ => {},
        }
    }
}

/// Plays a whole round from a freshly shuffled deck, a seat drawn at random leading, and
/// returns the winning team together with the finished board.
pub fn play_game<B: Behaviour>(bots: &Vec<B>) -> (r: (GameState, Board))
    requires
        bots@.len() == 4,
    ensures
        r.1.wf(),
        r.1@.finished,
        r.0 == r.1@.winner_state(),
{
    let starting_player = random_seat();
    let mut board = Board::new(starting_player);
    let state = play_round(bots, &mut board);
    (state, board)
}

} // verus!
