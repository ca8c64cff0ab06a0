use vstd::prelude::*;
use vstd::multiset::Multiset;
use crate::card::{Card, Pal, pal_at, pal_index, pal_from_index, index_of_pal, full_deck};
use crate::deck::Deck;
use crate::rules::{keep, or_else, select, holds, position, first_index, lemma_keep_all};
use crate::round_proofs::{lemma_place_inv, lemma_full_trick, lemma_cantar_inv, lemma_exchange_inv};

verus! {

broadcast use vstd::seq_lib::group_to_multiset_ensures;

/// What a move leaves the round in.
#[derive(Clone, Copy, Debug, PartialEq, Eq, Structural)]
pub enum GameState {
    Aborted,
    Continuation,
    BazaEnded,
    Team0Won,
    Team1Won,
}

/// Why a command was refused; the board is left unchanged.
#[derive(Clone, Copy, Debug, PartialEq, Eq, Structural)]
pub enum GameError {
    InvalidCardIndex,
    IllegalCard,
    IneligibleCante,
    IneligibleTrumfoChange,
    InvalidPlayer,
}

/// The mathematical state of a round.
pub struct BoardView {
    pub current: int,
    pub starter: int,
    pub trumfo: Card,
    pub trumfo_dealt: bool,
    pub deck: Seq<Card>,
    pub hands: Seq<Seq<Card>>,
    pub baza: Seq<Option<Card>>,
    pub won: Seq<Seq<Card>>,
    pub cantes: Seq<bool>,
    pub scores: Seq<int>,
    pub finished: bool,
}

/// The summed point values of a pile.
pub open spec fn pile_points(s: Seq<Card>) -> nat
    decreases s.len(),
{
    if s.len() == 0 {
        0
    } else {
        pile_points(s.drop_last()) + s.last().value()
    }
}

/// The team of a seat: seats 0 and 2 form team 0, seats 1 and 3 team 1.
pub open spec fn team(p: int) -> int {
    p % 2
}

impl BoardView {
    /// How many cards the trick in progress holds.
    pub open spec fn played(self) -> int {
        (self.current - self.starter + 4) % 4
    }

    /// The card in seat `s`'s trick slot.
    pub open spec fn card_at(self, s: int) -> Card {
        self.baza[s].unwrap()
    }

    /// The seat winning the trick among its first `k + 1` cards.
    pub open spec fn winner_upto(self, k: nat) -> int
        decreases k,
    {
        if k == 0 {
            self.starter
        } else {
            let w = self.winner_upto((k - 1) as nat);
            let s = (self.starter + k) % 4;
            if self.card_at(s).beats(self.card_at(w), self.trumfo.pal) {
                s
            } else {
                w
            }
        }
    }

    /// The cards that the seat to act may play.
    pub open spec fn legal(self) -> Seq<Card> {
        let hand = self.hands[self.current];
        let n = self.played();
        let t = self.trumfo.pal;
        if self.deck.len() > 0 || n == 0 {
            hand
        } else {
            let led = self.card_at(self.starter).pal;
            let w = self.winner_upto((n - 1) as nat);
            let wc = self.card_at(w);
            if team(w) == team(self.current) {
                or_else(keep(hand, Some(led), None, t), hand)
            } else {
                or_else(
                    keep(hand, Some(led), Some(wc), t),
                    or_else(keep(hand, Some(led), None, t), or_else(keep(hand, None, Some(wc), t), hand)),
                )
            }
        }
    }

    /// Card `idx` of the seat to act moved into the trick; the turn passes on.
    pub open spec fn place(self, idx: int) -> BoardView {
        let cur = self.current;
        BoardView {
            hands: self.hands.update(cur, self.hands[cur].remove(idx)),
            baza: self.baza.update(cur, Some(self.hands[cur][idx])),
            current: (cur + 1) % 4,
            ..self
        }
    }

    /// The four cards of a full trick, in seat order.
    pub open spec fn trick_cards(self) -> Seq<Card> {
        seq![self.card_at(0), self.card_at(1), self.card_at(2), self.card_at(3)]
    }

    /// A full trick handed to the winning team's pile; the winner leads the next one.
    pub open spec fn collect(self) -> BoardView {
        let w = self.winner_upto(3);
        BoardView {
            won: self.won.update(team(w), self.won[team(w)] + self.trick_cards()),
            baza: seq![None, None, None, None],
            current: w,
            starter: w,
            ..self
        }
    }

    /// Seat `s` draws the deck's next card or, once the deck is out, the trump marker.
    pub open spec fn draw_for(self, s: int) -> BoardView {
        if self.deck.len() > 0 {
            BoardView {
                hands: self.hands.update(s, self.hands[s].push(self.deck.last())),
                deck: self.deck.drop_last(),
                ..self
            }
        } else if !self.trumfo_dealt {
            BoardView {
                hands: self.hands.update(s, self.hands[s].push(self.trumfo)),
                trumfo_dealt: true,
                ..self
            }
        } else {
            self
        }
    }

    /// The first `k` seats, from the one to act, have drawn.
    pub open spec fn draw_round(self, k: nat) -> BoardView
        decreases k,
    {
        if k == 0 {
            self
        } else {
            self.draw_round((k - 1) as nat).draw_for((self.current + k - 1) % 4)
        }
    }

    /// After a trick: every seat draws once while the deck has cards.
    pub open spec fn deal(self) -> BoardView {
        if self.deck.len() > 0 {
            self.draw_round(4)
        } else {
            self
        }
    }

    /// The end of the round: each team adds its pile's points, the last trick's team 10 more.
    pub open spec fn settle(self) -> BoardView {
        BoardView {
            scores: seq![
                self.scores[0] + pile_points(self.won[0]) + if team(self.current) == 0 { 10int } else { 0int },
                self.scores[1] + pile_points(self.won[1]) + if team(self.current) == 1 { 10int } else { 0int },
            ],
            finished: true,
            ..self
        }
    }

    /// The round after the seat to act plays card `idx`.
    pub open spec fn after_play(self, idx: int) -> BoardView {
        let p = self.place(idx);
        if p.played() != 0 {
            p
        } else {
            let d = p.collect().deal();
            if d.hands[0].len() == 0 {
                d.settle()
            } else {
                d
            }
        }
    }

    /// What playing card `idx` reports: the round goes on, a trick was completed, or the
    /// round is over and the team with more points has won (a tie goes to team 1).
    pub open spec fn outcome(self, idx: int) -> GameState {
        let a = self.after_play(idx);
        if self.place(idx).played() != 0 {
            GameState::Continuation
        } else if !a.finished {
            GameState::BazaEnded
        } else if a.scores[0] > a.scores[1] {
            GameState::Team0Won
        } else {
            GameState::Team1Won
        }
    }

    /// Whether `p` may declare `pal`: at the start of a trick, on the team to act, a suit not
    /// declared yet, holding its 10 and its 12.
    pub open spec fn can_cantar(self, p: int, pal: Pal) -> bool {
        &&& self.played() == 0
        &&& team(p) == team(self.current)
        &&& !self.cantes[pal_index(pal)]
        &&& self.hands[p].contains(Card { pal, number: 10 })
        &&& self.hands[p].contains(Card { pal, number: 12 })
    }

    /// The round after `p` declares `pal`: 40 points for the trump suit, 20 for another.
    pub open spec fn cantar_result(self, p: int, pal: Pal) -> BoardView {
        BoardView {
            cantes: self.cantes.update(pal_index(pal), true),
            scores: self.scores.update(
                team(p),
                self.scores[team(p)] + if pal == self.trumfo.pal { 40int } else { 20int },
            ),
            ..self
        }
    }

    /// The seven of the trump suit.
    pub open spec fn seven(self) -> Card {
        Card { pal: self.trumfo.pal, number: 7 }
    }

    /// Whether `p` may exchange the seven of trumps for the marker: at the start of a trick,
    /// on the team to act, while the deck still has cards and the hand more than five.
    pub open spec fn can_exchange(self, p: int) -> bool {
        &&& self.played() == 0
        &&& team(p) == team(self.current)
        &&& self.deck.len() > 0
        &&& self.hands[p].len() > 5
        &&& self.hands[p].contains(self.seven())
    }

    /// The round after `p` exchanges: the seven becomes the marker, the old marker takes its
    /// place in the hand.
    pub open spec fn exchange_result(self, p: int) -> BoardView {
        BoardView {
            hands: self.hands.update(
                p,
                self.hands[p].update(first_index(self.hands[p], self.seven()), self.trumfo),
            ),
            trumfo: self.seven(),
            ..self
        }
    }

    /// The suits, in order, that `p` may declare among the first `k`.
    pub open spec fn available_upto(self, p: int, k: int) -> Seq<Pal>
        decreases k,
    {
        if k <= 0 {
            Seq::empty()
        } else {
            let r = self.available_upto(p, k - 1);
            if self.can_cantar(p, pal_at(k - 1)) {
                r.push(pal_at(k - 1))
            } else {
                r
            }
        }
    }

    /// The round after `p` has declared, in suit order, each of the first `k` suits that it
    /// may declare at that point.
    pub open spec fn cantes_upto(self, p: int, k: int) -> BoardView
        decreases k,
    {
        if k <= 0 {
            self
        } else {
            let b = self.cantes_upto(p, k - 1);
            if b.can_cantar(p, pal_at(k - 1)) {
                b.cantar_result(p, pal_at(k - 1))
            } else {
                b
            }
        }
    }

    /// The round after `p` takes its post-trick actions: every declaration open to it, in
    /// suit order, then the exchange of the seven of trumps if that is open to it.
    pub open spec fn post_actions(self, p: int) -> BoardView {
        let b = self.cantes_upto(p, 4);
        if b.can_exchange(p) {
            b.exchange_result(p)
        } else {
            b
        }
    }

    /// The round after seats `0..n`, in order, take their post-trick actions.
    pub open spec fn seats_act(self, n: int) -> BoardView
        decreases n,
    {
        if n <= 0 {
            self
        } else {
            self.seats_act(n - 1).post_actions(n - 1)
        }
    }

    /// The outcome of a finished round: the team with more points wins, a tie goes to team 1.
    pub open spec fn winner_state(self) -> GameState {
        if self.scores[0] > self.scores[1] {
            GameState::Team0Won
        } else {
            GameState::Team1Won
        }
    }

    /// Cards still to be played, counting a card not yet drawn twice: it drops with every move.
    pub open spec fn remaining(self) -> int {
        2 * (self.deck.len() + if self.trumfo_dealt { 0int } else { 1int }) + self.hands[0].len()
            + self.hands[1].len() + self.hands[2].len() + self.hands[3].len()
    }

    /// Four seats, two teams, four suits.
    pub open spec fn sized(self) -> bool {
        &&& self.hands.len() == 4
        &&& self.baza.len() == 4
        &&& self.won.len() == 2
        &&& self.cantes.len() == 4
        &&& self.scores.len() == 2
        &&& 0 <= self.current < 4
        &&& 0 <= self.starter < 4
    }

    /// The trick is filled in turn order from its leader.
    pub open spec fn shaped(self) -> bool {
        &&& self.sized()
        &&& forall|k: int|
            0 <= k < 4 ==> (#[trigger] self.baza[(self.starter + k) % 4] is Some <==> k
                < self.played())
    }
}

/// A round in progress.
pub struct Board {
    pub current_player: usize,
    pub baza_starter: usize,
    pub current_trumfo: Card,
    pub trumfo_dealt: bool,
    pub deck: Deck,
    pub hands: Vec<Vec<Card>>,
    pub baza: Vec<Option<Card>>,
    pub won: Vec<Vec<Card>>,
    pub cantes: Vec<bool>,
    pub scores: Vec<u32>,
    pub finished: bool,
}

impl View for Board {
    type V = BoardView;

    open spec fn view(&self) -> BoardView {
        BoardView {
            current: self.current_player as int,
            starter: self.baza_starter as int,
            trumfo: self.current_trumfo,
            trumfo_dealt: self.trumfo_dealt,
            deck: self.deck@,
            hands: self.hands@.map_values(|h: Vec<Card>| h@),
            baza: self.baza@,
            won: self.won@.map_values(|h: Vec<Card>| h@),
            cantes: self.cantes@,
            scores: self.scores@.map_values(|x: u32| x as int),
            finished: self.finished,
        }
    }
}

impl BoardView {
    /// 1 when seat `p` has a card in the trick, else 0.
    pub open spec fn filled(self, p: int) -> int {
        if self.baza[p] is Some {
            1
        } else {
            0
        }
    }

    /// How many suits have been declared.
    pub open spec fn declared(self) -> int {
        (if self.cantes[0] { 1int } else { 0int }) + (if self.cantes[1] { 1int } else { 0int }) + (
        if self.cantes[2] { 1int } else { 0int }) + (if self.cantes[3] { 1int } else { 0int })
    }

    /// The invariant of a round: a well-shaped trick, every card exactly once, hands that
    /// differ only by the card already put into the trick, a deck that runs out exactly as
    /// the marker is dealt, and bounded scores.
    pub open spec fn inv(self) -> bool {
        &&& self.shaped()
        &&& self.conserved()
        &&& forall|p: int|
            0 <= p < 4 ==> #[trigger] self.hands[p].len() + self.filled(p) == self.hands[0].len()
                + self.filled(0)
        &&& if self.deck.len() == 0 {
            self.trumfo_dealt
        } else {
            self.deck.len() % 4 == 3 && !self.trumfo_dealt
        }
        &&& self.finished == (self.played() == 0 && self.hands[0].len() == 0)
        &&& self.scores[0] >= 0 && self.scores[1] >= 0
        &&& !self.finished ==> self.scores[0] + self.scores[1] <= 40 * self.declared()
        &&& self.finished ==> self.scores[0] <= 1000 && self.scores[1] <= 1000
    }
}

impl Board {
    /// The board satisfies the round invariant.
    pub open spec fn wf(&self) -> bool {
        self@.inv()
    }

    /// The seat winning the trick among its first `count + 1` cards.
    fn winner(&self, count: usize) -> (r: usize)
        requires
            self@.sized(),
            count < 4,
            forall|k: int| 0 <= k <= count ==> (#[trigger] self.baza@[(self.baza_starter + k) % 4]) is Some,
        ensures
            r == self@.winner_upto(count as nat),
            r < 4,
            self.baza@[r as int] is Some,
    {
        let mut w: usize = self.baza_starter;
        let mut k: usize = 1;
        assert(self.baza@[(self.baza_starter + 0) % 4] is Some);
        while k <= count
            invariant
                self@.sized(),
                1 <= k <= count + 1,
                count < 4,
                forall|j: int| 0 <= j <= count ==> (#[trigger] self.baza@[(self.baza_starter + j) % 4]) is Some,
                w == self@.winner_upto((k - 1) as nat),
                w < 4,
                self.baza@[w as int] is Some,
            decreases count + 1 - k,
        {
            let s = (self.baza_starter + k) % 4;
            assert(self.baza@[(self.baza_starter + k) % 4] is Some);
            let cs = self.baza[s].unwrap();
            let cw = self.baza[w].unwrap();
            if cs.is_better_than(cw, self.current_trumfo.pal) {
                w = s;
            }
            k = k + 1;
        }
        w
    }

    fn place_card(&mut self, idx: usize)
        requires
            old(self)@.sized(),
            idx < old(self)@.hands[old(self)@.current].len(),
        ensures
            final(self)@ == old(self)@.place(idx as int),
    {
        let ghost before = self@;
        let cur = self.current_player;
        let c = self.hands[cur].remove(idx);
        self.baza[cur] = Some(c);
        self.current_player = (cur + 1) % 4;
        assert(self@.hands =~= before.hands.update(cur as int, before.hands[cur as int].remove(idx as int)));
        assert(self@.baza =~= before.baza.update(cur as int, Some(before.hands[cur as int][idx as int])));
    }

    fn collect_baza(&mut self)
        requires
            old(self)@.sized(),
            forall|s: int| 0 <= s < 4 ==> (#[trigger] old(self)@.baza[s]) is Some,
        ensures
            final(self)@ == old(self)@.collect(),
    {
        let ghost before = self@;
        let w = self.winner(3);
        let t = w % 2;
        let c0 = self.baza[0].unwrap();
        let c1 = self.baza[1].unwrap();
        let c2 = self.baza[2].unwrap();
        let c3 = self.baza[3].unwrap();
        self.won[t].push(c0);
        self.won[t].push(c1);
        self.won[t].push(c2);
        self.won[t].push(c3);
        self.baza[0] = None;
        self.baza[1] = None;
        self.baza[2] = None;
        self.baza[3] = None;
        self.current_player = w;
        self.baza_starter = w;
        assert(self@.won[t as int] =~= before.won[t as int] + before.trick_cards());
        assert(self@.won =~= before.won.update(t as int, before.won[t as int] + before.trick_cards()));
        assert(self@.baza =~= seq![None, None, None, None]);
    }

    fn draw_one(&mut self, s: usize)
        requires
            old(self)@.sized(),
            s < 4,
        ensures
            final(self)@ == old(self)@.draw_for(s as int),
    {
        let ghost before = self@;
        match self.deck.draw() {
            Some(c) => {
                self.hands[s].push(c);
                assert(self@.hands =~= before.hands.update(s as int, before.hands[s as int].push(c)));
            },
            None => {
                if !self.trumfo_dealt {
                    let m = self.current_trumfo;
                    self.hands[s].push(m);
                    self.trumfo_dealt = true;
                    assert(self@.hands =~= before.hands.update(s as int, before.hands[s as int].push(m)));
                }
            },
        }
    }

    fn deal_round(&mut self)
        requires
            old(self)@.sized(),
        ensures
            final(self)@ == old(self)@.draw_round(4),
    {
        let ghost before = self@;
        let w = self.current_player;
        let mut k: usize = 0;
        while k < 4
            invariant
                k <= 4,
                w == before.current,
                w < 4,
                self@ == before.draw_round(k as nat),
                self@.sized(),
            decreases 4 - k,
        {
            self.draw_one((w + k) % 4);
            k = k + 1;
        }
    }

    fn pile_total(v: &Vec<Card>) -> (r: u32)
        requires
            v@.len() <= 40,
        ensures
            r == pile_points(v@),
            r <= 440,
    {
        let mut sum: u32 = 0;
        let mut i: usize = 0;
        while i < v.len()
            invariant
                i <= v@.len(),
                v@.len() <= 40,
                sum == pile_points(v@.subrange(0, i as int)),
                sum <= 11 * i,
            decreases v@.len() - i,
        {
            assert(v@.subrange(0, i + 1).drop_last() =~= v@.subrange(0, i as int));
            sum = sum + v[i].points() as u32;
            i = i + 1;
        }
        assert(v@.subrange(0, v@.len() as int) =~= v@);
        sum
    }

    fn settle(&mut self)
        requires
            old(self)@.sized(),
            old(self)@.won[0].len() <= 40,
            old(self)@.won[1].len() <= 40,
            old(self)@.scores[0] <= 200,
            old(self)@.scores[1] <= 200,
        ensures
            final(self)@ == old(self)@.settle(),
    {
        let ghost before = self@;
        let p0 = Board::pile_total(&self.won[0]);
        let p1 = Board::pile_total(&self.won[1]);
        let b0: u32 = if self.current_player % 2 == 0 { 10 } else { 0 };
        let b1: u32 = 10 - b0;
        let s0 = self.scores[0] + p0 + b0;
        let s1 = self.scores[1] + p1 + b1;
        self.scores[0] = s0;
        self.scores[1] = s1;
        self.finished = true;
        assert(self@.scores =~= before.settle().scores);
    }

    /// The cards that the seat to act may play.
    pub fn get_legal_cards(&self) -> (r: Vec<Card>)
        requires
            self.wf(),
        ensures
            r@ == self@.legal(),
    {
        let cur = self.current_player;
        let t = self.current_trumfo.pal;
        let n = (cur + 4 - self.baza_starter) % 4;
        proof {
            lemma_keep_all(self.hands@[cur as int]@, t);
        }
        assert(self@.hands[cur as int] == self.hands@[cur as int]@);
        if !self.deck.is_empty() || n == 0 {
            return select(&self.hands[cur], None, None, t);
        }
        assert(self@.played() > 0);
        assert(self.baza@[(self.baza_starter + 0) % 4] is Some);
        let led = self.baza[self.baza_starter].unwrap().pal;
        let w = self.winner(n - 1);
        let wc = self.baza[w].unwrap();
        let hand = &self.hands[cur];
        if w % 2 == cur % 2 {
            let a = select(hand, Some(led), None, t);
            if a.len() > 0 {
                a
            } else {
                select(hand, None, None, t)
            }
        } else {
            let a = select(hand, Some(led), Some(wc), t);
            if a.len() > 0 {
                return a;
            }
            let b = select(hand, Some(led), None, t);
            if b.len() > 0 {
                return b;
            }
            let d = select(hand, None, Some(wc), t);
            if d.len() > 0 {
                return d;
            }
            select(hand, None, None, t)
        }
    }

    /// Plays card `idx` of the seat to act. Refused, with the board unchanged, when the
    /// index is out of the hand or the card is not among the legal cards. A fourth card
    /// resolves the trick, lets every seat draw and, once the hands are out, settles the
    /// round.
    pub fn play_card(&mut self, idx: usize) -> (r: Result<GameState, GameError>)
        requires
            old(self).wf(),
        ensures
            final(self).wf(),
            idx >= old(self)@.hands[old(self)@.current].len() ==> r == Err::<GameState, GameError>(
                GameError::InvalidCardIndex,
            ),
            idx < old(self)@.hands[old(self)@.current].len() && !old(self)@.legal().contains(
                old(self)@.hands[old(self)@.current][idx as int],
            ) ==> r == Err::<GameState, GameError>(GameError::IllegalCard),
            r is Err ==> final(self)@ == old(self)@,
            idx < old(self)@.hands[old(self)@.current].len() && old(self)@.legal().contains(
                old(self)@.hands[old(self)@.current][idx as int],
            ) ==> r == Ok::<GameState, GameError>(old(self)@.outcome(idx as int)) && final(self)@
                == old(self)@.after_play(idx as int),
    {
        let ghost before = self@;
        let cur = self.current_player;
        assert(self@.hands[cur as int] == self.hands@[cur as int]@);
        if idx >= self.hands[cur].len() {
            return Err(GameError::InvalidCardIndex);
        }
        let legal = self.get_legal_cards();
        let c = self.hands[cur][idx];
        if !holds(&legal, c) {
            return Err(GameError::IllegalCard);
        }
        proof {
            lemma_place_inv(before, idx as int);
        }
        self.place_card(idx);
        if self.current_player != self.baza_starter {
            return Ok(GameState::Continuation);
        }
        proof {
            lemma_full_trick(before, idx as int);
        }
        self.collect_baza();
        if !self.deck.is_empty() {
            self.deal_round();
        }
        assert(self@ == before.place(idx as int).collect().deal());
        assert(self@.hands[0] == self.hands@[0]@);
        if self.hands[0].len() == 0 {
            self.settle();
            if self.scores[0] > self.scores[1] {
                Ok(GameState::Team0Won)
            } else {
                Ok(GameState::Team1Won)
            }
        } else {
            Ok(GameState::BazaEnded)
        }
    }

    /// Whether `player` may declare `pal` now.
    fn cantar_allowed(&self, player: usize, pal: Pal) -> (r: bool)
        requires
            self.wf(),
            player < 4,
        ensures
            r == self@.can_cantar(player as int, pal),
    {
        let h = &self.hands[player];
        assert(self@.hands[player as int] == h@);
        self.current_player == self.baza_starter && player % 2 == self.current_player % 2
            && !self.cantes[index_of_pal(pal)] && holds(h, Card { pal, number: 10 }) && holds(
            h,
            Card { pal, number: 12 },
        )
    }

    /// `player` declares `pal`, for 40 points to the team when `pal` is the trump suit and
    /// 20 otherwise.
    pub fn cantar(&mut self, player: usize, pal: Pal) -> (r: Result<(), GameError>)
        requires
            old(self).wf(),
        ensures
            final(self).wf(),
            player >= 4 ==> r == Err::<(), GameError>(GameError::InvalidPlayer),
            player < 4 && !old(self)@.can_cantar(player as int, pal) ==> r == Err::<(), GameError>(
                GameError::IneligibleCante,
            ),
            player < 4 && old(self)@.can_cantar(player as int, pal) ==> r is Ok,
            r is Ok ==> final(self)@ == old(self)@.cantar_result(player as int, pal),
            r is Err ==> final(self)@ == old(self)@,
    {
        if player >= 4 {
            return Err(GameError::InvalidPlayer);
        }
        if !self.cantar_allowed(player, pal) {
            return Err(GameError::IneligibleCante);
        }
        let ghost before = self@;
        proof {
            lemma_cantar_inv(before, player as int, pal);
        }
        let t = player % 2;
        let bonus: u32 = if pal == self.current_trumfo.pal { 40 } else { 20 };
        let i = index_of_pal(pal);
        self.cantes[i] = true;
        let v = self.scores[t] + bonus;
        self.scores[t] = v;
        assert(self@.scores =~= before.cantar_result(player as int, pal).scores);
        assert(self@.cantes =~= before.cantar_result(player as int, pal).cantes);
        Ok(())
    }

    /// The suits, in order, that `player` may declare now.
    pub fn get_available_cantes(&self, player: usize) -> (r: Vec<Pal>)
        requires
            self.wf(),
        ensures
            player >= 4 ==> r@.len() == 0,
            player < 4 ==> r@ == self@.available_upto(player as int, 4),
    {
        let mut r: Vec<Pal> = Vec::new();
        if player >= 4 {
            return r;
        }
        let mut k: usize = 0;
        while k < 4
            invariant
                k <= 4,
                player < 4,
                self.wf(),
                r@ == self@.available_upto(player as int, k as int),
            decreases 4 - k,
        {
            let pal = pal_from_index(k);
            if self.cantar_allowed(player, pal) {
                r.push(pal);
            }
            k = k + 1;
        }
        r
    }

    /// Whether `player` may exchange the seven of trumps for the marker now.
    pub fn is_canvi_trumfo_available(&self, player: usize) -> (r: Result<(), GameError>)
        requires
            self.wf(),
        ensures
            player >= 4 ==> r == Err::<(), GameError>(GameError::InvalidPlayer),
            player < 4 && !self@.can_exchange(player as int) ==> r == Err::<(), GameError>(
                GameError::IneligibleTrumfoChange,
            ),
            player < 4 && self@.can_exchange(player as int) ==> r is Ok,
    {
        if player >= 4 {
            return Err(GameError::InvalidPlayer);
        }
        let h = &self.hands[player];
        assert(self@.hands[player as int] == h@);
        let seven = Card { pal: self.current_trumfo.pal, number: 7 };
        if self.current_player == self.baza_starter && player % 2 == self.current_player % 2
            && !self.deck.is_empty() && h.len() > 5 && holds(h, seven) {
            Ok(())
        } else {
            Err(GameError::IneligibleTrumfoChange)
        }
    }

    /// `player` exchanges the seven of trumps in hand for the trump marker.
    pub fn change_trumfo_card(&mut self, player: usize) -> (r: Result<(), GameError>)
        requires
            old(self).wf(),
        ensures
            final(self).wf(),
            player >= 4 ==> r == Err::<(), GameError>(GameError::InvalidPlayer),
            player < 4 && !old(self)@.can_exchange(player as int) ==> r == Err::<(), GameError>(
                GameError::IneligibleTrumfoChange,
            ),
            player < 4 && old(self)@.can_exchange(player as int) ==> r is Ok,
            r is Ok ==> final(self)@ == old(self)@.exchange_result(player as int),
            r is Err ==> final(self)@ == old(self)@,
    {
        match self.is_canvi_trumfo_available(player) {
            Err(e) => {
                return Err(e);
            },
            Ok(()) => {},
        }
        let ghost before = self@;
        proof {
            lemma_exchange_inv(before, player as int);
        }
        let seven = Card { pal: self.current_trumfo.pal, number: 7 };
        assert(self@.hands[player as int] == self.hands@[player as int]@);
        let j = position(&self.hands[player], seven).unwrap();
        let m = self.current_trumfo;
        self.hands[player][j] = m;
        self.current_trumfo = seven;
        assert(self@.hands =~= before.exchange_result(player as int).hands);
        Ok(())
    }

    /// A copy of the hand of the seat to act.
    pub fn get_current_player_hand(&self) -> (r: Vec<Card>)
        requires
            self.wf(),
        ensures
            r@ == self@.hands[self@.current],
    {
        proof {
            lemma_keep_all(self.hands@[self.current_player as int]@, self.current_trumfo.pal);
        }
        select(&self.hands[self.current_player], None, None, self.current_trumfo.pal)
    }

    /// A round dealt from `deck`, whose last card goes first: six cards to each seat in
    /// turn from seat 0, then the next card becomes the trump marker. `starting_player`
    /// leads the first trick.
    pub fn from_deck(deck: Deck, starting_player: usize) -> (r: Board)
        requires
            deck@.to_multiset() == full_deck().to_multiset(),
            starting_player < 4,
        ensures
            r.wf(),
            r@.current == starting_player,
            r@.starter == starting_player,
            r@.deck == deck@.subrange(0, 15),
            r@.trumfo == deck@[15],
            !r@.trumfo_dealt,
            forall|q: int, j: int|
                0 <= q < 4 && 0 <= j < 6 ==> #[trigger] r@.hands[q][j] == deck@[39 - 4 * j - q],
            forall|q: int| 0 <= q < 4 ==> #[trigger] r@.hands[q].len() == 6,
            forall|s: int| 0 <= s < 4 ==> (#[trigger] r@.baza[s]) is None,
            r@.won[0].len() == 0 && r@.won[1].len() == 0,
            r@.scores[0] == 0 && r@.scores[1] == 0,
            forall|s: int| 0 <= s < 4 ==> !(#[trigger] r@.cantes[s]),
            !r@.finished,
    {
        let ghost d0 = deck@;
        assert(d0.len() == 40) by {
            assert(full_deck().len() == 40);
            assert(d0.to_multiset().len() == d0.len());
            assert(full_deck().to_multiset().len() == full_deck().len());
        }
        let mut b = Board {
            current_player: starting_player,
            baza_starter: starting_player,
            current_trumfo: Card { pal: Pal::Orus, number: 1 },
            trumfo_dealt: true,
            deck,
            hands: vec![Vec::new(), Vec::new(), Vec::new(), Vec::new()],
            baza: vec![None, None, None, None],
            won: vec![Vec::new(), Vec::new()],
            cantes: vec![false, false, false, false],
            scores: vec![0, 0],
            finished: false,
        };
        assert(b@.hands_ms() =~= Multiset::empty());
        assert(b@.baza_ms() =~= Multiset::empty());
        assert(b@.won_ms() =~= Multiset::empty());
        assert(b@.all_cards() =~= full_deck().to_multiset());
        let mut i: usize = 0;
        while i < 24
            invariant
                i <= 24,
                d0.len() == 40,
                b@.sized(),
                b@.trumfo_dealt,
                b@.current == starting_player,
                b@.starter == starting_player,
                b@.all_cards() == full_deck().to_multiset(),
                b@.deck == d0.subrange(0, 40 - i),
                forall|q: int| 0 <= q < 4 ==> #[trigger] b@.hands[q].len() == (i + 3 - q) / 4,
                forall|q: int, j: int|
                    0 <= q < 4 && 0 <= j < b@.hands[q].len() ==> #[trigger] b@.hands[q][j] == d0[39
                        - 4 * j - q],
                b@.baza == seq![None::<Card>, None, None, None],
                b@.won == seq![Seq::<Card>::empty(), Seq::<Card>::empty()],
                b@.scores == seq![0int, 0int],
                b@.cantes == seq![false, false, false, false],
                !b@.finished,
            decreases 24 - i,
        {
            proof {
                crate::conservation::lemma_draw_keeps_cards(b@, (i % 4) as int);
            }
            b.draw_one(i % 4);
            assert(b@.deck =~= d0.subrange(0, 40 - (i + 1)));
            i = i + 1;
        }
        let ghost pre = b@;
        let m = b.deck.draw().unwrap();
        b.current_trumfo = m;
        b.trumfo_dealt = false;
        assert(pre.deck.drop_last().push(m) =~= pre.deck);
        assert(b@.all_cards() =~= pre.all_cards());
        assert(b@.deck =~= d0.subrange(0, 15));
        assert(b@.played() == 0);
        assert(b@.declared() == 0);
        b
    }

    /// A round with a freshly shuffled deck; `starting_player` leads the first trick.
    pub fn new(starting_player: usize) -> (r: Board)
        requires
            starting_player < 4,
        ensures
            r.wf(),
            r@.current == starting_player,
            r@.starter == starting_player,
            forall|q: int| 0 <= q < 4 ==> #[trigger] r@.hands[q].len() == 6,
            r@.deck.len() == 15,
            !r@.trumfo_dealt,
            forall|s: int| 0 <= s < 4 ==> (#[trigger] r@.baza[s]) is None,
            r@.won[0].len() == 0 && r@.won[1].len() == 0,
            r@.scores[0] == 0 && r@.scores[1] == 0,
            forall|s: int| 0 <= s < 4 ==> !(#[trigger] r@.cantes[s]),
            !r@.finished,
    {
        Board::from_deck(Deck::new(), starting_player)
    }
}

} // verus!
