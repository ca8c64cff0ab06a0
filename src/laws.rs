use vstd::prelude::*;
use crate::card::{Card, Pal, full_deck};
use crate::board::{BoardView, team};
use crate::card::pal_at;
use crate::round_proofs::{
    lemma_place_inv, lemma_full_trick, lemma_cantar_inv, lemma_exchange_inv, lemma_legal_in_hand,
};

verus! {

/// Each of the 40 cards stays in the round exactly once: playing a card of the hand,
/// declaring, or exchanging the seven of trumps turns a round that holds deck, hands, trick,
/// piles and marker as exactly the 40 cards into one that still does.
pub proof fn law_cards_conserved(v: BoardView, idx: int, p: int, pal: Pal)
    requires
        v.inv(),
        0 <= p < 4,
    ensures
        v.conserved(),
        0 <= idx < v.hands[v.current].len() ==> v.after_play(idx).all_cards()
            == full_deck().to_multiset(),
        v.can_cantar(p, pal) ==> v.cantar_result(p, pal).all_cards() == full_deck().to_multiset(),
        v.can_exchange(p) ==> v.exchange_result(p).all_cards() == full_deck().to_multiset(),
{
    if 0 <= idx < v.hands[v.current].len() {
        lemma_place_inv(v, idx);
        if v.place(idx).played() == 0 {
            lemma_full_trick(v, idx);
        }
    }
    if v.can_cantar(p, pal) {
        lemma_cantar_inv(v, p, pal);
    }
    if v.can_exchange(p) {
        lemma_exchange_inv(v, p);
    }
}

/// A trick has four slots, one per seat, and the move that fills the last one leaves the
/// trick empty.
pub proof fn law_trick_reset(v: BoardView, idx: int)
    requires
        v.inv(),
        0 <= idx < v.hands[v.current].len(),
    ensures
        v.after_play(idx).baza.len() == 4,
        v.played() == 3 ==> forall|s: int| 0 <= s < 4 ==> (#[trigger] v.after_play(idx).baza[s]) is None,
        v.played() < 3 ==> v.after_play(idx).played() == v.played() + 1,
{
    lemma_place_inv(v, idx);
    assert(v.current == (v.starter + v.played()) % 4);
    if v.place(idx).played() == 0 {
        lemma_full_trick(v, idx);
        let c = v.place(idx).collect();
        crate::conservation::lemma_draw_round_keeps_cards(c, 4);
        assert(c.deal().baza == c.baza);
    }
}

/// Once the deck is out and a trick is under way, the legal cards are never empty and are
/// all cards of the hand of the seat to act.
pub proof fn law_legal_sound(v: BoardView)
    requires
        v.inv(),
        v.deck.len() == 0,
        v.played() > 0,
    ensures
        v.legal().len() > 0,
        forall|c: Card| #[trigger] v.legal().contains(c) ==> v.hands[v.current].contains(c),
{
    crate::round_proofs::lemma_live_hand(v);
    lemma_legal_in_hand(v);
}

/// Two distinct cards of one suit, or where one is a trump: exactly one of them beats the other.
pub proof fn law_comparator_strict(a: Card, b: Card, trump: Pal)
    requires
        a != b,
        a.pal == b.pal || a.pal == trump || b.pal == trump,
    ensures
        a.beats(b, trump) != b.beats(a, trump),
{
}

/// A suit is declared at most once a round: after a declaration of `pal`, no seat may
/// declare it again.
pub proof fn law_cantar_once(v: BoardView, p: int, q: int, pal: Pal)
    requires
        v.inv(),
        0 <= p < 4,
        v.can_cantar(p, pal),
    ensures
        !v.cantar_result(p, pal).can_cantar(q, pal),
{
}

proof fn lemma_draw_round_prefix(v: BoardView, k: nat)
    requires
        v.sized(),
    ensures
        forall|q: int|
            0 <= q < 4 ==> v.hands[q].len() <= (#[trigger] v.draw_round(k).hands[q]).len()
                && v.draw_round(k).hands[q].subrange(0, v.hands[q].len() as int) == v.hands[q],
        v.draw_round(k).sized(),
    decreases k,
{
    if k > 0 {
        lemma_draw_round_prefix(v, (k - 1) as nat);
        crate::conservation::lemma_draw_keeps_cards(v.draw_round((k - 1) as nat), (v.current + k - 1) % 4);
        let b = v.draw_round((k - 1) as nat);
        let c = v.draw_round(k);
        assert forall|q: int| 0 <= q < 4 implies v.hands[q].len() <= (#[trigger] c.hands[q]).len()
            && c.hands[q].subrange(0, v.hands[q].len() as int) == v.hands[q] by {
            assert(c.hands[q].subrange(0, v.hands[q].len() as int) =~= b.hands[q].subrange(
                0,
                v.hands[q].len() as int,
            ));
        }
    }
}

/// A move takes the played card out of the mover's hand and keeps the other cards in their
/// order; a card drawn after the trick only comes after them.
pub proof fn law_play_keeps_hand_order(v: BoardView, idx: int)
    requires
        v.inv(),
        0 <= idx < v.hands[v.current].len(),
    ensures
        v.after_play(idx).hands[v.current].len() >= v.hands[v.current].len() - 1,
        v.after_play(idx).hands[v.current].subrange(0, v.hands[v.current].len() - 1)
            == v.hands[v.current].remove(idx),
{
    lemma_place_inv(v, idx);
    let p = v.place(idx);
    if p.played() == 0 {
        lemma_full_trick(v, idx);
        let c = p.collect();
        lemma_draw_round_prefix(c, 4);
    } else {
        assert(p.hands[v.current].subrange(0, v.hands[v.current].len() - 1) =~= p.hands[v.current]);
    }
}

/// The points a declaration of suit `k` earns on `v`: 40 for the trump suit, 20 otherwise.
pub open spec fn cante_bonus(v: BoardView, k: int) -> int {
    if pal_at(k) == v.trumfo.pal {
        40
    } else {
        20
    }
}

/// The points earned by the suits among the first `k` that are declared in `w` and were not
/// in `v`.
pub open spec fn bonus_sum(v: BoardView, w: BoardView, k: int) -> int
    decreases k,
{
    if k <= 0 {
        0
    } else {
        bonus_sum(v, w, k - 1) + if w.cantes[k - 1] && !v.cantes[k - 1] {
            cante_bonus(v, k - 1)
        } else {
            0
        }
    }
}

proof fn lemma_bonus_sum_same(v: BoardView, w1: BoardView, w2: BoardView, k: int)
    requires
        forall|j: int| 0 <= j < k ==> w1.cantes[j] == w2.cantes[j],
    ensures
        bonus_sum(v, w1, k) == bonus_sum(v, w2, k),
    decreases k,
{
    if k > 0 {
        lemma_bonus_sum_same(v, w1, w2, k - 1);
    }
}

proof fn lemma_cantes_upto(v: BoardView, p: int, n: int)
    requires
        v.sized(),
        0 <= p < 4,
        0 <= n <= 4,
    ensures
        v.cantes_upto(p, n).hands == v.hands,
        v.cantes_upto(p, n).current == v.current,
        v.cantes_upto(p, n).starter == v.starter,
        v.cantes_upto(p, n).baza == v.baza,
        v.cantes_upto(p, n).deck == v.deck,
        v.cantes_upto(p, n).won == v.won,
        v.cantes_upto(p, n).trumfo == v.trumfo,
        v.cantes_upto(p, n).trumfo_dealt == v.trumfo_dealt,
        v.cantes_upto(p, n).finished == v.finished,
        v.cantes_upto(p, n).cantes.len() == 4,
        v.cantes_upto(p, n).scores.len() == 2,
        forall|j: int| n <= j < 4 ==> #[trigger] v.cantes_upto(p, n).cantes[j] == v.cantes[j],
        forall|j: int| 0 <= j < 4 && v.cantes[j] ==> #[trigger] v.cantes_upto(p, n).cantes[j],
        forall|j: int| 0 <= j < n ==> !v.cantes_upto(p, n).can_cantar(p, #[trigger] pal_at(j)),
        v.cantes_upto(p, n).scores[team(p)] == v.scores[team(p)] + bonus_sum(
            v,
            v.cantes_upto(p, n),
            n,
        ),
        v.cantes_upto(p, n).scores[1 - team(p)] == v.scores[1 - team(p)],
    decreases n,
{
    if n > 0 {
        lemma_cantes_upto(v, p, n - 1);
        let b = v.cantes_upto(p, n - 1);
        let c = v.cantes_upto(p, n);
        assert(crate::card::pal_index(pal_at(n - 1)) == n - 1);
        assert forall|j: int| 0 <= j < n - 1 implies c.cantes[j] == b.cantes[j] by {}
        lemma_bonus_sum_same(v, c, b, n - 1);
        assert forall|j: int| 0 <= j < n implies !c.can_cantar(p, #[trigger] pal_at(j)) by {
            assert(crate::card::pal_index(pal_at(j)) == j);
        }
    }
}

/// The post-trick actions of seat `p` score exactly the declarations they make: 40 for the
/// trump suit and 20 for another, for each suit that was not declared before, all to `p`'s
/// team; the other team's score does not move, and a suit declared before stays declared
/// and earns nothing again.
pub proof fn law_post_actions_scores(v: BoardView, p: int)
    requires
        v.inv(),
        0 <= p < 4,
    ensures
        v.post_actions(p).scores[team(p)] == v.scores[team(p)] + bonus_sum(
            v,
            v.post_actions(p),
            4,
        ),
        v.post_actions(p).scores[1 - team(p)] == v.scores[1 - team(p)],
        forall|k: int| 0 <= k < 4 && v.cantes[k] ==> #[trigger] v.post_actions(p).cantes[k],
        forall|k: int|
            0 <= k < 4 && !v.cantes[k] ==> (#[trigger] v.post_actions(p).cantes[k] <==> v.cantes_upto(
                p,
                k,
            ).can_cantar(p, pal_at(k))),
        v.post_actions(p).trumfo.pal == v.trumfo.pal,
{
    lemma_cantes_upto(v, p, 4);
    let c = v.cantes_upto(p, 4);
    let w = v.post_actions(p);
    lemma_bonus_sum_same(v, w, c, 4);
    assert forall|k: int| 0 <= k < 4 && !v.cantes[k] implies (#[trigger] w.cantes[k]
        <==> v.cantes_upto(p, k).can_cantar(p, pal_at(k))) by {
        lemma_cantes_upto(v, p, k);
        lemma_cantes_upto(v, p, k + 1);
        assert(crate::card::pal_index(pal_at(k)) == k);
        if k + 1 < 4 {
            lemma_cantes_upto_from(v, p, k + 1);
        }
    }
}

/// Declarations made after step `n` leave the flag of suit `n - 1` as it was.
proof fn lemma_cantes_upto_from(v: BoardView, p: int, n: int)
    requires
        v.sized(),
        0 <= p < 4,
        1 <= n <= 4,
    ensures
        forall|m: int| n <= m <= 4 ==> #[trigger] v.cantes_upto(p, m).cantes[n - 1]
            == v.cantes_upto(p, n).cantes[n - 1],
{
    assert forall|m: int| n <= m <= 4 implies #[trigger] v.cantes_upto(p, m).cantes[n - 1]
        == v.cantes_upto(p, n).cantes[n - 1] by {
        lemma_cantes_upto_step(v, p, n, m);
    }
}

proof fn lemma_cantes_upto_step(v: BoardView, p: int, n: int, m: int)
    requires
        v.sized(),
        0 <= p < 4,
        1 <= n <= m <= 4,
    ensures
        v.cantes_upto(p, m).cantes[n - 1] == v.cantes_upto(p, n).cantes[n - 1],
    decreases m - n,
{
    if m > n {
        lemma_cantes_upto_step(v, p, n, m - 1);
        lemma_cantes_upto(v, p, m - 1);
        assert(crate::card::pal_index(pal_at(m - 1)) == m - 1);
    }
}

/// Declaring is done in one pass: once seat `p` has declared all it may, a second pass of
/// declarations by `p` changes nothing.
pub proof fn law_declarations_once(v: BoardView, p: int)
    requires
        v.inv(),
        0 <= p < 4,
    ensures
        v.cantes_upto(p, 4).cantes_upto(p, 4) == v.cantes_upto(p, 4),
{
    lemma_cantes_upto(v, p, 4);
    let c = v.cantes_upto(p, 4);
    lemma_no_more_cantes(c, p, 4);
}

proof fn lemma_no_more_cantes(c: BoardView, p: int, n: int)
    requires
        0 <= n <= 4,
        forall|j: int| 0 <= j < 4 ==> !c.can_cantar(p, #[trigger] pal_at(j)),
    ensures
        c.cantes_upto(p, n) == c,
    decreases n,
{
    if n > 0 {
        lemma_no_more_cantes(c, p, n - 1);
        assert(!c.can_cantar(p, pal_at(n - 1)));
    }
}

} // verus!
