use vstd::prelude::*;
use crate::board::{BoardView, team};
use crate::card::Card;
use crate::rules::{first_index, is_first, lemma_keep_subset};
use crate::conservation::{
    lemma_place_keeps_cards, lemma_collect_keeps_cards, lemma_draw_round_keeps_cards,
    lemma_conserved_sizes, lemma_pile_points_bound,
};

verus! {

broadcast use vstd::seq_lib::group_to_multiset_ensures;

pub proof fn lemma_place_inv(v: BoardView, idx: int)
    requires
        v.inv(),
        0 <= idx < v.hands[v.current].len(),
    ensures
        v.place(idx).sized(),
        v.place(idx).all_cards() == v.all_cards(),
        !v.finished,
        v.place(idx).played() != 0 ==> v.place(idx).inv(),
        v.place(idx).remaining() == v.remaining() - 1,
        v.place(idx).played() == 0 ==> forall|s: int| 0 <= s < 4 ==> (#[trigger] v.place(idx).baza[s]) is Some,
{
    let p = v.place(idx);
    let n = v.played();
    assert(v.current == (v.starter + n) % 4);
    assert(v.baza[(v.starter + n) % 4] is None);
    lemma_place_keeps_cards(v, idx);
    if v.finished {
        assert(v.hands[v.current].len() + v.filled(v.current) == v.hands[0].len() + v.filled(0));
        let k0 = (0 - v.starter + 4) % 4;
        assert(0 == (v.starter + k0) % 4);
        assert(v.baza[(v.starter + k0) % 4] is None);
        assert(v.filled(0) == 0);
        assert(v.filled(v.current) == 0);
        assert(false);
    }
    assert forall|k: int| 0 <= k < 4 implies (#[trigger] p.baza[(p.starter + k) % 4] is Some <==> k
        < p.played() || p.played() == 0) by {
        assert(v.baza[(v.starter + k) % 4] is Some <==> k < n);
    }
    if p.played() == 0 {
        assert forall|s: int| 0 <= s < 4 implies (#[trigger] p.baza[s]) is Some by {
            let k = (s - p.starter + 4) % 4;
            assert(s == (p.starter + k) % 4);
            assert(p.baza[(p.starter + k) % 4] is Some);
        }
    } else {
        assert forall|q: int| 0 <= q < 4 implies #[trigger] p.hands[q].len() + p.filled(q)
            == p.hands[0].len() + p.filled(0) by {
            assert(v.hands[q].len() + v.filled(q) == v.hands[0].len() + v.filled(0));
        }
        assert(p.declared() == v.declared());
    }
}

pub proof fn lemma_winner_range(v: BoardView, k: nat)
    requires
        0 <= v.starter < 4,
    ensures
        0 <= v.winner_upto(k) < 4,
    decreases k,
{
    if k > 0 {
        lemma_winner_range(v, (k - 1) as nat);
    }
}

/// Four draws in a row from a deck of `3 mod 4` cards, the marker still on the table: each
/// seat receives one card, and the deck runs out exactly when the marker is dealt.
pub proof fn lemma_deal_sizes(c: BoardView, h: int)
    requires
        c.sized(),
        c.deck.len() > 0,
        c.deck.len() % 4 == 3,
        !c.trumfo_dealt,
        forall|q: int| 0 <= q < 4 ==> #[trigger] c.hands[q].len() == h,
    ensures
        forall|q: int| 0 <= q < 4 ==> #[trigger] c.draw_round(4).hands[q].len() == h + 1,
        c.draw_round(4).deck.len() + (if c.draw_round(4).trumfo_dealt { 0int } else { 1int })
            == c.deck.len() + 1 - 4,
        if c.draw_round(4).deck.len() == 0 {
            c.draw_round(4).trumfo_dealt
        } else {
            c.draw_round(4).deck.len() % 4 == 3 && !c.draw_round(4).trumfo_dealt
        },
{
    let l = c.deck.len();
    let s = c.current;
    let r1 = c.draw_round(1);
    let r2 = c.draw_round(2);
    let r3 = c.draw_round(3);
    let r4 = c.draw_round(4);
    assert(c.draw_round(0) == c);
    assert(r1 == c.draw_for(s % 4));
    assert(r2 == r1.draw_for((s + 1) % 4));
    assert(r3 == r2.draw_for((s + 2) % 4));
    assert(r4 == r3.draw_for((s + 3) % 4));
    assert(r1.deck.len() == l - 1 && !r1.trumfo_dealt);
    assert(r2.deck.len() == l - 2 && !r2.trumfo_dealt);
    assert(r3.deck.len() == l - 3 && !r3.trumfo_dealt);
    assert forall|q: int| 0 <= q < 4 implies #[trigger] r4.hands[q].len() == h + 1 by {
        assert(r1.hands[q].len() == h + if q == s % 4 { 1int } else { 0int });
        assert(r2.hands[q].len() == r1.hands[q].len() + if q == (s + 1) % 4 { 1int } else { 0int });
        assert(r3.hands[q].len() == r2.hands[q].len() + if q == (s + 2) % 4 { 1int } else { 0int });
        assert(r4.hands[q].len() == r3.hands[q].len() + if q == (s + 3) % 4 { 1int } else { 0int });
    }
}

/// A move that completes the trick: collecting it, drawing and, at the end, settling keep
/// the invariant.
pub proof fn lemma_full_trick(v: BoardView, idx: int)
    requires
        v.inv(),
        0 <= idx < v.hands[v.current].len(),
        v.place(idx).played() == 0,
    ensures
        v.place(idx).collect().sized(),
        v.place(idx).collect().deal().sized(),
        v.place(idx).collect().deal().won[0].len() <= 40,
        v.place(idx).collect().deal().won[1].len() <= 40,
        v.place(idx).collect().deal().scores[0] <= 200,
        v.place(idx).collect().deal().scores[1] <= 200,
        v.after_play(idx).inv(),
        v.after_play(idx).remaining() < v.remaining(),
{
    lemma_place_inv(v, idx);
    let p = v.place(idx);
    let c = p.collect();
    let d = c.deal();
    lemma_winner_range(p, 3);
    lemma_collect_keeps_cards(p);
    let h: int = p.hands[0].len() as int;
    assert forall|q: int| 0 <= q < 4 implies #[trigger] c.hands[q].len() == h by {
        assert(v.hands[q].len() + v.filled(q) == v.hands[0].len() + v.filled(0));
        assert(p.baza[q] is Some);
        assert(p.baza[0] is Some);
        if q == v.current {
        } else {
        }
    }
    lemma_draw_round_keeps_cards(c, 4);
    if c.deck.len() > 0 {
        lemma_deal_sizes(c, h);
    }
    assert(d.remaining() < v.remaining());
    assert(d.all_cards() == v.all_cards());
    assert(d.conserved());
    lemma_conserved_sizes(d);
    assert(d.declared() == v.declared());
    assert forall|k: int| 0 <= k < 4 implies (#[trigger] d.baza[(d.starter + k) % 4] is Some <==> k
        < d.played()) by {}
    assert forall|q: int| 0 <= q < 4 implies #[trigger] d.hands[q].len() + d.filled(q)
        == d.hands[0].len() + d.filled(0) by {}
    if d.hands[0].len() == 0 {
        let e = d.settle();
        lemma_pile_points_bound(d.won[0]);
        lemma_pile_points_bound(d.won[1]);
        assert(e.all_cards() =~= d.all_cards());
        assert forall|k: int| 0 <= k < 4 implies (#[trigger] e.baza[(e.starter + k) % 4] is Some <==> k
            < e.played()) by {}
        assert forall|q: int| 0 <= q < 4 implies #[trigger] e.hands[q].len() + e.filled(q)
            == e.hands[0].len() + e.filled(0) by {}
    }
}

/// Once the trick is empty, every slot is.
pub proof fn lemma_trick_empty(v: BoardView)
    requires
        v.shaped(),
        v.played() == 0,
    ensures
        forall|s: int| 0 <= s < 4 ==> (#[trigger] v.baza[s]) is None,
{
    assert forall|s: int| 0 <= s < 4 implies (#[trigger] v.baza[s]) is None by {
        let k = (s - v.starter + 4) % 4;
        assert(s == (v.starter + k) % 4);
        assert(v.baza[(v.starter + k) % 4] is None);
    }
}

/// A finished round has no card left in any hand.
pub proof fn lemma_finished_hands(v: BoardView)
    requires
        v.inv(),
        v.finished,
    ensures
        forall|q: int| 0 <= q < 4 ==> (#[trigger] v.hands[q]).len() == 0,
{
    lemma_trick_empty(v);
    assert forall|q: int| 0 <= q < 4 implies (#[trigger] v.hands[q]).len() == 0 by {
        assert(v.hands[q].len() + v.filled(q) == v.hands[0].len() + v.filled(0));
    }
}

pub proof fn lemma_cantar_inv(v: BoardView, p: int, pal: crate::card::Pal)
    requires
        v.inv(),
        0 <= p < 4,
        v.can_cantar(p, pal),
    ensures
        v.cantar_result(p, pal).inv(),
        !v.finished,
        v.scores[team(p)] <= 120,
{
    if v.finished {
        lemma_finished_hands(v);
        assert(v.hands[p].len() == 0);
        assert(v.hands[p].contains(Card { pal, number: 10 }));
    }
    let r = v.cantar_result(p, pal);
    assert(r.all_cards() =~= v.all_cards());
    assert(v.declared() <= 3);
    assert(r.declared() == v.declared() + 1);
    assert forall|q: int| 0 <= q < 4 implies #[trigger] r.hands[q].len() + r.filled(q)
        == r.hands[0].len() + r.filled(0) by {
        assert(v.hands[q].len() + v.filled(q) == v.hands[0].len() + v.filled(0));
    }
}

pub proof fn lemma_update_multiset(s: Seq<Card>, j: int, x: Card)
    requires
        0 <= j < s.len(),
    ensures
        s.update(j, x).to_multiset() == s.to_multiset().remove(s[j]).insert(x),
{
    let u = s.update(j, x);
    assert(u.remove(j) =~= s.remove(j));
    assert(u.to_multiset().count(x) > 0) by {
        assert(u.contains(x)) by {
            assert(u[j] == x);
        }
    }
    assert(u.to_multiset() =~= u.to_multiset().remove(x).insert(x));
}

pub proof fn lemma_exchange_inv(v: BoardView, p: int)
    requires
        v.inv(),
        0 <= p < 4,
        v.can_exchange(p),
    ensures
        v.exchange_result(p).inv(),
{
    let r = v.exchange_result(p);
    let h = v.hands[p];
    let seven = v.seven();
    let j = first_index(h, seven);
    let k = choose|k: int| 0 <= k < h.len() && h[k] == seven;
    assert(exists|i: int| is_first(h, seven, i)) by {
        lemma_has_first(h, seven, k);
    }
    assert(is_first(h, seven, j));
    lemma_update_multiset(h, j, v.trumfo);
    assert(h.to_multiset().count(seven) > 0);
    assert(r.hands_ms().add(r.marker_ms()) =~= v.hands_ms().add(v.marker_ms()));
    assert(r.all_cards() =~= v.all_cards());
    assert forall|q: int| 0 <= q < 4 implies #[trigger] r.hands[q].len() + r.filled(q)
        == r.hands[0].len() + r.filled(0) by {
        assert(v.hands[q].len() + v.filled(q) == v.hands[0].len() + v.filled(0));
    }
    assert(r.declared() == v.declared());
}

/// A sequence that holds `c` has a first position of it.
pub proof fn lemma_has_first(s: Seq<Card>, c: Card, k: int)
    requires
        0 <= k < s.len(),
        s[k] == c,
    ensures
        exists|i: int| is_first(s, c, i),
    decreases k,
{
    if exists|m: int| 0 <= m < k && s[m] == c {
        let m = choose|m: int| 0 <= m < k && s[m] == c;
        lemma_has_first(s, c, m);
    } else {
        assert(is_first(s, c, k));
    }
}

/// While the round is on, the seat to act holds a card.
pub proof fn lemma_live_hand(v: BoardView)
    requires
        v.inv(),
        !v.finished,
    ensures
        v.hands[v.current].len() > 0,
{
    let n = v.played();
    assert(v.current == (v.starter + n) % 4);
    assert(v.baza[(v.starter + n) % 4] is None);
    assert(v.hands[v.current].len() + v.filled(v.current) == v.hands[0].len() + v.filled(0));
    if n == 0 {
        lemma_trick_empty(v);
    } else {
        assert(v.baza[(v.starter + 0) % 4] is Some);
        assert(v.hands[v.starter].len() + v.filled(v.starter) == v.hands[0].len() + v.filled(0));
    }
}

/// The legal cards are cards of the hand, and some card is legal whenever the hand has one.
pub proof fn lemma_legal_in_hand(v: BoardView)
    requires
        v.shaped(),
        v.hands[v.current].len() > 0,
    ensures
        v.legal().len() > 0,
        forall|c: Card| #[trigger] v.legal().contains(c) ==> v.hands[v.current].contains(c),
{
    let hand = v.hands[v.current];
    let n = v.played();
    let t = v.trumfo.pal;
    if v.deck.len() == 0 && n != 0 {
        let led = v.card_at(v.starter).pal;
        let w = v.winner_upto((n - 1) as nat);
        let wc = v.card_at(w);
        lemma_keep_subset(hand, Some(led), None, t);
        lemma_keep_subset(hand, Some(led), Some(wc), t);
        lemma_keep_subset(hand, None, Some(wc), t);
    }
}

} // verus!
