use vstd::prelude::*;
use vstd::multiset::Multiset;
use crate::card::{Card, full_deck};
use crate::board::{BoardView, pile_points, team};

verus! {

broadcast use vstd::seq_lib::group_to_multiset_ensures;

/// The card in a trick slot, as a multiset.
pub open spec fn slot_ms(o: Option<Card>) -> Multiset<Card> {
    match o {
        Some(c) => Multiset::singleton(c),
        None => Multiset::empty(),
    }
}

impl BoardView {
    pub open spec fn hands_ms(self) -> Multiset<Card> {
        self.hands[0].to_multiset().add(self.hands[1].to_multiset()).add(
            self.hands[2].to_multiset(),
        ).add(self.hands[3].to_multiset())
    }

    pub open spec fn baza_ms(self) -> Multiset<Card> {
        slot_ms(self.baza[0]).add(slot_ms(self.baza[1])).add(slot_ms(self.baza[2])).add(
            slot_ms(self.baza[3]),
        )
    }

    pub open spec fn won_ms(self) -> Multiset<Card> {
        self.won[0].to_multiset().add(self.won[1].to_multiset())
    }

    /// The trump marker while it lies on the table.
    pub open spec fn marker_ms(self) -> Multiset<Card> {
        if self.trumfo_dealt {
            Multiset::empty()
        } else {
            Multiset::singleton(self.trumfo)
        }
    }

    /// Every card of the round: deck, hands, trick, both piles and the marker on the table.
    pub open spec fn all_cards(self) -> Multiset<Card> {
        self.deck.to_multiset().add(self.hands_ms()).add(self.baza_ms()).add(self.won_ms()).add(
            self.marker_ms(),
        )
    }

    /// The round holds each of the 40 cards exactly once.
    pub open spec fn conserved(self) -> bool {
        self.all_cards() == full_deck().to_multiset()
    }
}

pub proof fn lemma_place_keeps_cards(v: BoardView, idx: int)
    requires
        v.sized(),
        0 <= idx < v.hands[v.current].len(),
        v.baza[v.current] is None,
    ensures
        v.place(idx).all_cards() == v.all_cards(),
{
    let p = v.place(idx);
    let c = v.hands[v.current][idx];
    assert(v.hands[v.current].to_multiset().count(c) > 0) by {
        assert(v.hands[v.current].contains(c));
    }
    assert(p.hands_ms().add(p.baza_ms()) =~= v.hands_ms().add(v.baza_ms()));
    assert(p.all_cards() =~= v.all_cards());
}

pub proof fn lemma_collect_keeps_cards(v: BoardView)
    requires
        v.sized(),
        forall|s: int| 0 <= s < 4 ==> (#[trigger] v.baza[s]) is Some,
    ensures
        v.collect().all_cards() == v.all_cards(),
{
    let p = v.collect();
    let t = v.trick_cards();
    assert(t.to_multiset() =~= v.baza_ms()) by {
        assert(t =~= seq![v.card_at(0)].push(v.card_at(1)).push(v.card_at(2)).push(v.card_at(3)));
        assert(seq![v.card_at(0)] =~= Seq::<Card>::empty().push(v.card_at(0)));
    }
    let w = v.winner_upto(3);
    assert((v.won[team(w)] + t).to_multiset() =~= v.won[team(w)].to_multiset().add(t.to_multiset())) by {
        vstd::seq_lib::lemma_multiset_commutative(v.won[team(w)], t);
    }
    assert(p.baza_ms() =~= Multiset::empty());
    assert(p.won_ms().add(p.baza_ms()) =~= v.won_ms().add(v.baza_ms()));
    assert(p.all_cards() =~= v.all_cards());
}

pub proof fn lemma_draw_keeps_cards(v: BoardView, s: int)
    requires
        v.sized(),
        0 <= s < 4,
    ensures
        v.draw_for(s).all_cards() == v.all_cards(),
        v.draw_for(s).sized(),
{
    let p = v.draw_for(s);
    if v.deck.len() > 0 {
        assert(v.deck.drop_last().push(v.deck.last()) =~= v.deck);
        assert(p.deck.to_multiset().add(p.hands_ms()) =~= v.deck.to_multiset().add(v.hands_ms()));
        assert(p.all_cards() =~= v.all_cards());
    } else if !v.trumfo_dealt {
        assert(p.hands_ms().add(p.marker_ms()) =~= v.hands_ms().add(v.marker_ms()));
        assert(p.all_cards() =~= v.all_cards());
    }
}

pub proof fn lemma_draw_round_keeps_cards(v: BoardView, k: nat)
    requires
        v.sized(),
    ensures
        v.draw_round(k).all_cards() == v.all_cards(),
        v.draw_round(k).sized(),
        v.draw_round(k).current == v.current,
        v.draw_round(k).starter == v.starter,
        v.draw_round(k).baza == v.baza,
        v.draw_round(k).won == v.won,
        v.draw_round(k).scores == v.scores,
        v.draw_round(k).cantes == v.cantes,
        v.draw_round(k).finished == v.finished,
        v.draw_round(k).trumfo == v.trumfo,
    decreases k,
{
    if k > 0 {
        lemma_draw_round_keeps_cards(v, (k - 1) as nat);
        lemma_draw_keeps_cards(v.draw_round((k - 1) as nat), (v.current + k - 1) % 4);
    }
}

/// Sizes follow from the multiset: no part of the round holds more than the 40 cards.
pub proof fn lemma_conserved_sizes(v: BoardView)
    requires
        v.sized(),
        v.conserved(),
    ensures
        v.won[0].len() + v.won[1].len() <= 40,
        v.deck.len() <= 40,
{
    assert(full_deck().len() == 40);
    assert(v.all_cards().len() == 40);
}

pub proof fn lemma_pile_points_bound(s: Seq<Card>)
    ensures
        pile_points(s) <= 11 * s.len(),
    decreases s.len(),
{
    if s.len() > 0 {
        lemma_pile_points_bound(s.drop_last());
    }
}

} // verus!
