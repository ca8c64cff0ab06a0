use vstd::prelude::*;

verus! {

/// The four Spanish suits.
#[derive(Clone, Copy, Debug, PartialEq, Eq, Structural)]
pub enum Pal {
    Orus,
    Copes,
    Espases,
    Bastos,
}

/// A playing card: a suit and a rank out of {1..7, 10, 11, 12}.
#[derive(Clone, Copy, Debug, PartialEq, Eq, Structural)]
pub struct Card {
    pub pal: Pal,
    pub number: u8,
}

/// The suit with the given index (0..4), in the order Orus, Copes, Espases, Bastos.
pub open spec fn pal_at(i: int) -> Pal {
    if i == 0 {
        Pal::Orus
    } else if i == 1 {
        Pal::Copes
    } else if i == 2 {
        Pal::Espases
    } else {
        Pal::Bastos
    }
}

/// The index of a suit, inverse of `pal_at`.
pub open spec fn pal_index(p: Pal) -> int {
    match p {
        Pal::Orus => 0,
        Pal::Copes => 1,
        Pal::Espases => 2,
        Pal::Bastos => 3,
    }
}

/// The rank with the given index (0..10): 1, 2, 3, 4, 5, 6, 7, 10, 11, 12.
pub open spec fn rank_at(i: int) -> u8 {
    if i < 7 {
        (i + 1) as u8
    } else {
        (i + 3) as u8
    }
}

/// The card at position `i` of the canonical 40-card deck: ten ranks per suit.
pub open spec fn canonical_card(i: int) -> Card {
    Card { pal: pal_at(i / 10), number: rank_at(i % 10) }
}

/// The canonical deck: each (suit, rank) pair exactly once.
pub open spec fn full_deck() -> Seq<Card> {
    Seq::new(40, |i: int| canonical_card(i))
}

/// The suit with index `i`.
pub fn pal_from_index(i: usize) -> (r: Pal)
    requires
        i < 4,
    ensures
        r == pal_at(i as int),
        pal_index(r) == i,
{
    if i == 0 {
        Pal::Orus
    } else if i == 1 {
        Pal::Copes
    } else if i == 2 {
        Pal::Espases
    } else {
        Pal::Bastos
    }
}

/// The index of suit `p`.
pub fn index_of_pal(p: Pal) -> (r: usize)
    ensures
        r == pal_index(p),
        r < 4,
        pal_at(r as int) == p,
{
    match p {
        Pal::Orus => 0,
        Pal::Copes => 1,
        Pal::Espases => 2,
        Pal::Bastos => 3,
    }
}

impl Card {
    /// The card of suit `pal` and rank `number`.
    pub fn new(pal: Pal, number: u8) -> (r: Card)
        ensures
            r.pal == pal,
            r.number == number,
    {
        Card { pal, number }
    }

    /// Point value of the card: 1 is worth 11, 3 is 10, 12 is 4, 10 is 3, 11 is 2, others 0.
    pub open spec fn value(self) -> nat {
        if self.number == 1 {
            11
        } else if self.number == 3 {
            10
        } else if self.number == 12 {
            4
        } else if self.number == 10 {
            3
        } else if self.number == 11 {
            2
        } else {
            0
        }
    }

    /// The point value of the card.
    pub fn points(&self) -> (r: u8)
        ensures
            r == self.value(),
            r <= 11,
    {
        match self.number {
            1 => 11,
            3 => 10,
            12 => 4,
            10 => 3,
            11 => 2,
            _ => 0,
        }
    }

    /// Whether this card beats `other` when `trump` is the trump suit: within a suit the
    /// higher value wins, ties broken by the higher rank; across suits only a trump wins.
    pub open spec fn beats(self, other: Card, trump: Pal) -> bool {
        if self.pal == other.pal {
            self.value() > other.value() || (self.value() == other.value() && self.number
                > other.number)
        } else {
            self.pal == trump
        }
    }

    /// Whether this card beats `other` when `trump` is the trump suit.
    pub fn is_better_than(&self, other: Card, trump: Pal) -> (r: bool)
        ensures
            r == self.beats(other, trump),
    {
        if self.pal == other.pal {
            let a = self.points();
            let b = other.points();
            a > b || (a == b && self.number > other.number)
        } else {
            self.pal == trump
        }
    }
}

} // verus!
