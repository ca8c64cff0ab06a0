use vstd::prelude::*;
use crate::card::{Card, Pal};

verus! {

/// Whether `c` passes a selection: of suit `suit` (when given) and beating `above` (when given).
pub open spec fn fits(c: Card, suit: Option<Pal>, above: Option<Card>, trump: Pal) -> bool {
    (suit is None || c.pal == suit.unwrap()) && (above is None || c.beats(above.unwrap(), trump))
}

/// The cards of `s` that pass the selection, in their order in `s`.
pub open spec fn keep(s: Seq<Card>, suit: Option<Pal>, above: Option<Card>, trump: Pal) -> Seq<
    Card,
>
    decreases s.len(),
{
    if s.len() == 0 {
        s
    } else {
        let rest = keep(s.drop_last(), suit, above, trump);
        if fits(s.last(), suit, above, trump) {
            rest.push(s.last())
        } else {
            rest
        }
    }
}

/// `s` when it is not empty, else `fallback`.
pub open spec fn or_else(s: Seq<Card>, fallback: Seq<Card>) -> Seq<Card> {
    if s.len() > 0 {
        s
    } else {
        fallback
    }
}

pub proof fn lemma_keep_subset(s: Seq<Card>, suit: Option<Pal>, above: Option<Card>, trump: Pal)
    ensures
        forall|c: Card| #[trigger] keep(s, suit, above, trump).contains(c) ==> s.contains(c)
            && fits(c, suit, above, trump),
        keep(s, suit, above, trump).len() <= s.len(),
    decreases s.len(),
{
    if s.len() > 0 {
        lemma_keep_subset(s.drop_last(), suit, above, trump);
        let rest = keep(s.drop_last(), suit, above, trump);
        assert forall|c: Card| #[trigger] keep(s, suit, above, trump).contains(c) implies s.contains(c)
            && fits(c, suit, above, trump) by {
            if rest.contains(c) {
                let j = choose|j: int| 0 <= j < rest.len() && rest[j] == c;
                assert(s.drop_last().contains(c));
                let k = choose|k: int| 0 <= k < s.drop_last().len() && s.drop_last()[k] == c;
                assert(s[k] == c);
            } else {
                assert(c == s.last());
                assert(s[s.len() - 1] == c);
            }
        }
    }
}

pub proof fn lemma_keep_all(s: Seq<Card>, trump: Pal)
    ensures
        keep(s, None, None, trump) == s,
    decreases s.len(),
{
    if s.len() > 0 {
        lemma_keep_all(s.drop_last(), trump);
        assert(s.drop_last().push(s.last()) =~= s);
    }
}

/// The cards of `hand` that pass the selection.
pub fn select(hand: &Vec<Card>, suit: Option<Pal>, above: Option<Card>, trump: Pal) -> (r: Vec<
    Card,
>)
    ensures
        r@ == keep(hand@, suit, above, trump),
{
    let mut r: Vec<Card> = Vec::new();
    let mut i: usize = 0;
    while i < hand.len()
        invariant
            i <= hand@.len(),
            r@ == keep(hand@.subrange(0, i as int), suit, above, trump),
        decreases hand@.len() - i,
    {
        let c = hand[i];
        let ok_suit = match suit {
            None => true,
            Some(p) => c.pal == p,
        };
        let ok_above = match above {
            None => true,
            Some(a) => c.is_better_than(a, trump),
        };
        assert(hand@.subrange(0, i + 1).drop_last() =~= hand@.subrange(0, i as int));
        if ok_suit && ok_above {
            r.push(c);
        }
        i = i + 1;
    }
    assert(hand@.subrange(0, hand@.len() as int) =~= hand@);
    r
}

/// Whether `v` holds `c`.
pub fn holds(v: &Vec<Card>, c: Card) -> (r: bool)
    ensures
        r == v@.contains(c),
{
    let mut i: usize = 0;
    while i < v.len()
        invariant
            i <= v@.len(),
            forall|j: int| 0 <= j < i ==> v@[j] != c,
        decreases v@.len() - i,
    {
        if v[i] == c {
            return true;
        }
        i = i + 1;
    }
    false
}

/// `i` is the first position of `c` in `s`.
pub open spec fn is_first(s: Seq<Card>, c: Card, i: int) -> bool {
    0 <= i < s.len() && s[i] == c && forall|k: int| 0 <= k < i ==> s[k] != c
}

/// The first position of `c` in `s`.
pub open spec fn first_index(s: Seq<Card>, c: Card) -> int {
    choose|i: int| is_first(s, c, i)
}

pub proof fn lemma_first_unique(s: Seq<Card>, c: Card, i: int)
    requires
        is_first(s, c, i),
    ensures
        first_index(s, c) == i,
{
    let j = first_index(s, c);
    assert(is_first(s, c, j));
    if j < i {
        assert(s[j] != c);
    } else if i < j {
        assert(s[i] != c);
    }
}

/// The first position of `c` in `v`, if `v` holds it.
pub fn position(v: &Vec<Card>, c: Card) -> (r: Option<usize>)
    ensures
        r is None <==> !v@.contains(c),
        r is Some ==> is_first(v@, c, r.unwrap() as int) && r.unwrap() == first_index(v@, c),
{
    let mut i: usize = 0;
    while i < v.len()
        invariant
            i <= v@.len(),
            forall|j: int| 0 <= j < i ==> v@[j] != c,
        decreases v@.len() - i,
    {
        if v[i] == c {
            proof {
                lemma_first_unique(v@, c, i as int);
            }
            return Some(i);
        }
        i = i + 1;
    }
    None
}

} // verus!
