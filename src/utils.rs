use vstd::prelude::*;
use crate::card::Card;
use crate::rules::holds;

verus! {

/// The cards found in both `vec1` and `vec2`, each once.
pub fn intersect(vec1: &Vec<Card>, vec2: &Vec<Card>) -> (r: Vec<Card>)
    ensures
        forall|c: Card| #[trigger] r@.contains(c) <==> vec1@.contains(c) && vec2@.contains(c),
        r@.no_duplicates(),
{
    let mut r: Vec<Card> = Vec::new();
    let mut i: usize = 0;
    while i < vec1.len()
        invariant
            i <= vec1@.len(),
            forall|c: Card| #[trigger] r@.contains(c) <==> vec1@.subrange(0, i as int).contains(c)
                && vec2@.contains(c),
            r@.no_duplicates(),
        decreases vec1@.len() - i,
    {
        let c = vec1[i];
        let ghost prev = r@;
        let ghost seen = vec1@.subrange(0, i as int);
        assert(vec1@.subrange(0, i + 1) =~= seen.push(c));
        if holds(vec2, c) && !holds(&r, c) {
            r.push(c);
        }
        assert forall|x: Card| #[trigger] r@.contains(x) <==> seen.push(c).contains(x)
            && vec2@.contains(x) by {
            assert(seen.push(c)[seen.len() as int] == c);
            if seen.contains(x) {
                let k = choose|k: int| 0 <= k < seen.len() && seen[k] == x;
                assert(seen.push(c)[k] == x);
            }
            if seen.push(c).contains(x) && x != c {
                let k = choose|k: int| 0 <= k < seen.len() + 1 && seen.push(c)[k] == x;
                assert(seen[k] == x);
            }
            if r@ != prev {
                assert(r@ == prev.push(c));
                assert(r@[prev.len() as int] == c);
                if prev.contains(x) {
                    let k = choose|k: int| 0 <= k < prev.len() && prev[k] == x;
                    assert(r@[k] == x);
                }
                if r@.contains(x) && x != c {
                    let k = choose|k: int| 0 <= k < r@.len() && r@[k] == x;
                    assert(prev[k] == x);
                }
            }
        }
        i = i + 1;
    }
    assert(vec1@.subrange(0, vec1@.len() as int) =~= vec1@);
    r
}

} // verus!
