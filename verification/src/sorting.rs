//! Stable sorting by byte-string keys.

use vstd::prelude::*;

use crate::lex::{lemma_lex_asymmetric, lemma_lex_irreflexive, lemma_lex_transitive};
use crate::lex::{lex_less, lex_relate, LexRelation};

verus! {

/// Position `a` comes before position `b`: a smaller key, or the same key and listed earlier.
pub open spec fn precedes(keys: Seq<Seq<u8>>, a: usize, b: usize) -> bool {
    ||| lex_less(keys[a as int], keys[b as int])
    ||| keys[a as int] == keys[b as int] && a < b
}

pub open spec fn ascending(keys: Seq<Seq<u8>>, s: Seq<usize>) -> bool {
    forall|i: int, j: int|
        0 <= i < j < s.len() ==> precedes(keys, #[trigger] s[i], #[trigger] s[j])
}

pub proof fn lemma_precedes_transitive(
    keys: Seq<Seq<u8>>,
    a: usize,
    b: usize,
    c: usize,
)
    requires
        precedes(keys, a, b),
        precedes(keys, b, c),
    ensures
        precedes(keys, a, c),
{
    let ha = keys[a as int];
    let hb = keys[b as int];
    let hc = keys[c as int];
    if lex_less(ha, hb) && lex_less(hb, hc) {
        lemma_lex_transitive(ha, hb, hc);
    }
}

pub open spec fn refers_to(list: Seq<&[u8]>, keys: Seq<Seq<u8>>) -> bool {
    &&& list.len() == keys.len()
    &&& forall|i: int| 0 <= i < list.len() ==> (#[trigger] list[i])@ == keys[i]
}

/// Whether position `a` precedes position `b`.
fn position_precedes(
    list: &Vec<&[u8]>,
    Ghost(keys): Ghost<Seq<Seq<u8>>>,
    a: usize,
    b: usize,
) -> (r: bool)
    requires
        refers_to(list@, keys),
        a < keys.len(),
        b < keys.len(),
        a != b,
    ensures
        r == precedes(keys, a, b),
        !r ==> precedes(keys, b, a),
{
    let ka = list[a];
    let kb = list[b];
    assert(ka@ == keys[a as int]);
    assert(kb@ == keys[b as int]);
    match lex_relate(ka, kb) {
        LexRelation::Before => true,
        LexRelation::Same => {
            proof {
                lemma_lex_irreflexive(ka@);
            }
            a < b
        },
        LexRelation::After => {
            proof {
                lemma_lex_asymmetric(kb@, ka@);
                lemma_lex_irreflexive(ka@);
            }
            false
        },
    }
}

/// Merges two ascending lists of positions with no position in common.
fn merge(
    list: &Vec<&[u8]>,
    Ghost(keys): Ghost<Seq<Seq<u8>>>,
    left: Vec<usize>,
    right: Vec<usize>,
) -> (out: Vec<usize>)
    requires
        refers_to(list@, keys),
        ascending(keys, left@),
        ascending(keys, right@),
        left@.len() + right@.len() <= usize::MAX,
        forall|i: int| 0 <= i < left@.len() ==> #[trigger] left@[i] < keys.len(),
        forall|i: int| 0 <= i < right@.len() ==> #[trigger] right@[i] < keys.len(),
        forall|i: int, j: int|
            0 <= i < left@.len() && 0 <= j < right@.len() ==> #[trigger] left@[i]
                != #[trigger] right@[j],
    ensures
        ascending(keys, out@),
        out@.len() == left@.len() + right@.len(),
        forall|x: usize| out@.contains(x) <==> left@.contains(x) || right@.contains(x),
{
    let mut out: Vec<usize> = Vec::new();
    let mut i: usize = 0;
    let mut j: usize = 0;
    while i < left.len() || j < right.len()
        invariant
            refers_to(list@, keys),
            i <= left@.len(),
            j <= right@.len(),
            left@.len() + right@.len() <= usize::MAX,
            out@.len() == i + j,
            ascending(keys, left@),
            ascending(keys, right@),
            ascending(keys, out@),
            forall|k: int| 0 <= k < left@.len() ==> #[trigger] left@[k] < keys.len(),
            forall|k: int| 0 <= k < right@.len() ==> #[trigger] right@[k] < keys.len(),
            forall|p: int, q: int|
                0 <= p < left@.len() && 0 <= q < right@.len() ==> #[trigger] left@[p]
                    != #[trigger] right@[q],
            forall|k: int, p: int|
                0 <= k < out@.len() && i <= p < left@.len() ==> precedes(
                    keys,
                    #[trigger] out@[k],
                    #[trigger] left@[p],
                ),
            forall|k: int, q: int|
                0 <= k < out@.len() && j <= q < right@.len() ==> precedes(
                    keys,
                    #[trigger] out@[k],
                    #[trigger] right@[q],
                ),
            forall|k: int|
                0 <= k < out@.len() ==> left@.contains(#[trigger] out@[k]) || right@.contains(
                    out@[k],
                ),
            forall|p: int| 0 <= p < i ==> out@.contains(#[trigger] left@[p]),
            forall|q: int| 0 <= q < j ==> out@.contains(#[trigger] right@[q]),
        decreases left@.len() - i + right@.len() - j,
    {
        let take_left: bool = if i < left.len() && j < right.len() {
            position_precedes(list, Ghost(keys), left[i], right[j])
        } else {
            i < left.len()
        };
        let ghost before = out@;
        if take_left {
            let x: usize = left[i];
            out.push(x);
            proof {
                assert(left@.contains(x));
                assert(out@[before.len() as int] == x);
                assert forall|q: int| j <= q < right@.len() implies precedes(
                    keys,
                    x,
                    #[trigger] right@[q],
                ) by {
                    if q > j {
                        lemma_precedes_transitive(keys, x, right@[j as int], right@[q]);
                    }
                }
                assert forall|p: int| 0 <= p < i + 1 implies out@.contains(#[trigger] left@[p]) by {
                    if p < i {
                        let k = choose|k: int| 0 <= k < before.len() && before[k] == left@[p];
                        assert(out@[k] == left@[p]);
                    }
                }
                assert forall|q: int| 0 <= q < j implies out@.contains(#[trigger] right@[q]) by {
                    let k = choose|k: int| 0 <= k < before.len() && before[k] == right@[q];
                    assert(out@[k] == right@[q]);
                }
            }
            i = i + 1;
        } else {
            let x: usize = right[j];
            out.push(x);
            proof {
                assert(right@.contains(x));
                assert(out@[before.len() as int] == x);
                assert forall|p: int| i <= p < left@.len() implies precedes(
                    keys,
                    x,
                    #[trigger] left@[p],
                ) by {
                    if p > i {
                        lemma_precedes_transitive(keys, x, left@[i as int], left@[p]);
                    }
                }
                assert forall|p: int| 0 <= p < i implies out@.contains(#[trigger] left@[p]) by {
                    let k = choose|k: int| 0 <= k < before.len() && before[k] == left@[p];
                    assert(out@[k] == left@[p]);
                }
                assert forall|q: int| 0 <= q < j + 1 implies out@.contains(#[trigger] right@[q]) by {
                    if q < j {
                        let k = choose|k: int| 0 <= k < before.len() && before[k] == right@[q];
                        assert(out@[k] == right@[q]);
                    }
                }
            }
            j = j + 1;
        }
    }
    out
}

/// The positions `lo..hi` in ascending order.
fn sort_positions(
    list: &Vec<&[u8]>,
    Ghost(keys): Ghost<Seq<Seq<u8>>>,
    lo: usize,
    hi: usize,
) -> (out: Vec<usize>)
    requires
        refers_to(list@, keys),
        lo <= hi <= keys.len(),
    ensures
        ascending(keys, out@),
        out@.len() == hi - lo,
        forall|x: usize| out@.contains(x) <==> lo <= x < hi,
    decreases hi - lo,
{
    let mut out: Vec<usize> = Vec::new();
    if hi - lo == 0 {
        return out;
    }
    if hi - lo == 1 {
        out.push(lo);
        assert(out@[0] == lo);
        return out;
    }
    let mid: usize = lo + (hi - lo) / 2;
    let left = sort_positions(list, Ghost(keys), lo, mid);
    let right = sort_positions(list, Ghost(keys), mid, hi);
    proof {
        assert forall|i: int| 0 <= i < left@.len() implies #[trigger] left@[i] < mid by {
            assert(left@.contains(left@[i]));
        }
        assert forall|i: int| 0 <= i < right@.len() implies mid <= #[trigger] right@[i] < hi by {
            assert(right@.contains(right@[i]));
        }
    }
    merge(list, Ghost(keys), left, right)
}

/// `order` lists every position of `keys` once, by ascending key; equal keys keep their order.
pub open spec fn is_sorted_order(keys: Seq<Seq<u8>>, order: Seq<usize>) -> bool {
    &&& order.len() == keys.len()
    &&& ascending(keys, order)
    &&& forall|x: usize| #[trigger] order.contains(x) <==> x < keys.len()
    &&& forall|i: int| 0 <= i < order.len() ==> #[trigger] order[i] < keys.len()
}

/// The positions of `list` in ascending order of key.
pub fn sorted_order(list: &Vec<&[u8]>) -> (order: Vec<usize>)
    ensures
        is_sorted_order(list@.map_values(|k: &[u8]| k@), order@),
{
    let ghost keys = list@.map_values(|k: &[u8]| k@);
    let order = sort_positions(list, Ghost(keys), 0, list.len());
    proof {
        assert forall|i: int| 0 <= i < order@.len() implies #[trigger] order@[i] < keys.len() by {
            assert(order@.contains(order@[i]));
        }
    }
    order
}

/// A sorted order names every position exactly once. A later one never has a smaller key, and of
/// equal keys the one that was listed first stays first.
pub proof fn law_sorting_is_a_stable_permutation(keys: Seq<Seq<u8>>, order: Seq<usize>)
    requires
        is_sorted_order(keys, order),
    ensures
        order.len() == keys.len(),
        order.no_duplicates(),
        forall|x: usize| x < keys.len() <==> #[trigger] order.contains(x),
        forall|i: int, j: int|
            0 <= i < j < order.len() ==> !lex_less(
                keys[#[trigger] order[j] as int],
                keys[#[trigger] order[i] as int],
            ) && (keys[order[i] as int] == keys[order[j] as int] ==> order[i] < order[j]),
{
    assert forall|i: int, j: int| 0 <= i < j < order.len() implies !lex_less(
        keys[#[trigger] order[j] as int],
        keys[#[trigger] order[i] as int],
    ) && (keys[order[i] as int] == keys[order[j] as int] ==> order[i] < order[j]) && order[i]
        != order[j] by {
        assert(precedes(keys, order[i], order[j]));
        lemma_lex_irreflexive(keys[order[i] as int]);
        if lex_less(keys[order[i] as int], keys[order[j] as int]) {
            lemma_lex_asymmetric(keys[order[i] as int], keys[order[j] as int]);
        }
    }
}

} // verus!
