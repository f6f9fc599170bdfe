//! The canonical transaction list of a commit.
//!
//! Every node must hand the execution engine the same transactions in the same order, whatever
//! order the blocks of a commit listed them in. The canonical list holds the well-formed user
//! transactions, one per hash, in ascending order of hash.

use vstd::prelude::*;

use crate::consensus::subdag::CommittedTransaction;
use crate::lex::{lemma_lex_asymmetric, lemma_lex_irreflexive, lemma_lex_transitive};
use crate::lex::{lex_less, lex_relate, LexRelation};
use crate::sorting::{ascending, precedes, sorted_order};

verus! {

/// Only well-formed user transactions reach the execution engine.
pub open spec fn is_executable(tx: CommittedTransaction) -> bool {
    tx.system is None && tx.valid_user_tx
}

/// Transaction `j` is executable and no earlier executable transaction has its hash.
pub open spec fn is_first_of_hash(txs: Seq<CommittedTransaction>, j: int) -> bool {
    &&& 0 <= j < txs.len()
    &&& is_executable(txs[j])
    &&& forall|k: int|
        0 <= k < j && is_executable(#[trigger] txs[k]) ==> txs[k].hash@ != txs[j].hash@
}

/// `order` lists, in ascending order of hash, the position of the first executable transaction
/// of every hash.
pub open spec fn is_canonical_order(txs: Seq<CommittedTransaction>, order: Seq<int>) -> bool {
    &&& forall|i: int| 0 <= i < order.len() ==> is_first_of_hash(txs, #[trigger] order[i])
    &&& forall|i: int, j: int|
        0 <= i < j < order.len() ==> lex_less(
            txs[#[trigger] order[i]].hash@,
            txs[#[trigger] order[j]].hash@,
        )
    &&& forall|k: int|
        0 <= k < txs.len() && is_executable(#[trigger] txs[k]) ==> exists|i: int|
            0 <= i < order.len() && txs[#[trigger] order[i]].hash@ == txs[k].hash@
}

/// Some executable transaction has hash `h`.
pub open spec fn has_executable_hash(txs: Seq<CommittedTransaction>, h: Seq<u8>) -> bool {
    exists|k: int| 0 <= k < txs.len() && is_executable(#[trigger] txs[k]) && txs[k].hash@ == h
}

/// The one canonical order of `txs`.
pub open spec fn canonical_order(txs: Seq<CommittedTransaction>) -> Seq<int> {
    choose|order: Seq<int>| is_canonical_order(txs, order)
}

/// The bytes of the canonical transactions of `txs`, in canonical order.
pub open spec fn canonical_payloads(txs: Seq<CommittedTransaction>) -> Seq<Seq<u8>> {
    canonical_order(txs).map_values(|j: int| txs[j].data@)
}

/// The hashes of the canonical transactions of `txs`, in canonical order.
spec fn hashes_of(txs: Seq<CommittedTransaction>, order: Seq<int>) -> Seq<Seq<u8>> {
    order.map_values(|j: int| txs[j].hash@)
}

spec fn lex_sorted(s: Seq<Seq<u8>>) -> bool {
    forall|i: int, j: int| 0 <= i < j < s.len() ==> lex_less(#[trigger] s[i], #[trigger] s[j])
}

/// Two ascending lists with the same members are the same list.
proof fn lemma_sorted_lists_equal(a: Seq<Seq<u8>>, b: Seq<Seq<u8>>)
    requires
        lex_sorted(a),
        lex_sorted(b),
        forall|x: Seq<u8>| a.contains(x) <==> b.contains(x),
    ensures
        a == b,
    decreases a.len(),
{
    if a.len() == 0 {
        if b.len() > 0 {
            assert(b.contains(b[0]));
            assert(false);
        }
        assert(a =~= b);
    } else {
        assert(a.contains(a[0]));
        assert(b.contains(a[0]));
        assert(b.contains(b[0]));
        assert(a.contains(b[0]));
        let i = choose|i: int| 0 <= i < b.len() && b[i] == a[0];
        let j = choose|j: int| 0 <= j < a.len() && a[j] == b[0];
        if i > 0 {
            assert(lex_less(b[0], b[i]));
            if j > 0 {
                assert(lex_less(a[0], a[j]));
                lemma_lex_asymmetric(a[0], b[0]);
            } else {
                lemma_lex_irreflexive(a[0]);
            }
        }
        assert(a[0] == b[0]);
        let a1 = a.skip(1);
        let b1 = b.skip(1);
        assert forall|x: Seq<u8>| a1.contains(x) <==> b1.contains(x) by {
            if a1.contains(x) {
                let p = choose|p: int| 0 <= p < a1.len() && a1[p] == x;
                assert(a[p + 1] == x);
                assert(a.contains(x));
                assert(lex_less(a[0], a[p + 1]));
                lemma_lex_irreflexive(a[0]);
                let q = choose|q: int| 0 <= q < b.len() && b[q] == x;
                assert(q != 0);
                assert(b1[q - 1] == x);
            }
            if b1.contains(x) {
                let p = choose|p: int| 0 <= p < b1.len() && b1[p] == x;
                assert(b[p + 1] == x);
                assert(b.contains(x));
                assert(lex_less(b[0], b[p + 1]));
                lemma_lex_irreflexive(b[0]);
                let q = choose|q: int| 0 <= q < a.len() && a[q] == x;
                assert(q != 0);
                assert(a1[q - 1] == x);
            }
        }
        lemma_sorted_lists_equal(a1, b1);
        assert(a =~= seq![a[0]] + a1);
        assert(b =~= seq![b[0]] + b1);
    }
}

/// The hashes of a canonical order are those of the executable transactions, ascending.
proof fn lemma_hashes_of_canonical(txs: Seq<CommittedTransaction>, order: Seq<int>)
    requires
        is_canonical_order(txs, order),
    ensures
        lex_sorted(hashes_of(txs, order)),
        forall|x: Seq<u8>|
            hashes_of(txs, order).contains(x) <==> #[trigger] has_executable_hash(txs, x),
{
    let h = hashes_of(txs, order);
    assert forall|x: Seq<u8>| h.contains(x) <==> #[trigger] has_executable_hash(txs, x) by {
        if h.contains(x) {
            let i = choose|i: int| 0 <= i < h.len() && h[i] == x;
            assert(is_first_of_hash(txs, order[i]));
            assert(is_executable(txs[order[i]]) && txs[order[i]].hash@ == x);
        }
        if has_executable_hash(txs, x) {
            let k = choose|k: int|
                0 <= k < txs.len() && is_executable(#[trigger] txs[k]) && txs[k].hash@ == x;
            assert(is_executable(txs[k]));
            let i = choose|i: int|
                0 <= i < order.len() && txs[#[trigger] order[i]].hash@ == txs[k].hash@;
            assert(txs[order[i]].hash@ == x);
            assert(h[i] == txs[order[i]].hash@);
        }
    }
}

/// Two commits whose executable transactions carry the same set of hashes, with one payload per
/// hash, have the same canonical payloads: neither the order in which blocks list transactions
/// nor how often they repeat one has any influence.
pub proof fn law_canonical_payloads_depend_on_contents_only(
    txs1: Seq<CommittedTransaction>,
    order1: Seq<int>,
    txs2: Seq<CommittedTransaction>,
    order2: Seq<int>,
)
    requires
        is_canonical_order(txs1, order1),
        is_canonical_order(txs2, order2),
        forall|h: Seq<u8>| #[trigger] has_executable_hash(txs1, h) <==> has_executable_hash(txs2, h),
        forall|i: int, j: int|
            0 <= i < txs1.len() && 0 <= j < txs2.len() && is_executable(#[trigger] txs1[i])
                && is_executable(#[trigger] txs2[j]) && txs1[i].hash@ == txs2[j].hash@
                ==> txs1[i].data@ == txs2[j].data@,
    ensures
        order1.map_values(|j: int| txs1[j].data@) == order2.map_values(|j: int| txs2[j].data@),
{
    lemma_hashes_of_canonical(txs1, order1);
    lemma_hashes_of_canonical(txs2, order2);
    let h1 = hashes_of(txs1, order1);
    let h2 = hashes_of(txs2, order2);
    assert forall|x: Seq<u8>| h1.contains(x) <==> h2.contains(x) by {
        assert(has_executable_hash(txs1, x) <==> has_executable_hash(txs2, x));
    }
    lemma_sorted_lists_equal(h1, h2);
    let p1 = order1.map_values(|j: int| txs1[j].data@);
    let p2 = order2.map_values(|j: int| txs2[j].data@);
    assert(p1.len() == p2.len());
    assert forall|i: int| 0 <= i < p1.len() implies p1[i] == p2[i] by {
        assert(h1[i] == h2[i]);
        assert(is_first_of_hash(txs1, order1[i]));
        assert(is_first_of_hash(txs2, order2[i]));
        assert(txs1[order1[i]].hash@ == txs2[order2[i]].hash@);
    }
    assert(p1 =~= p2);
}

/// A list of transactions has at most one canonical order.
pub proof fn law_canonical_order_unique(
    txs: Seq<CommittedTransaction>,
    order1: Seq<int>,
    order2: Seq<int>,
)
    requires
        is_canonical_order(txs, order1),
        is_canonical_order(txs, order2),
    ensures
        order1 == order2,
{
    lemma_hashes_of_canonical(txs, order1);
    lemma_hashes_of_canonical(txs, order2);
    let h1 = hashes_of(txs, order1);
    let h2 = hashes_of(txs, order2);
    assert forall|x: Seq<u8>| h1.contains(x) <==> h2.contains(x) by {
        assert(h1.contains(x) <==> has_executable_hash(txs, x));
    }
    lemma_sorted_lists_equal(h1, h2);
    assert(order1.len() == order2.len());
    assert forall|i: int| 0 <= i < order1.len() implies order1[i] == order2[i] by {
        assert(h1[i] == h2[i]);
        assert(is_first_of_hash(txs, order1[i]));
        assert(is_first_of_hash(txs, order2[i]));
        if order1[i] < order2[i] {
            assert(txs[order1[i]].hash@ != txs[order2[i]].hash@);
        } else if order2[i] < order1[i] {
            assert(txs[order2[i]].hash@ != txs[order1[i]].hash@);
        }
    }
    assert(order1 =~= order2);
}

/// Computes the canonical order of a list of transactions.
pub(crate) fn canonical_positions(
    list: &Vec<&CommittedTransaction>,
    Ghost(txs): Ghost<Seq<CommittedTransaction>>,
) -> (order: Vec<usize>)
    requires
        list@.len() == txs.len(),
        forall|i: int| 0 <= i < list@.len() ==> *(#[trigger] list@[i]) == txs[i],
    ensures
        is_canonical_order(txs, order@.map_values(|x: usize| x as int)),
        canonical_order(txs) == order@.map_values(|x: usize| x as int),
{
    let mut hashes: Vec<&[u8]> = Vec::new();
    let mut h: usize = 0;
    while h < list.len()
        invariant
            h <= list@.len(),
            hashes@.len() == h,
            list@.len() == txs.len(),
            forall|i: int| 0 <= i < list@.len() ==> *(#[trigger] list@[i]) == txs[i],
            forall|i: int| 0 <= i < h ==> (#[trigger] hashes@[i])@ == txs[i].hash@,
        decreases list@.len() - h,
    {
        hashes.push(list[h].hash.as_slice());
        h = h + 1;
    }
    let ghost keys = txs.map_values(|t: CommittedTransaction| t.hash@);
    let sorted = sorted_order(&hashes);
    assert(hashes@.map_values(|k: &[u8]| k@) =~= keys);
    let mut order: Vec<usize> = Vec::new();
    let mut i: usize = 0;
    while i < sorted.len()
        invariant
            list@.len() == txs.len(),
            forall|k: int| 0 <= k < list@.len() ==> *(#[trigger] list@[k]) == txs[k],
            keys == txs.map_values(|t: CommittedTransaction| t.hash@),
            i <= sorted@.len(),
            ascending(keys, sorted@),
            forall|x: usize| sorted@.contains(x) <==> 0 <= x < txs.len(),
            forall|k: int| 0 <= k < sorted@.len() ==> #[trigger] sorted@[k] < txs.len(),
            forall|k: int|
                0 <= k < order@.len() ==> order@[k] < txs.len() && is_first_of_hash(
                    txs,
                    #[trigger] order@[k] as int,
                ),
            forall|k: int, l: int|
                0 <= k < l < order@.len() ==> lex_less(
                    txs[#[trigger] order@[k] as int].hash@,
                    txs[#[trigger] order@[l] as int].hash@,
                ),
            forall|k: int|
                0 <= k < i && is_executable(txs[#[trigger] sorted@[k] as int]) ==> exists|l: int|
                    0 <= l < order@.len() && txs[#[trigger] order@[l] as int].hash@
                        == txs[sorted@[k] as int].hash@,
            forall|k: int, l: int|
                0 <= k < order@.len() && i <= l < sorted@.len() ==> precedes(
                    keys,
                    #[trigger] order@[k],
                    #[trigger] sorted@[l],
                ),
        decreases sorted@.len() - i,
    {
        let x: usize = sorted[i];
        let tx = list[x];
        assert(*tx == txs[x as int]);
        let ghost before = order@;
        let executable = tx.system.is_none() && tx.valid_user_tx;
        let repeated = if executable && order.len() > 0 {
            let last: usize = order[order.len() - 1];
            let prev = list[last];
            assert(*prev == txs[last as int]);
            match lex_relate(prev.hash.as_slice(), tx.hash.as_slice()) {
                LexRelation::Same => true,
                _ => false,
            }
        } else {
            false
        };
        if executable && !repeated {
            proof {
                assert(is_executable(txs[x as int]));
                assert forall|k: int|
                    0 <= k < x && is_executable(#[trigger] txs[k]) implies txs[k].hash@
                    != txs[x as int].hash@ by {
                    if txs[k].hash@ == txs[x as int].hash@ {
                        let ku = k as usize;
                        assert(sorted@.contains(ku));
                        let p = choose|p: int| 0 <= p < sorted@.len() && sorted@[p] == ku;
                        assert(precedes(keys, ku, x));
                        if p > i {
                            assert(precedes(keys, x, ku));
                            lemma_lex_irreflexive(txs[k].hash@);
                        }
                        assert(p < i);
                        let l = choose|l: int|
                            0 <= l < before.len() && txs[#[trigger] before[l] as int].hash@
                                == txs[sorted@[p] as int].hash@;
                        let last = before.len() - 1;
                        if l < last {
                            assert(lex_less(
                                txs[before[l] as int].hash@,
                                txs[before[last] as int].hash@,
                            ));
                            assert(precedes(keys, before[last], x));
                            lemma_lex_asymmetric(
                                txs[before[l] as int].hash@,
                                txs[before[last] as int].hash@,
                            );
                        }
                    }
                }
                assert(is_first_of_hash(txs, x as int));
                assert forall|k: int| 0 <= k < before.len() implies lex_less(
                    txs[#[trigger] before[k] as int].hash@,
                    txs[x as int].hash@,
                ) by {
                    let last = before.len() - 1;
                    assert(precedes(keys, before[last], x));
                    if k < last {
                        lemma_lex_transitive(
                            txs[before[k] as int].hash@,
                            txs[before[last] as int].hash@,
                            txs[x as int].hash@,
                        );
                    }
                }
            }
            order.push(x);
        }
        proof {
            if executable {
                let last = order@.len() - 1;
                assert(txs[order@[last] as int].hash@ == txs[x as int].hash@);
            }
            assert forall|k: int|
                0 <= k < i + 1 && is_executable(txs[#[trigger] sorted@[k] as int]) implies exists|
                l: int,
            |
                0 <= l < order@.len() && txs[#[trigger] order@[l] as int].hash@
                    == txs[sorted@[k] as int].hash@ by {
                if k < i {
                    let l = choose|l: int|
                        0 <= l < before.len() && txs[#[trigger] before[l] as int].hash@
                            == txs[sorted@[k] as int].hash@;
                    assert(order@[l] == before[l]);
                } else {
                    let last = order@.len() - 1;
                    assert(txs[order@[last] as int].hash@ == txs[sorted@[k] as int].hash@);
                }
            }
        }
        i = i + 1;
    }
    proof {
        let o = order@.map_values(|x: usize| x as int);
        assert forall|k: int| 0 <= k < txs.len() && is_executable(#[trigger] txs[k]) implies exists|
            l: int,
        |
            0 <= l < o.len() && txs[#[trigger] o[l]].hash@ == txs[k].hash@ by {
            assert(sorted@.contains(k as usize));
            let p = choose|p: int| 0 <= p < sorted@.len() && sorted@[p] == k as usize;
            let l = choose|l: int|
                0 <= l < order@.len() && txs[#[trigger] order@[l] as int].hash@
                    == txs[sorted@[p] as int].hash@;
            assert(o[l] == order@[l] as int);
        }
        assert(is_canonical_order(txs, o));
        law_canonical_order_unique(txs, o, canonical_order(txs));
    }
    order
}

/// Every list of transactions has a canonical order.
pub proof fn lemma_canonical_order_exists(txs: Seq<CommittedTransaction>)
    ensures
        is_canonical_order(txs, canonical_order(txs)),
{
    let order = lemma_canonical_order_of(txs);
    assert(is_canonical_order(txs, order));
}

proof fn lemma_canonical_order_of(txs: Seq<CommittedTransaction>) -> (order: Seq<int>)
    ensures
        is_canonical_order(txs, order),
    decreases txs.len(),
{
    if txs.len() == 0 {
        Seq::empty()
    } else {
        let n = txs.len() - 1;
        let o = lemma_canonical_order_of(txs.drop_last());
        lemma_first_stays_first(txs, o);
        let h = txs[n].hash@;
        if is_executable(txs[n]) && forall|i: int|
            0 <= i < o.len() ==> txs[#[trigger] o[i]].hash@ != h {
            let p = lemma_insertion_point(txs, o, h);
            lemma_inserted(txs, o, p);
            with_inserted(o, p, n)
        } else {
            assert forall|k: int|
                0 <= k < txs.len() && is_executable(#[trigger] txs[k]) implies exists|i: int|
                0 <= i < o.len() && txs[#[trigger] o[i]].hash@ == txs[k].hash@ by {
                if k == n {
                    let i = choose|i: int| 0 <= i < o.len() && txs[#[trigger] o[i]].hash@ == h;
                    assert(txs[o[i]].hash@ == txs[k].hash@);
                }
            }
            o
        }
    }
}

/// What is canonical for all transactions but the last stays so as far as it goes.
proof fn lemma_first_stays_first(txs: Seq<CommittedTransaction>, o: Seq<int>)
    requires
        txs.len() > 0,
        is_canonical_order(txs.drop_last(), o),
    ensures
        forall|i: int|
            0 <= i < o.len() ==> is_first_of_hash(txs, #[trigger] o[i]) && o[i] < txs.len() - 1,
        forall|i: int, j: int|
            0 <= i < j < o.len() ==> lex_less(
                txs[#[trigger] o[i]].hash@,
                txs[#[trigger] o[j]].hash@,
            ),
        forall|k: int|
            0 <= k < txs.len() - 1 && #[trigger] is_executable(txs[k]) ==> exists|i: int|
                0 <= i < o.len() && txs[#[trigger] o[i]].hash@ == txs[k].hash@,
{
    let init = txs.drop_last();
    assert forall|i: int| 0 <= i < o.len() implies is_first_of_hash(txs, #[trigger] o[i]) && o[i]
        < txs.len() - 1 by {
        assert(is_first_of_hash(init, o[i]));
        let j = o[i];
        assert(init[j] == txs[j]);
        assert forall|k: int| 0 <= k < j && is_executable(#[trigger] txs[k]) implies txs[k].hash@
            != txs[j].hash@ by {
            assert(init[k] == txs[k]);
        }
    }
    assert forall|i: int, j: int| 0 <= i < j < o.len() implies lex_less(
        txs[#[trigger] o[i]].hash@,
        txs[#[trigger] o[j]].hash@,
    ) by {
        assert(lex_less(init[o[i]].hash@, init[o[j]].hash@));
        assert(init[o[i]] == txs[o[i]]);
        assert(init[o[j]] == txs[o[j]]);
    }
    assert forall|k: int|
        0 <= k < txs.len() - 1 && #[trigger] is_executable(txs[k]) implies exists|i: int|
        0 <= i < o.len() && txs[#[trigger] o[i]].hash@ == txs[k].hash@ by {
        assert(init[k] == txs[k]);
        assert(is_executable(init[k]));
        let i = choose|i: int| 0 <= i < o.len() && init[#[trigger] o[i]].hash@ == init[k].hash@;
        assert(init[o[i]] == txs[o[i]]);
    }
}

/// The hash of the last transaction is new if no canonical one has it.
proof fn lemma_new_hash(txs: Seq<CommittedTransaction>, o: Seq<int>, h: Seq<u8>, k: int)
    requires
        0 <= k < txs.len() - 1,
        is_executable(txs[k]),
        exists|i: int| 0 <= i < o.len() && txs[#[trigger] o[i]].hash@ == txs[k].hash@,
        forall|i: int| 0 <= i < o.len() ==> txs[#[trigger] o[i]].hash@ != h,
    ensures
        txs[k].hash@ != h,
{
}

/// Where an old place of the order is after an insertion.
spec fn shifted(i: int, p: int) -> int {
    if i < p {
        i
    } else {
        i + 1
    }
}

/// The order after an insertion.
spec fn with_inserted(o: Seq<int>, p: int, n: int) -> Seq<int> {
    o.take(p) + seq![n] + o.skip(p)
}

proof fn lemma_with_inserted(o: Seq<int>, p: int, n: int)
    requires
        0 <= p <= o.len(),
    ensures
        with_inserted(o, p, n).len() == o.len() + 1,
        with_inserted(o, p, n)[p] == n,
        forall|i: int| 0 <= i < p ==> #[trigger] with_inserted(o, p, n)[i] == o[i],
        forall|i: int| p < i <= o.len() ==> #[trigger] with_inserted(o, p, n)[i] == o[i - 1],
{
}

/// With the last transaction put where it belongs, the hashes still ascend.
proof fn lemma_inserted_ascends(txs: Seq<CommittedTransaction>, o: Seq<int>, p: int, n: int)
    requires
        0 <= p <= o.len(),
        forall|i: int, j: int|
            0 <= i < j < o.len() ==> lex_less(
                txs[#[trigger] o[i]].hash@,
                txs[#[trigger] o[j]].hash@,
            ),
        forall|i: int| 0 <= i < p ==> lex_less(txs[#[trigger] o[i]].hash@, txs[n].hash@),
        forall|i: int| p <= i < o.len() ==> lex_less(txs[n].hash@, txs[#[trigger] o[i]].hash@),
    ensures
        forall|i: int, j: int|
            0 <= i < j <= o.len() ==> lex_less(
                txs[#[trigger] with_inserted(o, p, n)[i]].hash@,
                txs[#[trigger] with_inserted(o, p, n)[j]].hash@,
            ),
{
    let new = with_inserted(o, p, n);
    lemma_with_inserted(o, p, n);
    assert forall|i: int, j: int| 0 <= i < j <= o.len() implies lex_less(
        txs[#[trigger] new[i]].hash@,
        txs[#[trigger] new[j]].hash@,
    ) by {
        let a = if i < p {
            i
        } else {
            i - 1
        };
        let b = if j < p {
            j
        } else {
            j - 1
        };
        if i != p && j != p {
            assert(lex_less(txs[o[a]].hash@, txs[o[b]].hash@));
        } else if i == p {
            assert(lex_less(txs[n].hash@, txs[o[b]].hash@));
        } else {
            assert(lex_less(txs[o[a]].hash@, txs[n].hash@));
        }
    }
}

/// The last transaction, with a new hash, put where it belongs.
proof fn lemma_inserted(txs: Seq<CommittedTransaction>, o: Seq<int>, p: int)
    requires
        txs.len() > 0,
        is_executable(txs[txs.len() - 1]),
        0 <= p <= o.len(),
        forall|i: int|
            0 <= i < o.len() ==> is_first_of_hash(txs, #[trigger] o[i]) && o[i] < txs.len() - 1,
        forall|i: int, j: int|
            0 <= i < j < o.len() ==> lex_less(
                txs[#[trigger] o[i]].hash@,
                txs[#[trigger] o[j]].hash@,
            ),
        forall|k: int|
            0 <= k < txs.len() - 1 && #[trigger] is_executable(txs[k]) ==> exists|i: int|
                0 <= i < o.len() && txs[#[trigger] o[i]].hash@ == txs[k].hash@,
        forall|i: int|
            0 <= i < o.len() ==> txs[#[trigger] o[i]].hash@ != txs[txs.len() - 1].hash@,
        forall|i: int|
            0 <= i < p ==> lex_less(txs[#[trigger] o[i]].hash@, txs[txs.len() - 1].hash@),
        forall|i: int|
            p <= i < o.len() ==> lex_less(txs[txs.len() - 1].hash@, txs[#[trigger] o[i]].hash@),
    ensures
        is_canonical_order(txs, with_inserted(o, p, txs.len() - 1)),
{
    let n = txs.len() - 1;
    let h = txs[n].hash@;
    let new = with_inserted(o, p, n);
    lemma_with_inserted(o, p, n);
    lemma_inserted_ascends(txs, o, p, n);
    assert forall|k: int| 0 <= k < n && is_executable(#[trigger] txs[k]) implies txs[k].hash@ != h by {
        lemma_new_hash(txs, o, h, k);
    }
    assert(is_first_of_hash(txs, n));
    assert forall|i: int| 0 <= i < new.len() implies is_first_of_hash(txs, #[trigger] new[i]) by {
        if i < p {
            assert(is_first_of_hash(txs, o[i]));
        } else if i > p {
            assert(is_first_of_hash(txs, o[i - 1]));
        }
    }
    assert forall|k: int| 0 <= k < txs.len() && is_executable(#[trigger] txs[k]) implies exists|
        i: int,
    |
        0 <= i < new.len() && txs[#[trigger] new[i]].hash@ == txs[k].hash@ by {
        if k < n {
            let i = choose|i: int| 0 <= i < o.len() && txs[#[trigger] o[i]].hash@ == txs[k].hash@;
            assert(new[shifted(i, p)] == o[i]);
            assert(txs[new[shifted(i, p)]].hash@ == txs[k].hash@);
        } else {
            assert(txs[new[p]].hash@ == txs[k].hash@);
        }
    }
}

/// Where hash `h`, which is not among them, goes into an ascending list.
proof fn lemma_insertion_point(txs: Seq<CommittedTransaction>, o: Seq<int>, h: Seq<u8>) -> (p: int)
    requires
        forall|i: int, j: int|
            0 <= i < j < o.len() ==> lex_less(
                txs[#[trigger] o[i]].hash@,
                txs[#[trigger] o[j]].hash@,
            ),
        forall|i: int| 0 <= i < o.len() ==> txs[#[trigger] o[i]].hash@ != h,
    ensures
        0 <= p <= o.len(),
        forall|i: int| 0 <= i < p ==> lex_less(txs[#[trigger] o[i]].hash@, h),
        forall|i: int| p <= i < o.len() ==> lex_less(h, txs[#[trigger] o[i]].hash@),
    decreases o.len(),
{
    if o.len() == 0 {
        0
    } else {
        let init = o.drop_last();
        let p = lemma_insertion_point(txs, init, h);
        let last = txs[o.last()].hash@;
        assert(o.last() == o[o.len() - 1]);
        crate::lex::lemma_lex_total(last, h);
        assert forall|i: int| 0 <= i < init.len() implies init[i] == #[trigger] o[i] by {}
        if lex_less(last, h) {
            assert forall|i: int| 0 <= i < o.len() implies lex_less(txs[#[trigger] o[i]].hash@, h) by {
                if i < init.len() {
                    lemma_lex_transitive(txs[o[i]].hash@, last, h);
                }
            }
            o.len() as int
        } else {
            assert forall|i: int| p <= i < o.len() implies lex_less(h, txs[#[trigger] o[i]].hash@) by {
                if i < init.len() {
                    assert(init[i] == o[i]);
                }
            }
            assert forall|i: int| 0 <= i < p implies lex_less(txs[#[trigger] o[i]].hash@, h) by {
                assert(init[i] == o[i]);
            }
            p
        }
    }
}

/// What reaches the engine of a list of transactions. There is a list of places, one for each
/// payload and in the same order, such that
/// each payload is that of the transaction at its place, which is a well-formed user transaction
/// and no system transaction, and the first one such with its hash;
/// the hashes ascend strictly;
/// and the hash of every well-formed user transaction is among them.
pub proof fn law_each_user_transaction_reaches_the_engine_once(txs: Seq<CommittedTransaction>) -> (
    places: Seq<int>)
    ensures
        canonical_payloads(txs).len() == places.len(),
        forall|i: int|
            0 <= i < places.len() ==> {
                let p = #[trigger] places[i];
                &&& 0 <= p < txs.len()
                &&& canonical_payloads(txs)[i] == txs[p].data@
                &&& txs[p].system is None
                &&& txs[p].valid_user_tx
            },
        forall|i: int, k: int|
            0 <= i < places.len() && 0 <= k < places[i] && (#[trigger] txs[k]).system is None
                && txs[k].valid_user_tx ==> txs[k].hash@ != txs[#[trigger] places[i]].hash@,
        forall|i: int, j: int|
            0 <= i < j < places.len() ==> lex_less(
                txs[#[trigger] places[i]].hash@,
                txs[#[trigger] places[j]].hash@,
            ),
        forall|k: int|
            0 <= k < txs.len() && (#[trigger] txs[k]).system is None && txs[k].valid_user_tx
                ==> exists|i: int|
                0 <= i < places.len() && txs[#[trigger] places[i]].hash@ == txs[k].hash@,
{
    lemma_canonical_order_exists(txs);
    let places = canonical_order(txs);
    assert forall|i: int| 0 <= i < places.len() implies {
        let p = #[trigger] places[i];
        &&& 0 <= p < txs.len()
        &&& canonical_payloads(txs)[i] == txs[p].data@
        &&& txs[p].system is None
        &&& txs[p].valid_user_tx
    } by {
        assert(is_first_of_hash(txs, places[i]));
    }
    assert forall|i: int, k: int|
        0 <= i < places.len() && 0 <= k < places[i] && (#[trigger] txs[k]).system is None
            && txs[k].valid_user_tx implies txs[k].hash@ != txs[#[trigger] places[i]].hash@ by {
        assert(is_first_of_hash(txs, places[i]));
        assert(is_executable(txs[k]));
    }
    assert forall|k: int|
        0 <= k < txs.len() && (#[trigger] txs[k]).system is None
            && txs[k].valid_user_tx implies exists|i: int|
        0 <= i < places.len() && txs[#[trigger] places[i]].hash@ == txs[k].hash@ by {
        assert(is_executable(txs[k]));
    }
    places
}

} // verus!
