//! Transactions that outlive a failed commit.

use vstd::prelude::*;

use crate::consensus::subdag::{
    end_of_epoch_of, CommittedSubDag, CommittedTransaction, SystemTransaction,
};
use crate::node::executor_client::block_sending::copy_bytes;

verus! {

/// The payloads of the transactions that do not end the epoch, in order.
pub open spec fn carried_over(txs: Seq<CommittedTransaction>) -> Seq<Seq<u8>>
    decreases txs.len(),
{
    if txs.len() == 0 {
        Seq::empty()
    } else if end_of_epoch_of(txs.last()) is Some {
        carried_over(txs.drop_last())
    } else {
        carried_over(txs.drop_last()).push(txs.last().data@)
    }
}

/// No transaction of a user is lost with a failed commit: each is carried over.
pub proof fn law_user_transactions_are_carried_over(txs: Seq<CommittedTransaction>, i: int)
    requires
        0 <= i < txs.len(),
        end_of_epoch_of(txs[i]) is None,
    ensures
        carried_over(txs).contains(txs[i].data@),
    decreases txs.len(),
{
    let init = txs.drop_last();
    if i == txs.len() - 1 {
        assert(carried_over(txs).last() == txs[i].data@);
    } else {
        law_user_transactions_are_carried_over(init, i);
        let k = choose|k: int|
            0 <= k < carried_over(init).len() && carried_over(init)[k] == txs[i].data@;
        assert(carried_over(txs)[k] == txs[i].data@);
    }
}

/// Whether a transaction is the system transaction that ends the epoch. What counts is what the
/// transaction decodes to: a user's transaction that merely holds the same text is none.
pub fn is_end_of_epoch_transaction(tx: &CommittedTransaction) -> (r: bool)
    ensures
        r == (end_of_epoch_of(*tx) is Some),
{
    tx.is_end_of_epoch()
}

/// Queues the transactions of a commit that could not be sent, so that the next epoch retries
/// them. Transactions that end the epoch belong to this epoch only and are left out.
pub fn queue_commit_transactions_for_next_epoch(
    subdag: &CommittedSubDag,
    queue: &mut Vec<Vec<u8>>,
)
    ensures
        final(queue)@.len() == old(queue)@.len() + carried_over(subdag.all_txs()).len(),
        forall|i: int| 0 <= i < old(queue)@.len() ==> final(queue)@[i] == old(queue)@[i],
        forall|i: int|
            0 <= i < carried_over(subdag.all_txs()).len() ==> (#[trigger] final(queue)@[old(
                queue,
            )@.len() + i])@ == carried_over(subdag.all_txs())[i],
{
    let txs = subdag.transactions();
    let ghost all = subdag.all_txs();
    let ghost start = queue@.len();
    let mut i: usize = 0;
    assert(all.take(0) =~= Seq::<CommittedTransaction>::empty());
    while i < txs.len()
        invariant
            i <= txs@.len(),
            txs@.len() == all.len(),
            forall|k: int| 0 <= k < txs@.len() ==> *(#[trigger] txs@[k]) == all[k],
            start == old(queue)@.len(),
            queue@.len() == start + carried_over(all.take(i as int)).len(),
            forall|k: int| 0 <= k < start ==> queue@[k] == old(queue)@[k],
            forall|k: int|
                0 <= k < carried_over(all.take(i as int)).len() ==> (#[trigger] queue@[start
                    + k])@ == carried_over(all.take(i as int))[k],
        decreases txs@.len() - i,
    {
        let tx = txs[i];
        proof {
            assert(all.take(i + 1).drop_last() =~= all.take(i as int));
            assert(all.take(i + 1).last() == all[i as int]);
        }
        if !is_end_of_epoch_transaction(tx) {
            queue.push(copy_bytes(&tx.data));
        }
        i = i + 1;
    }
    assert(all.take(i as int) =~= all);
}

/// What is carried over are the payloads of exactly the transactions that do not end the epoch, in
/// the order in which the commit has them.
pub proof fn law_carried_over_in_order(txs: Seq<CommittedTransaction>)
    ensures
        carried_over(txs) == txs.filter(
            |t: CommittedTransaction|
                !(t.system matches Some(SystemTransaction::EndOfEpoch { .. })),
        ).map_values(|t: CommittedTransaction| t.data@),
    decreases txs.len(),
{
    reveal(Seq::filter);
    let keep = |t: CommittedTransaction|
        !(t.system matches Some(SystemTransaction::EndOfEpoch { .. }));
    let data = |t: CommittedTransaction| t.data@;
    if txs.len() > 0 {
        let init = txs.drop_last();
        law_carried_over_in_order(init);
        if keep(txs.last()) {
            assert(txs.filter(keep) =~= init.filter(keep).push(txs.last()));
            assert(txs.filter(keep).map_values(data) =~= init.filter(keep).map_values(data).push(
                txs.last().data@,
            ));
        }
    } else {
        assert(txs.filter(keep).map_values(data) =~= Seq::<Seq<u8>>::empty());
    }
}

} // verus!
