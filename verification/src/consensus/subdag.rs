//! Committed sub-DAGs as plain values.
//!
//! Decoding, hashing and validating the bytes of a transaction is the business of the consensus
//! engine and of the transaction schema; a [`CommittedTransaction`] carries what they found.

use vstd::prelude::*;

use crate::node::executor_client::block_sending::copy_bytes;

verus! {

/// A transaction that the consensus engine itself put into a block.
#[derive(Clone, Copy, Debug, PartialEq, Eq, Structural)]
pub enum SystemTransaction {
    /// Ends the running epoch.
    EndOfEpoch { new_epoch: u64, boundary_block: u64 },
    /// Any other system transaction.
    Other,
}

/// A transaction of a committed block.
#[derive(Debug)]
pub struct CommittedTransaction {
    /// The bytes as they were submitted.
    pub data: Vec<u8>,
    /// The transaction hash of `data`.
    pub hash: Vec<u8>,
    /// What `data` decodes to as a system transaction, if it does.
    pub system: Option<SystemTransaction>,
    /// Whether `data` is a well-formed user transaction.
    pub valid_user_tx: bool,
}

/// A block of a committed sub-DAG.
#[derive(Debug)]
pub struct CommittedBlock {
    pub transactions: Vec<CommittedTransaction>,
}

/// One commit: the blocks that a leader's commit ordered.
#[derive(Debug)]
pub struct CommittedSubDag {
    pub commit_index: u32,
    pub timestamp_ms: u64,
    /// The position of the leader in the committee.
    pub leader_author_index: u32,
    pub blocks: Vec<CommittedBlock>,
}

/// The transactions of `blocks`, in order.
pub open spec fn flatten_blocks(blocks: Seq<CommittedBlock>) -> Seq<CommittedTransaction>
    decreases blocks.len(),
{
    if blocks.len() == 0 {
        Seq::empty()
    } else {
        flatten_blocks(blocks.drop_last()) + blocks.last().transactions@
    }
}

/// The epoch and boundary block that a transaction announces, if it ends the epoch.
pub open spec fn end_of_epoch_of(tx: CommittedTransaction) -> Option<(u64, u64)> {
    match tx.system {
        Some(SystemTransaction::EndOfEpoch { new_epoch, boundary_block }) => Some(
            (new_epoch, boundary_block),
        ),
        _ => None,
    }
}

/// The announcement of the first transaction in `txs` that ends the epoch.
pub open spec fn first_end_of_epoch(txs: Seq<CommittedTransaction>) -> Option<(u64, u64)>
    decreases txs.len(),
{
    if txs.len() == 0 {
        None
    } else if end_of_epoch_of(txs[0]) is Some {
        end_of_epoch_of(txs[0])
    } else {
        first_end_of_epoch(txs.skip(1))
    }
}

impl CommittedTransaction {
    /// Whether this is the system transaction that ends the epoch.
    pub fn is_end_of_epoch(&self) -> (r: bool)
        ensures
            r == (end_of_epoch_of(*self) is Some),
    {
        self.as_end_of_epoch().is_some()
    }

    /// The announced epoch and boundary block, if this transaction ends the epoch.
    pub fn as_end_of_epoch(&self) -> (r: Option<(u64, u64)>)
        ensures
            r == end_of_epoch_of(*self),
    {
        match self.system {
            Some(SystemTransaction::EndOfEpoch { new_epoch, boundary_block }) => Some(
                (new_epoch, boundary_block),
            ),
            _ => None,
        }
    }
}

impl CommittedSubDag {
    /// All transactions of the commit, block by block.
    pub open spec fn all_txs(&self) -> Seq<CommittedTransaction> {
        flatten_blocks(self.blocks@)
    }

    /// References to all transactions of the commit, block by block.
    pub fn transactions(&self) -> (r: Vec<&CommittedTransaction>)
        ensures
            r@.len() == self.all_txs().len(),
            forall|i: int| 0 <= i < r@.len() ==> *(#[trigger] r@[i]) == self.all_txs()[i],
    {
        let mut all: Vec<&CommittedTransaction> = Vec::new();
        let mut b: usize = 0;
        while b < self.blocks.len()
            invariant
                b <= self.blocks@.len(),
                all@.len() == flatten_blocks(self.blocks@.take(b as int)).len(),
                forall|i: int|
                    0 <= i < all@.len() ==> *(#[trigger] all@[i]) == flatten_blocks(
                        self.blocks@.take(b as int),
                    )[i],
            decreases self.blocks@.len() - b,
        {
            let txs = &self.blocks[b].transactions;
            let ghost before = flatten_blocks(self.blocks@.take(b as int));
            proof {
                let next = self.blocks@.take(b + 1);
                assert(next.drop_last() =~= self.blocks@.take(b as int));
                assert(next.last() == self.blocks@[b as int]);
            }
            let mut t: usize = 0;
            while t < txs.len()
                invariant
                    t <= txs@.len(),
                    all@.len() == before.len() + t,
                    forall|i: int|
                        0 <= i < all@.len() ==> *(#[trigger] all@[i]) == (before + txs@)[i],
                decreases txs@.len() - t,
            {
                all.push(&txs[t]);
                t = t + 1;
            }
            b = b + 1;
        }
        assert(self.blocks@.take(b as int) =~= self.blocks@);
        all
    }

    /// The number of transactions of the commit.
    pub fn transaction_count(&self) -> (n: usize)
        ensures
            n == self.all_txs().len(),
    {
        self.transactions().len()
    }

    /// The payloads of all transactions of the commit, block by block.
    pub fn transaction_payloads(&self) -> (r: Vec<Vec<u8>>)
        ensures
            r@.len() == self.all_txs().len(),
            forall|i: int| 0 <= i < r@.len() ==> (#[trigger] r@[i])@ == self.all_txs()[i].data@,
    {
        let txs = self.transactions();
        let mut r: Vec<Vec<u8>> = Vec::new();
        let mut i: usize = 0;
        while i < txs.len()
            invariant
                i <= txs@.len(),
                txs@.len() == self.all_txs().len(),
                forall|k: int| 0 <= k < txs@.len() ==> *(#[trigger] txs@[k]) == self.all_txs()[k],
                r@.len() == i,
                forall|k: int| 0 <= k < i ==> (#[trigger] r@[k])@ == self.all_txs()[k].data@,
            decreases txs@.len() - i,
        {
            r.push(copy_bytes(&txs[i].data));
            i = i + 1;
        }
        r
    }

    /// The hashes of all transactions of the commit, block by block.
    pub fn transaction_hashes(&self) -> (r: Vec<Vec<u8>>)
        ensures
            r@.len() == self.all_txs().len(),
            forall|i: int| 0 <= i < r@.len() ==> (#[trigger] r@[i])@ == self.all_txs()[i].hash@,
    {
        let txs = self.transactions();
        let mut r: Vec<Vec<u8>> = Vec::new();
        let mut i: usize = 0;
        while i < txs.len()
            invariant
                i <= txs@.len(),
                txs@.len() == self.all_txs().len(),
                forall|k: int| 0 <= k < txs@.len() ==> *(#[trigger] txs@[k]) == self.all_txs()[k],
                r@.len() == i,
                forall|k: int| 0 <= k < i ==> (#[trigger] r@[k])@ == self.all_txs()[k].hash@,
            decreases txs@.len() - i,
        {
            r.push(copy_bytes(&txs[i].hash));
            i = i + 1;
        }
        r
    }

    /// The announcement of the first transaction that ends the epoch, if the commit has one.
    pub fn extract_end_of_epoch_transaction(&self) -> (r: Option<(u64, u64)>)
        ensures
            r == first_end_of_epoch(self.all_txs()),
    {
        let txs = self.transactions();
        let ghost all = self.all_txs();
        let mut i: usize = 0;
        assert(all.skip(0) =~= all);
        while i < txs.len()
            invariant
                i <= txs@.len(),
                all == self.all_txs(),
                txs@.len() == all.len(),
                forall|k: int| 0 <= k < txs@.len() ==> *(#[trigger] txs@[k]) == all[k],
                first_end_of_epoch(all) == first_end_of_epoch(all.skip(i as int)),
            decreases txs@.len() - i,
        {
            let found = txs[i].as_end_of_epoch();
            assert(all.skip(i as int)[0] == all[i as int]);
            if found.is_some() {
                return found;
            }
            assert(all.skip(i as int).skip(1) =~= all.skip(i + 1));
            i = i + 1;
        }
        None
    }
}

/// A commit announces the end of the epoch exactly when one of its transactions does.
pub proof fn law_end_of_epoch_is_found(txs: Seq<CommittedTransaction>)
    ensures
        first_end_of_epoch(txs) is Some <==> exists|i: int|
            0 <= i < txs.len() && end_of_epoch_of(#[trigger] txs[i]) is Some,
    decreases txs.len(),
{
    if txs.len() > 0 && end_of_epoch_of(txs[0]) is None {
        law_end_of_epoch_is_found(txs.skip(1));
        if first_end_of_epoch(txs.skip(1)) is Some {
            let i = choose|i: int|
                0 <= i < txs.skip(1).len() && end_of_epoch_of(#[trigger] txs.skip(1)[i]) is Some;
            assert(end_of_epoch_of(txs[i + 1]) is Some);
        } else {
            assert forall|i: int| 0 <= i < txs.len() implies end_of_epoch_of(
                #[trigger] txs[i],
            ) is None by {
                if i > 0 {
                    assert(txs.skip(1)[i - 1] == txs[i]);
                }
            }
        }
    }
}

/// The transactions of a commit are those of all its blocks put one behind the other.
pub proof fn law_commit_holds_all_its_blocks(c: CommittedSubDag)
    ensures
        c.all_txs() == c.blocks@.map_values(|b: CommittedBlock| b.transactions@).flatten(),
        c.all_txs().len() == c.blocks@.fold_left(
            0int,
            |n: int, b: CommittedBlock| n + b.transactions@.len(),
        ),
{
    lemma_flatten_blocks(c.blocks@);
}

proof fn lemma_flatten_blocks(blocks: Seq<CommittedBlock>)
    ensures
        flatten_blocks(blocks) == blocks.map_values(|b: CommittedBlock| b.transactions@).flatten(),
        flatten_blocks(blocks).len() == blocks.fold_left(
            0int,
            |n: int, b: CommittedBlock| n + b.transactions@.len(),
        ),
    decreases blocks.len(),
{
    let f = |b: CommittedBlock| b.transactions@;
    if blocks.len() > 0 {
        let init = blocks.drop_last();
        lemma_flatten_blocks(init);
        assert(blocks.map_values(f) =~= init.map_values(f).push(blocks.last().transactions@));
        init.map_values(f).lemma_flatten_push(blocks.last().transactions@);
    } else {
        assert(blocks.map_values(f) =~= Seq::<Seq<CommittedTransaction>>::empty());
    }
}

/// No transaction of any block is lost: transaction `t` of block `b` stands behind all those of the
/// blocks before it and the `t` before it in its own block.
pub proof fn law_every_transaction_of_every_block_counts(c: CommittedSubDag, b: int, t: int)
    requires
        0 <= b < c.blocks@.len(),
        0 <= t < c.blocks@[b].transactions@.len(),
    ensures
        ({
            let before = c.blocks@.take(b).map_values(
                |x: CommittedBlock| x.transactions@,
            ).flatten().len();
            &&& before + t < c.all_txs().len()
            &&& c.all_txs()[before + t] == c.blocks@[b].transactions@[t]
        }),
        c.all_txs().contains(c.blocks@[b].transactions@[t]),
{
    lemma_position_in_blocks(c.blocks@, b, t);
}

proof fn lemma_position_in_blocks(blocks: Seq<CommittedBlock>, b: int, t: int)
    requires
        0 <= b < blocks.len(),
        0 <= t < blocks[b].transactions@.len(),
    ensures
        ({
            let before = blocks.take(b).map_values(
                |x: CommittedBlock| x.transactions@,
            ).flatten().len();
            &&& before + t < flatten_blocks(blocks).len()
            &&& flatten_blocks(blocks)[before + t] == blocks[b].transactions@[t]
        }),
    decreases blocks.len(),
{
    let init = blocks.drop_last();
    lemma_flatten_blocks(blocks.take(b));
    if b < init.len() {
        lemma_position_in_blocks(init, b, t);
        assert(init.take(b) =~= blocks.take(b));
        assert(init[b] == blocks[b]);
    } else {
        assert(blocks.take(b) =~= init);
    }
}

/// Every transaction of a commit stems from one of its blocks, and those of an earlier block, or at
/// an earlier place in the same block, come first.
pub proof fn law_transactions_stem_from_blocks(c: CommittedSubDag, i: int) -> (place: (int, int))
    requires
        0 <= i < c.all_txs().len(),
    ensures
        0 <= place.0 < c.blocks@.len(),
        0 <= place.1 < c.blocks@[place.0].transactions@.len(),
        c.all_txs()[i] == c.blocks@[place.0].transactions@[place.1],
        i == c.blocks@.take(place.0).map_values(
            |x: CommittedBlock| x.transactions@,
        ).flatten().len() + place.1,
{
    lemma_place_of(c.blocks@, i)
}

proof fn lemma_place_of(blocks: Seq<CommittedBlock>, i: int) -> (place: (int, int))
    requires
        0 <= i < flatten_blocks(blocks).len(),
    ensures
        0 <= place.0 < blocks.len(),
        0 <= place.1 < blocks[place.0].transactions@.len(),
        flatten_blocks(blocks)[i] == blocks[place.0].transactions@[place.1],
        i == blocks.take(place.0).map_values(
            |x: CommittedBlock| x.transactions@,
        ).flatten().len() + place.1,
    decreases blocks.len(),
{
    let init = blocks.drop_last();
    let n = flatten_blocks(init).len();
    if i < n {
        let place = lemma_place_of(init, i);
        assert(init.take(place.0) =~= blocks.take(place.0));
        assert(init[place.0] == blocks[place.0]);
        place
    } else {
        lemma_flatten_blocks(init);
        assert(blocks.take(blocks.len() - 1) =~= init);
        (blocks.len() - 1, i - n)
    }
}

/// The announcement of a commit is that of the first transaction that decodes to the end of an
/// epoch, word for word; without one there is none.
pub proof fn law_first_announcement_counts(txs: Seq<CommittedTransaction>)
    ensures
        match first_end_of_epoch(txs) {
            Some((new_epoch, boundary_block)) => exists|i: int|
                0 <= i < txs.len() && (#[trigger] txs[i]).system == Some(
                    SystemTransaction::EndOfEpoch { new_epoch, boundary_block },
                ) && forall|j: int|
                    0 <= j < i ==> !((#[trigger] txs[j]).system matches Some(
                        SystemTransaction::EndOfEpoch { .. },
                    )),
            None => forall|j: int|
                0 <= j < txs.len() ==> !((#[trigger] txs[j]).system matches Some(
                    SystemTransaction::EndOfEpoch { .. },
                )),
        },
    decreases txs.len(),
{
    if txs.len() > 0 {
        let rest = txs.skip(1);
        law_first_announcement_counts(rest);
        assert forall|j: int| 0 <= j < rest.len() implies rest[j] == #[trigger] txs[j + 1] by {}
        if end_of_epoch_of(txs[0]) is None {
            assert(!(txs[0].system matches Some(SystemTransaction::EndOfEpoch { .. })));
            match first_end_of_epoch(rest) {
                Some((new_epoch, boundary_block)) => {
                    let i = choose|i: int|
                        0 <= i < rest.len() && (#[trigger] rest[i]).system == Some(
                            SystemTransaction::EndOfEpoch { new_epoch, boundary_block },
                        ) && forall|j: int|
                            0 <= j < i ==> !((#[trigger] rest[j]).system matches Some(
                                SystemTransaction::EndOfEpoch { .. },
                            ));
                    assert(txs[i + 1] == rest[i]);
                    assert forall|j: int| 0 <= j < i + 1 implies !(
                    (#[trigger] txs[j]).system matches Some(
                        SystemTransaction::EndOfEpoch { .. },
                    )) by {
                        if j > 0 {
                            assert(txs[j] == rest[j - 1]);
                        }
                    }
                },
                None => {
                    assert forall|j: int| 0 <= j < txs.len() implies !(
                    (#[trigger] txs[j]).system matches Some(
                        SystemTransaction::EndOfEpoch { .. },
                    )) by {
                        if j > 0 {
                            assert(txs[j] == rest[j - 1]);
                        }
                    }
                },
            }
        }
    }
}

/// Reading the transactions of a commit brings up each transaction of each of its blocks, and no
/// more of them than the blocks hold.
pub proof fn law_reading_brings_up_every_transaction(
    c: &CommittedSubDag,
    r: Vec<&CommittedTransaction>,
    b: int,
    t: int,
)
    requires
        call_ensures(CommittedSubDag::transactions, (c,), r),
        0 <= b < c.blocks@.len(),
        0 <= t < c.blocks@[b].transactions@.len(),
    ensures
        r@.len() == c.blocks@.map_values(|x: CommittedBlock| x.transactions@).flatten().len(),
        exists|k: int| 0 <= k < r@.len() && *(#[trigger] r@[k]) == c.blocks@[b].transactions@[t],
{
    law_commit_holds_all_its_blocks(*c);
    law_every_transaction_of_every_block_counts(*c, b, t);
    let tx = c.blocks@[b].transactions@[t];
    let k = choose|k: int| 0 <= k < c.all_txs().len() && c.all_txs()[k] == tx;
    assert(*r@[k] == tx);
}

} // verus!
