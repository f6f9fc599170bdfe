//! From a commit to the blocks that carry it to the execution engine.

use vstd::prelude::*;

use crate::consensus::subdag::{CommittedSubDag, CommittedTransaction};
use crate::node::executor_client::canonical::{
    canonical_order, canonical_payloads, canonical_positions, is_canonical_order,
    is_first_of_hash,
};

verus! {

/// The most transactions one block of the execution engine holds. A larger commit is split into
/// several blocks with consecutive global execution indices. All nodes use the same threshold,
/// so all split a commit in the same way.
pub const MAX_TXS_PER_GO_BLOCK: usize = 50000;

/// A transaction as the execution engine receives it.
#[derive(Debug)]
pub struct TransactionExe {
    /// The bytes of the transaction.
    pub digest: Vec<u8>,
    pub worker_id: u32,
}

/// A block as the execution engine receives it.
#[derive(Debug)]
pub struct ExecutableBlock {
    pub transactions: Vec<TransactionExe>,
    pub global_exec_index: u64,
    pub commit_index: u32,
    pub epoch: u64,
    pub commit_timestamp_ms: u64,
    pub leader_author_index: u32,
    pub leader_address: Vec<u8>,
    /// The number of the block in the chain, or 0 for a commit that makes no block.
    pub block_number: u64,
}

/// The payloads of a list of transactions.
pub open spec fn payloads_of(txs: Seq<TransactionExe>) -> Seq<Seq<u8>> {
    txs.map_values(|t: TransactionExe| t.digest@)
}

/// Every transaction is addressed to worker 0.
pub open spec fn all_worker_zero(txs: Seq<TransactionExe>) -> bool {
    forall|i: int| 0 <= i < txs.len() ==> (#[trigger] txs[i]).worker_id == 0
}

// ---------------------------------------------------------------------------------------------
// Fragments
// ---------------------------------------------------------------------------------------------

/// How many transactions the next fragment takes from a list of `len`.
pub open spec fn fragment_len(len: nat) -> nat {
    if len <= MAX_TXS_PER_GO_BLOCK {
        len
    } else {
        MAX_TXS_PER_GO_BLOCK as nat
    }
}

/// `txs` cut into consecutive fragments of at most [`MAX_TXS_PER_GO_BLOCK`] transactions.
pub open spec fn fragments<T>(txs: Seq<T>) -> Seq<Seq<T>>
    decreases txs.len(),
{
    if txs.len() == 0 {
        Seq::empty()
    } else {
        let n = fragment_len(txs.len()) as int;
        seq![txs.take(n)] + fragments(txs.skip(n))
    }
}

/// The number of fragments of a list of `len` transactions: `len` divided by the fragment size,
/// rounded up.
pub open spec fn fragment_count(len: int) -> int {
    (len + MAX_TXS_PER_GO_BLOCK - 1) / MAX_TXS_PER_GO_BLOCK as int
}

/// Fragments are never empty, never too large, as few as possible, and put together again they
/// are the list they were cut from.
pub proof fn law_fragments_partition<T>(txs: Seq<T>)
    ensures
        fragments(txs).flatten() == txs,
        fragments(txs).len() == fragment_count(txs.len() as int),
        forall|i: int|
            0 <= i < fragments(txs).len() ==> 0 < (#[trigger] fragments(txs)[i]).len()
                <= MAX_TXS_PER_GO_BLOCK,
    decreases txs.len(),
{
    let f = fragments(txs);
    if txs.len() == 0 {
        assert(f.flatten() =~= txs);
    } else {
        let n = fragment_len(txs.len()) as int;
        let rest = txs.skip(n);
        law_fragments_partition(rest);
        assert(f.first() == txs.take(n));
        assert(f.drop_first() =~= fragments(rest));
        assert(f.flatten() =~= txs.take(n) + rest);
        assert(txs.take(n) + rest =~= txs);
        assert forall|i: int| 0 <= i < f.len() implies 0 < (#[trigger] f[i]).len()
            <= MAX_TXS_PER_GO_BLOCK by {
            if i > 0 {
                assert(f[i] == fragments(rest)[i - 1]);
            }
        }
    }
}

/// A list that fits into one block is one fragment.
pub proof fn lemma_single_fragment<T>(txs: Seq<T>)
    requires
        0 < txs.len() <= MAX_TXS_PER_GO_BLOCK,
    ensures
        fragments(txs) == seq![txs],
{
    assert(txs.take(txs.len() as int) =~= txs);
    assert(txs.skip(txs.len() as int).len() == 0);
    assert(fragments(txs.skip(txs.len() as int)) =~= Seq::<Seq<T>>::empty());
    assert(fragments(txs) =~= seq![txs]);
}

/// The blocks that carry a commit with transactions `txs`, as lists of payloads: the fragments
/// of its canonical payloads, or one empty block if there are none.
pub open spec fn blocks_of_commit(txs: Seq<CommittedTransaction>) -> Seq<Seq<Seq<u8>>> {
    let p = canonical_payloads(txs);
    if p.len() == 0 {
        seq![Seq::empty()]
    } else {
        fragments(p)
    }
}

/// A commit has no more canonical payloads than transactions.
pub proof fn lemma_canonical_payloads_len(txs: Seq<CommittedTransaction>)
    requires
        is_canonical_order(txs, canonical_order(txs)),
    ensures
        canonical_payloads(txs).len() <= txs.len(),
{
    let order = canonical_order(txs);
    assert forall|i: int, j: int| 0 <= i < j < order.len() implies order[i] != order[j] by {
        assert(is_first_of_hash(txs, order[i]));
        crate::lex::lemma_lex_irreflexive(txs[order[i]].hash@);
    }
    assert(order.no_duplicates());
    let range = vstd::set_lib::set_int_range(0, txs.len() as int);
    vstd::set_lib::lemma_int_range(0, txs.len() as int);
    assert forall|x: int| order.to_set().contains(x) implies range.contains(x) by {
        let i = choose|i: int| 0 <= i < order.len() && order[i] == x;
        assert(is_first_of_hash(txs, order[i]));
    }
    order.unique_seq_to_set();
    vstd::set_lib::lemma_len_subset(order.to_set(), range);
}

/// The canonical transactions of a commit: the well-formed user transactions, one per hash, in
/// ascending order of hash.
pub fn build_sorted_transactions(subdag: &CommittedSubDag) -> (r: Vec<TransactionExe>)
    ensures
        is_canonical_order(subdag.all_txs(), canonical_order(subdag.all_txs())),
        payloads_of(r@) == canonical_payloads(subdag.all_txs()),
        all_worker_zero(r@),
{
    let list = subdag.transactions();
    let ghost txs = subdag.all_txs();
    let order = canonical_positions(&list, Ghost(txs));
    let mut out: Vec<TransactionExe> = Vec::new();
    let mut i: usize = 0;
    while i < order.len()
        invariant
            i <= order@.len(),
            out@.len() == i,
            list@.len() == txs.len(),
            forall|k: int| 0 <= k < list@.len() ==> *(#[trigger] list@[k]) == txs[k],
            is_canonical_order(txs, order@.map_values(|x: usize| x as int)),
            forall|k: int|
                0 <= k < out@.len() ==> (#[trigger] out@[k]).digest@ == txs[order@[k] as int].data@
                    && out@[k].worker_id == 0,
        decreases order@.len() - i,
    {
        proof {
            let o = order@.map_values(|x: usize| x as int);
            assert(is_first_of_hash(txs, o[i as int]));
        }
        let tx = list[order[i]];
        out.push(TransactionExe { digest: copy_bytes(&tx.data), worker_id: 0 });
        i = i + 1;
    }
    assert(payloads_of(out@) =~= canonical_payloads(txs));
    out
}

/// A copy of a byte vector.
pub fn copy_bytes(v: &Vec<u8>) -> (r: Vec<u8>)
    ensures
        r@ == v@,
{
    let mut r: Vec<u8> = Vec::new();
    r.extend_from_slice(v.as_slice());
    assert(r@ =~= v@);
    r
}

// ---------------------------------------------------------------------------------------------
// Block numbers
// ---------------------------------------------------------------------------------------------

/// Assigns chain block numbers. A commit makes a block if it has transactions or is the first of
/// a new epoch.
#[derive(Debug)]
pub struct BlockNumbering {
    pub next_block_number: u64,
    pub last_processed_epoch: u64,
}

impl BlockNumbering {
    /// The number for a block of `epoch`, or 0 if the commit makes no block.
    pub open spec fn number_for(&self, epoch: u64, has_transactions: bool) -> u64 {
        if has_transactions || epoch > self.last_processed_epoch {
            self.next_block_number
        } else {
            0
        }
    }

    /// Assigns the number for a block of `epoch`.
    pub fn allocate(&mut self, epoch: u64, has_transactions: bool) -> (number: u64)
        requires
            old(self).next_block_number < u64::MAX,
        ensures
            number == old(self).number_for(epoch, has_transactions),
            final(self).next_block_number == old(self).next_block_number + if has_transactions
                || epoch > old(self).last_processed_epoch {
                1int
            } else {
                0
            },
            final(self).last_processed_epoch == if epoch > old(self).last_processed_epoch {
                epoch
            } else {
                old(self).last_processed_epoch
            },
    {
        let is_epoch_boundary = epoch > self.last_processed_epoch;
        if is_epoch_boundary {
            self.last_processed_epoch = epoch;
        }
        if has_transactions || is_epoch_boundary {
            let number: u64 = self.next_block_number;
            self.next_block_number = self.next_block_number + 1;
            number
        } else {
            0
        }
    }
}

// ---------------------------------------------------------------------------------------------
// Sending a commit
// ---------------------------------------------------------------------------------------------

/// What the blocks of one commit have in common.
#[derive(Debug)]
pub struct CommitHeader {
    pub commit_index: u32,
    pub epoch: u64,
    pub commit_timestamp_ms: u64,
    pub leader_author_index: u32,
    pub leader_address: Vec<u8>,
}

/// A commit that is being sent as several blocks.
#[derive(Debug)]
pub struct FragmentedCommit {
    pub header: CommitHeader,
    /// The index of the next fragment.
    pub next_gei: u64,
    /// The transactions that are not in a fragment yet.
    pub remaining: Vec<TransactionExe>,
    /// The number of fragments of the whole commit.
    pub total: u64,
}

/// How a commit is to be sent.
#[derive(Debug)]
pub enum SendPlan {
    /// Nothing is to be sent.
    Skip,
    /// The commit is one block.
    Single(ExecutableBlock),
    /// The commit is several blocks.
    Fragmented(FragmentedCommit),
}

impl SendPlan {
    /// The number of global execution indices that the commit occupies.
    pub open spec fn spec_slots(&self) -> int {
        match self {
            SendPlan::Fragmented(f) => f.total as int,
            _ => 1,
        }
    }

    /// The number of global execution indices that the commit occupies: one per fragment, and
    /// one for a commit that is skipped or sent whole.
    pub fn slots(&self) -> (n: u64)
        ensures
            n == self.spec_slots(),
    {
        match self {
            SendPlan::Fragmented(f) => f.total,
            _ => 1,
        }
    }
}

/// The header of a commit.
pub open spec fn is_header_of(
    h: CommitHeader,
    subdag: CommittedSubDag,
    epoch: u64,
    leader_address: Option<Vec<u8>>,
) -> bool {
    &&& h.commit_index == subdag.commit_index
    &&& h.epoch == epoch
    &&& h.commit_timestamp_ms == subdag.timestamp_ms
    &&& h.leader_author_index == subdag.leader_author_index
    &&& h.leader_address@ == address_or_empty(leader_address)
}

/// An absent address is sent as an empty one.
pub open spec fn address_or_empty(leader_address: Option<Vec<u8>>) -> Seq<u8> {
    match leader_address {
        Some(a) => a@,
        None => Seq::empty(),
    }
}

impl ExecutableBlock {
    /// This block belongs to the commit of `h`.
    pub open spec fn carries(&self, h: CommitHeader) -> bool {
        &&& self.commit_index == h.commit_index
        &&& self.epoch == h.epoch
        &&& self.commit_timestamp_ms == h.commit_timestamp_ms
        &&& self.leader_author_index == h.leader_author_index
        &&& self.leader_address@ == h.leader_address@
    }
}

fn make_header(
    subdag: &CommittedSubDag,
    epoch: u64,
    leader_address: Option<Vec<u8>>,
) -> (h: CommitHeader)
    ensures
        is_header_of(h, *subdag, epoch, leader_address),
{
    CommitHeader {
        commit_index: subdag.commit_index,
        epoch,
        commit_timestamp_ms: subdag.timestamp_ms,
        leader_author_index: subdag.leader_author_index,
        leader_address: match leader_address {
            Some(a) => a,
            None => Vec::new(),
        },
    }
}

fn make_block(
    header: &CommitHeader,
    transactions: Vec<TransactionExe>,
    global_exec_index: u64,
    block_number: u64,
) -> (b: ExecutableBlock)
    ensures
        b.carries(*header),
        b.transactions@ == transactions@,
        b.global_exec_index == global_exec_index,
        b.block_number == block_number,
{
    ExecutableBlock {
        transactions,
        global_exec_index,
        commit_index: header.commit_index,
        epoch: header.epoch,
        commit_timestamp_ms: header.commit_timestamp_ms,
        leader_author_index: header.leader_author_index,
        leader_address: copy_bytes(&header.leader_address),
        block_number,
    }
}

/// Converts a whole commit into one block with the given number.
pub fn convert_to_block(
    subdag: &CommittedSubDag,
    epoch: u64,
    global_exec_index: u64,
    leader_address: Option<Vec<u8>>,
    block_number: u64,
) -> (b: ExecutableBlock)
    ensures
        payloads_of(b.transactions@) == canonical_payloads(subdag.all_txs()),
        all_worker_zero(b.transactions@),
        b.global_exec_index == global_exec_index,
        b.block_number == block_number,
        b.epoch == epoch,
        b.commit_index == subdag.commit_index,
        b.commit_timestamp_ms == subdag.timestamp_ms,
        b.leader_author_index == subdag.leader_author_index,
        b.leader_address@ == address_or_empty(leader_address),
{
    let header = make_header(subdag, epoch, leader_address);
    let transactions = build_sorted_transactions(subdag);
    make_block(&header, transactions, global_exec_index, block_number)
}

/// How many blocks, and with them global execution indices, a commit takes when it is sent.
pub fn commit_slots(subdag: &CommittedSubDag) -> (n: u64)
    ensures
        n == blocks_of_commit(subdag.all_txs()).len(),
        n >= 1,
{
    let transactions = build_sorted_transactions(subdag);
    let len: usize = transactions.len();
    proof {
        let payloads = canonical_payloads(subdag.all_txs());
        assert(payloads.len() == len);
        law_fragments_partition(payloads);
    }
    if len == 0 {
        1
    } else {
        fragments_for(len)
    }
}

fn fragments_for(len: usize) -> (n: u64)
    ensures
        n == fragment_count(len as int),
{
    let full: usize = len / MAX_TXS_PER_GO_BLOCK;
    if len % MAX_TXS_PER_GO_BLOCK == 0 {
        full as u64
    } else {
        (full + 1) as u64
    }
}

/// Decides how a commit that starts at `gei` is sent, and numbers its block if it is one block.
pub fn plan_commit(
    numbering: &mut BlockNumbering,
    subdag: &CommittedSubDag,
    epoch: u64,
    gei: u64,
    leader_address: Option<Vec<u8>>,
) -> (plan: SendPlan)
    requires
        old(numbering).next_block_number < u64::MAX,
    ensures
        plan !is Skip,
        plan matches SendPlan::Fragmented(f) ==> {
            &&& subdag.all_txs().len() > MAX_TXS_PER_GO_BLOCK
            &&& payloads_of(f.remaining@) == canonical_payloads(subdag.all_txs())
            &&& f.remaining@.len() > 0
            &&& all_worker_zero(f.remaining@)
            &&& f.total == blocks_of_commit(subdag.all_txs()).len()
            &&& f.next_gei == gei
            &&& is_header_of(f.header, *subdag, epoch, leader_address)
            &&& *final(numbering) == *old(numbering)
        },
        plan matches SendPlan::Single(b) ==> {
            let has_transactions = 0 < subdag.all_txs().len() <= MAX_TXS_PER_GO_BLOCK;
            &&& blocks_of_commit(subdag.all_txs()) == seq![payloads_of(b.transactions@)]
            &&& subdag.all_txs().len() > MAX_TXS_PER_GO_BLOCK ==> b.transactions@.len() == 0
            &&& all_worker_zero(b.transactions@)
            &&& b.global_exec_index == gei
            &&& b.epoch == epoch
            &&& b.commit_index == subdag.commit_index
            &&& b.commit_timestamp_ms == subdag.timestamp_ms
            &&& b.leader_author_index == subdag.leader_author_index
            &&& b.leader_address@ == address_or_empty(leader_address)
            &&& b.block_number == old(numbering).number_for(epoch, has_transactions)
            &&& final(numbering).next_block_number == old(numbering).next_block_number
                + if has_transactions || epoch > old(numbering).last_processed_epoch {
                1int
            } else {
                0
            }
            &&& final(numbering).last_processed_epoch == if epoch > old(
                numbering,
            ).last_processed_epoch {
                epoch
            } else {
                old(numbering).last_processed_epoch
            }
        },
{
    let count: usize = subdag.transaction_count();
    let header = make_header(subdag, epoch, leader_address);
    let transactions = build_sorted_transactions(subdag);
    let ghost payloads = canonical_payloads(subdag.all_txs());
    proof {
        lemma_canonical_payloads_len(subdag.all_txs());
        assert(payloads.len() == transactions@.len());
        law_fragments_partition(payloads);
        if 0 < payloads.len() <= MAX_TXS_PER_GO_BLOCK {
            lemma_single_fragment(payloads);
        }
        if payloads.len() == 0 {
            assert(payloads =~= Seq::<Seq<u8>>::empty());
        }
    }
    if count > MAX_TXS_PER_GO_BLOCK && transactions.len() > 0 {
        let total: u64 = fragments_for(transactions.len());
        return SendPlan::Fragmented(
            FragmentedCommit {
                header,
                next_gei: gei,
                remaining: transactions,
                total,
            },
        );
    }
    let number: u64 = numbering.allocate(epoch, 0 < count && count <= MAX_TXS_PER_GO_BLOCK);
    SendPlan::Single(make_block(&header, transactions, gei, number))
}

/// The next block of a fragmented commit, or `None` when all have been made. Every fragment takes
/// a block number and the next global execution index.
pub fn next_fragment(
    numbering: &mut BlockNumbering,
    commit: &mut FragmentedCommit,
) -> (r: Option<ExecutableBlock>)
    requires
        old(numbering).next_block_number < u64::MAX,
        old(commit).next_gei < u64::MAX,
        all_worker_zero(old(commit).remaining@),
    ensures
        final(commit).header == old(commit).header,
        final(commit).total == old(commit).total,
        all_worker_zero(final(commit).remaining@),
        r is None <==> old(commit).remaining@.len() == 0,
        r is None ==> *final(commit) == *old(commit) && *final(numbering) == *old(numbering),
        r matches Some(b) ==> {
            let n = fragment_len(old(commit).remaining@.len()) as int;
            &&& b.transactions@ == old(commit).remaining@.take(n)
            &&& final(commit).remaining@ == old(commit).remaining@.skip(n)
            &&& b.global_exec_index == old(commit).next_gei
            &&& final(commit).next_gei == old(commit).next_gei + 1
            &&& b.carries(old(commit).header)
            &&& b.block_number == old(numbering).next_block_number
            &&& final(numbering).next_block_number == old(numbering).next_block_number + 1
            &&& final(numbering).last_processed_epoch == if old(commit).header.epoch > old(
                numbering,
            ).last_processed_epoch {
                old(commit).header.epoch
            } else {
                old(numbering).last_processed_epoch
            }
        },
{
    if commit.remaining.len() == 0 {
        return None;
    }
    let ghost all = commit.remaining@;
    let cut: usize = if commit.remaining.len() <= MAX_TXS_PER_GO_BLOCK {
        commit.remaining.len()
    } else {
        MAX_TXS_PER_GO_BLOCK
    };
    let mut fragment: Vec<TransactionExe> = commit.remaining.split_off(cut);
    std::mem::swap(&mut fragment, &mut commit.remaining);
    assert(fragment@ =~= all.take(cut as int));
    assert(commit.remaining@ =~= all.skip(cut as int));
    let number: u64 = numbering.allocate(commit.header.epoch, true);
    let gei: u64 = commit.next_gei;
    commit.next_gei = gei + 1;
    Some(make_block(&commit.header, fragment, gei, number))
}

/// The blocks of a commit put together are what of the commit reaches the engine, in order. There
/// is always one block at least, none holds more than 50 000 transactions, and all but the last
/// are full: all nodes cut a commit in the same places.
pub proof fn law_blocks_of_a_commit(txs: Seq<CommittedTransaction>)
    ensures
        blocks_of_commit(txs).flatten() == canonical_payloads(txs),
        blocks_of_commit(txs).len() >= 1,
        blocks_of_commit(txs).len() == 1 <==> canonical_payloads(txs).len() <= 50_000,
        forall|i: int|
            0 <= i < blocks_of_commit(txs).len() ==> (#[trigger] blocks_of_commit(txs)[i]).len()
                <= 50_000,
        forall|i: int|
            0 <= i < blocks_of_commit(txs).len() - 1 ==> (#[trigger] blocks_of_commit(
                txs,
            )[i]).len() == 50_000,
{
    let p = canonical_payloads(txs);
    law_fragments_partition(p);
    lemma_full_fragments(p);
    if p.len() == 0 {
        let b = blocks_of_commit(txs);
        b.lemma_flatten_one_element();
        assert(p =~= Seq::<Seq<u8>>::empty());
    }
}

/// All fragments but the last are full.
proof fn lemma_full_fragments<T>(txs: Seq<T>)
    ensures
        forall|i: int|
            0 <= i < fragments(txs).len() - 1 ==> (#[trigger] fragments(txs)[i]).len() == 50_000,
    decreases txs.len(),
{
    if txs.len() > 0 {
        let n = fragment_len(txs.len()) as int;
        let rest = txs.skip(n);
        lemma_full_fragments(rest);
        let f = fragments(txs);
        assert forall|i: int| 0 <= i < f.len() - 1 implies (#[trigger] f[i]).len() == 50_000 by {
            if i > 0 {
                assert(f[i] == fragments(rest)[i - 1]);
            } else {
                assert(fragments(rest).len() > 0);
                assert(rest.len() > 0);
            }
        }
    }
}

/// The payloads that a commit sends to the engine, and where in its blocks they stem from.
/// Whatever block a well-formed user transaction stands in, a transaction with its hash is sent,
/// and only such transactions are.
pub proof fn law_every_block_of_a_commit_is_executed(c: CommittedSubDag, b: int, t: int)
    requires
        0 <= b < c.blocks@.len(),
        0 <= t < c.blocks@[b].transactions@.len(),
        c.blocks@[b].transactions@[t].system is None,
        c.blocks@[b].transactions@[t].valid_user_tx,
    ensures
        exists|i: int, b2: int, t2: int|
            0 <= i < blocks_of_commit(c.all_txs()).flatten().len() && 0 <= b2 < c.blocks@.len()
                && 0 <= t2 < c.blocks@[b2].transactions@.len() && #[trigger] blocks_of_commit(
                c.all_txs(),
            ).flatten()[i] == (#[trigger] c.blocks@[b2].transactions@[t2]).data@
                && c.blocks@[b2].transactions@[t2].hash@ == c.blocks@[b].transactions@[t].hash@,
{
    let txs = c.all_txs();
    crate::consensus::subdag::law_every_transaction_of_every_block_counts(c, b, t);
    law_blocks_of_a_commit(txs);
    let k = choose|k: int| 0 <= k < txs.len() && txs[k] == c.blocks@[b].transactions@[t];
    let places = crate::node::executor_client::canonical::law_each_user_transaction_reaches_the_engine_once(txs);
    assert(txs[k].system is None && txs[k].valid_user_tx);
    let i = choose|i: int|
        0 <= i < places.len() && txs[#[trigger] places[i]].hash@ == txs[k].hash@;
    let place = crate::consensus::subdag::law_transactions_stem_from_blocks(c, places[i]);
    assert(blocks_of_commit(txs).flatten()[i] == c.blocks@[place.0].transactions@[place.1].data@);
}

/// What is sent of a list of transactions: their payloads, one for each, in order.
pub proof fn law_payloads_are_the_digests(txs: Seq<TransactionExe>)
    ensures
        payloads_of(txs).len() == txs.len(),
        forall|i: int| 0 <= i < txs.len() ==> #[trigger] payloads_of(txs)[i] == txs[i].digest@,
        all_worker_zero(txs) <==> forall|i: int|
            0 <= i < txs.len() ==> (#[trigger] txs[i]).worker_id == 0,
{
}

/// A fragment takes all that is left, but never more than 50 000.
pub proof fn law_fragments_are_as_large_as_can_be(len: nat)
    ensures
        fragment_len(len) <= len,
        fragment_len(len) <= 50_000,
        fragment_len(len) == len || fragment_len(len) == 50_000,
{
}

/// A commit gets the next number of the chain if it has transactions or begins an epoch, and 0, the
/// number of no block, otherwise.
pub proof fn law_only_blocks_are_numbered(n: BlockNumbering, epoch: u64, has_transactions: bool)
    ensures
        has_transactions ==> n.number_for(epoch, has_transactions) == n.next_block_number,
        epoch > n.last_processed_epoch ==> n.number_for(epoch, has_transactions)
            == n.next_block_number,
        !has_transactions && epoch <= n.last_processed_epoch ==> n.number_for(
            epoch,
            has_transactions,
        ) == 0,
{
}

/// A header says of its commit what the commit says of itself, and the blocks of the commit repeat
/// it. A leader without an address is sent as an empty one.
pub proof fn law_blocks_name_their_commit(
    h: CommitHeader,
    b: ExecutableBlock,
    c: CommittedSubDag,
    epoch: u64,
    leader_address: Option<Vec<u8>>,
)
    requires
        is_header_of(h, c, epoch, leader_address),
        b.carries(h),
    ensures
        b.commit_index == c.commit_index,
        b.epoch == epoch,
        b.commit_timestamp_ms == c.timestamp_ms,
        b.leader_author_index == c.leader_author_index,
        leader_address matches Some(a) ==> b.leader_address@ == a@,
        leader_address is None ==> b.leader_address@.len() == 0,
{
}

/// A commit takes as many indices as it has blocks.
pub proof fn law_slots_are_counted(plan: SendPlan)
    ensures
        plan matches SendPlan::Fragmented(f) ==> plan.spec_slots() == f.total,
        !(plan is Fragmented) ==> plan.spec_slots() == 1,
{
}

} // verus!
