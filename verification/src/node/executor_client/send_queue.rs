//! The queue of blocks on their way to the execution engine.
//!
//! Blocks may be produced in any order; the engine must receive them in ascending order of
//! global execution index (GEI) without gaps. The queue holds what cannot be sent yet.

use std::collections::{BTreeMap, BTreeSet};
use vstd::prelude::*;
use vstd::std_specs::cmp::OrdSpec;
use vstd::std_specs::iter::IteratorSpec;

verus! {

/// How many blocks the queue holds before it refuses more.
pub const MAX_BUFFER_SIZE: usize = 10_000;

/// How many blocks one flush hands over at most.
pub const BATCH_WRITE_LIMIT: usize = 500;

/// How many sent indices are remembered.
pub const MAX_SENT_INDICES: usize = 10_000;

/// A gap in front of the queue larger than this is checked against the execution engine.
pub const LARGE_GAP: u64 = 100;

/// The last sent index is persisted at every multiple of this.
pub const PERSIST_INTERVAL: u64 = 100;

/// `k` is the smallest key of `m`.
pub open spec fn is_min_key<V>(m: Map<u64, V>, k: u64) -> bool {
    m.contains_key(k) && forall|j: u64| #[trigger] m.contains_key(j) ==> k <= j
}

/// `k` is the smallest element of `s`.
pub open spec fn is_min_element(s: Set<u64>, k: u64) -> bool {
    s.contains(k) && forall|j: u64| #[trigger] s.contains(j) ==> k <= j
}

/// The smallest key of a map.
pub fn min_key<V>(m: &BTreeMap<u64, V>) -> (r: Option<u64>)
    ensures
        match r {
            Some(k) => is_min_key(m@, k),
            None => m@ == Map::<u64, V>::empty(),
        },
{
    for k in it: m.keys()
        invariant
            it.index() == 0,
            it.seq() == m.keys().remaining(),
    {
        proof {
            assert(*k == *it.seq()[0]);
            assert forall|j: u64| #[trigger] m@.contains_key(j) implies *k <= j by {
                let s = it.seq();
                assert(s.unref().to_set().contains(j));
                assert(s.unref().contains(j));
                let i = choose|i: int| 0 <= i < s.unref().len() && s.unref()[i] == j;
                assert(*s[i] == j);
                if i > 0 {
                    assert(OrdSpec::cmp_spec(&s[0], &s[i]) is Less);
                }
            }
        }
        return Some(*k);
    }
    None
}

/// The smallest element of a set.
pub fn min_element(s: &BTreeSet<u64>) -> (r: Option<u64>)
    ensures
        match r {
            Some(k) => is_min_element(s@, k),
            None => s@ == Set::<u64>::empty(),
        },
{
    for k in it: s.iter()
        invariant
            it.index() == 0,
            it.seq() == s.iter().remaining(),
    {
        proof {
            assert(*k == *it.seq()[0]);
            assert forall|j: u64| #[trigger] s@.contains(j) implies *k <= j by {
                let q = it.seq();
                assert(q.unref().to_set().contains(j));
                assert(q.unref().contains(j));
                let i = choose|i: int| 0 <= i < q.unref().len() && q.unref()[i] == j;
                assert(*q[i] == j);
                if i > 0 {
                    assert(OrdSpec::cmp_spec(&q[0], &q[i]) is Less);
                }
            }
        }
        return Some(*k);
    }
    None
}

/// `t` is what is left of `s` when its smallest elements are dropped until at most `cap` remain.
pub open spec fn is_trimmed(s: Set<u64>, t: Set<u64>, cap: nat) -> bool {
    &&& t.subset_of(s)
    &&& t.len() == if s.len() <= cap {
        s.len()
    } else {
        cap
    }
    &&& forall|x: u64, y: u64|
        #![trigger s.contains(x), t.contains(y)]
        s.contains(x) && !t.contains(x) && t.contains(y) ==> x < y
}

/// An encoded block and where it came from.
#[derive(Debug)]
pub struct BufferedBlock {
    pub data: Vec<u8>,
    pub epoch: u64,
    pub commit_index: u32,
}

/// A block taken out of the queue together with its index.
#[derive(Debug)]
pub struct QueuedBlock {
    pub gei: u64,
    pub block: BufferedBlock,
}

/// What became of a block that was offered to the queue.
#[derive(Clone, Copy, Debug, PartialEq, Eq, Structural)]
pub enum EnqueueOutcome {
    /// It was added.
    Added,
    /// The same commit was already waiting under this index; the waiting block stays.
    AlreadyBuffered,
    /// A different commit was waiting under this index; it was replaced.
    Replaced,
}

/// The queue is full.
#[derive(Clone, Copy, Debug, PartialEq, Eq, Structural)]
pub struct BufferFull {
    pub len: usize,
}

/// What a finished flush asks for.
#[derive(Debug)]
pub struct FlushReport {
    /// The blocks that were handed over, in order.
    pub sent: Vec<QueuedBlock>,
    /// The last index that was handed over.
    pub last_index: u64,
    /// The commit of the last block that was handed over.
    pub last_commit_index: u32,
    /// Whether `last_index` is to be persisted now.
    pub persist_due: bool,
}

/// Blocks waiting for their turn, and the index whose turn it is.
#[derive(Debug)]
pub struct SendQueue {
    pub buffer: BTreeMap<u64, BufferedBlock>,
    pub next_expected: u64,
    pub sent: BTreeSet<u64>,
}

/// `batch` holds consecutive blocks that start at index `first`.
pub open spec fn consecutive_from(batch: Seq<QueuedBlock>, first: int) -> bool {
    forall|i: int| 0 <= i < batch.len() ==> (#[trigger] batch[i]).gei == first + i
}

/// `m` with the blocks of `batch` put in.
pub open spec fn with_blocks(
    m: Map<u64, BufferedBlock>,
    batch: Seq<QueuedBlock>,
) -> Map<u64, BufferedBlock>
    decreases batch.len(),
{
    if batch.len() == 0 {
        m
    } else {
        with_blocks(m, batch.drop_last()).insert(batch.last().gei, batch.last().block)
    }
}

/// The indices `lo..hi`.
pub open spec fn index_range(lo: int, hi: int) -> Set<u64> {
    Set::new(|x: u64| lo <= x < hi)
}

impl SendQueue {
    /// No index is the greatest representable one, so every index has a successor, and the
    /// queue is within its limit.
    pub open spec fn wf(&self) -> bool {
        &&& forall|k: u64| #[trigger] self.buffer@.contains_key(k) ==> k < u64::MAX
        &&& self.buffer@.len() <= MAX_BUFFER_SIZE
        &&& self.sent@.finite()
        &&& self.sent@.len() <= MAX_SENT_INDICES
    }

    /// `batch` was taken from the front of this queue and can be handed back.
    pub open spec fn took(&self, batch: Seq<QueuedBlock>) -> bool {
        &&& consecutive_from(batch, self.next_expected as int)
        &&& forall|i: int|
            0 <= i < batch.len() ==> (#[trigger] batch[i]).gei < u64::MAX
                && !self.buffer@.contains_key(batch[i].gei)
        &&& self.buffer@.len() + batch.len() <= MAX_BUFFER_SIZE
    }

    /// Whether the block at `gei` has been dealt with already.
    pub open spec fn is_settled(&self, gei: u64) -> bool {
        gei < self.next_expected || self.sent@.contains(gei)
    }

    /// An empty queue that waits for `next_expected`.
    pub fn new(next_expected: u64) -> (q: SendQueue)
        ensures
            q.wf(),
            q.next_expected == next_expected,
            q.buffer@ == Map::<u64, BufferedBlock>::empty(),
            q.sent@ == Set::<u64>::empty(),
    {
        SendQueue { buffer: BTreeMap::new(), next_expected, sent: BTreeSet::new() }
    }

    /// Whether the block at `gei` has been dealt with already: it lies before the expected index
    /// (a replayed commit) or was sent through the other stream.
    pub fn already_settled(&self, gei: u64) -> (r: bool)
        ensures
            r == self.is_settled(gei),
    {
        gei < self.next_expected || self.sent.contains(&gei)
    }

    /// Offers a block to the queue.
    pub fn enqueue(&mut self, gei: u64, block: BufferedBlock) -> (r: Result<
        EnqueueOutcome,
        BufferFull,
    >)
        requires
            old(self).wf(),
            gei < u64::MAX,
        ensures
            final(self).wf(),
            final(self).next_expected == old(self).next_expected,
            final(self).sent@ == old(self).sent@,
            r is Err <==> old(self).buffer@.len() >= MAX_BUFFER_SIZE,
            match r {
                Err(e) => {
                    &&& e.len == old(self).buffer@.len()
                    &&& final(self).buffer@ == old(self).buffer@
                },
                Ok(EnqueueOutcome::AlreadyBuffered) => {
                    &&& old(self).buffer@.contains_key(gei)
                    &&& old(self).buffer@[gei].epoch == block.epoch
                    &&& old(self).buffer@[gei].commit_index == block.commit_index
                    &&& final(self).buffer@ == old(self).buffer@
                },
                Ok(EnqueueOutcome::Replaced) => {
                    &&& old(self).buffer@.contains_key(gei)
                    &&& (old(self).buffer@[gei].epoch != block.epoch
                        || old(self).buffer@[gei].commit_index != block.commit_index)
                    &&& final(self).buffer@ == old(self).buffer@.insert(gei, block)
                },
                Ok(EnqueueOutcome::Added) => {
                    &&& !old(self).buffer@.contains_key(gei)
                    &&& final(self).buffer@ == old(self).buffer@.insert(gei, block)
                },
            },
    {
        if self.buffer.len() >= MAX_BUFFER_SIZE {
            return Err(BufferFull { len: self.buffer.len() });
        }
        let outcome = match self.buffer.get(&gei) {
            Some(existing) => if existing.epoch == block.epoch && existing.commit_index
                == block.commit_index {
                EnqueueOutcome::AlreadyBuffered
            } else {
                EnqueueOutcome::Replaced
            },
            None => EnqueueOutcome::Added,
        };
        if outcome == EnqueueOutcome::AlreadyBuffered {
            return Ok(outcome);
        }
        self.buffer.insert(gei, block);
        Ok(outcome)
    }

    /// The distance from the expected index to the first waiting block; 0 if nothing waits.
    pub open spec fn gap(&self) -> int {
        if exists|k: u64| is_min_key(self.buffer@, k) {
            let min = choose|k: u64| is_min_key(self.buffer@, k);
            if min >= self.next_expected {
                min - self.next_expected
            } else {
                0
            }
        } else {
            0
        }
    }

    /// Whether the gap in front of the queue is so large that the execution engine has to be
    /// asked for its own position first.
    pub fn needs_executor_position(&self) -> (r: bool)
        ensures
            r == (self.gap() > LARGE_GAP),
    {
        match min_key(&self.buffer) {
            Some(min) => {
                proof {
                    assert(is_min_key(self.buffer@, min));
                    let other = choose|k: u64| is_min_key(self.buffer@, k);
                    assert(is_min_key(self.buffer@, other));
                    assert(other == min);
                }
                min.saturating_sub(self.next_expected) > LARGE_GAP
            },
            None => false,
        }
    }

    /// Drops every waiting block below `bound`.
    pub fn drop_below(&mut self, bound: u64)
        requires
            old(self).wf(),
        ensures
            final(self).wf(),
            final(self).next_expected == old(self).next_expected,
            final(self).sent@ == old(self).sent@,
            final(self).buffer@.submap_of(old(self).buffer@),
            forall|k: u64| #[trigger]
                final(self).buffer@.contains_key(k) <==> old(self).buffer@.contains_key(k) && k
                    >= bound,
    {
        let ghost start = self.buffer@;
        loop
            invariant
                self.wf(),
                self.next_expected == old(self).next_expected,
                self.sent@ == old(self).sent@,
                self.buffer@.submap_of(start),
                start == old(self).buffer@,
                forall|k: u64| #[trigger]
                    start.contains_key(k) && k >= bound ==> self.buffer@.contains_key(k),
            ensures
                forall|k: u64| #[trigger] self.buffer@.contains_key(k) ==> k >= bound,
            decreases self.buffer@.len(),
        {
            match min_key(&self.buffer) {
                Some(min) if min < bound => {
                    self.buffer.remove(&min);
                },
                _ => {
                    break ;
                },
            }
        }
    }

    /// Takes note of the execution engine's own position.
    ///
    /// An engine that is ahead has executed everything up to `executor_gei`: the queue moves
    /// past it and drops what it no longer needs. An engine that is behind will never see the
    /// indices in front of the first waiting block, because nothing is left to fill them: the
    /// queue moves up to that block.
    pub fn apply_executor_position(&mut self, executor_gei: u64)
        requires
            old(self).wf(),
            executor_gei < u64::MAX,
        ensures
            final(self).wf(),
            final(self).sent@ == old(self).sent@,
            executor_gei + 1 > old(self).next_expected ==> {
                &&& final(self).next_expected == executor_gei + 1
                &&& final(self).buffer@.submap_of(old(self).buffer@)
                &&& forall|k: u64| #[trigger]
                    final(self).buffer@.contains_key(k) <==> old(self).buffer@.contains_key(k) && k
                        > executor_gei
            },
            executor_gei + 1 <= old(self).next_expected ==> {
                &&& final(self).buffer@ == old(self).buffer@
                &&& final(self).next_expected == old(self).next_expected + old(self).gap()
            },
    {
        let executor_next: u64 = executor_gei + 1;
        if executor_next > self.next_expected {
            self.next_expected = executor_next;
            self.drop_below(executor_next);
        } else {
            match min_key(&self.buffer) {
                Some(min) => {
                    proof {
                        assert(is_min_key(self.buffer@, min));
                        let other = choose|k: u64| is_min_key(self.buffer@, k);
                        assert(is_min_key(self.buffer@, other));
                        assert(other == min);
                    }
                    if min > self.next_expected {
                        self.next_expected = min;
                    }
                },
                None => {},
            }
        }
    }

    /// Takes the longest run of consecutive blocks that starts at the expected index, up to the
    /// batch limit.
    pub fn take_batch(&mut self) -> (batch: Vec<QueuedBlock>)
        requires
            old(self).wf(),
        ensures
            final(self).wf(),
            final(self).next_expected == old(self).next_expected,
            final(self).sent@ == old(self).sent@,
            final(self).took(batch@),
            batch@.len() <= BATCH_WRITE_LIMIT,
            with_blocks(final(self).buffer@, batch@) == old(self).buffer@,
            batch@.len() < BATCH_WRITE_LIMIT ==> !old(self).buffer@.contains_key(
                (old(self).next_expected + batch@.len()) as u64,
            ),
    {
        let mut batch: Vec<QueuedBlock> = Vec::new();
        let mut index: u64 = self.next_expected;
        while batch.len() < BATCH_WRITE_LIMIT
            invariant
                self.wf(),
                self.next_expected == old(self).next_expected,
                self.sent@ == old(self).sent@,
                self.took(batch@),
                index == self.next_expected + batch@.len(),
                batch@.len() <= BATCH_WRITE_LIMIT,
                old(self).buffer@.len() <= MAX_BUFFER_SIZE,
                self.buffer@.len() + batch@.len() == old(self).buffer@.len(),
                with_blocks(self.buffer@, batch@) == old(self).buffer@,
                forall|k: u64|
                    k >= index ==> (#[trigger] old(self).buffer@.contains_key(k)
                        <==> self.buffer@.contains_key(k)),
            ensures
                batch@.len() < BATCH_WRITE_LIMIT ==> !old(self).buffer@.contains_key(index),
            decreases BATCH_WRITE_LIMIT - batch@.len(),
        {
            let ghost before = self.buffer@;
            match self.buffer.remove(&index) {
                Some(block) => {
                    let ghost old_batch = batch@;
                    batch.push(QueuedBlock { gei: index, block });
                    proof {
                        assert(batch@.drop_last() =~= old_batch);
                        lemma_with_blocks_insert(self.buffer@, old_batch, index, block);
                        assert(before =~= self.buffer@.insert(index, block));
                        assert forall|k: u64| k >= index + 1 implies (#[trigger] old(
                            self,
                        ).buffer@.contains_key(k) <==> self.buffer@.contains_key(k)) by {
                            assert(before.contains_key(k) <==> self.buffer@.contains_key(k));
                        }
                    }
                    index = index + 1;
                },
                None => {
                    assert(before =~= self.buffer@);
                    break ;
                },
            }
        }
        batch
    }

    /// Ends a flush of which the first `sent_count` blocks were handed over. The blocks behind
    /// them go back into the queue, and only the indices that were handed over are passed.
    pub fn finish_batch(&mut self, batch: Vec<QueuedBlock>, sent_count: usize) -> (r: Option<
        FlushReport,
    >)
        requires
            old(self).wf(),
            old(self).took(batch@),
            sent_count <= batch@.len(),
        ensures
            final(self).wf(),
            final(self).next_expected == old(self).next_expected + sent_count,
            final(self).buffer@ == with_blocks(
                old(self).buffer@,
                batch@.skip(sent_count as int),
            ),
            is_trimmed(
                old(self).sent@.union(
                    index_range(
                        old(self).next_expected as int,
                        old(self).next_expected + sent_count,
                    ),
                ),
                final(self).sent@,
                MAX_SENT_INDICES as nat,
            ),
            r is Some <==> sent_count > 0,
            r matches Some(report) ==> {
                &&& report.sent@ == batch@.take(sent_count as int)
                &&& report.last_index == old(self).next_expected + sent_count - 1
                &&& report.last_commit_index == batch@[sent_count - 1].block.commit_index
                &&& report.persist_due == (report.last_index % PERSIST_INTERVAL == 0
                    || batch@.len() > 1)
            },
    {
        let ghost all = batch@;
        let batch_len: usize = batch.len();
        let mut batch = batch;
        let first: u64 = self.next_expected;
        assert(with_blocks(self.buffer@, all.skip(all.len() as int)) == self.buffer@);
        while batch.len() > sent_count
            invariant
                self.wf(),
                self.next_expected == old(self).next_expected,
                self.sent@ == old(self).sent@,
                sent_count <= batch@.len() <= all.len(),
                batch@ == all.take(batch@.len() as int),
                old(self).took(all),
                self.buffer@.len() + batch@.len() == old(self).buffer@.len() + all.len(),
                forall|k: u64| #[trigger]
                    self.buffer@.contains_key(k) <==> old(self).buffer@.contains_key(k)
                        || first + batch@.len() <= k < first + all.len(),
                first == old(self).next_expected,
                self.buffer@ == with_blocks(old(self).buffer@, all.skip(batch@.len() as int)),
            decreases batch@.len(),
        {
            let ghost n = batch@.len();
            let ghost before = self.buffer@;
            match batch.pop() {
                Some(q) => {
                    assert(q == all[n - 1]);
                    assert(q.gei == first + n - 1);
                    let gei: u64 = q.gei;
                    let block = q.block;
                    self.buffer.insert(gei, block);
                    proof {
                        assert(all.skip(n - 1) =~= seq![q] + all.skip(n as int));
                        lemma_with_blocks_prepend(
                            old(self).buffer@,
                            q,
                            all.skip(n as int),
                            first + n - 1,
                        );
                    }
                },
                None => {},
            }
        }
        assert(batch@ =~= all.take(sent_count as int));
        if sent_count == 0 {
            proof {
                assert(index_range(first as int, first as int) =~= Set::empty());
                assert(old(self).sent@.union(index_range(first as int, first as int)) =~= old(
                    self,
                ).sent@);
            }
            return None;
        }
        let last_index: u64 = batch[sent_count - 1].gei;
        let last_commit_index: u32 = batch[sent_count - 1].block.commit_index;
        assert(last_index == all[sent_count - 1].gei);
        self.mark_sent(first, last_index + 1);
        self.next_expected = last_index + 1;
        Some(
            FlushReport {
                sent: batch,
                last_index,
                last_commit_index,
                persist_due: last_index % PERSIST_INTERVAL == 0 || batch_len > 1,
            },
        )
    }

    /// Remembers the indices `lo..hi` as sent, forgetting the smallest ones beyond the limit.
    fn mark_sent(&mut self, lo: u64, hi: u64)
        requires
            lo <= hi,
            hi - lo <= MAX_BUFFER_SIZE,
            old(self).sent@.finite(),
        ensures
            final(self).sent@.finite(),
            final(self).buffer == old(self).buffer,
            final(self).next_expected == old(self).next_expected,
            final(self).sent@.len() <= MAX_SENT_INDICES,
            is_trimmed(
                old(self).sent@.union(index_range(lo as int, hi as int)),
                final(self).sent@,
                MAX_SENT_INDICES as nat,
            ),
    {
        let ghost target = old(self).sent@.union(index_range(lo as int, hi as int));
        let mut i: u64 = lo;
        while i < hi
            invariant
                lo <= i <= hi,
                self.buffer == old(self).buffer,
                self.next_expected == old(self).next_expected,
                self.sent@.finite(),
                self.sent@ =~= old(self).sent@.union(index_range(lo as int, i as int)),
            decreases hi - i,
        {
            self.sent.insert(i);
            i = i + 1;
        }
        let ghost full = self.sent@;
        assert(full =~= target);
        while self.sent.len() > MAX_SENT_INDICES
            invariant
                self.buffer == old(self).buffer,
                self.next_expected == old(self).next_expected,
                self.sent@.subset_of(full),
                self.sent@.finite(),
                full.len() <= MAX_SENT_INDICES ==> self.sent@ == full,
                full.len() > MAX_SENT_INDICES ==> self.sent@.len() >= MAX_SENT_INDICES,
                forall|x: u64, y: u64|
                    #![trigger full.contains(x), self.sent@.contains(y)]
                    full.contains(x) && !self.sent@.contains(x) && self.sent@.contains(y) ==> x < y,
            decreases self.sent@.len(),
        {
            match min_element(&self.sent) {
                Some(min) => {
                    self.sent.remove(&min);
                },
                None => {},
            }
        }
    }

    /// Whether the block whose turn it is waits in the queue.
    pub fn has_next(&self) -> (r: bool)
        ensures
            r == self.buffer@.contains_key(self.next_expected),
    {
        self.buffer.contains_key(&self.next_expected)
    }
}

/// Putting a block in before or after a batch that does not hold its index is the same.
proof fn lemma_with_blocks_insert(
    m: Map<u64, BufferedBlock>,
    batch: Seq<QueuedBlock>,
    gei: u64,
    block: BufferedBlock,
)
    requires
        forall|i: int| 0 <= i < batch.len() ==> (#[trigger] batch[i]).gei != gei,
    ensures
        with_blocks(m.insert(gei, block), batch) == with_blocks(m, batch).insert(gei, block),
    decreases batch.len(),
{
    if batch.len() > 0 {
        let rest = batch.drop_last();
        lemma_with_blocks_insert(m, rest, gei, block);
        let last = batch.last();
        assert(last == batch[batch.len() - 1]);
        assert(with_blocks(m, rest).insert(gei, block).insert(last.gei, last.block) =~= with_blocks(
            m,
            rest,
        ).insert(last.gei, last.block).insert(gei, block));
    }
}

/// Putting in `[q] + rest` is putting in `rest` and then `q`, when their indices differ.
proof fn lemma_with_blocks_prepend(
    m: Map<u64, BufferedBlock>,
    q: QueuedBlock,
    rest: Seq<QueuedBlock>,
    first: int,
)
    requires
        consecutive_from(seq![q] + rest, first),
    ensures
        with_blocks(m, seq![q] + rest) == with_blocks(m, rest).insert(q.gei, q.block),
{
    let all = seq![q] + rest;
    assert forall|i: int| 0 <= i < rest.len() implies (#[trigger] rest[i]).gei != q.gei by {
        assert(all[i + 1].gei == first + i + 1);
        assert(all[0].gei == first);
    }
    lemma_with_blocks_insert(m, rest, q.gei, q.block);
    lemma_with_blocks_split(m, seq![q], rest);
    assert(with_blocks(m, seq![q]) =~= m.insert(q.gei, q.block)) by {
        assert(seq![q].drop_last() =~= Seq::<QueuedBlock>::empty());
        assert(with_blocks(m, seq![q].drop_last()) == m);
    }
}

/// Batches can be put in one after the other.
proof fn lemma_with_blocks_split(
    m: Map<u64, BufferedBlock>,
    a: Seq<QueuedBlock>,
    b: Seq<QueuedBlock>,
)
    ensures
        with_blocks(m, a + b) == with_blocks(with_blocks(m, a), b),
    decreases b.len(),
{
    if b.len() == 0 {
        assert(a + b =~= a);
    } else {
        lemma_with_blocks_split(m, a, b.drop_last());
        assert((a + b).drop_last() =~= a + b.drop_last());
    }
}

/// What `with_blocks` holds, for a batch of consecutive blocks.
proof fn lemma_with_blocks_contents(
    m: Map<u64, BufferedBlock>,
    batch: Seq<QueuedBlock>,
    first: int,
)
    requires
        consecutive_from(batch, first),
    ensures
        forall|k: u64| #[trigger]
            with_blocks(m, batch).contains_key(k) <==> m.contains_key(k) || first <= k < first
                + batch.len(),
        forall|k: u64|
            first <= k < first + batch.len() ==> #[trigger] with_blocks(m, batch)[k] == batch[k
                - first].block,
        forall|k: u64|
            !(first <= k < first + batch.len()) ==> #[trigger] with_blocks(m, batch)[k] == m[k],
    decreases batch.len(),
{
    if batch.len() > 0 {
        let rest = batch.drop_last();
        assert(consecutive_from(rest, first)) by {
            assert forall|i: int| 0 <= i < rest.len() implies (#[trigger] rest[i]).gei == first
                + i by {
                assert(rest[i] == batch[i]);
            }
        }
        lemma_with_blocks_contents(m, rest, first);
        let last = batch.last();
        assert(last == batch[batch.len() - 1]);
        assert(last.gei == first + batch.len() - 1);
        let w = with_blocks(m, rest);
        let all = with_blocks(m, batch);
        assert(all == w.insert(last.gei, last.block));
        assert forall|k: u64| #[trigger] all.contains_key(k) <==> m.contains_key(k) || first <= k
            < first + batch.len() by {
            assert(w.contains_key(k) <==> m.contains_key(k) || first <= k < first + rest.len());
        }
        assert forall|k: u64| first <= k < first + batch.len() implies #[trigger] all[k] == batch[k
            - first].block by {
            if k < first + rest.len() {
                assert(w[k] == rest[k - first].block);
            }
        }
        assert forall|k: u64| !(first <= k < first + batch.len()) implies #[trigger] all[k]
            == m[k] by {
            assert(w[k] == m[k]);
        }
    }
}

/// A flush hands over blocks in ascending order of index without gaps, starting with the block
/// whose turn it is, and loses none: what was waiting and was not handed over is waiting still.
///
/// `waiting` is the queue before the flush, `batch` what the flush took out of it, `rest` what it
/// left in, and `sent` how many blocks of the batch were accepted.
pub proof fn law_flush_is_gapless_and_lossless(
    waiting: Map<u64, BufferedBlock>,
    rest: Map<u64, BufferedBlock>,
    batch: Seq<QueuedBlock>,
    next_expected: u64,
    sent: int,
)
    requires
        0 <= sent <= batch.len(),
        consecutive_from(batch, next_expected as int),
        forall|i: int| 0 <= i < batch.len() ==> !rest.contains_key((#[trigger] batch[i]).gei),
        with_blocks(rest, batch) == waiting,
    ensures
        ({
            let after = with_blocks(rest, batch.skip(sent));
            &&& forall|i: int|
                0 <= i < sent ==> (#[trigger] batch[i]).gei == next_expected + i
                    && waiting.contains_key(batch[i].gei) && waiting[batch[i].gei]
                    == batch[i].block
            &&& forall|k: u64| #[trigger]
                waiting.contains_key(k) <==> next_expected <= k < next_expected + sent
                    || after.contains_key(k)
            &&& forall|k: u64| #[trigger]
                after.contains_key(k) ==> after[k] == waiting[k] && !(next_expected <= k
                    < next_expected + sent)
        }),
{
    let unsent = batch.skip(sent);
    assert(consecutive_from(unsent, next_expected + sent)) by {
        assert forall|i: int| 0 <= i < unsent.len() implies (#[trigger] unsent[i]).gei
            == next_expected + sent + i by {
            assert(unsent[i] == batch[sent + i]);
        }
    }
    lemma_with_blocks_contents(rest, batch, next_expected as int);
    lemma_with_blocks_contents(rest, unsent, next_expected + sent);
    let after = with_blocks(rest, unsent);
    assert forall|k: u64| #[trigger] after.contains_key(k) implies after[k] == waiting[k] && !(
    next_expected <= k < next_expected + sent) by {
        if next_expected <= k < next_expected + batch.len() {
            assert(batch[k - next_expected].gei == k);
        }
    }
}

/// A flush that could not hand over anything leaves the queue as it was.
pub proof fn law_failed_flush_changes_nothing(
    waiting: Map<u64, BufferedBlock>,
    rest: Map<u64, BufferedBlock>,
    batch: Seq<QueuedBlock>,
)
    requires
        with_blocks(rest, batch) == waiting,
    ensures
        with_blocks(rest, batch.skip(0)) == waiting,
{
    assert(batch.skip(0) =~= batch);
}

// ---------------------------------------------------------------------------------------------
// What the queue does
// ---------------------------------------------------------------------------------------------

/// A block is settled exactly if its index lies before the one whose turn it is, or was sent.
pub proof fn law_what_is_settled(q: SendQueue, gei: u64)
    ensures
        gei < q.next_expected ==> q.is_settled(gei),
        q.sent@.contains(gei) ==> q.is_settled(gei),
        gei >= q.next_expected && !q.sent@.contains(gei) ==> !q.is_settled(gei),
{
}

/// Putting consecutive blocks back: each is there under its index, and all else is as it was.
pub proof fn law_blocks_put_back_are_there(
    m: Map<u64, BufferedBlock>,
    batch: Seq<QueuedBlock>,
    first: u64,
    k: u64,
)
    requires
        forall|i: int| 0 <= i < batch.len() ==> (#[trigger] batch[i]).gei == first + i,
    ensures
        first <= k < first + batch.len() ==> with_blocks(m, batch).contains_key(k) && with_blocks(
            m,
            batch,
        )[k] == batch[k - first].block,
        !(first <= k < first + batch.len()) ==> (with_blocks(m, batch).contains_key(k)
            <==> m.contains_key(k)) && with_blocks(m, batch)[k] == m[k],
{
    lemma_with_blocks_contents(m, batch, first as int);
    assert(with_blocks(m, batch).contains_key(k) <==> m.contains_key(k) || first <= k < first
        + batch.len());
}

/// What a batch that was taken looks like: its blocks follow each other without a gap, from the
/// index whose turn it is, and none of them is in the queue any more.
pub proof fn law_what_a_batch_is(q: SendQueue, batch: Seq<QueuedBlock>, i: int)
    requires
        q.took(batch),
        0 <= i < batch.len(),
    ensures
        batch[i].gei == q.next_expected + i,
        !q.buffer@.contains_key(batch[i].gei),
        q.buffer@.len() + batch.len() <= 10_000,
{
}

/// The gap in front of the queue is the distance from the index whose turn it is to the first block
/// that waits, and 0 if that is not ahead or nothing waits.
pub proof fn law_what_the_gap_is(q: SendQueue, k: u64)
    ensures
        q.buffer@.contains_key(k) && (forall|j: u64| #[trigger]
            q.buffer@.contains_key(j) ==> k <= j) ==> q.gap() == if k > q.next_expected {
            k - q.next_expected
        } else {
            0
        },
        (forall|j: u64| !#[trigger] q.buffer@.contains_key(j)) ==> q.gap() == 0,
        q.gap() >= 0,
{
    if q.buffer@.contains_key(k) && (forall|j: u64| #[trigger]
        q.buffer@.contains_key(j) ==> k <= j) {
        assert(is_min_key(q.buffer@, k));
        let other = choose|j: u64| is_min_key(q.buffer@, j);
        assert(is_min_key(q.buffer@, other));
        assert(other == k);
    }
}

/// What is forgotten of the indices that were sent: none up to the limit; beyond it the smallest.
pub proof fn law_the_latest_indices_are_remembered(s: Set<u64>, t: Set<u64>, cap: nat)
    requires
        s.finite(),
        is_trimmed(s, t, cap),
    ensures
        s.len() <= cap ==> t == s,
        s.len() > cap ==> t.len() == cap,
        forall|x: u64| #[trigger] t.contains(x) ==> s.contains(x),
        forall|x: u64, y: u64|
            #![trigger s.contains(x), t.contains(y)]
            s.contains(x) && !t.contains(x) && t.contains(y) ==> x < y,
{
    if s.len() <= cap {
        vstd::set_lib::lemma_subset_equality(t, s);
    }
}

/// A range holds the indices from its start on and before its end.
pub proof fn law_what_a_range_holds(lo: int, hi: int, x: u64)
    ensures
        index_range(lo, hi).contains(x) <==> lo <= x && x < hi,
{
}

/// The smallest key, and the smallest element, is there, and none is smaller.
pub proof fn law_what_is_smallest<V>(m: Map<u64, V>, s: Set<u64>, k: u64, j: u64)
    ensures
        is_min_key(m, k) ==> m.contains_key(k) && (m.contains_key(j) ==> k <= j),
        is_min_element(s, k) ==> s.contains(k) && (s.contains(j) ==> k <= j),
{
}

/// The limits of the queue: 10 000 blocks wait, 500 are sent at once, a gap of more than 100 is
/// looked into, 10 000 indices are remembered, and every hundredth is persisted.
pub proof fn law_limits_of_the_queue()
    ensures
        MAX_BUFFER_SIZE == 10_000,
        BATCH_WRITE_LIMIT == 500,
        LARGE_GAP == 100,
        MAX_SENT_INDICES == 10_000,
        PERSIST_INTERVAL == 100,
{
}

/// A block is refused only if ten thousand blocks wait. The same commit is not put in twice; a
/// block of another commit takes the place. Other blocks stay.
pub proof fn law_what_enqueuing_does(
    q: &mut SendQueue,
    gei: u64,
    block: BufferedBlock,
    r: Result<EnqueueOutcome, BufferFull>,
    other: u64,
)
    requires
        call_ensures(SendQueue::enqueue, (q, gei, block), r),
        old(q).wf(),
    ensures
        r is Err <==> old(q).buffer@.len() >= 10_000,
        r is Ok ==> final(q).buffer@.contains_key(gei) && final(q).buffer@[gei].epoch == block.epoch
            && final(q).buffer@[gei].commit_index == block.commit_index,
        r is Ok && !old(q).buffer@.contains_key(gei) ==> final(q).buffer@[gei] == block,
        other != gei ==> (final(q).buffer@.contains_key(other) <==> old(q).buffer@.contains_key(
            other,
        )) && (old(q).buffer@.contains_key(other) ==> final(q).buffer@[other] == old(
            q,
        ).buffer@[other]),
        r is Err ==> final(q).buffer@ == old(q).buffer@,
{
}

/// Blocks below a bound are dropped; the others stay as they are.
pub proof fn law_what_dropping_does(q: &mut SendQueue, bound: u64, gei: u64)
    requires
        call_ensures(SendQueue::drop_below, (q, bound), ()),
        old(q).wf(),
    ensures
        gei < bound ==> !final(q).buffer@.contains_key(gei),
        gei >= bound ==> (final(q).buffer@.contains_key(gei) <==> old(q).buffer@.contains_key(gei)),
        final(q).buffer@.contains_key(gei) ==> final(q).buffer@[gei] == old(q).buffer@[gei],
        final(q).next_expected == old(q).next_expected,
{
}

} // verus!
