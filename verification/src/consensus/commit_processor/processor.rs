//! The order in which commits are executed.
//!
//! The consensus engine may deliver commits out of order. The processor releases them for
//! execution one after the other in order of commit index, assigns each its global execution
//! index (GEI), and stops when a commit ends the epoch.

use std::collections::BTreeMap;
use vstd::prelude::*;

use crate::consensus::checkpoint::{calculate_global_exec_index, global_exec_index};
use crate::consensus::commit_processor::executor::CommitteeCache;
use crate::consensus::subdag::{
    first_end_of_epoch, law_every_transaction_of_every_block_counts, law_first_announcement_counts,
    law_transactions_stem_from_blocks, CommittedSubDag, SystemTransaction,
};

verus! {

/// How many commits may wait for an earlier one.
pub const MAX_PENDING_COMMITS: usize = 5000;

/// A commit that is to be executed now.
#[derive(Debug)]
pub struct DispatchOrder {
    pub subdag: CommittedSubDag,
    pub global_exec_index: u64,
    /// Whether the commit arrived when it was due, rather than having waited.
    pub in_time: bool,
    /// Whether the commit is only passed over: the engine was restored from a snapshot that holds
    /// it. It is not executed again; its indices and the end of an epoch still count.
    pub skip: bool,
}

/// What becomes of a commit that was received.
#[derive(Debug)]
pub enum Received {
    /// It is due: execute it.
    Dispatch(DispatchOrder),
    /// It is early: it waits.
    Stored,
    /// It is early, but too many commits wait already: it is dropped.
    Dropped,
    /// It was executed before: it is ignored.
    Stale,
    /// The epoch is over: it is ignored.
    Halted,
}

/// The transition that a commit announced.
#[derive(Clone, Copy, Debug, PartialEq, Eq, Structural)]
pub struct EpochEnd {
    pub new_epoch: u64,
    pub boundary_block: u64,
    /// The index of the commit that ends the epoch.
    pub global_exec_index: u64,
}

/// What an executed commit asks for.
#[derive(Clone, Copy, Debug, PartialEq, Eq, Structural)]
pub struct Completion {
    pub commit_index: u32,
    /// The last index that the commit occupies.
    pub last_gei: u64,
    /// The fragment offset, if it changed and has to be persisted.
    pub persist_offset: Option<u64>,
    /// The end of the epoch, if the commit announced it.
    pub epoch_end: Option<EpochEnd>,
}

/// The base index of an epoch: the one configured for it, or else the shared last index, or else
/// what the callback says, or else 0.
pub fn resolve_epoch_base(
    configured: Option<u64>,
    shared_last_index: Option<u64>,
    callback_index: Option<u64>,
) -> (base: u64)
    ensures
        base == match (configured, shared_last_index, callback_index) {
            (Some(b), _, _) => b,
            (None, Some(b), _) => b,
            (None, None, Some(b)) => b,
            (None, None, None) => 0,
        },
{
    match (configured, shared_last_index, callback_index) {
        (Some(b), _, _) => b,
        (None, Some(b), _) => b,
        (None, None, Some(b)) => b,
        (None, None, None) => 0,
    }
}

/// Commits of one epoch on their way to execution.
#[derive(Debug)]
pub struct CommitProcessor {
    /// The commit that is due next.
    pub next_expected_index: u32,
    /// Commits that arrived early.
    pub pending_commits: BTreeMap<u32, CommittedSubDag>,
    pub current_epoch: u64,
    /// The GEI at the start of the epoch. It is constant throughout the epoch.
    pub epoch_base_index: u64,
    /// The additional indices that fragmented commits of this epoch occupied.
    pub fragment_offset: u64,
    /// Whether the epoch has ended.
    pub halted: bool,
    /// Whether the node was restored from a snapshot and its DAG is replayed.
    pub cold_start: bool,
    /// After a cold start, commits up to this index are passed over.
    pub cold_start_skip_gei: u64,
}

/// The part of a processor that decides which commits are executed, and with which indices.
#[verifier::ext_equal]
pub struct ProcessorState {
    /// The commit that is due next.
    pub due: int,
    /// Commits that arrived early.
    pub waiting: Map<u32, CommittedSubDag>,
    /// The GEI at the start of the epoch.
    pub base: int,
    /// The additional indices that fragmented commits occupied.
    pub offset: int,
    pub halted: bool,
}

impl ProcessorState {
    /// The GEI of the commit that is due.
    pub open spec fn due_gei(self) -> int {
        global_exec_index(self.due, self.base) + self.offset
    }

    /// The commit that is due when `commit_index` arrives. A processor that has seen no commit yet
    /// starts with whatever commit arrives first: the engine resumes where it stopped.
    pub open spec fn due_on_arrival(self, commit_index: u32) -> int {
        if self.due == 1 && commit_index > 1 {
            commit_index as int
        } else {
            self.due
        }
    }

    /// The arrival of `subdag` releases it for execution.
    pub open spec fn releases(self, subdag: CommittedSubDag) -> bool {
        !self.halted && subdag.commit_index == self.due_on_arrival(subdag.commit_index)
    }

    /// After the arrival of `subdag`. An early commit waits, if there is room.
    pub open spec fn arrived(self, subdag: CommittedSubDag) -> ProcessorState {
        if self.halted {
            self
        } else {
            let due = self.due_on_arrival(subdag.commit_index);
            ProcessorState {
                due,
                waiting: if subdag.commit_index > due && self.waiting.len()
                    < MAX_PENDING_COMMITS {
                    self.waiting.insert(subdag.commit_index, subdag)
                } else {
                    self.waiting
                },
                ..self
            }
        }
    }

    /// A commit that waited is due now.
    pub open spec fn releases_waiting(self) -> bool {
        !self.halted && 0 <= self.due <= u32::MAX && self.waiting.contains_key(self.due as u32)
    }

    /// After the waiting commit that is due was taken out.
    pub open spec fn taken(self) -> ProcessorState {
        ProcessorState { waiting: self.waiting.remove(self.due as u32), ..self }
    }

    /// After `subdag` was executed and occupied `slots` indices.
    pub open spec fn executed(self, subdag: CommittedSubDag, slots: int) -> ProcessorState {
        ProcessorState {
            due: self.due + 1,
            offset: self.offset + slots - 1,
            halted: first_end_of_epoch(subdag.all_txs()) is Some,
            ..self
        }
    }
}

impl CommitProcessor {
    /// What decides which commits are executed.
    pub open spec fn state(&self) -> ProcessorState {
        ProcessorState {
            due: self.next_expected_index as int,
            waiting: self.pending_commits@,
            base: self.epoch_base_index as int,
            offset: self.fragment_offset as int,
            halted: self.halted,
        }
    }

    /// A commit with this index is passed over.
    pub open spec fn skips(&self, gei: int) -> bool {
        self.cold_start && gei <= self.cold_start_skip_gei
    }

    /// All indices of the epoch are representable, and not too many commits wait.
    pub open spec fn wf(&self) -> bool {
        &&& self.epoch_base_index + self.fragment_offset + u32::MAX <= u64::MAX
        &&& self.pending_commits@.len() <= MAX_PENDING_COMMITS
        &&& forall|k: u32| #[trigger]
            self.pending_commits@.contains_key(k) ==> self.pending_commits@[k].commit_index == k
    }

    /// The GEI of commit `commit_index`, given the fragmentation so far.
    pub open spec fn gei_of(&self, commit_index: int) -> int {
        global_exec_index(commit_index, self.epoch_base_index as int) + self.fragment_offset
    }

    /// What stays the same while commits are processed.
    pub open spec fn same_epoch(&self, other: &CommitProcessor) -> bool {
        &&& self.current_epoch == other.current_epoch
        &&& self.epoch_base_index == other.epoch_base_index
        &&& self.cold_start == other.cold_start
        &&& self.cold_start_skip_gei == other.cold_start_skip_gei
    }

    /// A processor for epoch 0 that waits for the first commit, which has index 1.
    pub fn new() -> (p: CommitProcessor)
        ensures
            p.wf(),
            p.next_expected_index == 1,
            p.pending_commits@ == Map::<u32, CommittedSubDag>::empty(),
            p.current_epoch == 0,
            p.epoch_base_index == 0,
            p.fragment_offset == 0,
            !p.halted,
            !p.cold_start,
            p.cold_start_skip_gei == 0,
    {
        CommitProcessor {
            next_expected_index: 1,
            pending_commits: BTreeMap::new(),
            current_epoch: 0,
            epoch_base_index: 0,
            fragment_offset: 0,
            halted: false,
            cold_start: false,
            cold_start_skip_gei: 0,
        }
    }

    /// Sets the epoch and its base index.
    pub fn with_epoch_info(self, epoch: u64, last_global_exec_index: u64) -> (p: CommitProcessor)
        requires
            self.wf(),
            last_global_exec_index + self.fragment_offset + u32::MAX <= u64::MAX,
        ensures
            p.wf(),
            p == (CommitProcessor {
                current_epoch: epoch,
                epoch_base_index: last_global_exec_index,
                ..self
            }),
    {
        let mut p = self;
        p.current_epoch = epoch;
        p.epoch_base_index = last_global_exec_index;
        p
    }

    /// Restores the fragment offset of an epoch that was interrupted.
    pub fn with_fragment_offset(self, offset: u64) -> (p: CommitProcessor)
        requires
            self.wf(),
            self.epoch_base_index + offset + u32::MAX <= u64::MAX,
        ensures
            p.wf(),
            p == (CommitProcessor { fragment_offset: offset, ..self }),
    {
        let mut p = self;
        p.fragment_offset = offset;
        p
    }

    /// Sets whether the node was restored from a snapshot.
    pub fn with_cold_start(self, cold_start: bool) -> (p: CommitProcessor)
        requires
            self.wf(),
        ensures
            p.wf(),
            p == (CommitProcessor { cold_start, ..self }),
    {
        let mut p = self;
        p.cold_start = cold_start;
        p
    }

    /// Sets the index up to which commits are passed over after a cold start: the last one that the
    /// snapshot holds.
    pub fn with_cold_start_skip_gei(self, skip_gei: u64) -> (p: CommitProcessor)
        requires
            self.wf(),
        ensures
            p.wf(),
            p == (CommitProcessor { cold_start_skip_gei: skip_gei, ..self }),
    {
        let mut p = self;
        p.cold_start_skip_gei = skip_gei;
        p
    }

    /// A committee cache that knows one list of addresses only, filed under epoch 0. It is for
    /// callers that do not tell epochs apart.
    pub fn with_validator_eth_addresses(&self, eth_addresses: Vec<Vec<u8>>) -> (cache:
        CommitteeCache)
        ensures
            cache@ == Map::<u64, Vec<Vec<u8>>>::empty().insert(0, eth_addresses),
    {
        let mut cache: CommitteeCache = BTreeMap::new();
        cache.insert(0, eth_addresses);
        cache
    }

    /// Takes in a commit.
    pub fn receive(&mut self, subdag: CommittedSubDag) -> (r: Received)
        requires
            old(self).wf(),
        ensures
            final(self).wf(),
            final(self).same_epoch(old(self)),
            final(self).state() == old(self).state().arrived(subdag),
            r is Halted <==> old(self).halted,
            r is Dispatch <==> old(self).state().releases(subdag),
            !old(self).halted ==> {
                let due = old(self).state().due_on_arrival(subdag.commit_index);
                let full = old(self).pending_commits@.len() >= MAX_PENDING_COMMITS;
                &&& r is Stale <==> subdag.commit_index < due
                &&& r is Dropped <==> subdag.commit_index > due && full
                &&& r is Stored <==> subdag.commit_index > due && !full
            },
            r matches Received::Dispatch(order) ==> {
                &&& order.subdag == subdag
                &&& order.in_time
                &&& order.global_exec_index == final(self).gei_of(subdag.commit_index as int)
                &&& order.skip == old(self).skips(order.global_exec_index as int)
            },
    {
        if self.halted {
            return Received::Halted;
        }
        let commit_index: u32 = subdag.commit_index;
        if self.next_expected_index == 1 && commit_index > 1 {
            self.next_expected_index = commit_index;
        }
        if commit_index == self.next_expected_index {
            let gei: u64 = self.assign_gei(commit_index);
            let skip = self.passes_over(gei);
            Received::Dispatch(
                DispatchOrder { subdag, global_exec_index: gei, in_time: true, skip },
            )
        } else if commit_index > self.next_expected_index {
            if self.pending_commits.len() >= MAX_PENDING_COMMITS {
                return Received::Dropped;
            }
            self.pending_commits.insert(commit_index, subdag);
            Received::Stored
        } else {
            Received::Stale
        }
    }

    fn passes_over(&self, gei: u64) -> (r: bool)
        ensures
            r == self.skips(gei as int),
    {
        self.cold_start && gei <= self.cold_start_skip_gei
    }

    fn assign_gei(&self, commit_index: u32) -> (gei: u64)
        requires
            self.wf(),
        ensures
            gei == self.gei_of(commit_index as int),
    {
        calculate_global_exec_index(self.current_epoch, commit_index, self.epoch_base_index)
            + self.fragment_offset
    }

    /// The waiting commit that has become due, if there is one.
    pub fn next_pending(&mut self) -> (r: Option<DispatchOrder>)
        requires
            old(self).wf(),
        ensures
            final(self).wf(),
            final(self).same_epoch(old(self)),
            r is Some <==> old(self).state().releases_waiting(),
            r is None ==> final(self).state() == old(self).state(),
            r matches Some(order) ==> {
                let due = old(self).next_expected_index;
                &&& final(self).state() == old(self).state().taken()
                &&& order.subdag == old(self).pending_commits@[due]
                &&& order.subdag.commit_index == due
                &&& !order.in_time
                &&& order.global_exec_index == old(self).gei_of(due as int)
                &&& order.skip == old(self).skips(order.global_exec_index as int)
            },
    {
        if self.halted {
            return None;
        }
        let due: u32 = self.next_expected_index;
        match self.pending_commits.remove(&due) {
            Some(subdag) => {
                let gei: u64 = self.assign_gei(due);
                let skip = self.passes_over(gei);
                Some(DispatchOrder { subdag, global_exec_index: gei, in_time: false, skip })
            },
            None => {
                assert(self.pending_commits@ =~= old(self).pending_commits@);
                None
            },
        }
    }

    /// Takes note that a commit was executed and occupied `slots` indices. A commit that announces
    /// the end of the epoch halts the processor: commits behind it must not be executed.
    pub fn complete(&mut self, order: DispatchOrder, slots: u64) -> (c: Completion)
        requires
            old(self).wf(),
            !old(self).halted,
            order.subdag.commit_index == old(self).next_expected_index,
            order.global_exec_index == old(self).gei_of(old(self).next_expected_index as int),
            old(self).next_expected_index < u32::MAX,
            slots >= 1,
            old(self).epoch_base_index + old(self).fragment_offset + slots + u32::MAX <= u64::MAX,
        ensures
            final(self).wf(),
            final(self).same_epoch(old(self)),
            final(self).state() == old(self).state().executed(order.subdag, slots as int),
            c.commit_index == order.subdag.commit_index,
            c.last_gei == order.global_exec_index + slots - 1,
            c.persist_offset == if slots > 1 {
                Some(final(self).fragment_offset)
            } else {
                None
            },
            c.epoch_end == match first_end_of_epoch(order.subdag.all_txs()) {
                Some(end) => Some(
                    (EpochEnd {
                        new_epoch: end.0,
                        boundary_block: end.1,
                        global_exec_index: order.global_exec_index,
                    }),
                ),
                None => None,
            },
    {
        let gei: u64 = order.global_exec_index;
        let last_gei: u64 = gei + (slots - 1);
        let mut persist_offset: Option<u64> = None;
        if slots > 1 {
            self.fragment_offset = self.fragment_offset + (slots - 1);
            persist_offset = Some(self.fragment_offset);
        }
        self.next_expected_index = self.next_expected_index + 1;
        let epoch_end = match order.subdag.extract_end_of_epoch_transaction() {
            Some((new_epoch, boundary_block)) => {
                self.halted = true;
                Some(EpochEnd { new_epoch, boundary_block, global_exec_index: gei })
            },
            None => None,
        };
        Completion { commit_index: order.subdag.commit_index, last_gei, persist_offset, epoch_end }
    }
}

// ---------------------------------------------------------------------------------------------
// Laws
// ---------------------------------------------------------------------------------------------

/// The number of indices that a list of commits occupies.
pub open spec fn total_slots(slots: Seq<nat>) -> nat
    decreases slots.len(),
{
    if slots.len() == 0 {
        0
    } else {
        total_slots(slots.drop_last()) + slots.last()
    }
}

/// `p` started with commit `first_commit` and fragment offset `first_offset`, and has since executed
/// commits that occupied `slots`.
pub open spec fn has_executed(
    p: CommitProcessor,
    first_commit: int,
    first_offset: int,
    slots: Seq<nat>,
) -> bool {
    &&& p.next_expected_index == first_commit + slots.len()
    &&& p.fragment_offset == first_offset + total_slots(slots) - slots.len()
}

/// The index of the commit that is due depends only on the base of the epoch, on where the
/// processor started and on how many indices the commits before it occupied. When commits arrived,
/// and in which order, has no influence.
pub proof fn law_gei_is_deterministic(
    p: CommitProcessor,
    first_commit: int,
    first_offset: int,
    slots: Seq<nat>,
)
    requires
        has_executed(p, first_commit, first_offset, slots),
    ensures
        p.gei_of(p.next_expected_index as int) == p.epoch_base_index + first_commit + first_offset
            + total_slots(slots),
{
}

/// Executing the commit that is due extends the history by that commit.
pub proof fn law_execution_extends_history(
    before: CommitProcessor,
    after: CommitProcessor,
    first_commit: int,
    first_offset: int,
    slots: Seq<nat>,
    n: nat,
)
    requires
        has_executed(before, first_commit, first_offset, slots),
        after.next_expected_index == before.next_expected_index + 1,
        after.fragment_offset == before.fragment_offset + n - 1,
    ensures
        has_executed(after, first_commit, first_offset, slots.push(n)),
{
    assert(slots.push(n).drop_last() =~= slots);
}

/// Successive commits occupy successive ranges of indices: the range of a commit starts right
/// behind the last index of its predecessor, however many indices that one occupied.
pub proof fn law_commit_ranges_are_contiguous(
    before: CommitProcessor,
    after: CommitProcessor,
    slots: int,
)
    requires
        after.epoch_base_index == before.epoch_base_index,
        after.next_expected_index == before.next_expected_index + 1,
        after.fragment_offset == before.fragment_offset + slots - 1,
    ensures
        after.gei_of(after.next_expected_index as int) == before.gei_of(
            before.next_expected_index as int,
        ) + slots,
{
}

/// A commit that was released for execution, and its index.
pub struct Dispatched {
    pub subdag: CommittedSubDag,
    pub gei: int,
}

/// Executes the commits that wait and have become due, one after the other. `slots_of` tells how
/// many indices a commit occupies.
pub open spec fn drained(s: ProcessorState, slots_of: spec_fn(CommittedSubDag) -> int) -> (
    ProcessorState,
    Seq<Dispatched>,
)
    decreases u32::MAX + 1 - s.due,
{
    if s.releases_waiting() {
        let subdag = s.waiting[s.due as u32];
        let rest = drained(s.taken().executed(subdag, slots_of(subdag)), slots_of);
        (rest.0, seq![Dispatched { subdag, gei: s.due_gei() }] + rest.1)
    } else {
        (s, Seq::empty())
    }
}

/// What the arrival of one commit leads to: it is executed if it is due, and with it the commits
/// that waited for it.
pub open spec fn processed(
    s: ProcessorState,
    subdag: CommittedSubDag,
    slots_of: spec_fn(CommittedSubDag) -> int,
) -> (ProcessorState, Seq<Dispatched>) {
    let a = s.arrived(subdag);
    if s.releases(subdag) {
        let rest = drained(a.executed(subdag, slots_of(subdag)), slots_of);
        (rest.0, seq![Dispatched { subdag, gei: a.due_gei() }] + rest.1)
    } else {
        (a, Seq::empty())
    }
}

/// What the arrival of a list of commits leads to.
pub open spec fn run_over(
    s: ProcessorState,
    arrivals: Seq<CommittedSubDag>,
    slots_of: spec_fn(CommittedSubDag) -> int,
) -> (ProcessorState, Seq<Dispatched>)
    decreases arrivals.len(),
{
    if arrivals.len() == 0 {
        (s, Seq::empty())
    } else {
        let before = run_over(s, arrivals.drop_last(), slots_of);
        let last = processed(before.0, arrivals.last(), slots_of);
        (last.0, before.1 + last.1)
    }
}

/// The indices that commits occupied beyond one each.
pub open spec fn extra_slots(
    out: Seq<Dispatched>,
    slots_of: spec_fn(CommittedSubDag) -> int,
) -> int
    decreases out.len(),
{
    if out.len() == 0 {
        0
    } else {
        extra_slots(out.drop_last(), slots_of) + slots_of(out.last().subdag) - 1
    }
}

/// `out` holds the commits `first`, `first + 1` and so on, each once and in this order, each with
/// the base of the epoch, its own index and the fragment offset at that point as its GEI.
pub open spec fn is_consecutive(
    out: Seq<Dispatched>,
    first: int,
    base: int,
    offset: int,
    slots_of: spec_fn(CommittedSubDag) -> int,
) -> bool {
    forall|j: int|
        0 <= j < out.len() ==> (#[trigger] out[j]).subdag.commit_index == first + j && out[j].gei
            == base + (first + j) + offset + extra_slots(out.take(j), slots_of)
}

/// A commit with this index is among the arrivals.
pub open spec fn has_arrived(arrivals: Seq<CommittedSubDag>, index: int) -> bool {
    exists|k: int| 0 <= k < arrivals.len() && (#[trigger] arrivals[k]).commit_index == index
}

proof fn lemma_extra_slots_concat(
    a: Seq<Dispatched>,
    b: Seq<Dispatched>,
    slots_of: spec_fn(CommittedSubDag) -> int,
)
    ensures
        extra_slots(a + b, slots_of) == extra_slots(a, slots_of) + extra_slots(b, slots_of),
    decreases b.len(),
{
    if b.len() == 0 {
        assert(a + b =~= a);
    } else {
        lemma_extra_slots_concat(a, b.drop_last(), slots_of);
        assert((a + b).drop_last() =~= a + b.drop_last());
    }
}

proof fn lemma_consecutive_concat(
    a: Seq<Dispatched>,
    b: Seq<Dispatched>,
    first: int,
    base: int,
    offset: int,
    slots_of: spec_fn(CommittedSubDag) -> int,
)
    requires
        is_consecutive(a, first, base, offset, slots_of),
        is_consecutive(
            b,
            first + a.len(),
            base,
            offset + extra_slots(a, slots_of),
            slots_of,
        ),
    ensures
        is_consecutive(a + b, first, base, offset, slots_of),
{
    let all = a + b;
    assert forall|j: int| 0 <= j < all.len() implies (#[trigger] all[j]).subdag.commit_index
        == first + j && all[j].gei == base + (first + j) + offset + extra_slots(
        all.take(j),
        slots_of,
    ) by {
        if j < a.len() {
            assert(all[j] == a[j]);
            assert(all.take(j) =~= a.take(j));
        } else {
            let k = j - a.len();
            assert(all[j] == b[k]);
            assert(all.take(j) =~= a + b.take(k));
            lemma_extra_slots_concat(a, b.take(k), slots_of);
        }
    }
}

proof fn lemma_one_dispatched(
    d: Dispatched,
    first: int,
    base: int,
    offset: int,
    slots_of: spec_fn(CommittedSubDag) -> int,
)
    requires
        d.subdag.commit_index == first,
        d.gei == base + first + offset,
    ensures
        is_consecutive(seq![d], first, base, offset, slots_of),
        extra_slots(seq![d], slots_of) == slots_of(d.subdag) - 1,
{
    let one = seq![d];
    assert(one.drop_last() =~= Seq::<Dispatched>::empty());
    assert(one.take(0) =~= Seq::<Dispatched>::empty());
    assert(one.last() == d);
    assert(extra_slots(Seq::<Dispatched>::empty(), slots_of) == 0);
}

/// The commits that wait are filed under their indices, are not overdue, and none ends the epoch.
spec fn orderly(s: ProcessorState) -> bool {
    &&& !s.halted
    &&& s.due >= 1
    &&& forall|k: u32| #[trigger]
        s.waiting.contains_key(k) ==> s.waiting[k].commit_index == k && k >= s.due
            && first_end_of_epoch(s.waiting[k].all_txs()) is None
}

proof fn lemma_drained(s: ProcessorState, slots_of: spec_fn(CommittedSubDag) -> int)
    requires
        orderly(s),
    ensures
        ({
            let (t, out) = drained(s, slots_of);
            &&& orderly(t)
            &&& is_consecutive(out, s.due, s.base, s.offset, slots_of)
            &&& t.due == s.due + out.len()
            &&& t.base == s.base
            &&& t.offset == s.offset + extra_slots(out, slots_of)
            &&& t.waiting.submap_of(s.waiting)
            &&& forall|k: u32| #[trigger]
                t.waiting.contains_key(k) ==> s.waiting.contains_key(k) && k > t.due
            &&& forall|k: u32| #[trigger]
                s.waiting.contains_key(k) && k >= t.due ==> t.waiting.contains_key(k)
            &&& forall|j: int|
                0 <= j < out.len() ==> s.waiting.contains_key((#[trigger] out[j]).subdag.commit_index)
                    && s.waiting[out[j].subdag.commit_index] == out[j].subdag
        }),
    decreases u32::MAX + 1 - s.due,
{
    let (t, out) = drained(s, slots_of);
    if s.releases_waiting() {
        let due = s.due as u32;
        let subdag = s.waiting[due];
        let next = s.taken().executed(subdag, slots_of(subdag));
        assert(s.waiting.contains_key(due));
        assert(orderly(next));
        lemma_drained(next, slots_of);
        let rest = drained(next, slots_of);
        let d = Dispatched { subdag, gei: s.due_gei() };
        lemma_one_dispatched(d, s.due, s.base, s.offset, slots_of);
        lemma_consecutive_concat(seq![d], rest.1, s.due, s.base, s.offset, slots_of);
        lemma_extra_slots_concat(seq![d], rest.1, slots_of);
        assert forall|j: int| 0 <= j < out.len() implies s.waiting.contains_key(
            (#[trigger] out[j]).subdag.commit_index,
        ) && s.waiting[out[j].subdag.commit_index] == out[j].subdag by {
            if j > 0 {
                assert(out[j] == rest.1[j - 1]);
            }
        }
    } else {
        assert forall|k: u32| #[trigger] t.waiting.contains_key(k) implies k > t.due by {
            if k == s.due {
                assert(s.due as u32 == k);
            }
        }
    }
}

/// How far a run has come after `arrivals`: it has executed the commits from the first arrival on
/// without a gap, and what has arrived beyond the commit that is due waits.
spec fn has_come_to(
    s: ProcessorState,
    t: ProcessorState,
    out: Seq<Dispatched>,
    arrivals: Seq<CommittedSubDag>,
    slots_of: spec_fn(CommittedSubDag) -> int,
) -> bool {
    let first = arrivals[0].commit_index as int;
    &&& orderly(t)
    &&& t.due == first + out.len()
    &&& t.due >= 2
    &&& t.base == s.base
    &&& t.offset == s.offset + extra_slots(out, slots_of)
    &&& is_consecutive(out, first, s.base, s.offset, slots_of)
    &&& forall|j: int| 0 <= j < out.len() ==> arrivals.contains((#[trigger] out[j]).subdag)
    &&& forall|k: u32| #[trigger]
        t.waiting.contains_key(k) ==> k > t.due && arrivals.contains(t.waiting[k])
    &&& forall|i: int|
        0 <= i < arrivals.len() && (#[trigger] arrivals[i]).commit_index >= t.due
            ==> t.waiting.contains_key(arrivals[i].commit_index)
}

proof fn lemma_run(
    s: ProcessorState,
    arrivals: Seq<CommittedSubDag>,
    slots_of: spec_fn(CommittedSubDag) -> int,
)
    requires
        arrivals.len() > 0,
        s.due == 1,
        s.waiting == Map::<u32, CommittedSubDag>::empty(),
        !s.halted,
        forall|k: int|
            0 <= k < arrivals.len() ==> (#[trigger] arrivals[k]).commit_index >= 1
                && first_end_of_epoch(arrivals[k].all_txs()) is None,
        forall|k: int|
            0 <= k < arrivals.len() ==> (#[trigger] run_over(
                s,
                arrivals.take(k),
                slots_of,
            )).0.waiting.len() < MAX_PENDING_COMMITS,
    ensures
        has_come_to(
            s,
            run_over(s, arrivals, slots_of).0,
            run_over(s, arrivals, slots_of).1,
            arrivals,
            slots_of,
        ),
    decreases arrivals.len(),
{
    let init = arrivals.drop_last();
    let c = arrivals.last();
    assert(c == arrivals[arrivals.len() - 1]);
    let before = run_over(s, init, slots_of);
    let (t, out) = run_over(s, arrivals, slots_of);
    let a = before.0.arrived(c);
    let next = a.executed(c, slots_of(c));
    let d = Dispatched { subdag: c, gei: a.due_gei() };
    assert(init =~= arrivals.take(init.len() as int));
    assert(arrivals.contains(c));
    if init.len() == 0 {
        assert(before == (s, Seq::<Dispatched>::empty()));
        assert(s.releases(c));
        assert(orderly(next));
        lemma_drained(next, slots_of);
        let rest = drained(next, slots_of);
        assert(rest.1 =~= Seq::<Dispatched>::empty());
        assert(out =~= seq![d]);
        lemma_one_dispatched(d, c.commit_index as int, s.base, s.offset, slots_of);
    } else {
        assert(init[0] == arrivals[0]);
        assert forall|k: int| 0 <= k < init.len() implies (#[trigger] init[k]).commit_index >= 1
            && first_end_of_epoch(init[k].all_txs()) is None by {
            assert(init[k] == arrivals[k]);
        }
        assert forall|k: int| 0 <= k < init.len() implies (#[trigger] run_over(
            s,
            init.take(k),
            slots_of,
        )).0.waiting.len() < MAX_PENDING_COMMITS by {
            assert(init.take(k) =~= arrivals.take(k));
        }
        lemma_run(s, init, slots_of);
        assert(before.0.waiting.len() < MAX_PENDING_COMMITS);
        assert forall|x: CommittedSubDag| #[trigger] init.contains(x) implies arrivals.contains(
            x,
        ) by {
            let k = choose|k: int| 0 <= k < init.len() && init[k] == x;
            assert(arrivals[k] == x);
        }
        let first = arrivals[0].commit_index as int;
        if before.0.releases(c) {
            assert(a == before.0);
            assert(orderly(next));
            lemma_drained(next, slots_of);
            let rest = drained(next, slots_of);
            let new = seq![d] + rest.1;
            lemma_one_dispatched(d, a.due, a.base, a.offset, slots_of);
            lemma_consecutive_concat(seq![d], rest.1, a.due, a.base, a.offset, slots_of);
            lemma_extra_slots_concat(seq![d], rest.1, slots_of);
            lemma_consecutive_concat(before.1, new, first, s.base, s.offset, slots_of);
            lemma_extra_slots_concat(before.1, new, slots_of);
            assert(out == before.1 + new);
            assert forall|j: int| 0 <= j < out.len() implies arrivals.contains(
                (#[trigger] out[j]).subdag,
            ) by {
                let n = before.1.len() as int;
                if j < n {
                    assert(out[j] == before.1[j]);
                } else if j > n {
                    assert(out[j] == rest.1[j - n - 1]);
                    assert(next.waiting.contains_key(out[j].subdag.commit_index));
                }
            }
            assert forall|k: u32| #[trigger] t.waiting.contains_key(k) implies k > t.due
                && arrivals.contains(t.waiting[k]) by {
                assert(before.0.waiting.contains_key(k));
                assert(init.contains(before.0.waiting[k]));
            }
        } else {
            assert(out =~= before.1);
            assert forall|k: u32| #[trigger] t.waiting.contains_key(k) implies k > t.due
                && arrivals.contains(t.waiting[k]) by {
                if k != c.commit_index || !(c.commit_index > before.0.due) {
                    assert(before.0.waiting.contains_key(k));
                    assert(init.contains(before.0.waiting[k]));
                }
            }
        }
        assert forall|i: int|
            0 <= i < arrivals.len() && (#[trigger] arrivals[i]).commit_index
                >= t.due implies t.waiting.contains_key(arrivals[i].commit_index) by {
            if i < init.len() {
                assert(init[i] == arrivals[i]);
                assert(before.0.waiting.contains_key(arrivals[i].commit_index));
            }
        }
    }
}

/// What a processor does with a whole list of commits, in whatever order they arrive after the
/// first one. From the index of the first arrival on, it executes commit after commit, each once
/// and in order, up to the first index that never arrives; each gets the base of the epoch, its
/// own index and the fragment offset at that point as its GEI. Commits below the first one are
/// never executed.
///
/// The processor is new, none of the commits ends the epoch, and there is always room for one more
/// to wait.
pub proof fn law_run_executes_commits_in_order(
    s: ProcessorState,
    arrivals: Seq<CommittedSubDag>,
    slots_of: spec_fn(CommittedSubDag) -> int,
)
    requires
        arrivals.len() > 0,
        s.due == 1,
        s.waiting == Map::<u32, CommittedSubDag>::empty(),
        !s.halted,
        forall|k: int|
            0 <= k < arrivals.len() ==> (#[trigger] arrivals[k]).commit_index >= 1
                && first_end_of_epoch(arrivals[k].all_txs()) is None,
        forall|k: int|
            0 <= k < arrivals.len() ==> (#[trigger] run_over(
                s,
                arrivals.take(k),
                slots_of,
            )).0.waiting.len() < MAX_PENDING_COMMITS,
    ensures
        ({
            let (t, out) = run_over(s, arrivals, slots_of);
            let first = arrivals[0].commit_index as int;
            &&& is_consecutive(out, first, s.base, s.offset, slots_of)
            &&& forall|j: int| 0 <= j < out.len() ==> arrivals.contains((#[trigger] out[j]).subdag)
            &&& out.len() > 0
            &&& !has_arrived(arrivals, first + out.len())
            &&& !t.halted
            &&& t.due == first + out.len()
        }),
{
    lemma_run(s, arrivals, slots_of);
    let (t, out) = run_over(s, arrivals, slots_of);
    let first = arrivals[0].commit_index as int;
    if has_arrived(arrivals, t.due) {
        let k = choose|k: int|
            0 <= k < arrivals.len() && (#[trigger] arrivals[k]).commit_index == t.due;
        assert(t.waiting.contains_key(arrivals[k].commit_index));
    }
    if out.len() == 0 {
        assert(arrivals[0].commit_index >= t.due);
        assert(t.waiting.contains_key(arrivals[0].commit_index));
    }
}

/// As long as no commit is fragmented, every commit has the base of the epoch and its own index as
/// its GEI.
pub proof fn law_unfragmented_run(
    s: ProcessorState,
    arrivals: Seq<CommittedSubDag>,
    slots_of: spec_fn(CommittedSubDag) -> int,
)
    requires
        arrivals.len() > 0,
        s.due == 1,
        s.offset == 0,
        s.waiting == Map::<u32, CommittedSubDag>::empty(),
        !s.halted,
        forall|k: int|
            0 <= k < arrivals.len() ==> (#[trigger] arrivals[k]).commit_index >= 1
                && first_end_of_epoch(arrivals[k].all_txs()) is None && slots_of(arrivals[k]) == 1,
        forall|k: int|
            0 <= k < arrivals.len() ==> (#[trigger] run_over(
                s,
                arrivals.take(k),
                slots_of,
            )).0.waiting.len() < MAX_PENDING_COMMITS,
    ensures
        ({
            let out = run_over(s, arrivals, slots_of).1;
            forall|j: int|
                0 <= j < out.len() ==> (#[trigger] out[j]).gei == s.base
                    + out[j].subdag.commit_index
        }),
{
    law_run_executes_commits_in_order(s, arrivals, slots_of);
    let out = run_over(s, arrivals, slots_of).1;
    assert forall|j: int| 0 <= j < out.len() implies (#[trigger] out[j]).gei == s.base
        + out[j].subdag.commit_index by {
        assert forall|k: int| 0 <= k < j implies slots_of((#[trigger] out.take(j)[k]).subdag)
            == 1 by {
            assert(out.take(j)[k] == out[k]);
            let i = choose|i: int| 0 <= i < arrivals.len() && arrivals[i] == out[k].subdag;
            assert(slots_of(arrivals[i]) == 1);
        }
        lemma_no_extra_slots(out.take(j), slots_of);
    }
}

proof fn lemma_no_extra_slots(
    out: Seq<Dispatched>,
    slots_of: spec_fn(CommittedSubDag) -> int,
)
    requires
        forall|k: int| 0 <= k < out.len() ==> slots_of((#[trigger] out[k]).subdag) == 1,
    ensures
        extra_slots(out, slots_of) == 0,
    decreases out.len(),
{
    if out.len() > 0 {
        let init = out.drop_last();
        assert forall|k: int| 0 <= k < init.len() implies slots_of((#[trigger] init[k]).subdag)
            == 1 by {
            assert(init[k] == out[k]);
        }
        lemma_no_extra_slots(init, slots_of);
        assert(out.last() == out[out.len() - 1]);
    }
}

// ---------------------------------------------------------------------------------------------
// What the steps of a run do
// ---------------------------------------------------------------------------------------------

/// What the state of a processor says is what its fields say.
pub proof fn law_state_shows_the_fields(p: CommitProcessor, commit_index: int)
    ensures
        p.state().due == p.next_expected_index,
        p.state().waiting == p.pending_commits@,
        p.state().base == p.epoch_base_index,
        p.state().offset == p.fragment_offset,
        p.state().halted == p.halted,
        p.gei_of(commit_index) == p.epoch_base_index + commit_index + p.fragment_offset,
{
}

/// What becomes of a commit that arrives, for a processor that has begun. The one that is due is
/// released; an earlier one changes nothing; a later one waits under its index, unless 5000 wait
/// already. What is due, and the indices, do not change.
pub proof fn law_what_an_arrival_does(s: ProcessorState, c: CommittedSubDag)
    requires
        !s.halted,
        s.due >= 2,
    ensures
        s.releases(c) <==> c.commit_index == s.due,
        s.arrived(c).due == s.due,
        s.arrived(c).base == s.base,
        s.arrived(c).offset == s.offset,
        !s.arrived(c).halted,
        c.commit_index <= s.due ==> s.arrived(c).waiting == s.waiting,
        c.commit_index > s.due && s.waiting.len() < 5000 ==> s.arrived(c).waiting
            == s.waiting.insert(c.commit_index, c),
        c.commit_index > s.due && s.waiting.len() >= 5000 ==> s.arrived(c).waiting == s.waiting,
{
}

/// A new processor starts with the commit that arrives first, whichever that is.
pub proof fn law_first_arrival_is_released(s: ProcessorState, c: CommittedSubDag)
    requires
        !s.halted,
        s.due == 1,
        c.commit_index >= 1,
    ensures
        s.releases(c),
        s.arrived(c).due == c.commit_index,
        s.arrived(c).waiting == s.waiting,
        s.arrived(c).base == s.base,
        s.arrived(c).offset == s.offset,
{
}

/// After the end of the epoch nothing is released and nothing changes.
pub proof fn law_nothing_follows_the_end_of_the_epoch(
    s: ProcessorState,
    c: CommittedSubDag,
    slots_of: spec_fn(CommittedSubDag) -> int,
)
    requires
        s.halted,
    ensures
        !s.releases(c),
        !s.releases_waiting(),
        s.arrived(c) == s,
        processed(s, c, slots_of) == (s, Seq::<Dispatched>::empty()),
{
}

/// The end of an epoch in any block of a commit halts the processor behind that commit, and only
/// that does.
pub proof fn law_only_the_end_of_the_epoch_halts(s: ProcessorState, c: CommittedSubDag, slots: int)
    ensures
        s.executed(c, slots).halted <==> exists|b: int, t: int|
            0 <= b < c.blocks@.len() && 0 <= t < c.blocks@[b].transactions@.len() && (
            #[trigger] c.blocks@[b].transactions@[t]).system matches Some(
                SystemTransaction::EndOfEpoch { .. },
            ),
        s.executed(c, slots).due == s.due + 1,
        s.executed(c, slots).offset == s.offset + slots - 1,
        s.executed(c, slots).base == s.base,
        s.executed(c, slots).waiting == s.waiting,
{
    let txs = c.all_txs();
    law_first_announcement_counts(txs);
    if first_end_of_epoch(txs) is Some {
        let x = first_end_of_epoch(txs)->0;
        let i = choose|i: int|
            0 <= i < txs.len() && (#[trigger] txs[i]).system == Some(
                SystemTransaction::EndOfEpoch { new_epoch: x.0, boundary_block: x.1 },
            );
        let place = law_transactions_stem_from_blocks(c, i);
        assert(c.blocks@[place.0].transactions@[place.1].system matches Some(
            SystemTransaction::EndOfEpoch { .. },
        ));
    } else {
        assert forall|b: int, t: int|
            0 <= b < c.blocks@.len() && 0 <= t < c.blocks@[b].transactions@.len() implies !((
        #[trigger] c.blocks@[b].transactions@[t]).system matches Some(
            SystemTransaction::EndOfEpoch { .. },
        )) by {
            law_every_transaction_of_every_block_counts(c, b, t);
            let k = choose|k: int| 0 <= k < txs.len() && txs[k] == c.blocks@[b].transactions@[t];
            assert(!(txs[k].system matches Some(SystemTransaction::EndOfEpoch { .. })));
        }
    }
}

/// Taking out a waiting commit takes out that one and no other.
pub proof fn law_taking_a_waiting_commit(s: ProcessorState, k: u32)
    requires
        s.releases_waiting(),
    ensures
        s.waiting.contains_key(s.due as u32),
        s.taken().waiting.contains_key(k) <==> s.waiting.contains_key(k) && k != s.due,
        s.taken().waiting.contains_key(k) ==> s.taken().waiting[k] == s.waiting[k],
        s.taken().due == s.due,
        s.taken().offset == s.offset,
        s.taken().base == s.base,
{
}

/// A waiting commit is released exactly when it is due and the epoch goes on.
pub proof fn law_waiting_commits_are_released_when_due(s: ProcessorState)
    requires
        0 <= s.due <= u32::MAX,
    ensures
        s.releases_waiting() <==> !s.halted && s.waiting.contains_key(s.due as u32),
{
}

/// Commits are passed over only after a cold start, and only up to the last index of the snapshot.
pub proof fn law_only_a_cold_start_passes_over_commits(p: CommitProcessor, gei: int)
    ensures
        !p.cold_start ==> !p.skips(gei),
        p.cold_start && gei <= p.cold_start_skip_gei ==> p.skips(gei),
        gei > p.cold_start_skip_gei ==> !p.skips(gei),
{
}

/// The base of an epoch is the configured one, else the shared index, else what the callback says;
/// a source that is there hides the ones behind it. Without any it is 0.
pub proof fn law_where_the_base_comes_from(
    configured: Option<u64>,
    shared: Option<u64>,
    callback: Option<u64>,
    base: u64,
)
    requires
        call_ensures(resolve_epoch_base, (configured, shared, callback), base),
    ensures
        configured is Some ==> configured == Some(base),
        configured is None && shared is Some ==> shared == Some(base),
        configured is None && shared is None && callback is Some ==> callback == Some(base),
        configured is None && shared is None && callback is None ==> base == 0,
{
}

/// What stays the same within an epoch is the epoch, its base, and what a cold start passes over.
pub proof fn law_what_stays_the_same_within_an_epoch(a: CommitProcessor, b: CommitProcessor)
    ensures
        a.same_epoch(&b) <==> a.current_epoch == b.current_epoch && a.epoch_base_index
            == b.epoch_base_index && a.cold_start == b.cold_start && a.cold_start_skip_gei
            == b.cold_start_skip_gei,
{
}

/// A commit is released when it is the one that is due, waits if it is early and there is room,
/// and is stale if it is late. Its index is the base of the epoch, plus the number of the commit,
/// plus the indices that fragments took.
pub proof fn law_what_receiving_a_commit_does(
    p: &mut CommitProcessor,
    subdag: CommittedSubDag,
    r: Received,
)
    requires
        call_ensures(CommitProcessor::receive, (p, subdag), r),
        old(p).wf(),
        old(p).next_expected_index > 1,
    ensures
        old(p).halted <==> r is Halted,
        !old(p).halted && subdag.commit_index == old(p).next_expected_index <==> r is Dispatch,
        !old(p).halted && subdag.commit_index < old(p).next_expected_index <==> r is Stale,
        !old(p).halted && subdag.commit_index > old(p).next_expected_index
            && old(p).pending_commits@.len() < 5000 <==> r is Stored,
        r is Stored ==> final(p).pending_commits@.contains_key(subdag.commit_index)
            && final(p).pending_commits@[subdag.commit_index] == subdag,
        r matches Received::Dispatch(order) ==> order.subdag == subdag && order.global_exec_index
            == old(p).epoch_base_index + subdag.commit_index + old(p).fragment_offset,
        final(p).next_expected_index == old(p).next_expected_index,
{
}

/// A commit that was executed makes the next one due. The indices it took beyond its first count
/// for all that follow, and its last one is reported.
pub proof fn law_what_completing_a_commit_does(
    p: &mut CommitProcessor,
    order: DispatchOrder,
    slots: u64,
    c: Completion,
)
    requires
        call_ensures(CommitProcessor::complete, (p, order, slots), c),
        old(p).wf(),
        slots >= 1,
    ensures
        final(p).next_expected_index == old(p).next_expected_index + 1,
        final(p).fragment_offset == old(p).fragment_offset + slots - 1,
        final(p).epoch_base_index == old(p).epoch_base_index,
        final(p).pending_commits@ == old(p).pending_commits@,
        c.commit_index == order.subdag.commit_index,
        c.last_gei == order.global_exec_index + (slots - 1),
        c.persist_offset is Some <==> slots >= 2,
        c.epoch_end is Some <==> final(p).halted,
{
}

} // verus!
