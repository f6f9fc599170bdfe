//! Replaying commits that the engine lost in a restart.

use vstd::prelude::*;

use crate::node::executor_client::block_sending::{fragment_count, MAX_TXS_PER_GO_BLOCK};
use crate::node::executor_client::block_store::{join_path, joined};
use crate::text::{copy_str, decimal, decimal_string};

verus! {

/// The directory of the consensus database of an epoch.
pub open spec fn consensus_db_path(storage_path: Seq<char>, epoch: nat) -> Seq<char> {
    joined(joined(joined(storage_path, "epochs"@), "epoch_"@ + decimal(epoch)), "consensus_db"@)
}

/// The directory of the consensus database of an epoch.
pub fn consensus_db(storage_path: &str, epoch: u64) -> (r: String)
    ensures
        r@ == consensus_db_path(storage_path@, epoch as nat),
{
    let epochs = join_path(storage_path, "epochs");
    let mut name = copy_str("epoch_");
    let n = decimal_string(epoch);
    name.append(n.as_str());
    let dir = join_path(epochs.as_str(), name.as_str());
    join_path(dir.as_str(), "consensus_db")
}

// ---------------------------------------------------------------------------------------------
// Counting fragments
// ---------------------------------------------------------------------------------------------

/// A commit of the database.
#[derive(Clone, Copy, Debug, PartialEq, Eq, Structural)]
pub struct StoredCommit {
    pub commit_index: u32,
    /// How many indices its blocks take.
    pub slots: u64,
}

/// The commits are those of an epoch from the first one on, without a gap.
pub open spec fn from_the_first(commits: Seq<StoredCommit>) -> bool {
    forall|i: int|
        0 <= i < commits.len() ==> (#[trigger] commits[i]).commit_index == i + 1
            && commits[i].slots >= 1
}

/// The number of indices that commits take.
pub open spec fn indices_of(commits: Seq<StoredCommit>) -> int
    decreases commits.len(),
{
    if commits.len() == 0 {
        0
    } else {
        indices_of(commits.drop_last()) + commits.last().slots
    }
}

/// The indices that the commits within the first `executed` indices take beyond one each.
pub open spec fn offset_within(commits: Seq<StoredCommit>, executed: int) -> int
    decreases commits.len(),
{
    if commits.len() == 0 || commits[0].slots > executed {
        0
    } else {
        commits[0].slots - 1 + offset_within(commits.skip(1), executed - commits[0].slots)
    }
}

/// The commit of which the first `executed` indices hold a part only, if there is one.
pub open spec fn cut_commit(commits: Seq<StoredCommit>, executed: int) -> Option<u32>
    decreases commits.len(),
{
    if commits.len() == 0 || executed == 0 {
        None
    } else if commits[0].slots > executed {
        Some(commits[0].commit_index)
    } else {
        cut_commit(commits.skip(1), executed - commits[0].slots)
    }
}

/// The fragment offset at the position of the engine.
#[derive(Clone, Copy, Debug, PartialEq, Eq, Structural)]
pub enum OffsetAt {
    /// The commits that the engine has took so many indices beyond one each.
    Known(u64),
    /// The engine has only some of the fragments of a commit. The others cannot be sent alone.
    Inside { commit_index: u32 },
}

fn counts_from_the_first(commits: &Vec<StoredCommit>) -> (r: bool)
    ensures
        r == from_the_first(commits@),
{
    let mut i: usize = 0;
    while i < commits.len()
        invariant
            i <= commits@.len(),
            forall|k: int|
                0 <= k < i ==> (#[trigger] commits@[k]).commit_index == k + 1
                    && commits@[k].slots >= 1,
        decreases commits@.len() - i,
    {
        let c = commits[i];
        if c.commit_index as u64 != i as u64 + 1 || c.slots == 0 {
            assert(commits@[i as int] == c);
            return false;
        }
        i = i + 1;
    }
    true
}

/// The fragment offset behind the first `executed` indices of the epoch: counted over the commits
/// of the database, or the persisted one if the database does not hold the epoch from its first
/// commit on.
pub fn fragment_offset_at(commits: &Vec<StoredCommit>, executed: u64, persisted: u64) -> (r:
    OffsetAt)
    ensures
        r == if !from_the_first(commits@) {
            OffsetAt::Known(persisted)
        } else {
            match cut_commit(commits@, executed as int) {
                Some(commit_index) => OffsetAt::Inside { commit_index },
                None => OffsetAt::Known(offset_within(commits@, executed as int) as u64),
            }
        },
        from_the_first(commits@) ==> 0 <= offset_within(commits@, executed as int) <= executed,
{
    if !counts_from_the_first(commits) {
        return OffsetAt::Known(persisted);
    }
    let ghost all = commits@;
    let mut rest: u64 = executed;
    let mut offset: u64 = 0;
    let mut i: usize = 0;
    assert(all.skip(0) =~= all);
    while i < commits.len() && commits[i].slots <= rest
        invariant
            all == commits@,
            from_the_first(all),
            i <= all.len(),
            offset + rest <= executed,
            offset + offset_within(all.skip(i as int), rest as int) == offset_within(
                all,
                executed as int,
            ),
            cut_commit(all.skip(i as int), rest as int) == cut_commit(all, executed as int),
        decreases all.len() - i,
    {
        let slots: u64 = commits[i].slots;
        proof {
            assert(all.skip(i as int)[0] == all[i as int]);
            assert(all.skip(i as int).skip(1) =~= all.skip(i + 1));
        }
        offset = offset + (slots - 1);
        rest = rest - slots;
        i = i + 1;
    }
    if i < commits.len() {
        assert(all.skip(i as int)[0] == all[i as int]);
        if rest > 0 {
            return OffsetAt::Inside { commit_index: commits[i].commit_index };
        }
    }
    OffsetAt::Known(offset)
}

// ---------------------------------------------------------------------------------------------
// Replaying
// ---------------------------------------------------------------------------------------------

/// How a recovery starts.
#[derive(Clone, Copy, Debug, PartialEq, Eq, Structural)]
pub enum RecoveryStart {
    /// There is no database.
    NoDatabase,
    /// The engine is still in an earlier epoch; blocks of the network will bring it here.
    BehindEpoch,
    /// Scan the commits from this one.
    Scan { start_commit_index: u32 },
}

/// What to do with a commit.
#[derive(Clone, Copy, Debug, PartialEq, Eq, Structural)]
pub enum CommitDecision {
    /// The engine has it.
    Skip,
    /// Send it with this index.
    Replay { gei: u64 },
    /// A commit is missing before it. Recovery cannot go on.
    Gap { expected: u64, found: u64 },
}

/// A replay of commits.
#[derive(Clone, Copy, Debug, PartialEq, Eq, Structural)]
pub struct Recovery {
    /// The index before the first commit of the epoch.
    pub epoch_base_exec_index: u64,
    /// The index that the engine waits for.
    pub next_required_global: u64,
    /// The indices that the commits before it took beyond one each.
    pub fragment_offset: u64,
}

impl Recovery {
    /// The index of a commit: the one it gets when it is processed live.
    pub open spec fn index_of(&self, commit_index: u32) -> int {
        self.epoch_base_exec_index + commit_index + self.fragment_offset
    }

    /// The decision about a commit.
    pub open spec fn decision(&self, commit_index: u32) -> CommitDecision {
        if self.index_of(commit_index) < self.next_required_global {
            CommitDecision::Skip
        } else if self.index_of(commit_index) == self.next_required_global {
            CommitDecision::Replay { gei: self.next_required_global }
        } else {
            CommitDecision::Gap {
                expected: self.next_required_global,
                found: if self.index_of(commit_index) <= u64::MAX {
                    self.index_of(commit_index) as u64
                } else {
                    u64::MAX
                },
            }
        }
    }

    /// The recovery after a commit that took `geis` indices was sent.
    pub open spec fn after_sent(self, geis: u64) -> Recovery {
        Recovery {
            next_required_global: (self.next_required_global + geis) as u64,
            fragment_offset: (self.fragment_offset + geis - 1) as u64,
            ..self
        }
    }

    /// Starts with the engine at `go_last_block`, where the commits of the epoch have taken
    /// `fragment_offset` indices beyond one each.
    pub fn start(
        go_last_block: u64,
        epoch_base_exec_index: u64,
        fragment_offset: u64,
        db_exists: bool,
    ) -> (r: (Recovery, RecoveryStart))
        requires
            go_last_block < u64::MAX,
        ensures
            r.0 == (Recovery {
                epoch_base_exec_index,
                next_required_global: (go_last_block + 1) as u64,
                fragment_offset,
            }),
            r.1 == if !db_exists {
                RecoveryStart::NoDatabase
            } else if go_last_block < epoch_base_exec_index {
                RecoveryStart::BehindEpoch
            } else if go_last_block + 1 - epoch_base_exec_index > fragment_offset {
                RecoveryStart::Scan {
                    start_commit_index: (go_last_block + 1 - epoch_base_exec_index
                        - fragment_offset) as u32,
                }
            } else {
                RecoveryStart::Scan { start_commit_index: 1 }
            },
    {
        let start_global: u64 = go_last_block + 1;
        let recovery = Recovery {
            epoch_base_exec_index,
            next_required_global: start_global,
            fragment_offset,
        };
        let start = if !db_exists {
            RecoveryStart::NoDatabase
        } else if start_global <= epoch_base_exec_index {
            RecoveryStart::BehindEpoch
        } else if start_global - epoch_base_exec_index > fragment_offset {
            let first: u64 = start_global - epoch_base_exec_index - fragment_offset;
            RecoveryStart::Scan { start_commit_index: #[verifier::truncate] (first as u32) }
        } else {
            RecoveryStart::Scan { start_commit_index: 1 }
        };
        (recovery, start)
    }

    /// Decides about the next commit of the database.
    pub fn decide(&self, commit_index: u32) -> (d: CommitDecision)
        ensures
            d == self.decision(commit_index),
    {
        let index: u128 = self.epoch_base_exec_index as u128 + commit_index as u128
            + self.fragment_offset as u128;
        let required: u64 = self.next_required_global;
        if index < required as u128 {
            CommitDecision::Skip
        } else if index == required as u128 {
            CommitDecision::Replay { gei: required }
        } else if index <= u64::MAX as u128 {
            CommitDecision::Gap { expected: required, found: index as u64 }
        } else {
            CommitDecision::Gap { expected: required, found: u64::MAX }
        }
    }

    /// Goes on after a commit that took so many indices.
    pub fn on_sent(&mut self, geis: u64)
        requires
            geis >= 1,
            old(self).next_required_global + geis <= u64::MAX,
            old(self).fragment_offset + geis - 1 <= u64::MAX,
        ensures
            *final(self) == old(self).after_sent(geis),
    {
        self.next_required_global = self.next_required_global + geis;
        self.fragment_offset = self.fragment_offset + (geis - 1);
    }
}

/// How many indices a commit with so many transactions takes at most.
pub fn geis_consumed(total_txs: usize) -> (n: u64)
    ensures
        n == if total_txs > MAX_TXS_PER_GO_BLOCK {
            fragment_count(total_txs as int)
        } else {
            1
        },
{
    if total_txs > MAX_TXS_PER_GO_BLOCK {
        let full: usize = total_txs / MAX_TXS_PER_GO_BLOCK;
        let fragments: usize = if total_txs % MAX_TXS_PER_GO_BLOCK == 0 {
            full
        } else {
            full + 1
        };
        fragments as u64
    } else {
        1
    }
}

/// A replay of `commits`: where the recovery is then, and which commits were sent with which
/// indices. A gap ends it, and there is no result.
pub open spec fn replayed(r: Recovery, commits: Seq<StoredCommit>) -> Option<
    (Recovery, Seq<(u32, u64)>),
>
    decreases commits.len(),
{
    if commits.len() == 0 {
        Some((r, Seq::empty()))
    } else {
        let c = commits.last();
        match replayed(r, commits.drop_last()) {
            Some((now, sent)) => match now.decision(c.commit_index) {
                CommitDecision::Skip => Some((now, sent)),
                CommitDecision::Replay { gei } => Some(
                    (now.after_sent(c.slots), sent.push((c.commit_index, gei))),
                ),
                CommitDecision::Gap { .. } => None,
            },
            None => None,
        }
    }
}

/// Consecutive commits, the first of which the engine waits for, are all replayed, however many
/// indices each of them takes: in their order, each under the index behind those of its
/// predecessors.
pub proof fn law_replay_is_gapless(r: Recovery, commits: Seq<StoredCommit>)
    requires
        commits.len() > 0 ==> r.index_of(commits[0].commit_index) == r.next_required_global,
        forall|i: int|
            0 <= i < commits.len() ==> (#[trigger] commits[i]).commit_index
                == commits[0].commit_index + i && commits[i].slots >= 1,
        r.next_required_global + indices_of(commits) <= u64::MAX,
    ensures
        replayed(r, commits) matches Some((now, sent)) && {
            &&& sent.len() == commits.len()
            &&& forall|i: int|
                0 <= i < commits.len() ==> (#[trigger] sent[i]).0 == commits[i].commit_index
                    && sent[i].1 == r.next_required_global + indices_of(commits.take(i))
            &&& now.epoch_base_exec_index == r.epoch_base_exec_index
            &&& now.next_required_global == r.next_required_global + indices_of(commits)
            &&& commits.len() > 0 ==> now.fragment_offset == r.fragment_offset + indices_of(commits)
                - commits.len()
        },
    decreases commits.len(),
{
    if commits.len() > 0 {
        let init = commits.drop_last();
        let n = init.len() as int;
        let c = commits.last();
        assert(c == commits[n]);
        assert(commits.take(n) =~= init);
        assert forall|i: int| 0 <= i < init.len() implies (#[trigger] init[i]).commit_index
            == init[0].commit_index + i && init[i].slots >= 1 by {
            assert(init[i] == commits[i]);
            assert(init[0] == commits[0]);
        }
        lemma_indices(init);
        law_replay_is_gapless(r, init);
        assert forall|i: int| 0 <= i < n implies init.take(i) == #[trigger] commits.take(i) by {
            assert(init.take(i) =~= commits.take(i));
        }
        let (now, sent) = replayed(r, init)->0;
        if n > 0 {
            assert(init[0] == commits[0]);
        } else {
            assert(indices_of(init) == 0);
            assert(now == r);
        }
        assert(now.index_of(c.commit_index) == now.next_required_global);
        let all = sent.push((c.commit_index, now.next_required_global));
        assert forall|i: int| 0 <= i < commits.len() implies (#[trigger] all[i]).0
            == commits[i].commit_index && all[i].1 == r.next_required_global + indices_of(
            commits.take(i),
        ) by {
            if i < n {
                assert(all[i] == sent[i]);
                assert(init[i] == commits[i]);
                assert(init.take(i) == commits.take(i));
            }
        }
    }
}

/// Commits take at least as many indices as there are commits.
proof fn lemma_indices(commits: Seq<StoredCommit>)
    requires
        forall|i: int| 0 <= i < commits.len() ==> (#[trigger] commits[i]).slots >= 1,
    ensures
        indices_of(commits) >= commits.len(),
    decreases commits.len(),
{
    if commits.len() > 0 {
        let init = commits.drop_last();
        assert forall|i: int| 0 <= i < init.len() implies (#[trigger] init[i]).slots >= 1 by {
            assert(init[i] == commits[i]);
        }
        lemma_indices(init);
        assert(commits.last() == commits[commits.len() - 1]);
    }
}

proof fn lemma_indices_split(commits: Seq<StoredCommit>, k: int)
    requires
        0 <= k <= commits.len(),
    ensures
        indices_of(commits) == indices_of(commits.take(k)) + indices_of(commits.skip(k)),
    decreases commits.len(),
{
    if k == commits.len() {
        assert(commits.take(k) =~= commits);
        assert(commits.skip(k).len() == 0);
    } else {
        let init = commits.drop_last();
        lemma_indices_split(init, k);
        assert(init.take(k) =~= commits.take(k));
        assert(init.skip(k) =~= commits.skip(k).drop_last());
        assert(commits.skip(k).last() == commits.last());
    }
}

/// Behind `k` whole commits the offset is what they took beyond one index each, and no commit is
/// cut.
proof fn lemma_offset_behind(commits: Seq<StoredCommit>, k: int)
    requires
        0 <= k <= commits.len(),
        forall|i: int| 0 <= i < commits.len() ==> (#[trigger] commits[i]).slots >= 1,
    ensures
        offset_within(commits, indices_of(commits.take(k))) == indices_of(commits.take(k)) - k,
        cut_commit(commits, indices_of(commits.take(k))) is None,
    decreases commits.len(),
{
    let taken = commits.take(k);
    if k == 0 {
        assert(indices_of(taken) == 0);
        if commits.len() > 0 {
            assert(commits[0].slots >= 1);
        }
    } else {
        let rest = commits.skip(1);
        assert forall|i: int| 0 <= i < rest.len() implies (#[trigger] rest[i]).slots >= 1 by {
            assert(rest[i] == commits[i + 1]);
        }
        lemma_offset_behind(rest, k - 1);
        lemma_indices_split(taken, 1);
        assert(taken.skip(1) =~= rest.take(k - 1));
        assert(taken.take(1) =~= seq![commits[0]]);
        assert(seq![commits[0]].drop_last() =~= Seq::<StoredCommit>::empty());
        assert(indices_of(seq![commits[0]]) == commits[0].slots) by {
            assert(seq![commits[0]].last() == commits[0]);
            assert(indices_of(Seq::<StoredCommit>::empty()) == 0);
        }
        assert forall|i: int| 0 <= i < taken.skip(1).len() implies (#[trigger] taken.skip(
            1,
        )[i]).slots >= 1 by {
            assert(taken.skip(1)[i] == commits[i + 1]);
        }
        lemma_indices(taken.skip(1));
    }
}

/// A recovery goes on where the engine stopped. If the engine has the first `k` commits of the
/// epoch, the scan starts with the next one, and every commit from there on is replayed under the
/// index that it has in live processing: the base of the epoch, the commit index, and what the
/// commits before it took beyond one index each.
pub proof fn law_recovery_continues_live_processing(
    base: u64,
    commits: Seq<StoredCommit>,
    k: int,
)
    requires
        from_the_first(commits),
        0 <= k < commits.len(),
        base + indices_of(commits) < u64::MAX,
    ensures
        ({
            let executed = indices_of(commits.take(k));
            let offset = offset_within(commits, executed);
            let r = Recovery {
                epoch_base_exec_index: base,
                next_required_global: (base + executed + 1) as u64,
                fragment_offset: offset as u64,
            };
            &&& cut_commit(commits, executed) is None
            &&& 0 <= offset <= executed
            &&& executed + 1 - offset == commits[k].commit_index
            &&& replayed(r, commits.skip(k)) matches Some((now, sent)) && {
                &&& sent.len() == commits.len() - k
                &&& forall|i: int|
                    k <= i < commits.len() ==> (#[trigger] sent[i - k]).0 == commits[i].commit_index
                        && sent[i - k].1 == base + commits[i].commit_index + indices_of(
                        commits.take(i),
                    ) - i
            }
        }),
{
    let executed = indices_of(commits.take(k));
    let rest = commits.skip(k);
    lemma_offset_behind(commits, k);
    lemma_indices_split(commits, k);
    assert forall|i: int| 0 <= i < rest.len() implies (#[trigger] rest[i]).slots >= 1
        && rest[i].commit_index == rest[0].commit_index + i by {
        assert(rest[i] == commits[i + k]);
        assert(rest[0] == commits[k]);
    }
    assert forall|i: int| 0 <= i < k implies (#[trigger] commits.take(k)[i]).slots >= 1 by {
        assert(commits.take(k)[i] == commits[i]);
    }
    lemma_indices(commits.take(k));
    lemma_indices(rest);
    let r = Recovery {
        epoch_base_exec_index: base,
        next_required_global: (base + executed + 1) as u64,
        fragment_offset: offset_within(commits, executed) as u64,
    };
    assert(rest[0] == commits[k]);
    law_replay_is_gapless(r, rest);
    let sent = (replayed(r, rest)->0).1;
    assert forall|i: int| k <= i < commits.len() implies (#[trigger] sent[i - k]).0
        == commits[i].commit_index && sent[i - k].1 == base + commits[i].commit_index + indices_of(
        commits.take(i),
    ) - i by {
        assert(rest[i - k] == commits[i]);
        lemma_indices_split(commits.take(i), k);
        assert(commits.take(i).take(k) =~= commits.take(k));
        assert(commits.take(i).skip(k) =~= rest.take(i - k));
    }
}

/// What a recovery does with a commit, on the numbers: its index is the base of the epoch, its own
/// and what fragments took; one below the index that the engine waits for is passed over, that very
/// one is sent under it, and one beyond it shows a gap.
pub proof fn law_what_a_recovery_does_with_a_commit(r: Recovery, commit_index: u32)
    ensures
        ({
            let index = r.epoch_base_exec_index + commit_index + r.fragment_offset;
            &&& r.index_of(commit_index) == index
            &&& index < r.next_required_global <==> r.decision(commit_index) is Skip
            &&& index == r.next_required_global <==> r.decision(commit_index) == (
            CommitDecision::Replay { gei: r.next_required_global })
            &&& index > r.next_required_global <==> r.decision(commit_index) is Gap
            &&& index > r.next_required_global && index <= u64::MAX ==> r.decision(commit_index)
                == (CommitDecision::Gap {
                expected: r.next_required_global,
                found: index as u64,
            })
        }),
{
}

/// What sending a commit moves: the index that the engine waits for by as many as the commit took,
/// and the offset by one less.
pub proof fn law_what_sending_a_commit_moves(r: Recovery, geis: u64)
    requires
        geis >= 1,
        r.next_required_global + geis <= u64::MAX,
        r.fragment_offset + geis - 1 <= u64::MAX,
    ensures
        r.after_sent(geis).next_required_global == r.next_required_global + geis,
        r.after_sent(geis).fragment_offset == r.fragment_offset + geis - 1,
        r.after_sent(geis).epoch_base_exec_index == r.epoch_base_exec_index,
{
}

/// Indices and offsets add up commit by commit.
pub proof fn law_indices_add_up(commits: Seq<StoredCommit>, c: StoredCommit)
    ensures
        indices_of(commits.push(c)) == indices_of(commits) + c.slots,
        indices_of(Seq::<StoredCommit>::empty()) == 0,
{
    assert(commits.push(c).drop_last() =~= commits);
}

/// An engine that has some but not all indices of a commit is inside that commit.
pub proof fn law_an_engine_inside_a_commit(commits: Seq<StoredCommit>, k: int, part: int)
    requires
        0 <= k < commits.len(),
        0 < part < commits[k].slots,
        forall|i: int| 0 <= i < commits.len() ==> (#[trigger] commits[i]).slots >= 1,
    ensures
        cut_commit(commits, indices_of(commits.take(k)) + part) == Some(commits[k].commit_index),
    decreases commits.len(),
{
    let taken = commits.take(k);
    if k == 0 {
        assert(indices_of(taken) == 0);
    } else {
        let rest = commits.skip(1);
        assert forall|i: int| 0 <= i < rest.len() implies (#[trigger] rest[i]).slots >= 1 by {
            assert(rest[i] == commits[i + 1]);
        }
        assert(rest[k - 1] == commits[k]);
        law_an_engine_inside_a_commit(rest, k - 1, part);
        lemma_indices_split(taken, 1);
        assert(taken.skip(1) =~= rest.take(k - 1));
        assert(taken.take(1) =~= Seq::<StoredCommit>::empty().push(commits[0]));
        law_indices_add_up(Seq::<StoredCommit>::empty(), commits[0]);
        assert forall|i: int| 0 <= i < taken.skip(1).len() implies (#[trigger] taken.skip(
            1,
        )[i]).slots >= 1 by {
            assert(taken.skip(1)[i] == commits[i + 1]);
        }
        lemma_indices(taken.skip(1));
    }
}

/// Where the consensus database of an epoch lies.
pub proof fn law_where_the_database_lies(storage: Seq<char>, epoch: nat)
    requires
        storage.len() > 0,
        storage.last() != '/',
    ensures
        consensus_db_path(storage, epoch) == storage + "/epochs/epoch_"@ + decimal(epoch)
            + "/consensus_db"@,
{
    reveal_strlit("epochs");
    reveal_strlit("epoch_");
    reveal_strlit("consensus_db");
    reveal_strlit("/epochs/epoch_");
    reveal_strlit("/consensus_db");
    let a = joined(storage, "epochs"@);
    assert(a =~= storage.push('/') + "epochs"@);
    assert(a.last() == 's');
    let name = "epoch_"@ + decimal(epoch);
    crate::text::lemma_decimal_value(epoch);
    let b = joined(a, name);
    assert(b =~= a.push('/') + name);
    assert(decimal(epoch).len() > 0);
    assert(b.last() == decimal(epoch).last());
    assert(crate::text::is_digit(decimal(epoch).last()));
    assert(consensus_db_path(storage, epoch) =~= b.push('/') + "consensus_db"@);
    assert(consensus_db_path(storage, epoch) =~= storage + "/epochs/epoch_"@ + decimal(epoch)
        + "/consensus_db"@);
}

/// Recovery scans from the commit whose index is the first that the engine lacks. Within the first
/// commits of an epoch, which the offset covers, it scans from commit 1; an engine that has not
/// reached the epoch is left alone.
pub proof fn law_where_recovery_starts(
    go_last: u64,
    base: u64,
    offset: u64,
    db_exists: bool,
    r: (Recovery, RecoveryStart),
)
    requires
        call_ensures(Recovery::start, (go_last, base, offset, db_exists), r),
        go_last < u64::MAX,
    ensures
        r.0.next_required_global == go_last + 1,
        r.0.epoch_base_exec_index == base,
        r.0.fragment_offset == offset,
        r.1 is NoDatabase <==> !db_exists,
        r.1 is BehindEpoch <==> db_exists && go_last < base,
        r.1 is Scan <==> db_exists && base <= go_last,
        r.1 matches RecoveryStart::Scan { start_commit_index } ==> {
            &&& base + offset <= go_last < base + offset + u32::MAX ==> base + start_commit_index
                + offset == go_last + 1
            &&& go_last < base + offset ==> start_commit_index == 1
        },
{
}

/// Of the commits in the database those that the engine has are passed over, the one it waits for
/// is replayed under its own index, and anything beyond is a gap.
pub proof fn law_which_commits_are_replayed(r: &Recovery, commit_index: u32, d: CommitDecision)
    requires
        call_ensures(Recovery::decide, (r, commit_index), d),
    ensures
        ({
            let index = r.epoch_base_exec_index + commit_index + r.fragment_offset;
            &&& d is Skip <==> index < r.next_required_global
            &&& d == (CommitDecision::Replay { gei: r.next_required_global }) <==> index
                == r.next_required_global
            &&& d is Gap <==> index > r.next_required_global
        }),
{
}

} // verus!
