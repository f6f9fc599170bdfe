//! The global execution index (GEI): the position of a commit in the execution stream.

use vstd::prelude::*;

verus! {

/// The position of commit `commit_index` in an epoch whose base is `epoch_base_index`.
pub open spec fn global_exec_index(commit_index: int, epoch_base_index: int) -> int {
    epoch_base_index + commit_index
}

/// Computes the global execution index of a commit.
///
/// `epoch_base_index` is the last global execution index of the previous epoch and
/// `commit_index` is agreed on by consensus, so every node computes the same value, no matter
/// when it joined. `_epoch` does not enter the formula.
///
/// - Epoch 0: base 0, commit 1 is at 1, commit 4000 is at 4000.
/// - Epoch 1: base 4000, commit 1 is at 4001, commit 500 is at 4500.
pub fn calculate_global_exec_index(
    _epoch: u64,
    commit_index: u32,
    epoch_base_index: u64,
) -> (gei: u64)
    requires
        epoch_base_index + commit_index <= u64::MAX,
    ensures
        gei == global_exec_index(commit_index as int, epoch_base_index as int),
{
    epoch_base_index + commit_index as u64
}

/// Within an epoch, later commits have greater indices and distinct commits never collide.
pub proof fn law_gei_strictly_increasing(base: int, c1: int, c2: int)
    requires
        c1 < c2,
    ensures
        global_exec_index(c1, base) < global_exec_index(c2, base),
{
}

/// When an epoch starts at the index its predecessor ended at, the numbering continues without
/// a gap: the first commit of the new epoch directly follows the last one of the old epoch.
pub proof fn law_gei_continues_across_epochs(base: int, last_commit: int)
    ensures
        global_exec_index(1, global_exec_index(last_commit, base)) == global_exec_index(
            last_commit,
            base,
        ) + 1,
{
}

/// The position of a commit is the base of its epoch and its own index, and nothing else.
pub proof fn law_gei_is_base_plus_index(base: int, commit: int)
    ensures
        global_exec_index(commit, base) - base == commit,
{
}

} // verus!
