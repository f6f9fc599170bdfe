//! Announcing epochs to the execution engine.

use vstd::prelude::*;

verus! {

/// How often an announcement is tried.
pub const MAX_ADVANCE_ATTEMPTS: u32 = 3;

/// The wait between two tries.
pub const ADVANCE_WAIT_MS: u64 = 1000;

/// What to do after a try that failed.
#[derive(Clone, Copy, Debug, PartialEq, Eq, Structural)]
pub enum AdvanceStep {
    /// Wait, and try again.
    TryAgain { wait_ms: u64 },
    /// Give up.
    GiveUp,
}

/// The announcement of an epoch.
#[derive(Clone, Copy, Debug, PartialEq, Eq, Structural)]
pub struct AdvanceEpoch {
    /// How often it failed.
    pub failures: u32,
}

impl AdvanceEpoch {
    /// An announcement that has not been tried yet.
    pub fn new() -> (a: AdvanceEpoch)
        ensures
            a.failures == 0,
    {
        AdvanceEpoch { failures: 0 }
    }

    /// Goes on after a try that failed: three tries are made, with a wait between them.
    pub fn on_failure(&mut self) -> (step: AdvanceStep)
        requires
            old(self).failures < MAX_ADVANCE_ATTEMPTS,
        ensures
            final(self).failures == old(self).failures + 1,
            step == if old(self).failures + 1 < MAX_ADVANCE_ATTEMPTS {
                AdvanceStep::TryAgain { wait_ms: ADVANCE_WAIT_MS }
            } else {
                AdvanceStep::GiveUp
            },
    {
        self.failures = self.failures + 1;
        if self.failures < MAX_ADVANCE_ATTEMPTS {
            AdvanceStep::TryAgain { wait_ms: ADVANCE_WAIT_MS }
        } else {
            AdvanceStep::GiveUp
        }
    }
}

/// How long to wait for the answer when the engine itself waits up to `timeout_secs`: ten seconds
/// longer.
pub fn wait_for_sync_timeout(timeout_secs: u64) -> (secs: u64)
    requires
        timeout_secs + 10 <= u64::MAX,
    ensures
        secs == timeout_secs + 10,
{
    timeout_secs + 10
}

/// An announcement is tried three times, a second apart.
pub proof fn law_announcements_are_tried_three_times(a: &mut AdvanceEpoch, step: AdvanceStep)
    requires
        call_ensures(AdvanceEpoch::on_failure, (a,), step),
    ensures
        final(a).failures == old(a).failures + 1,
        old(a).failures <= 1 ==> step == (AdvanceStep::TryAgain { wait_ms: 1000 }),
        old(a).failures >= 2 ==> step is GiveUp,
{
}

} // verus!
