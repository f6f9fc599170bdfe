//! How far the execution engine lags behind consensus.

use vstd::prelude::*;

use crate::clock::{since, spec_since};

verus! {

/// A gap above this is a moderate lag.
pub const MODERATE_LAG: u64 = 100;

/// A gap above this is a severe lag.
pub const SEVERE_LAG: u64 = 200;

/// What is known of a lag. The engine's speed is `go_executed` indices in `elapsed_nanos`.
#[derive(Clone, Copy, Debug, PartialEq, Eq, Structural)]
pub struct LagReport {
    pub rust_gei: u64,
    pub go_gei: u64,
    pub go_block_number: u64,
    pub gap: u64,
    /// The indices that the engine executed since the last check; 0 if it went backwards.
    pub go_executed: u64,
    /// The time since the last check.
    pub elapsed_nanos: u128,
}

/// A change, or a bad state, of the lag.
#[derive(Clone, Copy, Debug, PartialEq, Eq, Structural)]
pub enum LagAlert {
    /// The engine is behind: watch it.
    ModerateLag(LagReport),
    /// The engine is far behind: consensus should be paused.
    SevereLag(LagReport),
    /// The engine has caught up.
    Recovered { rust_gei: u64, go_gei: u64 },
}

/// Watches the gap between consensus and execution.
#[derive(Clone, Copy, Debug, PartialEq, Eq, Structural)]
pub struct LagMonitor {
    pub moderate_lag_threshold: u64,
    pub severe_lag_threshold: u64,
    /// Whether a lag was reported that has not been recovered from.
    pub lagging: bool,
    pub last_go_gei: u64,
    pub last_check: u128,
}

/// How far `go_gei` is behind `rust_gei`.
pub open spec fn lag_gap(rust_gei: u64, go_gei: u64) -> u64 {
    if rust_gei >= go_gei {
        (rust_gei - go_gei) as u64
    } else {
        0
    }
}

impl LagMonitor {
    /// A monitor with the default thresholds. The engine is at `go_gei` at time `now`; an engine
    /// that cannot be asked counts as being at 0.
    pub fn new(go_gei: Option<u64>, now: u128) -> (m: LagMonitor)
        ensures
            m.moderate_lag_threshold == MODERATE_LAG,
            m.severe_lag_threshold == SEVERE_LAG,
            !m.lagging,
            m.last_go_gei == match go_gei {
                Some(g) => g,
                None => 0,
            },
            m.last_check == now,
    {
        LagMonitor {
            moderate_lag_threshold: MODERATE_LAG,
            severe_lag_threshold: SEVERE_LAG,
            lagging: false,
            last_go_gei: match go_gei {
                Some(g) => g,
                None => 0,
            },
            last_check: now,
        }
    }

    /// The monitor with other thresholds.
    pub fn with_thresholds(self, moderate: u64, severe: u64) -> (m: LagMonitor)
        ensures
            m == (LagMonitor {
                moderate_lag_threshold: moderate,
                severe_lag_threshold: severe,
                ..self
            }),
    {
        LagMonitor {
            moderate_lag_threshold: moderate,
            severe_lag_threshold: severe,
            lagging: self.lagging,
            last_go_gei: self.last_go_gei,
            last_check: self.last_check,
        }
    }

    /// The alert for a gap. A chain that has not started raises none. A lag counts as recovered
    /// only when the gap is below half the moderate threshold.
    pub open spec fn alert_for(
        &self,
        rust_gei: u64,
        go_gei: u64,
        report: LagReport,
    ) -> Option<LagAlert> {
        let gap = lag_gap(rust_gei, go_gei);
        if rust_gei == 0 {
            None
        } else if gap > self.severe_lag_threshold {
            Some(LagAlert::SevereLag(report))
        } else if gap > self.moderate_lag_threshold {
            Some(LagAlert::ModerateLag(report))
        } else if self.lagging && gap < self.moderate_lag_threshold / 2 {
            Some(LagAlert::Recovered { rust_gei, go_gei })
        } else {
            None
        }
    }

    /// What a check at time `now` reports.
    pub open spec fn report_for(
        &self,
        rust_gei: u64,
        go_gei: u64,
        go_block_number: u64,
        now: u128,
    ) -> LagReport {
        LagReport {
            rust_gei,
            go_gei,
            go_block_number,
            gap: lag_gap(rust_gei, go_gei),
            go_executed: lag_gap(go_gei, self.last_go_gei),
            elapsed_nanos: spec_since(now, self.last_check),
        }
    }

    /// Checks the gap at time `now`.
    pub fn check(
        &mut self,
        rust_gei: u64,
        go_gei: u64,
        go_block_number: u64,
        now: u128,
    ) -> (alert: Option<LagAlert>)
        ensures
            alert == old(self).alert_for(
                rust_gei,
                go_gei,
                old(self).report_for(rust_gei, go_gei, go_block_number, now),
            ),
            *final(self) == (LagMonitor {
                lagging: match alert {
                    Some(LagAlert::Recovered { .. }) => false,
                    Some(_) => true,
                    None => old(self).lagging,
                },
                last_go_gei: go_gei,
                last_check: now,
                ..*old(self)
            }),
    {
        let report = LagReport {
            rust_gei,
            go_gei,
            go_block_number,
            gap: rust_gei.saturating_sub(go_gei),
            go_executed: go_gei.saturating_sub(self.last_go_gei),
            elapsed_nanos: since(now, self.last_check),
        };
        let mut alert: Option<LagAlert> = None;
        if rust_gei > 0 {
            if report.gap > self.severe_lag_threshold {
                alert = Some(LagAlert::SevereLag(report));
                self.lagging = true;
            } else if report.gap > self.moderate_lag_threshold {
                alert = Some(LagAlert::ModerateLag(report));
                self.lagging = true;
            } else if self.lagging && report.gap < self.moderate_lag_threshold / 2 {
                alert = Some(LagAlert::Recovered { rust_gei, go_gei });
                self.lagging = false;
            }
        }
        self.last_check = now;
        self.last_go_gei = go_gei;
        alert
    }
}

/// A recovery is only ever reported after a lag was, and at a gap at which no lag would be.
pub proof fn law_recovery_follows_lag(m: LagMonitor, rust_gei: u64, go_gei: u64, report: LagReport)
    requires
        m.alert_for(rust_gei, go_gei, report) matches Some(LagAlert::Recovered { .. }),
    ensures
        m.lagging,
        lag_gap(rust_gei, go_gei) < m.moderate_lag_threshold / 2,
{
}

/// Which alert a check raises. None before the chain has started. A severe one for a gap above the
/// severe threshold, else a moderate one for a gap above the moderate threshold, else a recovery if
/// a lag was reported and the gap is below half the moderate threshold.
pub proof fn law_which_alert_is_raised(m: LagMonitor, rust_gei: u64, go_gei: u64, report: LagReport)
    ensures
        ({
            let alert = m.alert_for(rust_gei, go_gei, report);
            let gap = rust_gei - go_gei;
            let severe = gap > m.severe_lag_threshold;
            let moderate = gap > m.moderate_lag_threshold;
            let small = gap < m.moderate_lag_threshold / 2 && m.moderate_lag_threshold >= 2;
            &&& rust_gei == 0 ==> alert is None
            &&& rust_gei > 0 && severe ==> alert == Some(LagAlert::SevereLag(report))
            &&& rust_gei > 0 && !severe && moderate ==> alert == Some(
                LagAlert::ModerateLag(report),
            )
            &&& rust_gei > 0 && !severe && !moderate && m.lagging && small ==> alert == Some(
                LagAlert::Recovered { rust_gei, go_gei },
            )
            &&& !severe && !moderate && !(m.lagging && small) ==> alert is None
        }),
{
}

/// What a check reports: how far the engine is behind, and how far it has come since the last check,
/// in how much time. Neither is ever negative.
pub proof fn law_what_a_check_reports(
    m: LagMonitor,
    rust_gei: u64,
    go_gei: u64,
    go_block_number: u64,
    now: u128,
)
    requires
        m.last_check <= now,
    ensures
        ({
            let r = m.report_for(rust_gei, go_gei, go_block_number, now);
            &&& r.rust_gei == rust_gei
            &&& r.go_gei == go_gei
            &&& r.go_block_number == go_block_number
            &&& rust_gei >= go_gei ==> r.gap == rust_gei - go_gei
            &&& rust_gei <= go_gei ==> r.gap == 0
            &&& go_gei >= m.last_go_gei ==> r.go_executed == go_gei - m.last_go_gei
            &&& go_gei <= m.last_go_gei ==> r.go_executed == 0
            &&& r.elapsed_nanos == now - m.last_check
        }),
        MODERATE_LAG == 100,
        SEVERE_LAG == 200,
{
}

/// A monitor starts from the engine's index, or from 0 if it is not known, and takes the engine to
/// keep up.
pub proof fn law_how_a_monitor_starts(go_gei: Option<u64>, now: u128, m: LagMonitor)
    requires
        call_ensures(LagMonitor::new, (go_gei, now), m),
    ensures
        go_gei is Some ==> go_gei == Some(m.last_go_gei),
        go_gei is None ==> m.last_go_gei == 0,
        m.last_check == now,
        !m.lagging,
        m.moderate_lag_threshold == 100,
        m.severe_lag_threshold == 200,
{
}

/// An engine that is more than two hundred indices behind raises an alert, and the monitor takes
/// it to lag; the alert tells how far it is behind. The next check measures from here.
pub proof fn law_what_a_check_does(
    m: &mut LagMonitor,
    rust_gei: u64,
    go_gei: u64,
    block: u64,
    now: u128,
    alert: Option<LagAlert>,
)
    requires
        call_ensures(LagMonitor::check, (m, rust_gei, go_gei, block, now), alert),
    ensures
        final(m).last_go_gei == go_gei,
        final(m).last_check == now,
        final(m).severe_lag_threshold == old(m).severe_lag_threshold,
        final(m).moderate_lag_threshold == old(m).moderate_lag_threshold,
        rust_gei - go_gei > old(m).severe_lag_threshold ==> alert is Some && final(m).lagging,
        alert is None ==> final(m).lagging == old(m).lagging,
{
}

} // verus!
