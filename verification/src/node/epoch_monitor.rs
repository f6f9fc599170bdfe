//! Keeping up with the epochs of the network.
//!
//! The monitor compares the epoch of the node with that of the network again and again, for as long
//! as the node runs. When the node is behind, it takes it through the missing epochs one by one:
//! each has a boundary and a committee of its own. [`MonitorRound`] decides what one round does.

use vstd::prelude::*;

use crate::node::NodeMode;

verus! {

/// The time between two rounds when none is configured, in seconds.
pub const DEFAULT_POLL_INTERVAL_SECS: u64 = 10;

/// How many blocks beyond its own the engine is offered in each round.
pub const TIP_BATCH: u64 = 100;

/// The pause after a transition.
pub const SETTLE_WAIT_MS: u64 = 200;

/// The time between two rounds.
pub fn poll_interval_secs(configured: Option<u64>) -> (secs: u64)
    ensures
        secs == match configured {
            Some(s) => s,
            None => DEFAULT_POLL_INTERVAL_SECS,
        },
{
    match configured {
        Some(s) => s,
        None => DEFAULT_POLL_INTERVAL_SECS,
    }
}

/// The boundary at which an epoch starts.
#[derive(Clone, Copy, Debug, PartialEq, Eq, Structural)]
pub struct EpochBoundary {
    pub epoch: u64,
    pub timestamp_ms: u64,
    pub boundary_block: u64,
}

/// How far a round has come.
#[derive(Clone, Copy, Debug, PartialEq, Eq, Structural)]
pub enum MonitorPhase {
    /// Asking the engine for its epoch.
    EngineEpoch,
    /// Asking the peers for the epoch of the network.
    NetworkEpoch,
    /// Asking the node for its epoch and mode.
    Node,
    /// Asking the engine for its last block.
    TipPosition,
    /// Offering the engine the blocks behind it.
    TipSync,
    /// A node that does not vote: asking peer `peer` for the next boundary.
    FollowBoundary { peer: usize },
    /// A node that does not vote: asking the engine for its last block.
    FollowPosition,
    /// A node that does not vote: fetching the blocks up to the boundary.
    FollowSync,
    /// A node that does not vote: telling the engine of the epoch.
    FollowAdvance,
    /// Asking the engine for the next boundary.
    EngineBoundary,
    /// Asking peer `peer` for the next boundary.
    PeerBoundary { peer: usize },
    /// Asking the engine for its last block.
    Position,
    /// Fetching the blocks up to the boundary.
    Sync,
    /// Asking the engine for its epoch again.
    EngineEpochNow,
    /// Telling the engine of the epoch.
    Advance,
    /// Asking for permission to change the epoch.
    Start,
    /// Changing the epoch.
    Transition,
    /// Letting the new epoch settle.
    Settle,
    /// The round is over.
    Done,
}

/// What came of asking for permission to change the epoch.
#[derive(Clone, Copy, Debug, PartialEq, Eq, Structural)]
pub enum StartOutcome {
    Granted,
    /// Not now. The engine knows of the epoch, and the next one is tried.
    Refused,
    /// There is nobody to ask yet.
    NoManager,
}

/// What the application reports back.
#[derive(Clone, Copy, Debug, PartialEq, Eq, Structural)]
pub enum MonitorEvent {
    /// An epoch, if it could be had.
    Epoch(Option<u64>),
    /// The epoch and mode of the node.
    Node { epoch: u64, mode: NodeMode },
    /// There is no node yet.
    NoNode,
    /// The engine's last block, if it could be had.
    Position(Option<u64>),
    /// A boundary, if it could be had.
    Boundary(Option<EpochBoundary>),
    /// Something was done, with or without success.
    Done { success: bool },
    /// Permission was asked for.
    Started(StartOutcome),
}

/// What the application is to do next.
#[derive(Clone, Copy, Debug, PartialEq, Eq, Structural)]
pub enum MonitorAction {
    AskEngineEpoch,
    AskNetworkEpoch,
    AskNode,
    AskPosition,
    /// Fetch these blocks from the peers and hand them to the engine.
    FetchBlocks { from: u64, to: u64 },
    AskPeerBoundary { peer: usize, epoch: u64 },
    AskEngineBoundary { epoch: u64 },
    /// Tell the engine that an epoch has begun.
    AdvanceEngine { epoch: u64, timestamp_ms: u64, boundary_block: u64 },
    /// Ask for permission to change to an epoch.
    StartTransition { epoch: u64 },
    /// Change to an epoch.
    RunTransition { boundary: EpochBoundary },
    /// Report the transition as complete, and pause.
    CompleteTransition { epoch: u64, wait_ms: u64 },
    /// Report the transition as failed. The round is over.
    FailTransition,
    /// The round is over.
    EndRound,
}

/// One round of the monitor.
#[derive(Clone, Copy, Debug, PartialEq, Eq, Structural)]
pub struct MonitorRound {
    pub peer_count: usize,
    pub phase: MonitorPhase,
    /// The engine's epoch at the start of the round.
    pub engine_epoch: u64,
    pub network_epoch: u64,
    /// The node's epoch at the start of the round.
    pub node_epoch: u64,
    pub sync_only: bool,
    /// The epoch that is being reached.
    pub target: u64,
    /// The boundary of that epoch.
    pub boundary: EpochBoundary,
}

/// An epoch or block that may be unknown.
pub open spec fn known_or(value: Option<u64>, default: u64) -> u64 {
    match value {
        Some(v) => v,
        None => default,
    }
}

/// `a + b`, or the greatest number.
pub open spec fn capped_add(a: u64, b: u64) -> u64 {
    if a + b <= u64::MAX {
        (a + b) as u64
    } else {
        u64::MAX
    }
}

impl MonitorRound {
    pub open spec fn wf(&self) -> bool {
        match self.phase {
            MonitorPhase::FollowBoundary { peer } => peer < self.peer_count && self.sync_only
                && self.in_reach(),
            MonitorPhase::FollowPosition | MonitorPhase::FollowSync
            | MonitorPhase::FollowAdvance => self.peer_count > 0 && self.sync_only
                && self.in_reach(),
            MonitorPhase::PeerBoundary { peer } => peer < self.peer_count && !self.sync_only
                && self.in_reach(),
            MonitorPhase::EngineBoundary | MonitorPhase::Position | MonitorPhase::Sync
            | MonitorPhase::EngineEpochNow | MonitorPhase::Advance | MonitorPhase::Start
            | MonitorPhase::Transition | MonitorPhase::Settle => !self.sync_only
                && self.in_reach(),
            _ => true,
        }
    }

    /// The epoch that is being reached lies behind where the round started and not beyond the
    /// network.
    pub open spec fn in_reach(&self) -> bool {
        &&& self.target <= self.network_epoch
        &&& if self.sync_only {
            self.engine_epoch < self.target
        } else {
            self.node_epoch < self.target
        }
    }

    /// The event that the current phase waits for.
    pub open spec fn expects(&self, event: MonitorEvent) -> bool {
        match self.phase {
            MonitorPhase::EngineEpoch | MonitorPhase::NetworkEpoch
            | MonitorPhase::EngineEpochNow => event is Epoch,
            MonitorPhase::Node => event is Node || event is NoNode,
            MonitorPhase::TipPosition | MonitorPhase::FollowPosition
            | MonitorPhase::Position => event is Position,
            MonitorPhase::FollowBoundary { .. } | MonitorPhase::EngineBoundary
            | MonitorPhase::PeerBoundary { .. } => event is Boundary,
            MonitorPhase::Start => event is Started,
            MonitorPhase::TipSync | MonitorPhase::FollowSync | MonitorPhase::FollowAdvance
            | MonitorPhase::Sync | MonitorPhase::Advance | MonitorPhase::Settle => event is Done,
            MonitorPhase::Transition => event is Done || event is NoNode,
            MonitorPhase::Done => false,
        }
    }

    pub open spec fn at(self, phase: MonitorPhase) -> MonitorRound {
        MonitorRound { phase, ..self }
    }

    /// The end of the round.
    pub open spec fn ended(self) -> (MonitorRound, MonitorAction) {
        (self.at(MonitorPhase::Done), MonitorAction::EndRound)
    }

    /// Reaching for epoch `target`.
    pub open spec fn reaching(self, target: u64) -> (MonitorRound, MonitorAction) {
        let next = MonitorRound { target, ..self };
        if self.sync_only {
            (
                next.at(MonitorPhase::FollowBoundary { peer: 0 }),
                MonitorAction::AskPeerBoundary { peer: 0, epoch: target },
            )
        } else if self.engine_epoch < target && self.peer_count > 0 {
            // The engine does not know that epoch yet; the peers do.
            (
                next.at(MonitorPhase::PeerBoundary { peer: 0 }),
                MonitorAction::AskPeerBoundary { peer: 0, epoch: target },
            )
        } else {
            (
                next.at(MonitorPhase::EngineBoundary),
                MonitorAction::AskEngineBoundary { epoch: target },
            )
        }
    }

    /// Going on with the epoch behind `target`, if the network has got there.
    pub open spec fn after_target(self) -> (MonitorRound, MonitorAction) {
        if self.target < self.network_epoch {
            self.reaching((self.target + 1) as u64)
        } else {
            self.ended()
        }
    }

    /// Deciding whether there is an epoch to reach. A node that does not vote only takes its engine
    /// along, and needs peers for that.
    pub open spec fn decided(self) -> (MonitorRound, MonitorAction) {
        if self.network_epoch <= self.node_epoch {
            self.ended()
        } else if self.sync_only {
            if self.engine_epoch >= self.network_epoch || self.peer_count == 0 {
                self.ended()
            } else {
                self.reaching((self.engine_epoch + 1) as u64)
            }
        } else {
            self.reaching((self.node_epoch + 1) as u64)
        }
    }

    /// Telling the engine of the epoch.
    pub open spec fn advancing(self, phase: MonitorPhase) -> (MonitorRound, MonitorAction) {
        (
            self.at(phase),
            MonitorAction::AdvanceEngine {
                epoch: self.target,
                timestamp_ms: self.boundary.timestamp_ms,
                boundary_block: self.boundary.boundary_block,
            },
        )
    }

    /// The round and the action after `event`.
    pub open spec fn spec_step(self, event: MonitorEvent) -> (MonitorRound, MonitorAction) {
        match (self.phase, event) {
            (MonitorPhase::EngineEpoch, MonitorEvent::Epoch(Some(e))) => {
                let next = MonitorRound { engine_epoch: e, network_epoch: e, ..self };
                if self.peer_count > 0 {
                    (next.at(MonitorPhase::NetworkEpoch), MonitorAction::AskNetworkEpoch)
                } else {
                    (next.at(MonitorPhase::Node), MonitorAction::AskNode)
                }
            },
            (MonitorPhase::NetworkEpoch, MonitorEvent::Epoch(e)) => {
                let next = MonitorRound { network_epoch: known_or(e, self.engine_epoch), ..self };
                (next.at(MonitorPhase::Node), MonitorAction::AskNode)
            },
            (MonitorPhase::Node, MonitorEvent::Node { epoch, mode }) => {
                let next = MonitorRound {
                    node_epoch: epoch,
                    sync_only: mode == NodeMode::SyncOnly,
                    ..self
                };
                if self.peer_count > 0 {
                    (next.at(MonitorPhase::TipPosition), MonitorAction::AskPosition)
                } else {
                    next.decided()
                }
            },
            (MonitorPhase::TipPosition, MonitorEvent::Position(p)) => {
                let block = known_or(p, 0);
                (
                    self.at(MonitorPhase::TipSync),
                    MonitorAction::FetchBlocks {
                        from: capped_add(block, 1),
                        to: capped_add(block, TIP_BATCH),
                    },
                )
            },
            (MonitorPhase::TipSync, MonitorEvent::Done { .. }) => self.decided(),
            (MonitorPhase::FollowBoundary { peer }, MonitorEvent::Boundary(b)) => match b {
                Some(boundary) => (
                    (MonitorRound { boundary, ..self }).at(MonitorPhase::FollowPosition),
                    MonitorAction::AskPosition,
                ),
                None => if peer + 1 < self.peer_count {
                    (
                        self.at(MonitorPhase::FollowBoundary { peer: (peer + 1) as usize }),
                        MonitorAction::AskPeerBoundary {
                            peer: (peer + 1) as usize,
                            epoch: self.target,
                        },
                    )
                } else {
                    self.ended()
                },
            },
            (MonitorPhase::FollowPosition, MonitorEvent::Position(p)) => {
                if known_or(p, 0) < self.boundary.boundary_block {
                    (
                        self.at(MonitorPhase::FollowSync),
                        MonitorAction::FetchBlocks {
                            from: (known_or(p, 0) + 1) as u64,
                            to: self.boundary.boundary_block,
                        },
                    )
                } else {
                    self.advancing(MonitorPhase::FollowAdvance)
                }
            },
            (MonitorPhase::FollowSync, MonitorEvent::Done { .. }) => self.advancing(
                MonitorPhase::FollowAdvance,
            ),
            (MonitorPhase::FollowAdvance, MonitorEvent::Done { success }) => if success {
                self.after_target()
            } else {
                self.ended()
            },
            (MonitorPhase::EngineBoundary, MonitorEvent::Boundary(b)) => match b {
                Some(boundary) => (
                    (MonitorRound { boundary, ..self }).at(MonitorPhase::Position),
                    MonitorAction::AskPosition,
                ),
                None => if self.peer_count > 0 {
                    (
                        self.at(MonitorPhase::PeerBoundary { peer: 0 }),
                        MonitorAction::AskPeerBoundary { peer: 0, epoch: self.target },
                    )
                } else {
                    self.ended()
                },
            },
            (MonitorPhase::PeerBoundary { peer }, MonitorEvent::Boundary(b)) => match b {
                Some(boundary) => (
                    (MonitorRound { boundary, ..self }).at(MonitorPhase::Position),
                    MonitorAction::AskPosition,
                ),
                None => if peer + 1 < self.peer_count {
                    (
                        self.at(MonitorPhase::PeerBoundary { peer: (peer + 1) as usize }),
                        MonitorAction::AskPeerBoundary {
                            peer: (peer + 1) as usize,
                            epoch: self.target,
                        },
                    )
                } else {
                    self.ended()
                },
            },
            (MonitorPhase::Position, MonitorEvent::Position(p)) => {
                if known_or(p, 0) < self.boundary.boundary_block && self.peer_count > 0 {
                    (
                        self.at(MonitorPhase::Sync),
                        MonitorAction::FetchBlocks {
                            from: (known_or(p, 0) + 1) as u64,
                            to: self.boundary.boundary_block,
                        },
                    )
                } else {
                    (self.at(MonitorPhase::EngineEpochNow), MonitorAction::AskEngineEpoch)
                }
            },
            (MonitorPhase::Sync, MonitorEvent::Done { .. }) => {
                (self.at(MonitorPhase::EngineEpochNow), MonitorAction::AskEngineEpoch)
            },
            (MonitorPhase::EngineEpochNow, MonitorEvent::Epoch(e)) => {
                if known_or(e, 0) < self.target {
                    self.advancing(MonitorPhase::Advance)
                } else {
                    (
                        self.at(MonitorPhase::Start),
                        MonitorAction::StartTransition { epoch: self.boundary.epoch },
                    )
                }
            },
            // The engine may refuse; the node tries to go on regardless.
            (MonitorPhase::Advance, MonitorEvent::Done { .. }) => (
                self.at(MonitorPhase::Start),
                MonitorAction::StartTransition { epoch: self.boundary.epoch },
            ),
            (MonitorPhase::Start, MonitorEvent::Started(outcome)) => match outcome {
                StartOutcome::Granted => (
                    self.at(MonitorPhase::Transition),
                    MonitorAction::RunTransition { boundary: self.boundary },
                ),
                StartOutcome::Refused => self.after_target(),
                StartOutcome::NoManager => self.ended(),
            },
            (MonitorPhase::Transition, MonitorEvent::Done { success: true }) => (
                self.at(MonitorPhase::Settle),
                MonitorAction::CompleteTransition {
                    epoch: self.boundary.epoch,
                    wait_ms: SETTLE_WAIT_MS,
                },
            ),
            (MonitorPhase::Transition, _) => (
                self.at(MonitorPhase::Done),
                MonitorAction::FailTransition,
            ),
            (MonitorPhase::Settle, MonitorEvent::Done { .. }) => self.after_target(),
            _ => self.ended(),
        }
    }

    /// Starts a round.
    pub fn start(peer_count: usize) -> (r: (MonitorRound, MonitorAction))
        ensures
            r.0.wf(),
            r.0.peer_count == peer_count,
            r.0.phase == MonitorPhase::EngineEpoch,
            r.0.engine_epoch == 0,
            r.0.network_epoch == 0,
            r.0.node_epoch == 0,
            !r.0.sync_only,
            r.0.target == 0,
            r.0.boundary == (EpochBoundary { epoch: 0, timestamp_ms: 0, boundary_block: 0 }),
            r.1 == MonitorAction::AskEngineEpoch,
    {
        (
            MonitorRound {
                peer_count,
                phase: MonitorPhase::EngineEpoch,
                engine_epoch: 0,
                network_epoch: 0,
                node_epoch: 0,
                sync_only: false,
                target: 0,
                boundary: EpochBoundary { epoch: 0, timestamp_ms: 0, boundary_block: 0 },
            },
            MonitorAction::AskEngineEpoch,
        )
    }

    fn end(&mut self) -> (action: MonitorAction)
        ensures
            (*final(self), action) == old(self).ended(),
    {
        self.phase = MonitorPhase::Done;
        MonitorAction::EndRound
    }

    fn reach(&mut self, target: u64) -> (action: MonitorAction)
        ensures
            (*final(self), action) == old(self).reaching(target),
    {
        self.target = target;
        if self.sync_only {
            self.phase = MonitorPhase::FollowBoundary { peer: 0 };
            MonitorAction::AskPeerBoundary { peer: 0, epoch: target }
        } else if self.engine_epoch < target && self.peer_count > 0 {
            self.phase = MonitorPhase::PeerBoundary { peer: 0 };
            MonitorAction::AskPeerBoundary { peer: 0, epoch: target }
        } else {
            self.phase = MonitorPhase::EngineBoundary;
            MonitorAction::AskEngineBoundary { epoch: target }
        }
    }

    fn go_on(&mut self) -> (action: MonitorAction)
        ensures
            (*final(self), action) == old(self).after_target(),
    {
        if self.target < self.network_epoch {
            let next: u64 = self.target + 1;
            self.reach(next)
        } else {
            self.end()
        }
    }

    fn decide(&mut self) -> (action: MonitorAction)
        ensures
            (*final(self), action) == old(self).decided(),
    {
        if self.network_epoch <= self.node_epoch {
            self.end()
        } else if self.sync_only {
            if self.engine_epoch >= self.network_epoch || self.peer_count == 0 {
                self.end()
            } else {
                let target: u64 = self.engine_epoch + 1;
                self.reach(target)
            }
        } else {
            let target: u64 = self.node_epoch + 1;
            self.reach(target)
        }
    }

    fn advance(&mut self, phase: MonitorPhase) -> (action: MonitorAction)
        ensures
            (*final(self), action) == old(self).advancing(phase),
    {
        self.phase = phase;
        MonitorAction::AdvanceEngine {
            epoch: self.target,
            timestamp_ms: self.boundary.timestamp_ms,
            boundary_block: self.boundary.boundary_block,
        }
    }

    fn ask_start(&mut self) -> (action: MonitorAction)
        ensures
            *final(self) == old(self).at(MonitorPhase::Start),
            action == (MonitorAction::StartTransition { epoch: old(self).boundary.epoch }),
    {
        self.phase = MonitorPhase::Start;
        MonitorAction::StartTransition { epoch: self.boundary.epoch }
    }

    fn on_boundary(&mut self, found: Option<EpochBoundary>) -> (action: MonitorAction)
        requires
            old(self).wf(),
            old(self).expects(MonitorEvent::Boundary(found)),
        ensures
            (*final(self), action) == old(self).spec_step(MonitorEvent::Boundary(found)),
    {
        match found {
            Some(boundary) => {
                self.boundary = boundary;
                match self.phase {
                    MonitorPhase::FollowBoundary { .. } => {
                        self.phase = MonitorPhase::FollowPosition;
                    },
                    _ => {
                        self.phase = MonitorPhase::Position;
                    },
                }
                MonitorAction::AskPosition
            },
            None => match self.phase {
                MonitorPhase::FollowBoundary { peer } if peer + 1 < self.peer_count => {
                    self.phase = MonitorPhase::FollowBoundary { peer: peer + 1 };
                    MonitorAction::AskPeerBoundary { peer: peer + 1, epoch: self.target }
                },
                MonitorPhase::PeerBoundary { peer } if peer + 1 < self.peer_count => {
                    self.phase = MonitorPhase::PeerBoundary { peer: peer + 1 };
                    MonitorAction::AskPeerBoundary { peer: peer + 1, epoch: self.target }
                },
                MonitorPhase::EngineBoundary if self.peer_count > 0 => {
                    self.phase = MonitorPhase::PeerBoundary { peer: 0 };
                    MonitorAction::AskPeerBoundary { peer: 0, epoch: self.target }
                },
                _ => self.end(),
            },
        }
    }

    fn on_position(&mut self, position: Option<u64>) -> (action: MonitorAction)
        requires
            old(self).wf(),
            old(self).expects(MonitorEvent::Position(position)),
        ensures
            (*final(self), action) == old(self).spec_step(MonitorEvent::Position(position)),
    {
        let block: u64 = match position {
            Some(p) => p,
            None => 0,
        };
        match self.phase {
            MonitorPhase::TipPosition => {
                self.phase = MonitorPhase::TipSync;
                MonitorAction::FetchBlocks {
                    from: block.saturating_add(1),
                    to: block.saturating_add(TIP_BATCH),
                }
            },
            MonitorPhase::FollowPosition => {
                if block < self.boundary.boundary_block {
                    self.phase = MonitorPhase::FollowSync;
                    MonitorAction::FetchBlocks { from: block + 1, to: self.boundary.boundary_block }
                } else {
                    self.advance(MonitorPhase::FollowAdvance)
                }
            },
            _ => {
                if block < self.boundary.boundary_block && self.peer_count > 0 {
                    self.phase = MonitorPhase::Sync;
                    MonitorAction::FetchBlocks { from: block + 1, to: self.boundary.boundary_block }
                } else {
                    self.phase = MonitorPhase::EngineEpochNow;
                    MonitorAction::AskEngineEpoch
                }
            },
        }
    }

    fn on_epoch(&mut self, epoch: Option<u64>) -> (action: MonitorAction)
        requires
            old(self).wf(),
            old(self).expects(MonitorEvent::Epoch(epoch)),
        ensures
            (*final(self), action) == old(self).spec_step(MonitorEvent::Epoch(epoch)),
    {
        match self.phase {
            MonitorPhase::EngineEpoch => match epoch {
                Some(e) => {
                    self.engine_epoch = e;
                    self.network_epoch = e;
                    if self.peer_count > 0 {
                        self.phase = MonitorPhase::NetworkEpoch;
                        MonitorAction::AskNetworkEpoch
                    } else {
                        self.phase = MonitorPhase::Node;
                        MonitorAction::AskNode
                    }
                },
                None => self.end(),
            },
            MonitorPhase::NetworkEpoch => {
                self.network_epoch = match epoch {
                    Some(e) => e,
                    None => self.engine_epoch,
                };
                self.phase = MonitorPhase::Node;
                MonitorAction::AskNode
            },
            _ => {
                let now: u64 = match epoch {
                    Some(e) => e,
                    None => 0,
                };
                if now < self.target {
                    self.advance(MonitorPhase::Advance)
                } else {
                    self.ask_start()
                }
            },
        }
    }

    fn on_done(&mut self, success: bool) -> (action: MonitorAction)
        requires
            old(self).wf(),
            old(self).expects(MonitorEvent::Done { success }),
        ensures
            (*final(self), action) == old(self).spec_step(MonitorEvent::Done { success }),
    {
        match self.phase {
            MonitorPhase::TipSync => self.decide(),
            MonitorPhase::FollowSync => self.advance(MonitorPhase::FollowAdvance),
            MonitorPhase::FollowAdvance => if success {
                self.go_on()
            } else {
                self.end()
            },
            MonitorPhase::Sync => {
                self.phase = MonitorPhase::EngineEpochNow;
                MonitorAction::AskEngineEpoch
            },
            MonitorPhase::Advance => self.ask_start(),
            MonitorPhase::Transition => if success {
                self.phase = MonitorPhase::Settle;
                MonitorAction::CompleteTransition {
                    epoch: self.boundary.epoch,
                    wait_ms: SETTLE_WAIT_MS,
                }
            } else {
                self.phase = MonitorPhase::Done;
                MonitorAction::FailTransition
            },
            MonitorPhase::Settle => self.go_on(),
            _ => self.end(),
        }
    }

    /// Goes on after `event`.
    pub fn step(&mut self, event: MonitorEvent) -> (action: MonitorAction)
        requires
            old(self).wf(),
            old(self).expects(event),
        ensures
            final(self).wf(),
            (*final(self), action) == old(self).spec_step(event),
    {
        match event {
            MonitorEvent::Epoch(epoch) => self.on_epoch(epoch),
            MonitorEvent::Position(position) => self.on_position(position),
            MonitorEvent::Boundary(found) => self.on_boundary(found),
            MonitorEvent::Done { success } => self.on_done(success),
            MonitorEvent::Node { epoch, mode } => {
                self.node_epoch = epoch;
                self.sync_only = mode == NodeMode::SyncOnly;
                if self.peer_count > 0 {
                    self.phase = MonitorPhase::TipPosition;
                    MonitorAction::AskPosition
                } else {
                    self.decide()
                }
            },
            MonitorEvent::NoNode => match self.phase {
                MonitorPhase::Transition => {
                    self.phase = MonitorPhase::Done;
                    MonitorAction::FailTransition
                },
                _ => self.end(),
            },
            MonitorEvent::Started(outcome) => match outcome {
                StartOutcome::Granted => {
                    self.phase = MonitorPhase::Transition;
                    MonitorAction::RunTransition { boundary: self.boundary }
                },
                StartOutcome::Refused => self.go_on(),
                StartOutcome::NoManager => self.end(),
            },
        }
    }
}

/// The engine is only ever told of the epoch that is being reached, which lies above the epoch the
/// round started from and not beyond that of the network.
pub proof fn law_engine_never_runs_ahead(m: MonitorRound, event: MonitorEvent)
    requires
        m.wf(),
        m.expects(event),
        m.spec_step(event).1 is AdvanceEngine,
    ensures
        m.spec_step(event).1->AdvanceEngine_epoch == m.target,
        m.in_reach(),
{
}

/// The epoch that is being reached grows by one at a time: no epoch is skipped.
pub proof fn law_epochs_in_sequence(m: MonitorRound, event: MonitorEvent)
    requires
        m.wf(),
        m.expects(event),
        m.in_reach(),
        !(m.phase is TipSync || m.phase is Node || m.phase is EngineEpoch
            || m.phase is NetworkEpoch || m.phase is TipPosition),
    ensures
        ({
            let next = m.spec_step(event).0;
            next.phase is Done || next.target == m.target || next.target == m.target + 1
        }),
{
}

/// Only a node that votes changes its own epoch, and it does so with the boundary that was found for
/// the epoch being reached. A node that does not vote takes its engine along and nothing else.
pub proof fn law_only_voters_change_the_epoch(m: MonitorRound, event: MonitorEvent)
    requires
        m.wf(),
        m.expects(event),
    ensures
        m.spec_step(event).1 is StartTransition ==> !m.sync_only
            && m.spec_step(event).1->StartTransition_epoch == m.boundary.epoch,
        m.spec_step(event).1 is RunTransition ==> !m.sync_only && m.in_reach()
            && m.spec_step(event).1->RunTransition_boundary == m.boundary,
{
}

/// A bound on the number of events left within one epoch.
pub open spec fn phase_steps_left(m: MonitorRound) -> int {
    let n = m.peer_count as int;
    match m.phase {
        MonitorPhase::EngineEpoch => n + 20,
        MonitorPhase::NetworkEpoch => n + 19,
        MonitorPhase::Node => n + 18,
        MonitorPhase::TipPosition => n + 17,
        MonitorPhase::TipSync => n + 16,
        MonitorPhase::FollowBoundary { peer } => n + 4 - peer,
        MonitorPhase::FollowPosition => 3,
        MonitorPhase::FollowSync => 2,
        MonitorPhase::FollowAdvance => 1,
        MonitorPhase::EngineBoundary => n + 10,
        MonitorPhase::PeerBoundary { peer } => n + 9 - peer,
        MonitorPhase::Position => 8,
        MonitorPhase::Sync => 7,
        MonitorPhase::EngineEpochNow => 6,
        MonitorPhase::Advance => 5,
        MonitorPhase::Start => 4,
        MonitorPhase::Transition => 3,
        MonitorPhase::Settle => 2,
        MonitorPhase::Done => 0,
    }
}

/// Every round comes to an end: with each event either the number of epochs that are left shrinks,
/// or it stays and the round gets further within the epoch.
pub proof fn law_round_terminates(m: MonitorRound, event: MonitorEvent)
    requires
        m.wf(),
        m.expects(event),
    ensures
        ({
            let next = m.spec_step(event).0;
            let same_epoch = phase_steps_left(next) < phase_steps_left(m);
            let next_epoch = m.in_reach() && next.network_epoch == m.network_epoch && next.target
                == m.target + 1 && next.target <= next.network_epoch;
            0 <= phase_steps_left(next) && (same_epoch || next_epoch)
        }),
{
}

// ---------------------------------------------------------------------------------------------
// What a round does
// ---------------------------------------------------------------------------------------------

/// A boundary is being asked for.
pub open spec fn asks_for_boundary(m: MonitorRound) -> bool {
    m.phase is FollowBoundary || m.phase is PeerBoundary || m.phase is EngineBoundary
}

/// The first epoch that a round reaches for is the one right behind where it starts: behind the
/// epoch of the node if it votes, behind that of its engine if it does not. There is one exactly if
/// the network is ahead; a node that does not vote also needs its engine to be behind the network,
/// and peers to learn from.
pub proof fn law_first_epoch_is_the_next_one(m: MonitorRound, event: MonitorEvent)
    requires
        m.wf(),
        m.expects(event),
        m.phase is TipSync || m.phase is Node,
    ensures
        ({
            let (next, action) = m.spec_step(event);
            let (node_epoch, sync_only) = match event {
                MonitorEvent::Node { epoch, mode } => (epoch, mode is SyncOnly),
                _ => (m.node_epoch, m.sync_only),
            };
            let decides = m.phase is TipSync || (event is Node && m.peer_count == 0);
            &&& event is Node ==> next.node_epoch == node_epoch && next.sync_only == sync_only
            &&& asks_for_boundary(next) && !sync_only ==> next.target == node_epoch + 1
            &&& asks_for_boundary(next) && sync_only ==> next.target == m.engine_epoch + 1
            &&& decides && !sync_only ==> (asks_for_boundary(next) <==> m.network_epoch
                > node_epoch)
            &&& decides && sync_only ==> (asks_for_boundary(next) <==> m.network_epoch > node_epoch
                && m.network_epoch > m.engine_epoch && m.peer_count > 0)
            &&& decides && !asks_for_boundary(next) ==> action is EndRound && next.phase is Done
            &&& !decides && event is Node ==> action is AskPosition && next.phase is TipPosition
            &&& event is NoNode ==> action is EndRound && next.phase is Done
            &&& next.network_epoch == m.network_epoch
            &&& next.engine_epoch == m.engine_epoch
            &&& next.peer_count == m.peer_count
        }),
{
}

/// Epochs are reached one by one, up to that of the network. When one is done with, the next one is
/// its successor; behind the epoch of the network the round is over. Until then the epoch stays.
pub proof fn law_epochs_are_reached_one_by_one(m: MonitorRound, event: MonitorEvent)
    requires
        m.wf(),
        m.expects(event),
        m.in_reach(),
        !(m.phase is TipSync || m.phase is Node || m.phase is EngineEpoch
            || m.phase is NetworkEpoch || m.phase is TipPosition),
    ensures
        ({
            let (next, action) = m.spec_step(event);
            let done_with = match (m.phase, event) {
                (MonitorPhase::FollowAdvance, MonitorEvent::Done { success }) => success,
                (MonitorPhase::Settle, _) => true,
                (MonitorPhase::Start, MonitorEvent::Started(o)) => o is Refused,
                _ => false,
            };
            &&& done_with && m.target < m.network_epoch ==> asks_for_boundary(next) && next.target
                == m.target + 1
            &&& done_with && m.target == m.network_epoch ==> next.phase is Done
                && action is EndRound
            &&& !done_with ==> next.target == m.target
            &&& next.network_epoch == m.network_epoch
            &&& next.node_epoch == m.node_epoch
            &&& next.engine_epoch == m.engine_epoch
            &&& next.sync_only == m.sync_only
        }),
{
}

/// What is asked for is the boundary of the epoch that is being reached, and of no other. A node
/// that does not vote asks its peers, one after the other. One that votes asks its engine, unless
/// the engine has not got to that epoch and there are peers; whatever the engine cannot answer the
/// peers are asked.
pub proof fn law_boundary_is_asked_of_the_right_source(m: MonitorRound, event: MonitorEvent)
    requires
        m.wf(),
        m.expects(event),
    ensures
        ({
            let (next, action) = m.spec_step(event);
            &&& action matches MonitorAction::AskPeerBoundary { peer, epoch } ==> epoch
                == next.target && peer < m.peer_count && (next.phase == (
            MonitorPhase::FollowBoundary { peer }) || next.phase == (MonitorPhase::PeerBoundary {
                peer,
            }))
            &&& action matches MonitorAction::AskEngineBoundary { epoch } ==> epoch == next.target
                && next.phase is EngineBoundary && !next.sync_only
            &&& asks_for_boundary(next) && !asks_for_boundary(m) ==> match next.phase {
                MonitorPhase::FollowBoundary { peer } => next.sync_only && peer == 0,
                MonitorPhase::PeerBoundary { peer } => !next.sync_only && peer == 0
                    && next.engine_epoch < next.target,
                _ => !next.sync_only && (next.engine_epoch >= next.target || next.peer_count == 0),
            }
        }),
{
}

/// A peer without an answer is followed by the next one; behind the last one the round is over.
pub proof fn law_peers_are_asked_in_turn(m: MonitorRound)
    requires
        m.wf(),
    ensures
        m.phase matches MonitorPhase::FollowBoundary { peer } ==> {
            let (next, action) = m.spec_step(MonitorEvent::Boundary(None));
            &&& peer + 1 < m.peer_count ==> action == (MonitorAction::AskPeerBoundary {
                peer: (peer + 1) as usize,
                epoch: m.target,
            }) && next.phase == (MonitorPhase::FollowBoundary { peer: (peer + 1) as usize })
            &&& peer + 1 == m.peer_count ==> action is EndRound && next.phase is Done
        },
        m.phase matches MonitorPhase::PeerBoundary { peer } ==> {
            let (next, action) = m.spec_step(MonitorEvent::Boundary(None));
            &&& peer + 1 < m.peer_count ==> action == (MonitorAction::AskPeerBoundary {
                peer: (peer + 1) as usize,
                epoch: m.target,
            }) && next.phase == (MonitorPhase::PeerBoundary { peer: (peer + 1) as usize })
            &&& peer + 1 == m.peer_count ==> action is EndRound && next.phase is Done
        },
        m.phase is EngineBoundary ==> {
            let (next, action) = m.spec_step(MonitorEvent::Boundary(None));
            &&& m.peer_count > 0 ==> action == (MonitorAction::AskPeerBoundary {
                peer: 0,
                epoch: m.target,
            }) && next.phase == (MonitorPhase::PeerBoundary { peer: 0 })
            &&& m.peer_count == 0 ==> action is EndRound && next.phase is Done
        },
{
}

/// The boundary that a source gave is the one that is used, unchanged, for everything that follows
/// in this epoch: telling the engine and changing the epoch.
pub proof fn law_the_boundary_found_is_the_one_used(m: MonitorRound, event: MonitorEvent)
    requires
        m.wf(),
        m.expects(event),
    ensures
        ({
            let (next, action) = m.spec_step(event);
            &&& event matches MonitorEvent::Boundary(Some(b)) ==> next.boundary == b
                && action is AskPosition && (m.sync_only ==> next.phase is FollowPosition) && (
            !m.sync_only ==> next.phase is Position)
            &&& !(event matches MonitorEvent::Boundary(Some(_))) ==> next.boundary == m.boundary
            &&& action matches MonitorAction::AdvanceEngine {
                epoch,
                timestamp_ms,
                boundary_block,
            } ==> epoch == m.target && timestamp_ms == m.boundary.timestamp_ms && boundary_block
                == m.boundary.boundary_block
            &&& action matches MonitorAction::StartTransition { epoch } ==> epoch
                == m.boundary.epoch
            &&& action matches MonitorAction::RunTransition { boundary } ==> boundary == m.boundary
            &&& action matches MonitorAction::CompleteTransition { epoch, wait_ms } ==> epoch
                == m.boundary.epoch && wait_ms == 200
        }),
{
}

/// Which blocks are fetched. In every round with peers, the hundred behind the last one of the
/// engine; for an epoch, those from behind the last one of the engine up to the boundary, if there
/// are any and there are peers. An engine that does not tell its last block counts as empty.
pub proof fn law_which_blocks_are_fetched(m: MonitorRound, p: Option<u64>)
    requires
        m.wf(),
        m.expects(MonitorEvent::Position(p)),
    ensures
        ({
            let (next, action) = m.spec_step(MonitorEvent::Position(p));
            let block: u64 = match p {
                Some(n) => n,
                None => 0,
            };
            &&& m.phase is TipPosition && block <= u64::MAX - 100 ==> action == (
            MonitorAction::FetchBlocks { from: (block + 1) as u64, to: (block + 100) as u64 })
                && next.phase is TipSync
            &&& m.phase is FollowPosition && block < m.boundary.boundary_block ==> action == (
            MonitorAction::FetchBlocks {
                from: (block + 1) as u64,
                to: m.boundary.boundary_block,
            }) && next.phase is FollowSync
            &&& m.phase is FollowPosition && block >= m.boundary.boundary_block
                ==> action is AdvanceEngine && next.phase is FollowAdvance
            &&& m.phase is Position && block < m.boundary.boundary_block && m.peer_count > 0
                ==> action == (MonitorAction::FetchBlocks {
                from: (block + 1) as u64,
                to: m.boundary.boundary_block,
            }) && next.phase is Sync
            &&& m.phase is Position && (block >= m.boundary.boundary_block || m.peer_count == 0)
                ==> action is AskEngineEpoch && next.phase is EngineEpochNow
        }),
{
}

/// How a round begins: an engine that does not tell its epoch ends it; the epoch of the network is
/// what the best peer says, or that of the engine if no peer answers or there is none.
pub proof fn law_what_counts_as_the_network(m: MonitorRound, e: Option<u64>)
    requires
        m.wf(),
    ensures
        m.phase is EngineEpoch && e is None ==> m.spec_step(MonitorEvent::Epoch(e)).1 is EndRound,
        m.phase is EngineEpoch && e is Some ==> {
            let (next, action) = m.spec_step(MonitorEvent::Epoch(e));
            &&& next.engine_epoch == e->0
            &&& next.network_epoch == e->0
            &&& m.peer_count > 0 ==> action is AskNetworkEpoch && next.phase is NetworkEpoch
            &&& m.peer_count == 0 ==> action is AskNode && next.phase is Node
        },
        m.phase is NetworkEpoch ==> {
            let (next, action) = m.spec_step(MonitorEvent::Epoch(e));
            &&& next.engine_epoch == m.engine_epoch
            &&& e matches Some(n) ==> next.network_epoch == n
            &&& e is None ==> next.network_epoch == m.engine_epoch
            &&& action is AskNode && next.phase is Node
        },
{
}

/// A node that votes tells its engine of the epoch if the engine has not got there, tries to change
/// the epoch whatever the engine says, and changes it only with permission. A change that succeeds
/// is reported as complete, one that fails as failed, and then the round is over.
pub proof fn law_how_a_voter_changes_the_epoch(m: MonitorRound, event: MonitorEvent)
    requires
        m.wf(),
        m.expects(event),
    ensures
        ({
            let (next, action) = m.spec_step(event);
            &&& m.phase is Sync ==> action is AskEngineEpoch && next.phase is EngineEpochNow
            &&& (m.phase is EngineEpochNow && event matches MonitorEvent::Epoch(e)) ==> {
                let known: u64 = match event->Epoch_0 {
                    Some(n) => n,
                    None => 0,
                };
                &&& known < m.target ==> action is AdvanceEngine && next.phase is Advance
                &&& known >= m.target ==> action is StartTransition && next.phase is Start
            }
            &&& m.phase is Advance ==> action is StartTransition && next.phase is Start
            &&& m.phase is Start && event->Started_0 is Granted ==> action is RunTransition
                && next.phase is Transition
            &&& m.phase is Start && event->Started_0 is NoManager ==> action is EndRound
                && next.phase is Done
            &&& m.phase is Transition && event == (MonitorEvent::Done { success: true })
                ==> action is CompleteTransition && next.phase is Settle
            &&& m.phase is Transition && event != (MonitorEvent::Done { success: true })
                ==> action is FailTransition && next.phase is Done
            &&& action is RunTransition ==> m.phase is Start && event->Started_0 is Granted
        }),
{
}

/// A node that does not vote tells its engine of the epoch once the blocks were offered, whether
/// they arrived or not; an engine that refuses ends the round.
pub proof fn law_how_a_follower_takes_its_engine_along(m: MonitorRound, success: bool)
    requires
        m.wf(),
    ensures
        m.phase is FollowSync ==> {
            let (next, action) = m.spec_step(MonitorEvent::Done { success });
            action is AdvanceEngine && next.phase is FollowAdvance
        },
        m.phase is FollowAdvance && !success ==> {
            let (next, action) = m.spec_step(MonitorEvent::Done { success });
            action is EndRound && next.phase is Done
        },
{
}

/// The epoch is looked at every ten seconds unless another interval is configured.
pub proof fn law_how_often_the_epoch_is_looked_at(configured: Option<u64>, secs: u64)
    requires
        call_ensures(poll_interval_secs, (configured,), secs),
    ensures
        configured is None ==> secs == 10,
        configured is Some ==> configured == Some(secs),
{
}

/// A round that sets out for an epoch sets out for the one behind the node's own, or behind the
/// engine's if the node only follows, however far the network is.
pub proof fn law_a_round_sets_out_for_the_next_epoch(
    m: &mut MonitorRound,
    event: MonitorEvent,
    action: MonitorAction,
)
    requires
        call_ensures(MonitorRound::step, (m, event), action),
        old(m).wf(),
        old(m).expects(event),
        old(m).phase is TipSync,
    ensures
        !old(m).sync_only && old(m).network_epoch > old(m).node_epoch ==> final(m).target
            == old(m).node_epoch + 1 && asks_for_boundary(*final(m)),
        old(m).sync_only && old(m).network_epoch > old(m).node_epoch && old(m).network_epoch > old(
            m,
        ).engine_epoch && old(m).peer_count > 0 ==> final(m).target == old(m).engine_epoch + 1
            && asks_for_boundary(*final(m)),
        old(m).network_epoch <= old(m).node_epoch ==> action is EndRound,
{
}

} // verus!
