//! Taking transactions, and changing the mode of the node.

use vstd::prelude::*;

use crate::network::tx_socket_server::{check_for, NodeCheck};
use crate::node::consensus_node::find_own_index;
use crate::node::NodeMode;
use crate::text::{copy_str, decimal, decimal_string, lemma_first_occurrence};

verus! {

/// How long to wait until the engine has caught up, in seconds.
pub const SYNC_WAIT_SECS: u64 = 30;

/// The state of a node that decides what it does with transactions and which mode it is in.
#[derive(Clone, Copy, Debug, PartialEq, Eq, Structural)]
pub struct ConsensusNode {
    /// Whether the consensus authority runs.
    pub has_authority: bool,
    pub node_mode: NodeMode,
    pub current_epoch: u64,
    /// The last index that was given to the engine.
    pub last_global_exec_index: u64,
    /// Whether an epoch transition has been recorded and is not over.
    pub has_transition_hash: bool,
    pub is_transitioning: bool,
    /// The epoch in which commits are executed.
    pub execution_lock: u64,
    /// Whether transactions of users are certified.
    pub accepts_user_certs: bool,
    pub has_executor_client: bool,
}

/// Whether a transaction is taken, whether it is queued otherwise, and why.
pub open spec fn is_acceptance(n: ConsensusNode, r: (bool, bool, String)) -> bool {
    let (accept, queue, reason) = r;
    if !n.has_authority {
        !accept && !queue && reason@ == "Node is still initializing"@
    } else if n.has_transition_hash {
        !accept && queue && reason@ == "Epoch transition in progress: epoch "@ + decimal(
            n.current_epoch as nat,
        ) + " -> "@ + decimal((n.current_epoch + 1) as nat)
    } else if n.is_transitioning {
        !accept && queue && reason@ == "Epoch transition in progress"@
    } else if !n.accepts_user_certs {
        !accept && queue && reason@ == "Reconfiguration in progress"@
    } else {
        accept && !queue && reason@ == "Node is ready"@
    }
}

impl ConsensusNode {
    /// Decides about transactions: whether they are taken, whether they are queued for the next
    /// epoch if not, and why.
    pub fn check_transaction_acceptance(&self) -> (r: (bool, bool, String))
        requires
            self.current_epoch < u64::MAX,
        ensures
            is_acceptance(*self, r),
    {
        if !self.has_authority {
            return (false, false, copy_str("Node is still initializing"));
        }
        if self.has_transition_hash {
            let mut reason = copy_str("Epoch transition in progress: epoch ");
            let from = decimal_string(self.current_epoch);
            reason.append(from.as_str());
            reason.append(" -> ");
            let to = decimal_string(self.current_epoch + 1);
            reason.append(to.as_str());
            return (false, true, reason);
        }
        if self.is_transitioning {
            return (false, true, copy_str("Epoch transition in progress"));
        }
        if !self.should_accept_tx() {
            return (false, true, copy_str("Reconfiguration in progress"));
        }
        (true, false, copy_str("Node is ready"))
    }

    /// Commits are executed in this epoch from now on.
    pub fn update_execution_lock_epoch(&mut self, new_epoch: u64)
        ensures
            *final(self) == (ConsensusNode { execution_lock: new_epoch, ..*old(self) }),
    {
        self.execution_lock = new_epoch;
    }

    /// Transactions of users are certified again.
    pub fn reset_reconfig_state(&mut self)
        ensures
            *final(self) == (ConsensusNode { accepts_user_certs: true, ..*old(self) }),
    {
        self.accepts_user_certs = true;
    }

    /// Transactions of users are no longer certified.
    pub fn close_user_certs(&mut self)
        ensures
            *final(self) == (ConsensusNode { accepts_user_certs: false, ..*old(self) }),
    {
        self.accepts_user_certs = false;
    }

    /// Whether transactions of users are certified.
    pub fn should_accept_tx(&self) -> (r: bool)
        ensures
            r == self.accepts_user_certs,
    {
        self.accepts_user_certs
    }

    /// Starts the change to the mode that the committee gives the node: it votes if one of the keys
    /// is its own.
    pub fn check_and_update_node_mode(
        &self,
        committee_keys: &Vec<Vec<u8>>,
        own_key: &Vec<u8>,
        bypass_lock: bool,
        has_manager: bool,
    ) -> (r: (ModeChange, ModeAction))
        ensures
            r == ModeChange::spec_start(
                *self,
                is_member(committee_keys@, own_key@),
                bypass_lock,
                has_manager,
            ),
    {
        let member = find_own_index(committee_keys, own_key).is_some();
        ModeChange::start(self, member, bypass_lock, has_manager)
    }
}

/// `key` is one of `keys`.
pub open spec fn is_member(keys: Seq<Vec<u8>>, key: Seq<u8>) -> bool {
    exists|i: int| 0 <= i < keys.len() && (#[trigger] keys[i])@ == key
}

/// A node that takes a transaction does not queue it, and one that queues it does not take it. Only
/// a node that is still starting does neither.
pub proof fn law_transactions_are_taken_or_queued(n: ConsensusNode, r: (bool, bool, String))
    requires
        is_acceptance(n, r),
    ensures
        !(r.0 && r.1),
        n.has_authority <==> r.0 || r.1,
{
}

/// What a node says of transactions decides what becomes of a batch: it is submitted if they are
/// taken, queued while the epoch changes, and waits for a node that is still starting. No batch is
/// refused.
pub proof fn law_acceptance_decides_the_batch(n: ConsensusNode, r: (bool, bool, String))
    requires
        is_acceptance(n, r),
    ensures
        check_for(r.0, r.1, r.2@) == if !n.has_authority {
            NodeCheck::StartingUp
        } else if n.has_transition_hash || n.is_transitioning || !n.accepts_user_certs {
            NodeCheck::Queue
        } else {
            NodeCheck::Accept
        },
{
    let text = "Node is still initializing"@;
    assert(text.subrange(0, text.len() as int) =~= text);
    lemma_first_occurrence(text, text, 0);
}

// ---------------------------------------------------------------------------------------------
// Changing the mode
// ---------------------------------------------------------------------------------------------

/// How far a change of mode is.
#[derive(Clone, Copy, Debug, PartialEq, Eq, Structural)]
pub enum ModePhase {
    AcquiringLock,
    StoppingSync,
    StoppingAuthority,
    TellingConsensusStart,
    WaitingForSync,
    TellingSyncStart,
    StartingSync,
    StartingMonitor,
    Completing,
    Done,
}

/// What to do next to change the mode.
#[derive(Clone, Copy, Debug, PartialEq, Eq, Structural)]
pub enum ModeAction {
    /// Ask the transition manager whether the change may start.
    AcquireLock { to_validator: bool },
    StopSync,
    StopAuthority,
    /// Tell the engine that consensus makes the blocks from here on.
    SetConsensusStart { block: u64 },
    /// Wait until the engine has this block.
    WaitForSync { block: u64, timeout_secs: u64 },
    /// Tell the engine that the blocks behind this one come from peers.
    SetSyncStart { last_consensus_block: u64 },
    StartSync,
    StartMonitor,
    /// Tell the transition manager that the change is over.
    CompleteTransition { to_validator: bool },
    Finish,
}

/// How an action went.
#[derive(Clone, Copy, Debug, PartialEq, Eq, Structural)]
pub enum ModeEvent {
    Done,
    /// The manager or the engine says no.
    Refused,
    Failed,
}

/// A change of mode.
#[derive(Clone, Copy, Debug, PartialEq, Eq, Structural)]
pub struct ModeChange {
    pub node: ConsensusNode,
    pub to_validator: bool,
    pub has_manager: bool,
    pub phase: ModePhase,
}

/// The mode of a member of the committee, and of others.
pub open spec fn mode_for(member: bool) -> NodeMode {
    if member {
        NodeMode::Validator
    } else {
        NodeMode::SyncOnly
    }
}

/// The first block that consensus makes.
pub open spec fn consensus_start_block(n: ConsensusNode) -> u64 {
    if n.last_global_exec_index < u64::MAX {
        (n.last_global_exec_index + 1) as u64
    } else {
        u64::MAX
    }
}

impl ModeChange {
    pub open spec fn at(self, phase: ModePhase) -> ModeChange {
        ModeChange { phase, ..self }
    }

    /// The node has its new mode.
    pub open spec fn switched(self) -> ModeChange {
        ModeChange {
            node: ConsensusNode { node_mode: mode_for(self.to_validator), ..self.node },
            ..self
        }
    }

    /// What follows when the lock is held, or not needed.
    pub open spec fn spec_begin(self) -> (ModeChange, ModeAction) {
        if self.node.node_mode is SyncOnly && self.to_validator {
            (self.at(ModePhase::StoppingSync), ModeAction::StopSync)
        } else if self.node.node_mode is Validator && !self.to_validator {
            if self.node.has_authority {
                (self.at(ModePhase::StoppingAuthority), ModeAction::StopAuthority)
            } else {
                self.spec_after_authority()
            }
        } else {
            (self.switched().at(ModePhase::Done), ModeAction::Finish)
        }
    }

    /// What follows when the authority is stopped.
    pub open spec fn spec_after_authority(self) -> (ModeChange, ModeAction) {
        let s = ModeChange {
            node: ConsensusNode { has_authority: false, ..self.node },
            ..self
        }.switched();
        if s.node.has_executor_client {
            (
                s.at(ModePhase::TellingSyncStart),
                ModeAction::SetSyncStart { last_consensus_block: s.node.last_global_exec_index },
            )
        } else {
            (s.at(ModePhase::StartingSync), ModeAction::StartSync)
        }
    }

    pub open spec fn spec_monitor(self) -> (ModeChange, ModeAction) {
        (self.at(ModePhase::StartingMonitor), ModeAction::StartMonitor)
    }

    /// What follows an event.
    pub open spec fn spec_step(self, event: ModeEvent) -> (ModeChange, ModeAction) {
        match self.phase {
            ModePhase::AcquiringLock => if event is Done {
                self.spec_begin()
            } else {
                (self.at(ModePhase::Done), ModeAction::Finish)
            },
            ModePhase::StoppingSync => {
                let s = self.switched();
                if s.node.has_executor_client {
                    (
                        s.at(ModePhase::TellingConsensusStart),
                        ModeAction::SetConsensusStart { block: consensus_start_block(s.node) },
                    )
                } else {
                    s.spec_monitor()
                }
            },
            ModePhase::TellingConsensusStart => if event is Refused {
                (
                    self.at(ModePhase::WaitingForSync),
                    ModeAction::WaitForSync {
                        block: (consensus_start_block(self.node) - 1) as u64,
                        timeout_secs: SYNC_WAIT_SECS,
                    },
                )
            } else {
                self.spec_monitor()
            },
            ModePhase::WaitingForSync => self.spec_monitor(),
            ModePhase::StoppingAuthority => self.spec_after_authority(),
            ModePhase::TellingSyncStart => (
                self.at(ModePhase::StartingSync),
                ModeAction::StartSync,
            ),
            ModePhase::StartingSync => self.spec_monitor(),
            ModePhase::StartingMonitor => if self.has_manager {
                (
                    self.at(ModePhase::Completing),
                    ModeAction::CompleteTransition { to_validator: self.to_validator },
                )
            } else {
                (self.at(ModePhase::Done), ModeAction::Finish)
            },
            _ => (self.at(ModePhase::Done), ModeAction::Finish),
        }
    }

    /// How the change starts. Without a change of mode there is nothing to do. The lock is not asked
    /// for within an epoch transition, which holds it already, nor before there is a manager.
    pub open spec fn spec_start(
        node: ConsensusNode,
        member: bool,
        bypass_lock: bool,
        has_manager: bool,
    ) -> (ModeChange, ModeAction) {
        let s = ModeChange { node, to_validator: member, has_manager, phase: ModePhase::Done };
        if node.node_mode == mode_for(member) {
            (s, ModeAction::Finish)
        } else if !bypass_lock && has_manager {
            (s.at(ModePhase::AcquiringLock), ModeAction::AcquireLock { to_validator: member })
        } else {
            s.spec_begin()
        }
    }

    /// Starts the change.
    pub fn start(node: &ConsensusNode, member: bool, bypass_lock: bool, has_manager: bool) -> (r: (
        ModeChange,
        ModeAction,
    ))
        ensures
            r == ModeChange::spec_start(*node, member, bypass_lock, has_manager),
    {
        let mut s = ModeChange {
            node: *node,
            to_validator: member,
            has_manager,
            phase: ModePhase::Done,
        };
        let new_mode = if member {
            NodeMode::Validator
        } else {
            NodeMode::SyncOnly
        };
        if node.node_mode == new_mode {
            return (s, ModeAction::Finish);
        }
        if !bypass_lock && has_manager {
            s.phase = ModePhase::AcquiringLock;
            return (s, ModeAction::AcquireLock { to_validator: member });
        }
        let action = s.begin();
        (s, action)
    }

    fn switch_mode(&mut self)
        ensures
            *final(self) == old(self).switched(),
    {
        self.node.node_mode = if self.to_validator {
            NodeMode::Validator
        } else {
            NodeMode::SyncOnly
        };
    }

    fn begin(&mut self) -> (action: ModeAction)
        ensures
            (*final(self), action) == old(self).spec_begin(),
    {
        if self.node.node_mode == NodeMode::SyncOnly && self.to_validator {
            self.phase = ModePhase::StoppingSync;
            ModeAction::StopSync
        } else if self.node.node_mode == NodeMode::Validator && !self.to_validator {
            if self.node.has_authority {
                self.phase = ModePhase::StoppingAuthority;
                ModeAction::StopAuthority
            } else {
                self.after_authority()
            }
        } else {
            self.switch_mode();
            self.phase = ModePhase::Done;
            ModeAction::Finish
        }
    }

    fn after_authority(&mut self) -> (action: ModeAction)
        ensures
            (*final(self), action) == old(self).spec_after_authority(),
    {
        self.node.has_authority = false;
        self.switch_mode();
        if self.node.has_executor_client {
            self.phase = ModePhase::TellingSyncStart;
            ModeAction::SetSyncStart { last_consensus_block: self.node.last_global_exec_index }
        } else {
            self.phase = ModePhase::StartingSync;
            ModeAction::StartSync
        }
    }

    fn start_monitor(&mut self) -> (action: ModeAction)
        ensures
            (*final(self), action) == old(self).spec_monitor(),
    {
        self.phase = ModePhase::StartingMonitor;
        ModeAction::StartMonitor
    }

    /// Goes on after an action.
    pub fn step(&mut self, event: ModeEvent) -> (action: ModeAction)
        ensures
            (*final(self), action) == old(self).spec_step(event),
    {
        match self.phase {
            ModePhase::AcquiringLock => {
                if event == ModeEvent::Done {
                    self.begin()
                } else {
                    self.phase = ModePhase::Done;
                    ModeAction::Finish
                }
            },
            ModePhase::StoppingSync => {
                self.switch_mode();
                if self.node.has_executor_client {
                    self.phase = ModePhase::TellingConsensusStart;
                    ModeAction::SetConsensusStart {
                        block: self.node.last_global_exec_index.saturating_add(1),
                    }
                } else {
                    self.start_monitor()
                }
            },
            ModePhase::TellingConsensusStart => {
                if event == ModeEvent::Refused {
                    self.phase = ModePhase::WaitingForSync;
                    let start: u64 = self.node.last_global_exec_index.saturating_add(1);
                    ModeAction::WaitForSync { block: start - 1, timeout_secs: SYNC_WAIT_SECS }
                } else {
                    self.start_monitor()
                }
            },
            ModePhase::WaitingForSync => self.start_monitor(),
            ModePhase::StoppingAuthority => self.after_authority(),
            ModePhase::TellingSyncStart => {
                self.phase = ModePhase::StartingSync;
                ModeAction::StartSync
            },
            ModePhase::StartingSync => self.start_monitor(),
            ModePhase::StartingMonitor => {
                if self.has_manager {
                    self.phase = ModePhase::Completing;
                    ModeAction::CompleteTransition { to_validator: self.to_validator }
                } else {
                    self.phase = ModePhase::Done;
                    ModeAction::Finish
                }
            },
            _ => {
                self.phase = ModePhase::Done;
                ModeAction::Finish
            },
        }
    }
}

/// How many steps are left at most.
pub open spec fn mode_steps_left(phase: ModePhase) -> nat {
    match phase {
        ModePhase::AcquiringLock => 7,
        ModePhase::StoppingSync => 6,
        ModePhase::StoppingAuthority => 6,
        ModePhase::TellingConsensusStart => 5,
        ModePhase::WaitingForSync => 4,
        ModePhase::TellingSyncStart => 5,
        ModePhase::StartingSync => 4,
        ModePhase::StartingMonitor => 3,
        ModePhase::Completing => 2,
        ModePhase::Done => 0,
    }
}

/// A change that goes on is one from the other mode, and the authority is stopped before anything
/// is told to the engine or sync starts.
pub open spec fn mode_change_wf(c: ModeChange) -> bool {
    match c.phase {
        ModePhase::AcquiringLock => c.node.node_mode != mode_for(c.to_validator),
        ModePhase::StoppingSync => c.node.node_mode is SyncOnly && c.to_validator,
        ModePhase::StoppingAuthority => c.node.node_mode is Validator && !c.to_validator,
        ModePhase::TellingSyncStart | ModePhase::StartingSync => c.node.node_mode is SyncOnly
            && !c.to_validator && !c.node.has_authority,
        _ => c.phase is Done || c.node.node_mode == mode_for(c.to_validator),
    }
}

/// Sync and consensus never run side by side: a follower becomes a validator only in the step after
/// its sync was stopped, a validator becomes a follower only with its authority stopped, and sync is
/// started only in a follower without an authority.
pub proof fn law_old_work_stops_before_the_switch(c: ModeChange, event: ModeEvent)
    requires
        mode_change_wf(c),
    ensures
        ({
            let (next, action) = c.spec_step(event);
            &&& mode_change_wf(next)
            &&& c.node.node_mode is SyncOnly && next.node.node_mode is Validator
                ==> c.phase is StoppingSync
            &&& c.node.node_mode is Validator && next.node.node_mode is SyncOnly
                ==> !next.node.has_authority
            &&& action is StartSync ==> next.node.node_mode is SyncOnly && !next.node.has_authority
        }),
{
}

/// Every change starts in order.
pub proof fn law_mode_change_starts_in_order(
    node: ConsensusNode,
    member: bool,
    bypass_lock: bool,
    has_manager: bool,
)
    ensures
        mode_change_wf(ModeChange::spec_start(node, member, bypass_lock, has_manager).0),
        ModeChange::spec_start(node, member, bypass_lock, has_manager).1 is Finish <==>
            ModeChange::spec_start(node, member, bypass_lock, has_manager).0.phase is Done,
{
}

/// The engine is told of the new source of blocks only when the node has its new mode, and with the
/// index at which the two sources meet.
pub proof fn law_handoff_has_no_gap(c: ModeChange, event: ModeEvent)
    requires
        c.node.last_global_exec_index < u64::MAX,
    ensures
        ({
            let (next, action) = c.spec_step(event);
            &&& action matches ModeAction::SetConsensusStart { block } ==> block
                == c.node.last_global_exec_index + 1 && next.node.node_mode == mode_for(
                next.to_validator,
            )
            &&& action matches ModeAction::SetSyncStart { last_consensus_block } ==> {
                &&& last_consensus_block == c.node.last_global_exec_index
                &&& next.node.node_mode == mode_for(next.to_validator)
                &&& !next.node.has_authority
            }
        }),
{
}

/// A change of mode comes to an end.
pub proof fn law_mode_change_terminates(c: ModeChange, event: ModeEvent)
    requires
        !(c.phase is Done),
    ensures
        mode_steps_left(c.spec_step(event).0.phase) < mode_steps_left(c.phase),
        c.spec_step(event).1 is Finish <==> c.spec_step(event).0.phase is Done,
{
}

/// A change that the manager refuses leaves the node as it is.
pub proof fn law_refused_change_changes_nothing(c: ModeChange, event: ModeEvent)
    requires
        c.phase is AcquiringLock,
        !(event is Done),
    ensures
        c.spec_step(event).0.node == c.node,
        c.spec_step(event).1 is Finish,
{
}

// ---------------------------------------------------------------------------------------------
// What a change of mode does
// ---------------------------------------------------------------------------------------------

/// What a node says of transactions. It takes them exactly if its authority runs, no transition is
/// recorded or under way, and users are certified; it queues them exactly if its authority runs and
/// one of the others does not hold. It says which.
pub proof fn law_when_transactions_are_taken(n: ConsensusNode, r: (bool, bool, String))
    requires
        is_acceptance(n, r),
    ensures
        r.0 <==> n.has_authority && !n.has_transition_hash && !n.is_transitioning
            && n.accepts_user_certs,
        r.1 <==> n.has_authority && (n.has_transition_hash || n.is_transitioning
            || !n.accepts_user_certs),
        !n.has_authority ==> r.2@ == "Node is still initializing"@,
        n.has_authority && n.has_transition_hash ==> r.2@ == "Epoch transition in progress: epoch "@
            + decimal(n.current_epoch as nat) + " -> "@ + decimal((n.current_epoch + 1) as nat),
        n.has_authority && !n.has_transition_hash && n.is_transitioning ==> r.2@
            == "Epoch transition in progress"@,
        n.has_authority && !n.has_transition_hash && !n.is_transitioning && !n.accepts_user_certs
            ==> r.2@ == "Reconfiguration in progress"@,
        r.0 ==> r.2@ == "Node is ready"@,
{
}

/// How a change of mode begins. A node that has its mode has nothing to do, and stays as it is.
/// Otherwise the manager is asked, unless there is none or it need not be; then a follower stops
/// its sync, a validator its authority, and a node that is neither takes its mode at once.
pub proof fn law_how_a_change_of_mode_begins(
    n: ConsensusNode,
    member: bool,
    bypass_lock: bool,
    has_manager: bool,
)
    ensures
        ({
            let (c, action) = ModeChange::spec_start(n, member, bypass_lock, has_manager);
            let has_mode = (member && n.node_mode is Validator) || (!member
                && n.node_mode is SyncOnly);
            let asks = !has_mode && has_manager && !bypass_lock;
            &&& c.to_validator == member
            &&& c.has_manager == has_manager
            &&& has_mode ==> action is Finish && c.phase is Done && c.node == n
            &&& asks ==> action == (ModeAction::AcquireLock { to_validator: member })
                && c.phase is AcquiringLock && c.node == n
            &&& !has_mode && !asks && n.node_mode is SyncOnly ==> action is StopSync
                && c.phase is StoppingSync && c.node == n
            &&& !has_mode && !asks && n.node_mode is Validator && n.has_authority
                ==> action is StopAuthority && c.phase is StoppingAuthority && c.node == n
            &&& !has_mode && !asks && n.node_mode is SyncingUp ==> action is Finish
                && c.phase is Done && (member ==> c.node.node_mode is Validator) && (!member
                ==> c.node.node_mode is SyncOnly)
        }),
{
}

/// What the manager's permission leads to: the same as a change that needs none.
pub proof fn law_permission_starts_the_change(n: ConsensusNode, member: bool)
    requires
        !(n.node_mode is Validator && member),
        !(n.node_mode is SyncOnly && !member),
    ensures
        ({
            let (asking, _) = ModeChange::spec_start(n, member, false, true);
            asking.spec_step(ModeEvent::Done) == ModeChange::spec_start(n, member, true, true)
        }),
{
}

/// How a follower becomes a validator: its sync is stopped, it takes the mode, the engine is told
/// that consensus makes the blocks from behind its last index on, and if it is not that far yet it
/// is waited for, up to thirty seconds; then the monitor starts.
pub proof fn law_how_a_follower_becomes_a_validator(c: ModeChange, event: ModeEvent)
    requires
        c.to_validator,
        c.node.last_global_exec_index < u64::MAX,
    ensures
        c.phase is StoppingSync ==> {
            let (next, action) = c.spec_step(event);
            &&& next.node == (ConsensusNode { node_mode: NodeMode::Validator, ..c.node })
            &&& c.node.has_executor_client ==> action == (ModeAction::SetConsensusStart {
                block: (c.node.last_global_exec_index + 1) as u64,
            }) && next.phase is TellingConsensusStart
            &&& !c.node.has_executor_client ==> action is StartMonitor
                && next.phase is StartingMonitor
        },
        c.phase is TellingConsensusStart ==> {
            let (next, action) = c.spec_step(event);
            &&& next.node == c.node
            &&& event is Refused ==> action == (ModeAction::WaitForSync {
                block: c.node.last_global_exec_index,
                timeout_secs: 30,
            }) && next.phase is WaitingForSync
            &&& !(event is Refused) ==> action is StartMonitor && next.phase is StartingMonitor
        },
        c.phase is WaitingForSync ==> c.spec_step(event).1 is StartMonitor && c.spec_step(
            event,
        ).0.phase is StartingMonitor && c.spec_step(event).0.node == c.node,
{
}

/// How a validator becomes a follower: its authority is stopped, it takes the mode, the engine is
/// told with which block consensus ended, sync starts, and then the monitor.
pub proof fn law_how_a_validator_becomes_a_follower(c: ModeChange, event: ModeEvent)
    requires
        !c.to_validator,
    ensures
        c.phase is StoppingAuthority ==> {
            let (next, action) = c.spec_step(event);
            &&& next.node == (ConsensusNode {
                node_mode: NodeMode::SyncOnly,
                has_authority: false,
                ..c.node
            })
            &&& c.node.has_executor_client ==> action == (ModeAction::SetSyncStart {
                last_consensus_block: c.node.last_global_exec_index,
            }) && next.phase is TellingSyncStart
            &&& !c.node.has_executor_client ==> action is StartSync && next.phase is StartingSync
        },
        c.phase is TellingSyncStart ==> c.spec_step(event).1 is StartSync && c.spec_step(
            event,
        ).0.phase is StartingSync && c.spec_step(event).0.node == c.node,
        c.phase is StartingSync ==> c.spec_step(event).1 is StartMonitor && c.spec_step(
            event,
        ).0.phase is StartingMonitor && c.spec_step(event).0.node == c.node,
{
}

/// How a change of mode ends: the manager, if there is one, is told of the mode that was reached.
pub proof fn law_how_a_change_of_mode_ends(c: ModeChange, event: ModeEvent)
    ensures
        c.phase is StartingMonitor && c.has_manager ==> c.spec_step(event).1 == (
        ModeAction::CompleteTransition { to_validator: c.to_validator }) && c.spec_step(
            event,
        ).0.phase is Completing,
        c.phase is StartingMonitor && !c.has_manager ==> c.spec_step(event).1 is Finish,
        c.phase is Completing ==> c.spec_step(event).1 is Finish,
        c.spec_step(event).0.to_validator == c.to_validator,
        c.spec_step(event).0.has_manager == c.has_manager,
        c.spec_step(event).0.node.last_global_exec_index == c.node.last_global_exec_index,
        c.spec_step(event).0.node.current_epoch == c.node.current_epoch,
{
}

/// A key is a member of the committee exactly if it is one of its keys.
pub proof fn law_who_is_a_member(keys: Seq<Vec<u8>>, key: Seq<u8>, i: int)
    ensures
        0 <= i < keys.len() && keys[i]@ == key ==> is_member(keys, key),
        is_member(keys, key) ==> keys.len() > 0 && exists|j: int|
            0 <= j < keys.len() && (#[trigger] keys[j])@ == key,
{
}

} // verus!
