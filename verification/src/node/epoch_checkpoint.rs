//! Checkpoints of an epoch transition, so that a node that crashes in the middle of one can resume.

use vstd::prelude::*;

use crate::deps::unix_millis;
use crate::node::executor_client::block_store::{join_path, joined};
use crate::text::copy_str;

verus! {

/// The name of the checkpoint file.
pub const CHECKPOINT_FILE: &'static str = "epoch_transition.checkpoint";

/// How far a transition has come.
#[derive(Clone, Copy, Debug, PartialEq)]
pub enum TransitionState {
    /// It has not started.
    NotStarted,
    /// The execution engine knows of the new epoch.
    AdvancedEpochToGo { epoch: u64, boundary_block: u64, boundary_gei: u64, timestamp_ms: u64 },
    /// The committee of the new epoch is known.
    CommitteeFetched { epoch: u64, committee_hash: [u8; 32], validator_count: usize },
    /// The consensus engine of the old epoch is stopped.
    AuthorityStopped { epoch: u64, previous_epoch: u64 },
    /// The consensus engine of the new epoch runs.
    Completed { epoch: u64, completed_at_ms: u64 },
}

impl TransitionState {
    /// A transition that has started and is not complete.
    pub open spec fn is_incomplete(&self) -> bool {
        !(self is NotStarted) && !(self is Completed)
    }

    /// The epoch that the transition leads to.
    pub fn epoch(&self) -> (r: Option<u64>)
        ensures
            r == match *self {
                TransitionState::NotStarted => None,
                TransitionState::AdvancedEpochToGo { epoch, .. } => Some(epoch),
                TransitionState::CommitteeFetched { epoch, .. } => Some(epoch),
                TransitionState::AuthorityStopped { epoch, .. } => Some(epoch),
                TransitionState::Completed { epoch, .. } => Some(epoch),
            },
    {
        match self {
            TransitionState::NotStarted => None,
            TransitionState::AdvancedEpochToGo { epoch, .. } => Some(*epoch),
            TransitionState::CommitteeFetched { epoch, .. } => Some(*epoch),
            TransitionState::AuthorityStopped { epoch, .. } => Some(*epoch),
            TransitionState::Completed { epoch, .. } => Some(*epoch),
        }
    }

    /// The name of the state.
    pub fn name(&self) -> (r: &'static str)
        ensures
            r@ == match self {
                TransitionState::NotStarted => "NotStarted"@,
                TransitionState::AdvancedEpochToGo { .. } => "AdvancedEpochToGo"@,
                TransitionState::CommitteeFetched { .. } => "CommitteeFetched"@,
                TransitionState::AuthorityStopped { .. } => "AuthorityStopped"@,
                TransitionState::Completed { .. } => "Completed"@,
            },
    {
        match self {
            TransitionState::NotStarted => "NotStarted",
            TransitionState::AdvancedEpochToGo { .. } => "AdvancedEpochToGo",
            TransitionState::CommitteeFetched { .. } => "CommitteeFetched",
            TransitionState::AuthorityStopped { .. } => "AuthorityStopped",
            TransitionState::Completed { .. } => "Completed",
        }
    }
}

/// A checkpoint.
#[derive(Debug)]
pub struct TransitionCheckpoint {
    pub state: TransitionState,
    /// When the checkpoint was made, in milliseconds since the Unix epoch.
    pub created_at_ms: u64,
    /// The node that made it.
    pub node_id: String,
}

impl TransitionCheckpoint {
    /// A checkpoint made at the given time.
    pub fn created_at(state: TransitionState, node_id: &str, created_at_ms: u64) -> (c:
        TransitionCheckpoint)
        ensures
            c.state == state,
            c.node_id@ == node_id@,
            c.created_at_ms == created_at_ms,
    {
        TransitionCheckpoint { state, created_at_ms, node_id: copy_str(node_id) }
    }

    /// A checkpoint made now.
    pub fn new(state: TransitionState, node_id: &str) -> (c: TransitionCheckpoint)
        ensures
            c.state == state,
            c.node_id@ == node_id@,
    {
        TransitionCheckpoint::created_at(state, node_id, unix_millis())
    }
}

/// What to do with the checkpoint that was found when the node started.
#[derive(Debug)]
pub enum FoundCheckpoint {
    /// There is none.
    Nothing,
    /// It belongs to a transition that is over, or never started: remove it.
    Obsolete,
    /// It belongs to a transition that has to be resumed.
    Resume(TransitionCheckpoint),
}

/// What to do with the checkpoint that was loaded, if any.
pub open spec fn found(loaded: Option<TransitionCheckpoint>) -> FoundCheckpoint {
    match loaded {
        None => FoundCheckpoint::Nothing,
        Some(c) => if c.state.is_incomplete() {
            FoundCheckpoint::Resume(c)
        } else {
            FoundCheckpoint::Obsolete
        },
    }
}

/// A node that crashed in the middle of a transition resumes from the last checkpoint it made, at
/// whichever step that was. Without a checkpoint, and with one of a transition that is over, there
/// is nothing to resume.
pub proof fn law_interrupted_transitions_are_resumed(c: TransitionCheckpoint)
    ensures
        c.state is AdvancedEpochToGo || c.state is CommitteeFetched || c.state is AuthorityStopped
            <==> found(Some(c)) == FoundCheckpoint::Resume(c),
        c.state is NotStarted || c.state is Completed <==> found(Some(c))
            == FoundCheckpoint::Obsolete,
        found(None) == FoundCheckpoint::Nothing,
{
}

/// The checkpoints of a node.
#[derive(Debug)]
pub struct CheckpointManager {
    pub checkpoint_path: String,
    pub node_id: String,
}

impl CheckpointManager {
    /// The checkpoints of a node whose data is in `data_dir`.
    pub fn new(data_dir: &str, node_id: &str) -> (m: CheckpointManager)
        ensures
            m.checkpoint_path@ == joined(data_dir@, CHECKPOINT_FILE@),
            m.node_id@ == node_id@,
    {
        CheckpointManager {
            checkpoint_path: join_path(data_dir, CHECKPOINT_FILE),
            node_id: copy_str(node_id),
        }
    }

    /// Whether the checkpoint that was loaded, if any, belongs to a transition that has to be
    /// resumed.
    pub fn has_incomplete_transition(&self, loaded: &Option<TransitionCheckpoint>) -> (r: bool)
        ensures
            r == (*loaded matches Some(c) && c.state.is_incomplete()),
    {
        match loaded {
            Some(c) => match c.state {
                TransitionState::NotStarted | TransitionState::Completed { .. } => false,
                _ => true,
            },
            None => false,
        }
    }

    /// What to do with the checkpoint that was loaded.
    pub fn get_incomplete_transition(&self, loaded: Option<TransitionCheckpoint>) -> (r:
        FoundCheckpoint)
        ensures
            r == found(loaded),
    {
        if self.has_incomplete_transition(&loaded) {
            match loaded {
                Some(c) => FoundCheckpoint::Resume(c),
                None => FoundCheckpoint::Nothing,
            }
        } else if loaded.is_some() {
            FoundCheckpoint::Obsolete
        } else {
            FoundCheckpoint::Nothing
        }
    }

    /// The checkpoint for an epoch that the execution engine was told of.
    pub fn checkpoint_advance_epoch(
        &self,
        epoch: u64,
        boundary_block: u64,
        boundary_gei: u64,
        timestamp_ms: u64,
    ) -> (c: TransitionCheckpoint)
        ensures
            c.state == (TransitionState::AdvancedEpochToGo {
                epoch,
                boundary_block,
                boundary_gei,
                timestamp_ms,
            }),
            c.node_id@ == self.node_id@,
    {
        TransitionCheckpoint::new(
            TransitionState::AdvancedEpochToGo {
                epoch,
                boundary_block,
                boundary_gei,
                timestamp_ms,
            },
            self.node_id.as_str(),
        )
    }

    /// The checkpoint for a committee that is known.
    pub fn checkpoint_committee_fetched(
        &self,
        epoch: u64,
        committee_hash: [u8; 32],
        validator_count: usize,
    ) -> (c: TransitionCheckpoint)
        ensures
            c.state == (TransitionState::CommitteeFetched {
                epoch,
                committee_hash,
                validator_count,
            }),
            c.node_id@ == self.node_id@,
    {
        TransitionCheckpoint::new(
            TransitionState::CommitteeFetched { epoch, committee_hash, validator_count },
            self.node_id.as_str(),
        )
    }

    /// The checkpoint for a consensus engine that was stopped.
    pub fn checkpoint_authority_stopped(&self, epoch: u64, previous_epoch: u64) -> (c:
        TransitionCheckpoint)
        ensures
            c.state == (TransitionState::AuthorityStopped { epoch, previous_epoch }),
            c.node_id@ == self.node_id@,
    {
        TransitionCheckpoint::new(
            TransitionState::AuthorityStopped { epoch, previous_epoch },
            self.node_id.as_str(),
        )
    }

    /// How to resume from a state.
    pub fn get_resume_instructions(state: &TransitionState) -> (r: &'static str)
        ensures
            r@ == match state {
                TransitionState::NotStarted => "No action needed - transition not started"@,
                TransitionState::AdvancedEpochToGo { .. } => {
                    "Resume from: fetch_committee (Go already has epoch data)"@
                },
                TransitionState::CommitteeFetched { .. } => {
                    "Resume from: stop_authority (committee already loaded)"@
                },
                TransitionState::AuthorityStopped { .. } => {
                    "Resume from: start_new_epoch (old authority already stopped)"@
                },
                TransitionState::Completed { .. } => "No action needed - transition completed"@,
            },
    {
        match state {
            TransitionState::NotStarted => "No action needed - transition not started",
            TransitionState::AdvancedEpochToGo { .. } => {
                "Resume from: fetch_committee (Go already has epoch data)"
            },
            TransitionState::CommitteeFetched { .. } => {
                "Resume from: stop_authority (committee already loaded)"
            },
            TransitionState::AuthorityStopped { .. } => {
                "Resume from: start_new_epoch (old authority already stopped)"
            },
            TransitionState::Completed { .. } => "No action needed - transition completed",
        }
    }
}

/// A transition that has begun knows its epoch, whatever stage it has reached.
pub proof fn law_transitions_know_their_epoch(state: &TransitionState, r: Option<u64>)
    requires
        call_ensures(TransitionState::epoch, (state,), r),
    ensures
        state is NotStarted <==> r is None,
        state is AdvancedEpochToGo ==> r == Some(state->AdvancedEpochToGo_epoch),
        state is CommitteeFetched ==> r == Some(state->CommitteeFetched_epoch),
        state is AuthorityStopped ==> r == Some(state->AuthorityStopped_epoch),
        state is Completed ==> r == Some(state->Completed_epoch),
{
}

/// Checkpoints lie in the node's data directory, in a file of their own.
pub proof fn law_where_checkpoints_lie(data_dir: &str, node_id: &str, m: CheckpointManager)
    requires
        call_ensures(CheckpointManager::new, (data_dir, node_id), m),
    ensures
        m.checkpoint_path@ == joined(data_dir@, "epoch_transition.checkpoint"@),
        m.node_id@ == node_id@,
{
}

} // verus!
