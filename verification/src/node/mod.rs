//! The node around the consensus engine.

use vstd::prelude::*;

pub mod catchup;
pub mod committee_source;
pub mod consensus_node;
pub mod dual_stream;
pub mod epoch_checkpoint;
pub mod epoch_monitor;
pub mod epoch_transition_manager;
pub mod executor_client;
pub mod node_methods;
pub mod notification_server;
pub mod peer_go_client;
pub mod peer_health;
pub mod recovery;
pub mod rpc_circuit_breaker;

verus! {

/// What a node does.
#[derive(Clone, Copy, Debug, PartialEq, Eq, Structural)]
pub enum NodeMode {
    /// It follows the chain and does not vote.
    SyncOnly,
    /// It votes.
    Validator,
    /// It is catching up with the network.
    SyncingUp,
}

/// An epoch transition that waits until the node has synced up to it.
#[derive(Clone, Copy, Debug, PartialEq, Eq, Structural)]
pub struct PendingEpochTransition {
    pub epoch: u64,
    pub timestamp_ms: u64,
    pub boundary_block: u64,
    pub boundary_gei: u64,
}

} // verus!
