//! Where a committee was obtained.

use vstd::prelude::*;

use crate::node::executor_client::ExecutorClient;
use crate::text::copy_str;

verus! {

/// The source of a committee: the local execution engine or a peer.
#[derive(Debug)]
pub struct CommitteeSource {
    pub socket_path: String,
    /// The epoch that the source is at.
    pub epoch: u64,
    /// The last block that the source has.
    pub last_block: u64,
    pub is_peer: bool,
    pub peer_rpc_addresses: Vec<String>,
}

impl CommitteeSource {
    /// Whether the source is at the epoch that is needed.
    pub fn validate_epoch(&self, expected_epoch: u64) -> (r: bool)
        ensures
            r == (self.epoch == expected_epoch),
    {
        self.epoch == expected_epoch
    }

    /// A client for queries to the source.
    pub fn create_executor_client(&self, send_socket_path: &str) -> (c: ExecutorClient)
        ensures
            c.wf(),
            c.enabled,
            !c.can_commit,
            c.storage_path is None,
            c.queue.next_expected == 1,
            c.request_socket_path@ == self.socket_path@,
            c.socket_path@ == send_socket_path@,
    {
        ExecutorClient::new(
            true,
            false,
            copy_str(send_socket_path),
            copy_str(self.socket_path.as_str()),
            None,
        )
    }
}

} // verus!
