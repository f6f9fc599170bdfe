//! What nodes tell each other.

use std::collections::HashMap;
use vstd::prelude::*;

verus! {

/// Where a node stands.
#[derive(Debug)]
pub struct PeerInfoResponse {
    pub node_id: usize,
    pub epoch: u64,
    /// The last block that was executed.
    pub last_block: u64,
    /// The last global execution index.
    pub last_global_exec_index: u64,
    pub network_address: String,
    /// When the answer was made, in milliseconds since the Unix epoch.
    pub timestamp_ms: u64,
}

/// A question for blocks. Both ends belong to the range.
#[derive(Clone, Copy, Debug, PartialEq, Eq, Structural)]
pub struct GetBlocksRequest {
    pub from_block: u64,
    pub to_block: u64,
}

/// Blocks.
#[derive(Debug)]
pub struct GetBlocksResponse {
    pub node_id: usize,
    /// The encoded blocks in hexadecimal, by number.
    pub blocks: HashMap<u64, String>,
    pub count: usize,
    pub error: Option<String>,
}

/// A validator.
#[derive(Debug)]
pub struct ValidatorInfoSimple {
    pub name: String,
    pub address: String,
    pub stake: u64,
    pub protocol_key: String,
    pub network_key: String,
    pub authority_key: String,
}

/// The boundary of an epoch.
#[derive(Debug)]
pub struct EpochBoundaryDataResponse {
    pub epoch: u64,
    pub timestamp_ms: u64,
    /// The last block of the previous epoch.
    pub boundary_block: u64,
    pub validators: Vec<ValidatorInfoSimple>,
    pub boundary_gei: u64,
    pub error: Option<String>,
}

/// Transactions that are forwarded, in hexadecimal.
#[derive(Debug)]
pub struct SubmitTransactionRequest {
    pub transactions_hex: Vec<String>,
}

/// The answer to forwarded transactions.
#[derive(Debug)]
pub struct SubmitTransactionResponse {
    pub success: bool,
    pub count: usize,
    pub error: Option<String>,
}

} // verus!
