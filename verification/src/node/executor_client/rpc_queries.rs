//! Questions to the execution engine, and what to make of the answers.

use vstd::prelude::*;

use crate::deps::{hex_encode, hex_text};
use crate::node::consensus_node::{BoundaryData, ValidatorInfo, DEFAULT_EPOCH_DURATION};
use crate::node::executor_client::ExecutorClient;
use crate::text::{copy_str, decimal, decimal_string};

verus! {

/// The longest answer that is accepted, in bytes.
pub const MAX_RESPONSE_LEN: u32 = 10_000_000;

/// The answers that the engine gives.
#[derive(Debug)]
pub enum ResponsePayload {
    NotifyEpochChange,
    ValidatorInfoList {
        validators: Vec<ValidatorInfo>,
        epoch_timestamp_ms: u64,
        last_global_exec_index: u64,
    },
    Error(String),
    ValidatorList,
    ServerStatus,
    LastBlockNumber { last_block_number: u64, last_global_exec_index: u64, is_ready: bool },
    CurrentEpoch { epoch: u64 },
    EpochStartTimestamp { timestamp_ms: u64 },
    AdvanceEpoch,
    /// A duration of 0 means that the engine has none set.
    EpochBoundary(BoundaryData),
    SetConsensusStartBlock(HandoffReply),
    SetSyncStartBlock(HandoffReply),
    WaitForSyncToBlock(HandoffReply),
    /// An empty error means success.
    BlocksRange { error: String, blocks: Vec<BlockData> },
    /// An empty error means success. The index is that of the last commit that the engine has
    /// executed; it is 0 if the blocks were only stored.
    SyncBlocks {
        error: String,
        synced_count: u64,
        last_synced_block: u64,
        last_executed_gei: u64,
    },
}

/// A block as the engine stores it.
#[derive(Debug)]
pub struct BlockData {
    pub block_number: u64,
    pub data: Vec<u8>,
}

/// The answer to a handoff between sync and consensus.
#[derive(Debug)]
pub struct HandoffReply {
    /// Whether the request was granted, or the block was reached.
    pub success: bool,
    /// The block that the answer is about.
    pub block: u64,
    pub message: String,
}

/// The kinds of answers.
#[derive(Clone, Copy, Debug, PartialEq, Eq, Structural)]
pub enum PayloadKind {
    NotifyEpochChange,
    ValidatorInfoList,
    Error,
    ValidatorList,
    ServerStatus,
    LastBlockNumber,
    CurrentEpoch,
    EpochStartTimestamp,
    AdvanceEpoch,
    EpochBoundary,
    Handoff,
    BlockSync,
}

/// The kind of an answer.
pub open spec fn kind_of(p: ResponsePayload) -> PayloadKind {
    match p {
        ResponsePayload::NotifyEpochChange => PayloadKind::NotifyEpochChange,
        ResponsePayload::ValidatorInfoList { .. } => PayloadKind::ValidatorInfoList,
        ResponsePayload::Error(_) => PayloadKind::Error,
        ResponsePayload::ValidatorList => PayloadKind::ValidatorList,
        ResponsePayload::ServerStatus => PayloadKind::ServerStatus,
        ResponsePayload::LastBlockNumber { .. } => PayloadKind::LastBlockNumber,
        ResponsePayload::CurrentEpoch { .. } => PayloadKind::CurrentEpoch,
        ResponsePayload::EpochStartTimestamp { .. } => PayloadKind::EpochStartTimestamp,
        ResponsePayload::AdvanceEpoch => PayloadKind::AdvanceEpoch,
        ResponsePayload::EpochBoundary(_) => PayloadKind::EpochBoundary,
        ResponsePayload::SetConsensusStartBlock(_) => PayloadKind::Handoff,
        ResponsePayload::SetSyncStartBlock(_) => PayloadKind::Handoff,
        ResponsePayload::WaitForSyncToBlock(_) => PayloadKind::Handoff,
        ResponsePayload::BlocksRange { .. } => PayloadKind::BlockSync,
        ResponsePayload::SyncBlocks { .. } => PayloadKind::BlockSync,
    }
}

fn payload_kind(p: &ResponsePayload) -> (k: PayloadKind)
    ensures
        k == kind_of(*p),
{
    match p {
        ResponsePayload::NotifyEpochChange => PayloadKind::NotifyEpochChange,
        ResponsePayload::ValidatorInfoList { .. } => PayloadKind::ValidatorInfoList,
        ResponsePayload::Error(_) => PayloadKind::Error,
        ResponsePayload::ValidatorList => PayloadKind::ValidatorList,
        ResponsePayload::ServerStatus => PayloadKind::ServerStatus,
        ResponsePayload::LastBlockNumber { .. } => PayloadKind::LastBlockNumber,
        ResponsePayload::CurrentEpoch { .. } => PayloadKind::CurrentEpoch,
        ResponsePayload::EpochStartTimestamp { .. } => PayloadKind::EpochStartTimestamp,
        ResponsePayload::AdvanceEpoch => PayloadKind::AdvanceEpoch,
        ResponsePayload::EpochBoundary(_) => PayloadKind::EpochBoundary,
        ResponsePayload::SetConsensusStartBlock(_) => PayloadKind::Handoff,
        ResponsePayload::SetSyncStartBlock(_) => PayloadKind::Handoff,
        ResponsePayload::WaitForSyncToBlock(_) => PayloadKind::Handoff,
        ResponsePayload::BlocksRange { .. } => PayloadKind::BlockSync,
        ResponsePayload::SyncBlocks { .. } => PayloadKind::BlockSync,
    }
}

/// The questions that the engine is asked.
#[derive(Clone, Copy, Debug, PartialEq, Eq, Structural)]
pub enum Question {
    Validators,
    LastBlock,
    LastIndex,
    CurrentEpoch,
    EpochStart,
    EpochBoundary,
    AdvanceEpoch,
    ConsensusStart,
    SyncStart,
    WaitForSync,
    BlocksRange,
    SyncBlocks,
}

impl Question {
    /// The method whose circuit guards the question, if one does.
    pub open spec fn guard(&self) -> Option<Seq<char>> {
        match self {
            Question::Validators => Some("get_validators_at_block"@),
            Question::LastBlock => Some("get_last_block_number"@),
            Question::LastIndex => Some("get_last_global_exec_index"@),
            Question::CurrentEpoch => Some("get_current_epoch"@),
            Question::EpochBoundary => Some("get_epoch_boundary_data"@),
            _ => None,
        }
    }

    fn guard_name(&self) -> (r: Option<&'static str>)
        ensures
            match r {
                Some(m) => self.guard() == Some(m@),
                None => self.guard() is None,
            },
    {
        match self {
            Question::Validators => Some("get_validators_at_block"),
            Question::LastBlock => Some("get_last_block_number"),
            Question::LastIndex => Some("get_last_global_exec_index"),
            Question::CurrentEpoch => Some("get_current_epoch"),
            Question::EpochBoundary => Some("get_epoch_boundary_data"),
            _ => None,
        }
    }

    /// The question is part of a handoff between sync and consensus.
    pub open spec fn is_handoff(&self) -> bool {
        self is ConsensusStart || self is SyncStart || self is WaitForSync
    }

    /// The question is about blocks.
    pub open spec fn is_block_sync(&self) -> bool {
        self is BlocksRange || self is SyncBlocks
    }

    /// A notification in place of an answer is named as such.
    pub open spec fn names_notification(&self) -> bool {
        !(self is LastIndex || self is EpochStart || self.is_block_sync())
    }
}

/// Why a question has no answer.
#[derive(Debug)]
pub enum QueryError {
    /// The client is disabled.
    Disabled,
    /// The circuit of the method is open.
    CircuitOpen { method: String },
    /// The answer is empty.
    EmptyResponse,
    /// The answer is too long.
    ResponseTooLarge { len: u32 },
    /// The engine answers with an error.
    Engine { message: String },
    /// The answer about blocks holds an error.
    Reported { message: String },
    /// The answer belongs to another question.
    Unexpected { got: PayloadKind },
    /// The answer holds nothing. `hex` is the text of its bytes.
    NoPayload { hex: String },
}

/// The name of a kind of answer in an error.
pub open spec fn kind_text(k: PayloadKind) -> Seq<char> {
    match k {
        PayloadKind::NotifyEpochChange => "NotifyEpochChangeResponse"@,
        PayloadKind::ValidatorInfoList => "ValidatorInfoList"@,
        PayloadKind::Error => "Error"@,
        PayloadKind::ValidatorList => "ValidatorList"@,
        PayloadKind::ServerStatus => "ServerStatus"@,
        PayloadKind::LastBlockNumber => "LastBlockNumberResponse"@,
        PayloadKind::CurrentEpoch => "GetCurrentEpochResponse"@,
        PayloadKind::EpochStartTimestamp => "GetEpochStartTimestampResponse"@,
        PayloadKind::AdvanceEpoch => "AdvanceEpochResponse"@,
        PayloadKind::EpochBoundary => "EpochBoundaryData"@,
        PayloadKind::Handoff => "Transition Handoff"@,
        PayloadKind::BlockSync => "Block Sync"@,
    }
}

fn kind_name(k: PayloadKind) -> (r: &'static str)
    ensures
        r@ == kind_text(k),
{
    match k {
        PayloadKind::NotifyEpochChange => "NotifyEpochChangeResponse",
        PayloadKind::ValidatorInfoList => "ValidatorInfoList",
        PayloadKind::Error => "Error",
        PayloadKind::ValidatorList => "ValidatorList",
        PayloadKind::ServerStatus => "ServerStatus",
        PayloadKind::LastBlockNumber => "LastBlockNumberResponse",
        PayloadKind::CurrentEpoch => "GetCurrentEpochResponse",
        PayloadKind::EpochStartTimestamp => "GetEpochStartTimestampResponse",
        PayloadKind::AdvanceEpoch => "AdvanceEpochResponse",
        PayloadKind::EpochBoundary => "EpochBoundaryData",
        PayloadKind::Handoff => "Transition Handoff",
        PayloadKind::BlockSync => "Block Sync",
    }
}

/// The text of an error for an answer that does not belong to `question`.
pub open spec fn misfit_text(question: Question) -> Seq<char> {
    match question {
        Question::Validators => "Unexpected response type from Go"@,
        Question::LastBlock | Question::LastIndex => {
            "Unexpected response type from Go (expected LastBlockNumberResponse)"@
        },
        Question::CurrentEpoch | Question::EpochStart => "Unexpected response payload type"@,
        Question::EpochBoundary => "Unexpected response payload type for GetEpochBoundaryData"@,
        Question::AdvanceEpoch => "Unexpected response payload type for AdvanceEpoch"@,
        Question::ConsensusStart | Question::SyncStart | Question::WaitForSync => {
            "Unexpected response type from Go"@
        },
        Question::BlocksRange | Question::SyncBlocks => "Unexpected response type from Go Master"@,
    }
}

fn misfit(question: Question) -> (r: &'static str)
    ensures
        r@ == misfit_text(question),
{
    match question {
        Question::Validators => "Unexpected response type from Go",
        Question::LastBlock | Question::LastIndex => {
            "Unexpected response type from Go (expected LastBlockNumberResponse)"
        },
        Question::CurrentEpoch | Question::EpochStart => "Unexpected response payload type",
        Question::EpochBoundary => "Unexpected response payload type for GetEpochBoundaryData",
        Question::AdvanceEpoch => "Unexpected response payload type for AdvanceEpoch",
        Question::ConsensusStart | Question::SyncStart | Question::WaitForSync => {
            "Unexpected response type from Go"
        },
        Question::BlocksRange | Question::SyncBlocks => "Unexpected response type from Go Master",
    }
}

/// What stands before the message of the engine's error.
pub open spec fn engine_error_text(question: Question) -> Seq<char> {
    if question is AdvanceEpoch {
        "Go returned error during epoch advance: "@
    } else if question.is_block_sync() {
        "Go Master error: "@
    } else {
        "Go returned error: "@
    }
}

fn joined(text: &str, rest: &str) -> (r: String)
    ensures
        r@ == text@ + rest@,
{
    let mut r = copy_str(text);
    r.append(rest);
    r
}

impl QueryError {
    /// The error in words, for a question.
    pub open spec fn text(&self, question: Question) -> Seq<char> {
        let short = question is LastIndex || question.is_handoff();
        match self {
            QueryError::Disabled => "Executor client is not enabled"@,
            QueryError::CircuitOpen { method } => "Circuit breaker: open for "@ + method@,
            QueryError::EmptyResponse => if short {
                "Invalid response length: 0"@
            } else {
                "Received zero-length response from Go"@
            },
            QueryError::ResponseTooLarge { len } => if short {
                "Invalid response length: "@ + decimal(*len as nat)
            } else {
                "Response too large: "@ + decimal(*len as nat) + " bytes"@
            },
            QueryError::Engine { message } => engine_error_text(question) + message@,
            QueryError::Reported { message } => "Go returned error: "@ + message@,
            QueryError::Unexpected { got } => if got is NotifyEpochChange
                && question.names_notification() {
                "Unexpected NotifyEpochChangeResponse"@
            } else if question is Validators {
                "Unexpected "@ + kind_text(*got) + " response (expected ValidatorInfoList)"@
            } else {
                misfit_text(question)
            },
            QueryError::NoPayload { hex } => if question is Validators {
                "Unexpected response type from Go. Response payload: None. Response bytes (hex): "@
                    + hex@
            } else if question is EpochStart {
                "Response payload is missing"@
            } else {
                misfit_text(question)
            },
        }
    }

    /// The error in words, for a question.
    pub fn to_text(&self, question: Question) -> (r: String)
        ensures
            r@ == self.text(question),
    {
        let handoff = matches!(
            question,
            Question::ConsensusStart | Question::SyncStart | Question::WaitForSync
        );
        let block_sync = matches!(question, Question::BlocksRange | Question::SyncBlocks);
        let short = matches!(question, Question::LastIndex) || handoff;
        match self {
            QueryError::Disabled => copy_str("Executor client is not enabled"),
            QueryError::CircuitOpen { method } => joined(
                "Circuit breaker: open for ",
                method.as_str(),
            ),
            QueryError::EmptyResponse => if short {
                copy_str("Invalid response length: 0")
            } else {
                copy_str("Received zero-length response from Go")
            },
            QueryError::ResponseTooLarge { len } => {
                let digits = decimal_string(*len as u64);
                if short {
                    joined("Invalid response length: ", digits.as_str())
                } else {
                    let mut r = joined("Response too large: ", digits.as_str());
                    r.append(" bytes");
                    r
                }
            },
            QueryError::Engine { message } => if matches!(question, Question::AdvanceEpoch) {
                joined("Go returned error during epoch advance: ", message.as_str())
            } else if block_sync {
                joined("Go Master error: ", message.as_str())
            } else {
                joined("Go returned error: ", message.as_str())
            },
            QueryError::Reported { message } => joined("Go returned error: ", message.as_str()),
            QueryError::Unexpected { got } => {
                let silent = block_sync || matches!(
                    question,
                    Question::LastIndex | Question::EpochStart
                );
                if *got == PayloadKind::NotifyEpochChange && !silent {
                    copy_str("Unexpected NotifyEpochChangeResponse")
                } else if matches!(question, Question::Validators) {
                    let mut r = joined("Unexpected ", kind_name(*got));
                    r.append(" response (expected ValidatorInfoList)");
                    r
                } else {
                    copy_str(misfit(question))
                }
            },
            QueryError::NoPayload { hex } => if matches!(question, Question::Validators) {
                joined(
                    "Unexpected response type from Go. Response payload: None. Response bytes (hex): ",
                    hex.as_str(),
                )
            } else if matches!(question, Question::EpochStart) {
                copy_str("Response payload is missing")
            } else {
                copy_str(misfit(question))
            },
        }
    }
}

/// Checks the length that announces an answer.
pub fn check_response_len(len: u32) -> (r: Result<u32, QueryError>)
    ensures
        r is Ok <==> 1 <= len <= MAX_RESPONSE_LEN,
        r matches Ok(n) ==> n == len,
        r matches Err(e) ==> e == if len == 0 {
            QueryError::EmptyResponse
        } else {
            QueryError::ResponseTooLarge { len }
        },
{
    if len == 0 {
        Err(QueryError::EmptyResponse)
    } else if len > MAX_RESPONSE_LEN {
        Err(QueryError::ResponseTooLarge { len })
    } else {
        Ok(len)
    }
}

/// `e` is the error for an answer that does not belong to the question.
pub open spec fn refuses(payload: Option<ResponsePayload>, response: Seq<u8>, e: QueryError) -> bool {
    match payload {
        None => e matches QueryError::NoPayload { hex } && hex@ == hex_text(response),
        Some(ResponsePayload::Error(message)) => e == (QueryError::Engine { message }),
        Some(other) => e == (QueryError::Unexpected { got: kind_of(other) }),
    }
}

pub(crate) fn refusal(payload: Option<ResponsePayload>, response: &[u8]) -> (e: QueryError)
    ensures
        refuses(payload, response@, e),
{
    match payload {
        None => QueryError::NoPayload { hex: hex_encode(response) },
        Some(ResponsePayload::Error(message)) => QueryError::Engine { message },
        Some(other) => QueryError::Unexpected { got: payload_kind(&other) },
    }
}

/// The validators at a block.
#[derive(Debug)]
pub struct ValidatorsAtBlock {
    pub validators: Vec<ValidatorInfo>,
    pub epoch_timestamp_ms: u64,
    pub last_global_exec_index: u64,
}

/// The answer to the question for the validators at a block. `response` is the encoded answer.
pub fn interpret_validators(payload: Option<ResponsePayload>, response: &[u8]) -> (r: Result<
    ValidatorsAtBlock,
    QueryError,
>)
    ensures
        r is Ok <==> (payload matches Some(p) && p is ValidatorInfoList),
        match r {
            Ok(v) => payload == Some(
                ResponsePayload::ValidatorInfoList {
                    validators: v.validators,
                    epoch_timestamp_ms: v.epoch_timestamp_ms,
                    last_global_exec_index: v.last_global_exec_index,
                },
            ),
            Err(e) => refuses(payload, response@, e),
        },
{
    match payload {
        Some(
            ResponsePayload::ValidatorInfoList {
                validators,
                epoch_timestamp_ms,
                last_global_exec_index,
            },
        ) => Ok(ValidatorsAtBlock { validators, epoch_timestamp_ms, last_global_exec_index }),
        other => Err(refusal(other, response)),
    }
}

/// The position of the engine.
#[derive(Clone, Copy, Debug, PartialEq, Eq, Structural)]
pub struct EnginePosition {
    /// Counts the commits that made a block.
    pub last_block_number: u64,
    /// Counts all commits.
    pub last_global_exec_index: u64,
    /// Whether the engine has finished loading.
    pub is_ready: bool,
}

/// The answer to the question for the engine's position.
pub fn interpret_last_block(payload: Option<ResponsePayload>, response: &[u8]) -> (r: Result<
    EnginePosition,
    QueryError,
>)
    ensures
        r is Ok <==> (payload matches Some(p) && p is LastBlockNumber),
        match r {
            Ok(p) => payload == Some(
                ResponsePayload::LastBlockNumber {
                    last_block_number: p.last_block_number,
                    last_global_exec_index: p.last_global_exec_index,
                    is_ready: p.is_ready,
                },
            ),
            Err(e) => refuses(payload, response@, e),
        },
{
    match payload {
        Some(
            ResponsePayload::LastBlockNumber { last_block_number, last_global_exec_index, is_ready },
        ) => Ok(EnginePosition { last_block_number, last_global_exec_index, is_ready }),
        other => Err(refusal(other, response)),
    }
}

/// The answer to the question for the current epoch.
pub fn interpret_current_epoch(payload: Option<ResponsePayload>, response: &[u8]) -> (r: Result<
    u64,
    QueryError,
>)
    ensures
        r is Ok <==> (payload matches Some(p) && p is CurrentEpoch),
        match r {
            Ok(epoch) => payload == Some(ResponsePayload::CurrentEpoch { epoch }),
            Err(e) => refuses(payload, response@, e),
        },
{
    match payload {
        Some(ResponsePayload::CurrentEpoch { epoch }) => Ok(epoch),
        other => Err(refusal(other, response)),
    }
}

/// The answer to the question for the start of an epoch.
pub fn interpret_epoch_start(payload: Option<ResponsePayload>, response: &[u8]) -> (r: Result<
    u64,
    QueryError,
>)
    ensures
        r is Ok <==> (payload matches Some(p) && p is EpochStartTimestamp),
        match r {
            Ok(timestamp_ms) => payload == Some(
                ResponsePayload::EpochStartTimestamp { timestamp_ms },
            ),
            Err(e) => refuses(payload, response@, e),
        },
{
    match payload {
        Some(ResponsePayload::EpochStartTimestamp { timestamp_ms }) => Ok(timestamp_ms),
        other => Err(refusal(other, response)),
    }
}

/// The answer to the question for the boundary of an epoch. A duration that the engine has not set
/// is replaced by the default.
pub fn interpret_epoch_boundary(payload: Option<ResponsePayload>, response: &[u8]) -> (r: Result<
    BoundaryData,
    QueryError,
>)
    ensures
        r is Ok <==> (payload matches Some(p) && p is EpochBoundary),
        match r {
            Ok(b) => payload matches Some(ResponsePayload::EpochBoundary(a)) && b == (BoundaryData {
                epoch_duration_secs: if a.epoch_duration_secs > 0 {
                    a.epoch_duration_secs
                } else {
                    DEFAULT_EPOCH_DURATION
                },
                ..a
            }),
            Err(e) => refuses(payload, response@, e),
        },
{
    match payload {
        Some(ResponsePayload::EpochBoundary(answer)) => {
            let mut boundary = answer;
            if boundary.epoch_duration_secs == 0 {
                boundary.epoch_duration_secs = DEFAULT_EPOCH_DURATION;
            }
            Ok(boundary)
        },
        other => Err(refusal(other, response)),
    }
}

/// The answer to the announcement of an epoch.
pub fn interpret_advance_epoch(payload: Option<ResponsePayload>, response: &[u8]) -> (r: Result<
    (),
    QueryError,
>)
    ensures
        r is Ok <==> (payload matches Some(p) && p is AdvanceEpoch),
        r matches Err(e) ==> refuses(payload, response@, e),
{
    match payload {
        Some(ResponsePayload::AdvanceEpoch) => Ok(()),
        other => Err(refusal(other, response)),
    }
}

/// The answer to the handoff from sync to consensus.
pub fn interpret_consensus_start(payload: Option<ResponsePayload>, response: &[u8]) -> (r: Result<
    HandoffReply,
    QueryError,
>)
    ensures
        r is Ok <==> (payload matches Some(p) && p is SetConsensusStartBlock),
        match r {
            Ok(h) => payload == Some(ResponsePayload::SetConsensusStartBlock(h)),
            Err(e) => refuses(payload, response@, e),
        },
{
    match payload {
        Some(ResponsePayload::SetConsensusStartBlock(reply)) => Ok(reply),
        other => Err(refusal(other, response)),
    }
}

/// The answer to the handoff from consensus to sync.
pub fn interpret_sync_start(payload: Option<ResponsePayload>, response: &[u8]) -> (r: Result<
    HandoffReply,
    QueryError,
>)
    ensures
        r is Ok <==> (payload matches Some(p) && p is SetSyncStartBlock),
        match r {
            Ok(h) => payload == Some(ResponsePayload::SetSyncStartBlock(h)),
            Err(e) => refuses(payload, response@, e),
        },
{
    match payload {
        Some(ResponsePayload::SetSyncStartBlock(reply)) => Ok(reply),
        other => Err(refusal(other, response)),
    }
}

/// The answer to waiting for a block.
pub fn interpret_wait_for_sync(payload: Option<ResponsePayload>, response: &[u8]) -> (r: Result<
    HandoffReply,
    QueryError,
>)
    ensures
        r is Ok <==> (payload matches Some(p) && p is WaitForSyncToBlock),
        match r {
            Ok(h) => payload == Some(ResponsePayload::WaitForSyncToBlock(h)),
            Err(e) => refuses(payload, response@, e),
        },
{
    match payload {
        Some(ResponsePayload::WaitForSyncToBlock(reply)) => Ok(reply),
        other => Err(refusal(other, response)),
    }
}

/// The answer to the question for a range of blocks.
pub fn interpret_blocks_range(payload: Option<ResponsePayload>, response: &[u8]) -> (r: Result<
    Vec<BlockData>,
    QueryError,
>)
    ensures
        r is Ok <==> (payload matches Some(ResponsePayload::BlocksRange { error, .. })
            && error@.len() == 0),
        match r {
            Ok(b) => payload matches Some(ResponsePayload::BlocksRange { blocks, .. }) && b
                == blocks,
            Err(e) => match payload {
                Some(ResponsePayload::BlocksRange { error, .. }) => e == (QueryError::Reported {
                    message: error,
                }),
                _ => refuses(payload, response@, e),
            },
        },
{
    match payload {
        Some(ResponsePayload::BlocksRange { error, blocks }) => {
            if error.as_str().is_empty() {
                Ok(blocks)
            } else {
                Err(QueryError::Reported { message: error })
            }
        },
        other => Err(refusal(other, response)),
    }
}

// ---------------------------------------------------------------------------------------------
// Before a question
// ---------------------------------------------------------------------------------------------

impl ExecutorClient {
    /// Decides at time `now` whether a question may be asked: the client must be enabled, and the
    /// circuit that guards the question, if any, must let it through.
    pub fn begin_query(&mut self, question: Question, now: u128) -> (r: Result<(), QueryError>)
        requires
            old(self).wf(),
        ensures
            final(self).wf(),
            *final(self) == (ExecutorClient {
                rpc_circuit_breaker: final(self).rpc_circuit_breaker,
                ..*old(self)
            }),
            !old(self).enabled ==> r == Err::<(), _>(QueryError::Disabled) && *final(self) == *old(
                self,
            ),
            old(self).enabled && question.guard() is None ==> r is Ok && *final(self) == *old(self),
            old(self).enabled && question.guard() is Some ==> {
                let method = question.guard()->0;
                let circuit = old(self).rpc_circuit_breaker.circuit(method);
                let config = old(self).rpc_circuit_breaker.config;
                &&& r is Ok <==> circuit.allows(config, now)
                &&& r matches Err(e) ==> (e matches QueryError::CircuitOpen { method: m } && m@
                    == method)
                &&& final(self).rpc_circuit_breaker.only_changed(
                    &old(self).rpc_circuit_breaker,
                    method,
                    circuit.spec_after_check(config, now),
                )
            },
    {
        if !self.enabled {
            return Err(QueryError::Disabled);
        }
        match question.guard_name() {
            None => Ok(()),
            Some(method) => match self.rpc_circuit_breaker.check_at(method, now) {
                Ok(()) => Ok(()),
                Err(open) => Err(QueryError::CircuitOpen { method: open.method }),
            },
        }
    }
}

// ---------------------------------------------------------------------------------------------
// A boundary that can be trusted
// ---------------------------------------------------------------------------------------------

/// Whether the peers have to confirm the index at which an epoch starts: the engine has none, or
/// the node was restored from a snapshot and `force` is set. Epoch 0 starts at 0.
pub open spec fn needs_confirmation(epoch: u64, boundary_gei: u64, force: bool) -> bool {
    epoch > 0 && (boundary_gei == 0 || force)
}

/// What to do about the index at which an epoch starts.
#[derive(Clone, Copy, Debug, PartialEq, Eq, Structural)]
pub enum SafeBoundaryAction {
    /// Ask this peer.
    AskPeer { peer: usize },
    /// Use this index. If `update_engine` is set, a peer confirmed it and the engine is told.
    Use { boundary_gei: u64, update_engine: bool },
}

/// The search for the index at which an epoch starts.
#[derive(Clone, Copy, Debug, PartialEq, Eq, Structural)]
pub struct SafeBoundary {
    pub peer_count: usize,
    /// The peer that is being asked.
    pub peer: usize,
}

impl SafeBoundary {
    /// Starts with the index that the engine reported.
    pub fn start(epoch: u64, boundary_gei: u64, force: bool, peer_count: usize) -> (r: (
        SafeBoundary,
        SafeBoundaryAction,
    ))
        ensures
            r.0.peer_count == peer_count,
            r.0.peer == 0,
            r.1 == if !needs_confirmation(epoch, boundary_gei, force) {
                SafeBoundaryAction::Use { boundary_gei, update_engine: false }
            } else if peer_count > 0 {
                SafeBoundaryAction::AskPeer { peer: 0 }
            } else {
                SafeBoundaryAction::Use { boundary_gei: 0, update_engine: false }
            },
    {
        let search = SafeBoundary { peer_count, peer: 0 };
        if !(epoch > 0 && (boundary_gei == 0 || force)) {
            (search, SafeBoundaryAction::Use { boundary_gei, update_engine: false })
        } else if peer_count > 0 {
            (search, SafeBoundaryAction::AskPeer { peer: 0 })
        } else {
            (search, SafeBoundaryAction::Use { boundary_gei: 0, update_engine: false })
        }
    }

    /// Goes on with the index that a peer reported, if it answered. The first index above 0 is
    /// used; without any it is 0.
    pub fn on_peer(&mut self, reported: Option<u64>) -> (action: SafeBoundaryAction)
        requires
            old(self).peer < old(self).peer_count,
        ensures
            final(self).peer_count == old(self).peer_count,
            match reported {
                Some(g) if g > 0 => *final(self) == *old(self) && action == (
                SafeBoundaryAction::Use { boundary_gei: g, update_engine: true }),
                _ => final(self).peer == old(self).peer + 1 && action == if old(self).peer + 1
                    < old(self).peer_count {
                    SafeBoundaryAction::AskPeer { peer: (old(self).peer + 1) as usize }
                } else {
                    SafeBoundaryAction::Use { boundary_gei: 0, update_engine: false }
                },
            },
    {
        if let Some(g) = reported {
            if g > 0 {
                return SafeBoundaryAction::Use { boundary_gei: g, update_engine: true };
            }
        }
        self.peer = self.peer + 1;
        if self.peer < self.peer_count {
            SafeBoundaryAction::AskPeer { peer: self.peer }
        } else {
            SafeBoundaryAction::Use { boundary_gei: 0, update_engine: false }
        }
    }
}

/// An answer with an error is passed on with the engine's words. An answer of another kind is
/// unexpected, and the error names what came; the three handoffs are of one kind, and so are the
/// two answers about blocks. Without any content the bytes are quoted.
pub proof fn law_how_answers_are_refused(
    payload: Option<ResponsePayload>,
    response: Seq<u8>,
    e: QueryError,
)
    requires
        refuses(payload, response, e),
    ensures
        match payload {
            None => e matches QueryError::NoPayload { hex } && hex@ == hex_text(response),
            Some(ResponsePayload::Error(text)) => e matches QueryError::Engine { message } && message
                == text,
            Some(other) => e matches QueryError::Unexpected { got } && match other {
                ResponsePayload::Error(_) => false,
                ResponsePayload::NotifyEpochChange => got is NotifyEpochChange,
                ResponsePayload::ValidatorInfoList { .. } => got is ValidatorInfoList,
                ResponsePayload::ValidatorList => got is ValidatorList,
                ResponsePayload::ServerStatus => got is ServerStatus,
                ResponsePayload::LastBlockNumber { .. } => got is LastBlockNumber,
                ResponsePayload::CurrentEpoch { .. } => got is CurrentEpoch,
                ResponsePayload::EpochStartTimestamp { .. } => got is EpochStartTimestamp,
                ResponsePayload::AdvanceEpoch => got is AdvanceEpoch,
                ResponsePayload::EpochBoundary(_) => got is EpochBoundary,
                ResponsePayload::SetConsensusStartBlock(_) => got is Handoff,
                ResponsePayload::SetSyncStartBlock(_) => got is Handoff,
                ResponsePayload::WaitForSyncToBlock(_) => got is Handoff,
                ResponsePayload::BlocksRange { .. } => got is BlockSync,
                ResponsePayload::SyncBlocks { .. } => got is BlockSync,
            },
        },
{
}

/// The five questions that are asked all the time have a circuit each, under the name of the
/// question; the others are asked in any case.
pub proof fn law_which_questions_are_guarded(a: Question, b: Question)
    ensures
        a.guard() is Some <==> a is Validators || a is LastBlock || a is LastIndex
            || a is CurrentEpoch || a is EpochBoundary,
        a is Validators ==> a.guard() == Some("get_validators_at_block"@),
        a is LastBlock ==> a.guard() == Some("get_last_block_number"@),
        a is LastIndex ==> a.guard() == Some("get_last_global_exec_index"@),
        a is CurrentEpoch ==> a.guard() == Some("get_current_epoch"@),
        a is EpochBoundary ==> a.guard() == Some("get_epoch_boundary_data"@),
        a != b && a.guard() is Some ==> a.guard() != b.guard(),
{
    reveal_strlit("get_validators_at_block");
    reveal_strlit("get_last_block_number");
    reveal_strlit("get_last_global_exec_index");
    reveal_strlit("get_current_epoch");
    reveal_strlit("get_epoch_boundary_data");
    assert("get_current_epoch"@[4] == 'c');
    assert("get_epoch_boundary_data"@[4] == 'e');
    assert("get_validators_at_block"@[4] == 'v');
    assert("get_last_block_number"@[4] == 'l');
    assert("get_last_block_number"@[9] == 'b');
    assert("get_last_global_exec_index"@[4] == 'l');
    assert("get_last_global_exec_index"@[9] == 'g');
}

/// What is wrong with the length of an answer is told with the length. Questions for the index and
/// about handoffs are told the length alone.
pub proof fn law_lengths_in_words(len: u32, question: Question)
    ensures
        question is LastIndex || question is ConsensusStart || question is SyncStart
            || question is WaitForSync ==> QueryError::EmptyResponse.text(question)
            == "Invalid response length: 0"@ && (QueryError::ResponseTooLarge { len }).text(question)
            == "Invalid response length: "@ + decimal(len as nat),
        !(question is LastIndex || question is ConsensusStart || question is SyncStart
            || question is WaitForSync) ==> QueryError::EmptyResponse.text(question)
            == "Received zero-length response from Go"@ && (QueryError::ResponseTooLarge {
            len,
        }).text(question) == "Response too large: "@ + decimal(len as nat) + " bytes"@,
{
}

/// An error that the engine reports is told with its words behind a beginning that tells what the
/// question was about.
pub proof fn law_engine_errors_in_words(message: String, question: Question)
    ensures
        ({
            let told = (QueryError::Engine { message }).text(question);
            &&& question is AdvanceEpoch ==> told == "Go returned error during epoch advance: "@
                + message@
            &&& question is BlocksRange || question is SyncBlocks ==> told == "Go Master error: "@
                + message@
            &&& !(question is AdvanceEpoch || question is BlocksRange || question is SyncBlocks)
                ==> told == "Go returned error: "@ + message@
        }),
        (QueryError::Reported { message }).text(question) == "Go returned error: "@ + message@,
        (QueryError::CircuitOpen { method: message }).text(question) == "Circuit breaker: open for "@
            + message@,
        QueryError::Disabled.text(question) == "Executor client is not enabled"@,
{
}

/// An unexpected answer is told by what was expected. Only the question for the validators names
/// what came; a notification is named unless the question was for the index, for the start of an
/// epoch or about blocks.
pub proof fn law_unexpected_answers_in_words(got: PayloadKind, question: Question, hex: String)
    ensures
        ({
            let told = (QueryError::Unexpected { got }).text(question);
            let empty = (QueryError::NoPayload { hex }).text(question);
            &&& match question {
                Question::Validators => got is NotifyEpochChange || told == "Unexpected "@
                    + kind_text(got) + " response (expected ValidatorInfoList)"@,
                Question::LastBlock => got is NotifyEpochChange || told
                    == "Unexpected response type from Go (expected LastBlockNumberResponse)"@,
                Question::LastIndex => told
                    == "Unexpected response type from Go (expected LastBlockNumberResponse)"@,
                Question::CurrentEpoch => got is NotifyEpochChange || told
                    == "Unexpected response payload type"@,
                Question::EpochStart => told == "Unexpected response payload type"@,
                Question::EpochBoundary => got is NotifyEpochChange || told
                    == "Unexpected response payload type for GetEpochBoundaryData"@,
                Question::AdvanceEpoch => got is NotifyEpochChange || told
                    == "Unexpected response payload type for AdvanceEpoch"@,
                Question::ConsensusStart | Question::SyncStart | Question::WaitForSync => got
                    is NotifyEpochChange || told == "Unexpected response type from Go"@,
                Question::BlocksRange | Question::SyncBlocks => told
                    == "Unexpected response type from Go Master"@,
            }
            &&& got is NotifyEpochChange && !(question is LastIndex || question is EpochStart
                || question is BlocksRange || question is SyncBlocks) ==> told
                == "Unexpected NotifyEpochChangeResponse"@
            &&& question is Validators ==> empty
                == "Unexpected response type from Go. Response payload: None. Response bytes (hex): "@
                + hex@
            &&& question is EpochStart ==> empty == "Response payload is missing"@
            &&& !(question is Validators || question is EpochStart) && !(got
                is NotifyEpochChange) ==> empty == told
        }),
{
}

/// Each kind of answer has a name of its own.
pub proof fn law_names_of_answers(k: PayloadKind)
    ensures
        match k {
            PayloadKind::NotifyEpochChange => kind_text(k) == "NotifyEpochChangeResponse"@,
            PayloadKind::ValidatorInfoList => kind_text(k) == "ValidatorInfoList"@,
            PayloadKind::Error => kind_text(k) == "Error"@,
            PayloadKind::ValidatorList => kind_text(k) == "ValidatorList"@,
            PayloadKind::ServerStatus => kind_text(k) == "ServerStatus"@,
            PayloadKind::LastBlockNumber => kind_text(k) == "LastBlockNumberResponse"@,
            PayloadKind::CurrentEpoch => kind_text(k) == "GetCurrentEpochResponse"@,
            PayloadKind::EpochStartTimestamp => kind_text(k) == "GetEpochStartTimestampResponse"@,
            PayloadKind::AdvanceEpoch => kind_text(k) == "AdvanceEpochResponse"@,
            PayloadKind::EpochBoundary => kind_text(k) == "EpochBoundaryData"@,
            PayloadKind::Handoff => kind_text(k) == "Transition Handoff"@,
            PayloadKind::BlockSync => kind_text(k) == "Block Sync"@,
        },
{
}

/// Peers have to confirm an index of 0, and any index when that is forced. The first epoch needs
/// no confirmation.
pub proof fn law_when_peers_confirm_the_boundary(epoch: u64, boundary_gei: u64, force: bool)
    ensures
        !needs_confirmation(0, boundary_gei, force),
        epoch >= 1 ==> needs_confirmation(epoch, 0, force),
        epoch >= 1 ==> needs_confirmation(epoch, boundary_gei, true),
        boundary_gei >= 1 ==> !needs_confirmation(epoch, boundary_gei, false),
        MAX_RESPONSE_LEN == 10_000_000,
{
}

/// Answers of one byte to ten million bytes are read. Any other length is an error, which tells it.
pub proof fn law_which_lengths_are_accepted(len: u32, r: Result<u32, QueryError>)
    requires
        call_ensures(check_response_len, (len,), r),
    ensures
        r is Ok <==> 0 < len <= 10_000_000,
        r matches Ok(n) ==> n == len,
        len == 0 ==> r == Err::<u32, QueryError>(QueryError::EmptyResponse),
        len > 10_000_000 ==> r == Err::<u32, QueryError>(QueryError::ResponseTooLarge { len }),
{
}

/// An index that needs no confirmation is used as the engine reported it. Otherwise the first peer
/// is asked; without peers the index is 0.
pub proof fn law_how_the_boundary_is_confirmed(
    epoch: u64,
    gei: u64,
    force: bool,
    peers: usize,
    r: (SafeBoundary, SafeBoundaryAction),
)
    requires
        call_ensures(SafeBoundary::start, (epoch, gei, force, peers), r),
    ensures
        r.0.peer == 0,
        r.0.peer_count == peers,
        epoch == 0 || (gei >= 1 && !force) ==> r.1 == (SafeBoundaryAction::Use {
            boundary_gei: gei,
            update_engine: false,
        }),
        epoch >= 1 && (gei == 0 || force) && peers >= 1 ==> r.1 == (SafeBoundaryAction::AskPeer {
            peer: 0,
        }),
        epoch >= 1 && (gei == 0 || force) && peers == 0 ==> r.1 == (SafeBoundaryAction::Use {
            boundary_gei: 0,
            update_engine: false,
        }),
{
}

/// A boundary is passed on as the engine reports it, but for a duration of 0, which becomes 900
/// seconds.
pub proof fn law_boundaries_are_passed_on(
    boundary: BoundaryData,
    response: &[u8],
    r: Result<BoundaryData, QueryError>,
)
    requires
        call_ensures(
            interpret_epoch_boundary,
            (Some(ResponsePayload::EpochBoundary(boundary)), response),
            r,
        ),
    ensures
        r is Ok,
        boundary.epoch_duration_secs >= 1 ==> r == Ok::<BoundaryData, QueryError>(boundary),
        boundary.epoch_duration_secs == 0 ==> r == Ok::<BoundaryData, QueryError>(
            (BoundaryData { epoch_duration_secs: 900, ..boundary }),
        ),
{
}

/// The first index above 0 that a peer reports is used, and the engine is told. A peer that does
/// not answer, or reports 0, is followed by the next; behind the last one the index is 0.
pub proof fn law_the_first_confirmed_boundary_is_used(
    s: &mut SafeBoundary,
    reported: Option<u64>,
    action: SafeBoundaryAction,
)
    requires
        call_ensures(SafeBoundary::on_peer, (s, reported), action),
        old(s).peer < old(s).peer_count,
    ensures
        reported is Some && reported->0 >= 1 ==> action == (SafeBoundaryAction::Use {
            boundary_gei: reported->0,
            update_engine: true,
        }),
        (reported is None || reported == Some(0u64)) && old(s).peer + 1 < old(s).peer_count
            ==> final(s).peer == old(s).peer + 1 && action == (SafeBoundaryAction::AskPeer {
            peer: final(s).peer,
        }),
        (reported is None || reported == Some(0u64)) && old(s).peer + 1 == old(s).peer_count
            ==> action == (SafeBoundaryAction::Use { boundary_gei: 0, update_engine: false }),
        final(s).peer_count == old(s).peer_count,
{
}

} // verus!
