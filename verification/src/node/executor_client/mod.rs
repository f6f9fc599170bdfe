//! The link to the execution engine.

pub mod block_sending;
pub mod block_store;
pub mod block_sync;
pub mod canonical;
pub mod persistence;
pub mod rpc_queries;
pub mod send_queue;
pub mod socket_stream;
pub mod transition_handoff;

use vstd::prelude::*;

use crate::clock::{deadline, later, NANOS_PER_SEC};
use crate::consensus::subdag::CommittedSubDag;
use crate::node::executor_client::block_sending::{
    all_worker_zero, blocks_of_commit, fragment_len, is_header_of, next_fragment, payloads_of,
    plan_commit, BlockNumbering, ExecutableBlock, FragmentedCommit, SendPlan,
    MAX_TXS_PER_GO_BLOCK,
};
use crate::node::executor_client::send_queue::{
    index_range, is_trimmed, with_blocks, BufferFull, BufferedBlock, EnqueueOutcome, FlushReport,
    QueuedBlock, SendQueue, MAX_BUFFER_SIZE, MAX_SENT_INDICES,
};
use crate::node::executor_client::socket_stream::{parsed_form, AddressForm, SocketAddress};
use crate::node::rpc_circuit_breaker::RpcCircuitBreaker;
use crate::text::{copy_str, decimal, decimal_string};

verus! {

/// The execution engine's position is verified at every multiple of this.
pub const GO_VERIFICATION_INTERVAL: u64 = 100;

/// Consecutive send failures that open the send circuit.
pub const SEND_FAILURE_LIMIT: u32 = 3;

/// How long an open send circuit rejects blocks, in nanoseconds.
pub const SEND_COOLDOWN: u128 = 10_000_000_000;

/// The circuit breaker of the block stream. Times are nanoseconds of one monotonic clock.
#[derive(Clone, Copy, Debug, PartialEq, Eq, Structural)]
pub struct SendCircuitBreaker {
    pub failures: u32,
    pub open_until: Option<u128>,
}

/// The send circuit is open for another `remaining_secs` full seconds.
#[derive(Clone, Copy, Debug, PartialEq, Eq, Structural)]
pub struct SendCircuitOpen {
    pub remaining_secs: u64,
}

impl SendCircuitOpen {
    /// The error in words.
    pub fn to_text(&self) -> (r: String)
        ensures
            r@ == "TCP Send Circuit Breaker is OPEN. Cooling down for "@ + decimal(
                self.remaining_secs as nat,
            ) + "s"@,
    {
        let mut text = copy_str("TCP Send Circuit Breaker is OPEN. Cooling down for ");
        let secs = decimal_string(self.remaining_secs);
        text.append(secs.as_str());
        text.append("s");
        text
    }
}

impl SendCircuitBreaker {
    /// Without a failure the circuit is closed.
    pub open spec fn wf(&self) -> bool {
        self.failures == 0 ==> self.open_until is None
    }

    /// A closed circuit.
    pub fn new() -> (b: SendCircuitBreaker)
        ensures
            b.wf(),
            b.failures == 0,
            b.open_until is None,
    {
        SendCircuitBreaker { failures: 0, open_until: None }
    }

    /// Whether blocks are rejected at time `now`.
    pub open spec fn is_open(&self, now: u128) -> bool {
        self.open_until matches Some(t) && now < t
    }

    /// The full seconds for which an open circuit still rejects blocks at time `now`.
    pub open spec fn remaining_secs(&self, now: u128) -> u64 {
        ((self.open_until->0 - now) / NANOS_PER_SEC as int) as u64
    }

    /// Rejects if the circuit is open at time `now`.
    pub fn check(&self, now: u128) -> (r: Result<(), SendCircuitOpen>)
        ensures
            r is Err <==> self.is_open(now),
            r matches Err(e) ==> e.remaining_secs == self.remaining_secs(now),
    {
        match self.open_until {
            Some(t) if now < t => {
                let secs: u128 = (t - now) / NANOS_PER_SEC;
                Err(SendCircuitOpen { remaining_secs: secs as u64 })
            },
            _ => Ok(()),
        }
    }

    /// The breaker after a failure at time `now`: three in a row open the circuit.
    pub open spec fn spec_after_failure(self, now: u128) -> SendCircuitBreaker {
        let failures = if self.failures < u32::MAX {
            (self.failures + 1) as u32
        } else {
            u32::MAX
        };
        SendCircuitBreaker {
            failures,
            open_until: if failures >= SEND_FAILURE_LIMIT {
                Some(later(now, SEND_COOLDOWN))
            } else {
                self.open_until
            },
        }
    }

    /// Records a failure at time `now`.
    pub fn record_failure(&mut self, now: u128)
        requires
            old(self).wf(),
        ensures
            final(self).wf(),
            *final(self) == old(self).spec_after_failure(now),
    {
        self.failures = self.failures.saturating_add(1);
        if self.failures >= SEND_FAILURE_LIMIT {
            self.open_until = Some(deadline(now, SEND_COOLDOWN));
        }
    }

    /// Records a success: the failures are forgotten and the circuit is closed.
    pub fn record_success(&mut self)
        requires
            old(self).wf(),
        ensures
            final(self).wf(),
            final(self).failures == 0,
            final(self).open_until is None,
    {
        if self.failures > 0 {
            self.failures = 0;
            self.open_until = None;
        }
    }
}

/// Three failures in a row open a closed circuit for ten seconds, two do not.
pub proof fn law_send_circuit(b: SendCircuitBreaker, t1: u128, t2: u128, t3: u128, now: u128)
    requires
        b.failures == 0,
        b.wf(),
        t3 + SEND_COOLDOWN <= u128::MAX,
    ensures
        ({
            let two = b.spec_after_failure(t1).spec_after_failure(t2);
            let three = two.spec_after_failure(t3);
            &&& !two.is_open(now)
            &&& three.is_open(now) <==> now < t3 + SEND_COOLDOWN
        }),
{
}

/// What the execution engine, or the files of the last run, said of its position.
#[derive(Clone, Copy, Debug, PartialEq, Eq, Structural)]
pub struct ExecutorPosition {
    pub last_block_number: u64,
    pub last_global_exec_index: u64,
}

/// The reply to the question for the execution engine's position.
#[derive(Clone, Copy, Debug, PartialEq, Eq, Structural)]
pub enum PositionReply {
    /// The engine is up and knows its position.
    Ready(ExecutorPosition),
    /// The engine is up but still loading.
    Loading,
    /// The engine cannot be reached.
    Unavailable,
}

/// How initialisation goes on after a reply.
#[derive(Clone, Copy, Debug, PartialEq, Eq, Structural)]
pub enum InitStep {
    /// Ask again in a second.
    AskAgain,
    /// Start from this position.
    StartFrom(ExecutorPosition),
    /// The position is unknown; keep what is there.
    KeepCurrent,
}

/// Decides how initialisation goes on. An unavailable engine is replaced by the files of the last
/// run, if both of them could be read.
pub fn next_init_step(
    reply: PositionReply,
    persisted_block_number: Option<u64>,
    persisted_gei: Option<u64>,
) -> (step: InitStep)
    ensures
        step == match reply {
            PositionReply::Ready(p) => InitStep::StartFrom(p),
            PositionReply::Loading => InitStep::AskAgain,
            PositionReply::Unavailable => match (persisted_block_number, persisted_gei) {
                (Some(block), Some(gei)) => InitStep::StartFrom(
                    (ExecutorPosition { last_block_number: block, last_global_exec_index: gei }),
                ),
                _ => InitStep::KeepCurrent,
            },
        },
{
    match reply {
        PositionReply::Ready(p) => InitStep::StartFrom(p),
        PositionReply::Loading => InitStep::AskAgain,
        PositionReply::Unavailable => match (persisted_block_number, persisted_gei) {
            (Some(block), Some(gei)) => InitStep::StartFrom(
                ExecutorPosition { last_block_number: block, last_global_exec_index: gei },
            ),
            _ => InitStep::KeepCurrent,
        },
    }
}

/// The sending side of the link to the execution engine.
#[derive(Debug)]
pub struct ExecutorClient {
    /// The socket that blocks are sent to, as it was configured.
    pub socket_path: String,
    /// The socket that queries are sent to, as it was configured.
    pub request_socket_path: String,
    pub enabled: bool,
    pub can_commit: bool,
    pub queue: SendQueue,
    pub numbering: BlockNumbering,
    pub storage_path: Option<String>,
    pub last_verified_go_index: u64,
    pub rpc_circuit_breaker: RpcCircuitBreaker,
    pub send_breaker: SendCircuitBreaker,
    /// How far the engine lags behind, if somebody asked to be told.
    pub go_lag: Option<u64>,
}

/// The greater of two numbers.
pub open spec fn max_u64(a: u64, b: u64) -> u64 {
    if a >= b {
        a
    } else {
        b
    }
}

impl ExecutorClient {
    pub open spec fn wf(&self) -> bool {
        &&& self.queue.wf()
        &&& self.send_breaker.wf()
        &&& self.rpc_circuit_breaker.wf()
    }

    /// Everything but the queue, the numbering, the breakers and the positions.
    pub open spec fn same_identity(&self, other: &ExecutorClient) -> bool {
        &&& self.socket_path == other.socket_path
        &&& self.request_socket_path == other.request_socket_path
        &&& self.enabled == other.enabled
        &&& self.can_commit == other.can_commit
        &&& self.storage_path == other.storage_path
        &&& self.rpc_circuit_breaker == other.rpc_circuit_breaker
    }

    /// A client that waits for index 1.
    pub fn new(
        enabled: bool,
        can_commit: bool,
        send_socket_path: String,
        receive_socket_path: String,
        storage_path: Option<String>,
    ) -> (c: ExecutorClient)
        ensures
            c.wf(),
            c.enabled == enabled,
            c.can_commit == can_commit,
            c.storage_path == storage_path,
            c.queue.next_expected == 1,
            c.queue.buffer@ == Map::<u64, BufferedBlock>::empty(),
            c.queue.sent@ == Set::<u64>::empty(),
            c.numbering.next_block_number == 0,
            c.numbering.last_processed_epoch == 0,
            c.last_verified_go_index == 0,
            c.send_breaker.failures == 0,
            c.go_lag is None,
            c.socket_path@ == send_socket_path@,
            c.request_socket_path@ == receive_socket_path@,
    {
        ExecutorClient::new_with_initial_index(
            enabled,
            can_commit,
            send_socket_path,
            receive_socket_path,
            1,
            storage_path,
        )
    }

    /// A client with an empty queue that waits for `initial_next_expected`.
    pub fn new_with_initial_index(
        enabled: bool,
        can_commit: bool,
        send_socket_path: String,
        receive_socket_path: String,
        initial_next_expected: u64,
        storage_path: Option<String>,
    ) -> (c: ExecutorClient)
        ensures
            c.wf(),
            c.enabled == enabled,
            c.can_commit == can_commit,
            c.storage_path == storage_path,
            c.queue.next_expected == initial_next_expected,
            c.queue.buffer@ == Map::<u64, BufferedBlock>::empty(),
            c.queue.sent@ == Set::<u64>::empty(),
            c.numbering.next_block_number == 0,
            c.numbering.last_processed_epoch == 0,
            c.last_verified_go_index == 0,
            c.send_breaker.failures == 0,
            c.go_lag is None,
            c.socket_path@ == send_socket_path@,
            c.request_socket_path@ == receive_socket_path@,
    {
        ExecutorClient {
            socket_path: send_socket_path,
            request_socket_path: receive_socket_path,
            enabled,
            can_commit,
            queue: SendQueue::new(initial_next_expected),
            numbering: BlockNumbering { next_block_number: 0, last_processed_epoch: 0 },
            storage_path,
            last_verified_go_index: 0,
            rpc_circuit_breaker: RpcCircuitBreaker::new(),
            send_breaker: SendCircuitBreaker::new(),
            go_lag: None,
        }
    }

    /// The socket that blocks are sent to. `resolved` is what reading its text as a TCP address
    /// gave; what is no address is a path.
    pub fn socket_address(&self, resolved: Result<String, String>) -> (r: SocketAddress)
        ensures
            r.form() == match parsed_form(self.socket_path@, resolved) {
                Some(form) => form,
                None => AddressForm::Unix(self.socket_path@),
            },
    {
        SocketAddress::parse_or_path(self.socket_path.as_str(), resolved)
    }

    /// The socket that queries are sent to, likewise.
    pub fn request_socket_address(&self, resolved: Result<String, String>) -> (r: SocketAddress)
        ensures
            r.form() == match parsed_form(self.request_socket_path@, resolved) {
                Some(form) => form,
                None => AddressForm::Unix(self.request_socket_path@),
            },
    {
        SocketAddress::parse_or_path(self.request_socket_path.as_str(), resolved)
    }

    /// Whether blocks are sent at all.
    pub fn is_enabled(&self) -> (r: bool)
        ensures
            r == self.enabled,
    {
        self.enabled
    }

    /// Whether this node may commit.
    pub fn can_commit(&self) -> (r: bool)
        ensures
            r == self.can_commit,
    {
        self.can_commit
    }

    /// The directory for state files.
    pub fn storage_path(&self) -> (r: &Option<String>)
        ensures
            *r == self.storage_path,
    {
        &self.storage_path
    }

    /// The breaker for queries.
    pub fn circuit_breaker(&mut self) -> (r: &mut RpcCircuitBreaker)
        ensures
            *r == old(self).rpc_circuit_breaker,
            *final(self) == (ExecutorClient { rpc_circuit_breaker: *final(r), ..*old(self) }),
    {
        &mut self.rpc_circuit_breaker
    }

    /// Starts reporting the lag of the execution engine.
    pub fn enable_lag_reporting(&mut self)
        ensures
            final(self).go_lag is Some,
            old(self).go_lag is Some ==> final(self).go_lag == old(self).go_lag,
            old(self).go_lag is None ==> final(self).go_lag == Some(0u64),
            final(self).same_identity(old(self)),
            final(self).queue == old(self).queue,
            final(self).numbering == old(self).numbering,
            final(self).send_breaker == old(self).send_breaker,
            final(self).last_verified_go_index == old(self).last_verified_go_index,
    {
        if self.go_lag.is_none() {
            self.go_lag = Some(0);
        }
    }

    /// Rejects if the send circuit is open at time `now`.
    pub fn check_send_circuit_breaker(&self, now: u128) -> (r: Result<(), SendCircuitOpen>)
        ensures
            r is Err <==> self.send_breaker.is_open(now),
            r matches Err(e) ==> e.remaining_secs == self.send_breaker.remaining_secs(now),
    {
        self.send_breaker.check(now)
    }

    /// Records that a block could not be sent at time `now`.
    pub fn record_send_failure(&mut self, now: u128)
        requires
            old(self).wf(),
        ensures
            final(self).wf(),
            *final(self) == (ExecutorClient {
                send_breaker: old(self).send_breaker.spec_after_failure(now),
                ..*old(self)
            }),
    {
        self.send_breaker.record_failure(now);
    }

    /// Records that a block was sent.
    pub fn record_send_success(&mut self)
        requires
            old(self).wf(),
        ensures
            final(self).wf(),
            *final(self) == (ExecutorClient {
                send_breaker: SendCircuitBreaker { failures: 0, open_until: None },
                ..*old(self)
            }),
    {
        self.send_breaker.record_success();
    }

    // -----------------------------------------------------------------------------------------
    // Sending a commit
    // -----------------------------------------------------------------------------------------

    /// Decides how the commit at `global_exec_index` is sent. A disabled client sends nothing, and
    /// a commit whose index has been settled already is not sent again.
    pub fn send_committed_subdag(
        &mut self,
        subdag: &CommittedSubDag,
        epoch: u64,
        global_exec_index: u64,
        leader_address: Option<Vec<u8>>,
    ) -> (plan: SendPlan)
        requires
            old(self).wf(),
            old(self).numbering.next_block_number < u64::MAX,
        ensures
            final(self).wf(),
            final(self).same_identity(old(self)),
            final(self).queue == old(self).queue,
            final(self).send_breaker == old(self).send_breaker,
            final(self).go_lag == old(self).go_lag,
            final(self).last_verified_go_index == old(self).last_verified_go_index,
            plan is Skip <==> !old(self).enabled || old(self).queue.is_settled(
                global_exec_index,
            ),
            plan is Skip ==> final(self).numbering == old(self).numbering,
            plan !is Skip ==> plan.spec_slots() == blocks_of_commit(subdag.all_txs()).len(),
            plan matches SendPlan::Fragmented(f) ==> {
                &&& payloads_of(f.remaining@) == canonical::canonical_payloads(subdag.all_txs())
                &&& f.remaining@.len() > 0
                &&& subdag.all_txs().len() > MAX_TXS_PER_GO_BLOCK
                &&& all_worker_zero(f.remaining@)
                &&& f.next_gei == global_exec_index
                &&& is_header_of(f.header, *subdag, epoch, leader_address)
                &&& final(self).numbering == old(self).numbering
            },
            plan matches SendPlan::Single(b) ==> {
                let has_transactions = 0 < subdag.all_txs().len() <= MAX_TXS_PER_GO_BLOCK;
                &&& blocks_of_commit(subdag.all_txs()) == seq![payloads_of(b.transactions@)]
                &&& subdag.all_txs().len() > MAX_TXS_PER_GO_BLOCK ==> b.transactions@.len() == 0
                &&& all_worker_zero(b.transactions@)
                &&& b.global_exec_index == global_exec_index
                &&& b.epoch == epoch
                &&& b.commit_index == subdag.commit_index
                &&& b.commit_timestamp_ms == subdag.timestamp_ms
                &&& b.leader_author_index == subdag.leader_author_index
                &&& b.leader_address@ == block_sending::address_or_empty(leader_address)
                &&& b.block_number == old(self).numbering.number_for(epoch, has_transactions)
                &&& final(self).numbering.next_block_number == old(
                    self,
                ).numbering.next_block_number + if has_transactions || epoch > old(
                    self,
                ).numbering.last_processed_epoch {
                    1int
                } else {
                    0
                }
                &&& final(self).numbering.last_processed_epoch == max_u64(
                    epoch,
                    old(self).numbering.last_processed_epoch,
                )
            },
    {
        if !self.enabled || self.queue.already_settled(global_exec_index) {
            return SendPlan::Skip;
        }
        plan_commit(&mut self.numbering, subdag, epoch, global_exec_index, leader_address)
    }

    /// The next block of a fragmented commit.
    pub fn next_fragment(&mut self, commit: &mut FragmentedCommit) -> (r: Option<ExecutableBlock>)
        requires
            old(self).wf(),
            old(self).numbering.next_block_number < u64::MAX,
            old(commit).next_gei < u64::MAX,
            all_worker_zero(old(commit).remaining@),
        ensures
            final(self).wf(),
            final(self).same_identity(old(self)),
            final(self).queue == old(self).queue,
            final(self).send_breaker == old(self).send_breaker,
            final(self).go_lag == old(self).go_lag,
            final(self).last_verified_go_index == old(self).last_verified_go_index,
            final(commit).header == old(commit).header,
            final(commit).total == old(commit).total,
            all_worker_zero(final(commit).remaining@),
            r is None <==> old(commit).remaining@.len() == 0,
            r is None ==> *final(commit) == *old(commit) && final(self).numbering == old(
                self,
            ).numbering,
            r matches Some(b) ==> {
                let n = fragment_len(old(commit).remaining@.len()) as int;
                &&& b.transactions@ == old(commit).remaining@.take(n)
                &&& final(commit).remaining@ == old(commit).remaining@.skip(n)
                &&& b.global_exec_index == old(commit).next_gei
                &&& final(commit).next_gei == old(commit).next_gei + 1
                &&& b.carries(old(commit).header)
                &&& b.block_number == old(self).numbering.next_block_number
                &&& final(self).numbering.next_block_number == old(
                    self,
                ).numbering.next_block_number + 1
                &&& final(self).numbering.last_processed_epoch == max_u64(
                    old(commit).header.epoch,
                    old(self).numbering.last_processed_epoch,
                )
            },
    {
        next_fragment(&mut self.numbering, commit)
    }

    /// Puts an encoded block into the queue.
    pub fn buffer_block(
        &mut self,
        global_exec_index: u64,
        data: Vec<u8>,
        epoch: u64,
        commit_index: u32,
    ) -> (r: Result<EnqueueOutcome, BufferFull>)
        requires
            old(self).wf(),
            global_exec_index < u64::MAX,
        ensures
            final(self).wf(),
            final(self).same_identity(old(self)),
            final(self).numbering == old(self).numbering,
            final(self).send_breaker == old(self).send_breaker,
            final(self).go_lag == old(self).go_lag,
            final(self).last_verified_go_index == old(self).last_verified_go_index,
            final(self).queue.next_expected == old(self).queue.next_expected,
            final(self).queue.sent@ == old(self).queue.sent@,
            ({
                let waiting = old(self).queue.buffer@;
                let block = BufferedBlock { data, epoch, commit_index };
                let same = waiting.contains_key(global_exec_index)
                    && waiting[global_exec_index].epoch == epoch
                    && waiting[global_exec_index].commit_index == commit_index;
                &&& r is Err <==> waiting.len() >= MAX_BUFFER_SIZE
                &&& final(self).queue.buffer@ == if waiting.len() >= MAX_BUFFER_SIZE || same {
                    waiting
                } else {
                    waiting.insert(global_exec_index, block)
                }
                &&& r matches Ok(o) ==> (o is AlreadyBuffered <==> same) && (o is Added
                    <==> !waiting.contains_key(global_exec_index))
                &&& r matches Err(e) ==> e.len == waiting.len()
            }),
    {
        self.queue.enqueue(global_exec_index, BufferedBlock { data, epoch, commit_index })
    }

    // -----------------------------------------------------------------------------------------
    // Flushing
    // -----------------------------------------------------------------------------------------

    /// Whether a flush has to ask the execution engine for its position first.
    pub fn flush_needs_position(&self) -> (r: bool)
        ensures
            r == (self.queue.gap() > send_queue::LARGE_GAP),
    {
        self.queue.needs_executor_position()
    }

    /// Ends a flush. `batch` was taken from the queue, and the engine accepted its first
    /// `sent_count` blocks; what it did not accept goes back into the queue.
    pub fn finish_flush(
        &mut self,
        batch: Vec<QueuedBlock>,
        sent_count: usize,
        now: u128,
    ) -> (r: Option<FlushReport>)
        requires
            old(self).wf(),
            old(self).queue.took(batch@),
            sent_count <= batch@.len(),
            batch@.len() > 0,
        ensures
            final(self).wf(),
            final(self).same_identity(old(self)),
            final(self).numbering == old(self).numbering,
            final(self).last_verified_go_index == old(self).last_verified_go_index,
            final(self).queue.next_expected == old(self).queue.next_expected + sent_count,
            final(self).queue.buffer@ == with_blocks(
                old(self).queue.buffer@,
                batch@.skip(sent_count as int),
            ),
            is_trimmed(
                old(self).queue.sent@.union(
                    index_range(
                        old(self).queue.next_expected as int,
                        old(self).queue.next_expected + sent_count,
                    ),
                ),
                final(self).queue.sent@,
                MAX_SENT_INDICES as nat,
            ),
            sent_count == 0 ==> final(self).send_breaker == old(
                self,
            ).send_breaker.spec_after_failure(now),
            sent_count > 0 ==> final(self).send_breaker.failures == 0
                && final(self).send_breaker.open_until is None,
            final(self).go_lag == match old(self).go_lag {
                Some(lag) if sent_count > 0 => Some(
                    max_u64(lag, final(self).queue.buffer@.len() as u64),
                ),
                other => other,
            },
            r is Some <==> sent_count > 0,
            r matches Some(report) ==> {
                &&& report.sent@ == batch@.take(sent_count as int)
                &&& report.last_index == old(self).queue.next_expected + sent_count - 1
                &&& report.last_commit_index == batch@[sent_count - 1].block.commit_index
                &&& report.persist_due == (report.last_index % send_queue::PERSIST_INTERVAL == 0
                    || batch@.len() > 1)
            },
    {
        if sent_count < batch.len() {
            self.send_breaker.record_failure(now);
        }
        if sent_count > 0 {
            self.send_breaker.record_success();
        }
        let report = self.queue.finish_batch(batch, sent_count);
        if sent_count > 0 {
            let waiting: u64 = self.queue.buffer.len() as u64;
            if let Some(lag) = self.go_lag {
                if waiting > lag {
                    self.go_lag = Some(waiting);
                }
            }
        }
        report
    }

    /// Whether the engine's position is to be verified after sending `last_index`.
    pub fn verification_due(last_index: u64) -> (r: bool)
        ensures
            r == (last_index % GO_VERIFICATION_INTERVAL == 0),
    {
        last_index % GO_VERIFICATION_INTERVAL == 0
    }

    /// Compares the block number that the engine reported after `last_index` was sent with the one
    /// it reported before. Returns whether it went backwards, which means that the engine lost
    /// blocks or forked.
    pub fn record_verification(&mut self, last_index: u64, go_last_block: u64) -> (regressed: bool)
        ensures
            regressed == (go_last_block < old(self).last_verified_go_index),
            final(self).last_verified_go_index == go_last_block,
            final(self).go_lag == match old(self).go_lag {
                Some(_) => Some(
                    if last_index >= go_last_block {
                        (last_index - go_last_block) as u64
                    } else {
                        0
                    },
                ),
                None => None,
            },
            final(self).same_identity(old(self)),
            final(self).queue == old(self).queue,
            final(self).numbering == old(self).numbering,
            final(self).send_breaker == old(self).send_breaker,
    {
        let regressed = go_last_block < self.last_verified_go_index;
        self.last_verified_go_index = go_last_block;
        if self.go_lag.is_some() {
            self.go_lag = Some(last_index.saturating_sub(go_last_block));
        }
        regressed
    }

    // -----------------------------------------------------------------------------------------
    // Initialisation
    // -----------------------------------------------------------------------------------------

    /// Takes over the engine's epoch; an unknown epoch counts as 0.
    pub fn initialize_epoch(&mut self, go_epoch: Option<u64>)
        ensures
            final(self).numbering.last_processed_epoch == match go_epoch {
                Some(e) => e,
                None => 0,
            },
            final(self).numbering.next_block_number == old(self).numbering.next_block_number,
            final(self).same_identity(old(self)),
            final(self).queue == old(self).queue,
            final(self).send_breaker == old(self).send_breaker,
            final(self).go_lag == old(self).go_lag,
            final(self).last_verified_go_index == old(self).last_verified_go_index,
    {
        self.numbering.last_processed_epoch = match go_epoch {
            Some(e) => e,
            None => 0,
        };
    }

    /// Takes over the engine's position. An engine that is ahead has executed what it is ahead by:
    /// the queue moves past it and drops the blocks that are no longer needed. Behind an engine
    /// that is behind, the queue stays where it is: it waits for commits the engine has not seen.
    pub fn initialize_position(&mut self, position: ExecutorPosition)
        requires
            old(self).wf(),
            position.last_block_number < u64::MAX,
            position.last_global_exec_index < u64::MAX,
        ensures
            final(self).wf(),
            final(self).same_identity(old(self)),
            final(self).send_breaker == old(self).send_breaker,
            final(self).go_lag == old(self).go_lag,
            final(self).last_verified_go_index == old(self).last_verified_go_index,
            final(self).numbering.last_processed_epoch == old(self).numbering.last_processed_epoch,
            final(self).numbering.next_block_number == position.last_block_number + 1,
            final(self).queue.sent@ == old(self).queue.sent@,
            final(self).queue.next_expected == max_u64(
                old(self).queue.next_expected,
                (position.last_global_exec_index + 1) as u64,
            ),
            final(self).queue.buffer@.submap_of(old(self).queue.buffer@),
            forall|k: u64| #[trigger]
                final(self).queue.buffer@.contains_key(k) <==> old(
                    self,
                ).queue.buffer@.contains_key(k) && (position.last_global_exec_index + 1 > old(
                    self,
                ).queue.next_expected ==> k > position.last_global_exec_index),
    {
        self.numbering.next_block_number = position.last_block_number + 1;
        let go_next_expected: u64 = position.last_global_exec_index + 1;
        if go_next_expected > self.queue.next_expected {
            self.queue.next_expected = go_next_expected;
            self.queue.drop_below(go_next_expected);
        }
    }
}

/// What a send failure does: it is counted, and from the third in a row on the circuit is open for
/// ten seconds from then.
pub proof fn law_what_a_send_failure_does(b: SendCircuitBreaker, now: u128)
    requires
        b.failures < u32::MAX,
        now <= u128::MAX - 10_000_000_000,
    ensures
        ({
            let next = b.spec_after_failure(now);
            &&& next.failures == b.failures + 1
            &&& next.failures >= 3 ==> next.open_until == Some((now + 10_000_000_000) as u128)
            &&& next.failures < 3 ==> next.open_until == b.open_until
        }),
{
}

/// The send circuit rejects blocks exactly before the time until which it is open, and says how many
/// whole seconds that still is.
pub proof fn law_when_the_send_circuit_rejects(b: SendCircuitBreaker, now: u128)
    ensures
        b.is_open(now) <==> b.open_until is Some && now < b.open_until->0,
        b.is_open(now) && b.open_until->0 - now < 1_000_000_000 ==> b.remaining_secs(now) == 0,
        b.is_open(now) && 9_000_000_000 <= b.open_until->0 - now < 10_000_000_000
            ==> b.remaining_secs(now) == 9,
{
}

/// Of two numbers the greater one is one of them and not below either.
pub proof fn law_the_greater_number(a: u64, b: u64)
    ensures
        max_u64(a, b) >= a,
        max_u64(a, b) >= b,
        max_u64(a, b) == a || max_u64(a, b) == b,
{
}

/// What stays the same of a client in all that concerns its queue.
pub proof fn law_what_a_client_keeps(a: ExecutorClient, b: ExecutorClient)
    requires
        a.same_identity(&b),
    ensures
        a.socket_path == b.socket_path,
        a.request_socket_path == b.request_socket_path,
        a.enabled == b.enabled,
        a.can_commit == b.can_commit,
        a.storage_path == b.storage_path,
        a.rpc_circuit_breaker == b.rpc_circuit_breaker,
        GO_VERIFICATION_INTERVAL == 100,
{
}

/// An engine that is ready says where to start; one that is loading is asked again. Only if it
/// cannot be reached do the persisted numbers count, and only if both are there.
pub proof fn law_where_to_start(
    reply: PositionReply,
    block: Option<u64>,
    gei: Option<u64>,
    step: InitStep,
)
    requires
        call_ensures(next_init_step, (reply, block, gei), step),
    ensures
        reply is Ready ==> step == InitStep::StartFrom(reply->Ready_0),
        reply is Loading <==> step is AskAgain,
        reply is Unavailable && block is Some && gei is Some ==> (step matches InitStep::StartFrom(p)
            && block == Some(p.last_block_number) && gei == Some(p.last_global_exec_index)),
        reply is Unavailable && (block is None || gei is None) ==> step is KeepCurrent,
{
}

} // verus!
