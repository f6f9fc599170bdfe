//! Batches of transactions that clients hand in.
//!
//! A batch is a protobuf message whose field 1 repeats the transactions. It is taken apart here,
//! and [`BatchSubmission`] decides what to do with it while the node may be changing epochs.

use vstd::prelude::*;
use vstd::slice::slice_subrange;

use crate::chunks::{chunk_end, chunk_ranges, chunk_start};
use crate::deps::{base128_value, continuation_run, decode_varint, varint_consumed, varint_ok};
use crate::node::executor_client::persistence::{law_uvarint_round_trip, uvarint};
use crate::text::{
    chars_of, find, first_occurrence, law_search_finds_the_first_place,
    law_search_finds_what_is_there,
};

verus! {

// ---------------------------------------------------------------------------------------------
// Taking a batch apart
// ---------------------------------------------------------------------------------------------

/// The value of the varint at the start of `s`.
pub open spec fn varint_value(s: Seq<u8>) -> nat {
    base128_value(s.take(continuation_run(s) as int + 1))
}

/// `s` behind the varint at its start.
pub open spec fn after_varint(s: Seq<u8>) -> Seq<u8> {
    s.skip(varint_consumed(s) as int)
}

/// `s` without its first `n` bytes, or nothing if it is shorter.
pub open spec fn skip_up_to(s: Seq<u8>, n: nat) -> Seq<u8> {
    if n <= s.len() {
        s.skip(n as int)
    } else {
        Seq::empty()
    }
}

/// The payloads of all length-delimited fields with number 1 in a protobuf message, in order, or
/// `None` if the message is malformed. Other fields are skipped; a field that the end of the
/// message cuts off is tolerated unless it is length-delimited with number 1.
pub open spec fn extract_spec(s: Seq<u8>) -> Option<Seq<Seq<u8>>>
    decreases s.len(),
{
    if s.len() == 0 {
        Some(Seq::empty())
    } else if !varint_ok(s) {
        None
    } else {
        let tag = varint_value(s);
        let body = after_varint(s);
        proof {
            lemma_run_bound(s);
            lemma_run_bound(body);
        }
        let wire_type = tag % 8;
        if tag / 8 == 1 && wire_type == 2 {
            let len = varint_value(body);
            let rest = after_varint(body);
            if varint_ok(body) && len <= rest.len() {
                prepended(seq![rest.take(len as int)], extract_spec(rest.skip(len as int)))
            } else {
                None
            }
        } else if wire_type == 0 {
            extract_spec(after_varint(body))
        } else if wire_type == 1 {
            extract_spec(skip_up_to(body, 8))
        } else if wire_type == 2 {
            if varint_ok(body) {
                extract_spec(skip_up_to(after_varint(body), varint_value(body)))
            } else {
                None
            }
        } else if wire_type == 5 {
            extract_spec(skip_up_to(body, 4))
        } else {
            None
        }
    }
}

/// `found` in front of what `rest` holds.
pub open spec fn prepended(
    found: Seq<Seq<u8>>,
    rest: Option<Seq<Seq<u8>>>,
) -> Option<Seq<Seq<u8>>> {
    match rest {
        Some(r) => Some(found + r),
        None => None,
    }
}

/// A run is no longer than what it is a run of.
pub proof fn lemma_run_bound(s: Seq<u8>)
    ensures
        continuation_run(s) <= s.len(),
    decreases s.len(),
{
    if s.len() > 0 && s[0] >= 0x80 {
        lemma_run_bound(s.skip(1));
    }
}

/// A batch that is malformed or holds no transaction.
#[derive(Clone, Copy, Debug, PartialEq, Eq, Structural)]
pub struct MalformedBatch;

/// The contents of a list of byte vectors.
pub open spec fn contents(v: Seq<Vec<u8>>) -> Seq<Seq<u8>> {
    v.map_values(|x: Vec<u8>| x@)
}

fn skip_bytes(s: &[u8], n: u64) -> (r: &[u8])
    ensures
        r@ == skip_up_to(s@, n as nat),
{
    if n <= s.len() as u64 {
        let r = slice_subrange(s, n as usize, s.len());
        assert(r@ =~= s@.skip(n as int));
        r
    } else {
        let r = slice_subrange(s, s.len(), s.len());
        assert(r@ =~= Seq::<u8>::empty());
        r
    }
}

/// Takes a batch apart into its transactions.
pub fn extract_transactions(data: &[u8]) -> (r: Result<Vec<Vec<u8>>, MalformedBatch>)
    ensures
        match r {
            Ok(txs) => extract_spec(data@) == Some(contents(txs@)) && txs@.len() > 0,
            Err(_) => extract_spec(data@) is None || extract_spec(data@) == Some(
                Seq::<Seq<u8>>::empty(),
            ),
        },
{
    let mut txs: Vec<Vec<u8>> = Vec::new();
    let mut rest: &[u8] = data;
    proof {
        assert(contents(txs@) =~= Seq::<Seq<u8>>::empty());
        match extract_spec(data@) {
            Some(r) => {
                assert(Seq::<Seq<u8>>::empty() + r =~= r);
            },
            None => {},
        }
    }
    while rest.len() > 0
        invariant
            extract_spec(data@) == prepended(contents(txs@), extract_spec(rest@)),
        decreases rest@.len(),
    {
        let ghost s = rest@;
        proof {
            lemma_run_bound(s);
        }
        let (tag_result, body) = decode_varint(rest);
        let tag: u64 = match tag_result {
            Ok(tag) => tag,
            Err(_) => {
                return Err(MalformedBatch);
            },
        };
        proof {
            lemma_run_bound(body@);
            assert(body@ == after_varint(s));
        }
        let field_number: u64 = tag / 8;
        let wire_type: u64 = tag % 8;
        if field_number == 1 && wire_type == 2 {
            let (len_result, payload) = decode_varint(body);
            let len: u64 = match len_result {
                Ok(len) => len,
                Err(_) => {
                    return Err(MalformedBatch);
                },
            };
            if len > payload.len() as u64 {
                return Err(MalformedBatch);
            }
            let tx_slice = slice_subrange(payload, 0, len as usize);
            let mut tx: Vec<u8> = Vec::new();
            tx.extend_from_slice(tx_slice);
            let ghost before = txs@;
            txs.push(tx);
            rest = slice_subrange(payload, len as usize, payload.len());
            proof {
                assert(tx@ =~= payload@.take(len as int));
                assert(rest@ =~= payload@.skip(len as int));
                assert(contents(txs@) =~= contents(before).push(tx@));
                match extract_spec(rest@) {
                    Some(r) => {
                        assert(contents(before) + (seq![tx@] + r) =~= contents(txs@) + r);
                    },
                    None => {},
                }
            }
        } else if wire_type == 0 {
            let (_, after) = decode_varint(body);
            rest = after;
        } else if wire_type == 1 {
            rest = skip_bytes(body, 8);
        } else if wire_type == 2 {
            let (len_result, payload) = decode_varint(body);
            match len_result {
                Ok(len) => {
                    rest = skip_bytes(payload, len);
                },
                Err(_) => {
                    return Err(MalformedBatch);
                },
            }
        } else if wire_type == 5 {
            rest = skip_bytes(body, 4);
        } else {
            return Err(MalformedBatch);
        }
    }
    proof {
        assert(extract_spec(rest@) == Some(Seq::<Seq<u8>>::empty()));
        assert(contents(txs@) + Seq::<Seq<u8>>::empty() =~= contents(txs@));
    }
    if txs.len() == 0 {
        assert(contents(txs@) =~= Seq::<Seq<u8>>::empty());
        return Err(MalformedBatch);
    }
    Ok(txs)
}

/// A batch of transactions as a client encodes it: the tag of field 1, the length, and the bytes of
/// each.
pub open spec fn encode_batch(txs: Seq<Seq<u8>>) -> Seq<u8>
    decreases txs.len(),
{
    if txs.len() == 0 {
        Seq::empty()
    } else {
        seq![0x0Au8] + (uvarint(txs[0].len()) + (txs[0] + encode_batch(txs.skip(1))))
    }
}

/// Taking apart a batch that a client encoded gives back its transactions, in order.
pub proof fn law_batch_round_trip(txs: Seq<Seq<u8>>)
    requires
        forall|i: int| 0 <= i < txs.len() ==> (#[trigger] txs[i]).len() <= u64::MAX,
    ensures
        extract_spec(encode_batch(txs)) == Some(txs),
    decreases txs.len(),
{
    if txs.len() == 0 {
        assert(txs =~= Seq::<Seq<u8>>::empty());
    } else {
        let first = txs[0];
        let others = txs.skip(1);
        assert forall|i: int| 0 <= i < others.len() implies (#[trigger] others[i]).len()
            <= u64::MAX by {
            assert(others[i] == txs[i + 1]);
        }
        law_batch_round_trip(others);
        let tail = first + encode_batch(others);
        let n = first.len() as u64;
        let body = uvarint(first.len()) + tail;
        let s = seq![0x0Au8] + body;
        assert(encode_batch(txs) == s);
        // The tag.
        assert(s[0] == 0x0Au8);
        assert(continuation_run(s) == 0);
        assert(s.take(1) =~= seq![0x0Au8]);
        assert(seq![0x0Au8].skip(1) =~= Seq::<u8>::empty());
        assert(base128_value(seq![0x0Au8].skip(1)) == 0);
        assert(base128_value(seq![0x0Au8]) == 10);
        assert(s.skip(1) =~= body);
        // The length.
        law_uvarint_round_trip(n, tail);
        assert(body.skip(uvarint(first.len()).len() as int) =~= tail);
        assert(after_varint(body) == tail);
        assert(varint_value(body) == n);
        // The bytes.
        assert(tail.take(n as int) =~= first);
        assert(tail.skip(n as int) =~= encode_batch(others));
        assert(seq![first] + others =~= txs);
    }
}

// ---------------------------------------------------------------------------------------------
// Submitting a batch
// ---------------------------------------------------------------------------------------------

/// The most transactions that are submitted at once.
pub const MAX_BUNDLE_SIZE: usize = 60000;

/// How often a batch is retried while the node changes epochs.
pub const MAX_TRANSITION_RETRIES: u32 = 120;

/// How often a batch is retried while the node starts up.
pub const MAX_STARTUP_RETRIES: u32 = 300;

/// The wait between two tries.
pub const SUBMIT_RETRY_WAIT_MS: u64 = 1000;

/// Cuts a batch of `total` transactions into bundles: the half-open ranges of their positions.
pub fn bundle_ranges(total: usize) -> (r: Vec<(usize, usize)>)
    requires
        total > 0,
        total + MAX_BUNDLE_SIZE <= usize::MAX,
    ensures
        r@.len() > 0,
        chunk_start(r@.len() - 1, MAX_BUNDLE_SIZE as int) < total <= chunk_start(
            r@.len() as int,
            MAX_BUNDLE_SIZE as int,
        ),
        forall|i: int|
            0 <= i < r@.len() ==> (#[trigger] r@[i]).0 == chunk_start(i, MAX_BUNDLE_SIZE as int)
                && r@[i].1 == chunk_end(i, MAX_BUNDLE_SIZE as int, total as int),
{
    chunk_ranges(total, MAX_BUNDLE_SIZE)
}

/// What the node says of taking transactions now.
#[derive(Clone, Copy, Debug, PartialEq, Eq, Structural)]
pub enum NodeCheck {
    /// There is no node to ask, or it is busy and not changing epochs: go on.
    NotAsked,
    /// The node is busy changing epochs.
    BusyInTransition,
    /// Transactions are to be queued for the next epoch.
    Queue,
    /// Transactions are accepted.
    Accept,
    /// Transactions are refused because the node is still starting up.
    StartingUp,
    /// Transactions are refused.
    Refuse,
}

/// What the answer of the node stands for: whether it takes transactions, whether they are to be
/// queued, and why.
pub open spec fn check_for(
    should_accept: bool,
    should_queue: bool,
    reason: Seq<char>,
) -> NodeCheck {
    if should_queue {
        NodeCheck::Queue
    } else if should_accept {
        NodeCheck::Accept
    } else if first_occurrence(reason, "Node is still initializing"@) is Some {
        NodeCheck::StartingUp
    } else {
        NodeCheck::Refuse
    }
}

/// What the answer of the node stands for.
pub fn node_check_of(should_accept: bool, should_queue: bool, reason: &str) -> (check: NodeCheck)
    ensures
        check == check_for(should_accept, should_queue, reason@),
{
    if should_queue {
        return NodeCheck::Queue;
    }
    if should_accept {
        return NodeCheck::Accept;
    }
    let text = chars_of(reason);
    let mark = chars_of("Node is still initializing");
    if find(text.as_slice(), mark.as_slice()).is_some() {
        NodeCheck::StartingUp
    } else {
        NodeCheck::Refuse
    }
}

/// What is to be done with a batch.
#[derive(Clone, Copy, Debug, PartialEq, Eq, Structural)]
pub enum BatchAction {
    /// Ask whether the node takes transactions.
    AskNode,
    /// Submit the bundles.
    Submit,
    /// Put the batch into the queue for the next epoch. It is settled.
    Queue,
    /// Wait, and start over with the transition flag.
    Wait { ms: u64 },
    /// The batch is refused. It is settled.
    Refuse,
    /// The batch was retried too often and is dropped. It is settled.
    Drop,
    /// The batch was submitted. It is settled.
    Finish,
}

/// A batch on its way into consensus.
#[derive(Clone, Copy, Debug, PartialEq, Eq, Structural)]
pub struct BatchSubmission {
    /// How often the batch was retried.
    pub attempts: u32,
}

/// The action after one more failed try, of which `limit` are allowed.
pub open spec fn retry_action(attempts: u32, limit: u32) -> BatchAction {
    if attempts >= limit {
        BatchAction::Drop
    } else {
        BatchAction::Wait { ms: SUBMIT_RETRY_WAIT_MS }
    }
}

/// One more try.
pub open spec fn one_more(attempts: u32) -> u32 {
    if attempts < u32::MAX {
        (attempts + 1) as u32
    } else {
        u32::MAX
    }
}

impl BatchSubmission {
    /// A batch that has not been tried yet.
    pub fn new() -> (b: BatchSubmission)
        ensures
            b.attempts == 0,
    {
        BatchSubmission { attempts: 0 }
    }

    fn retry(&mut self, limit: u32) -> (action: BatchAction)
        ensures
            final(self).attempts == one_more(old(self).attempts),
            action == retry_action(one_more(old(self).attempts), limit),
    {
        self.attempts = self.attempts.saturating_add(1);
        if self.attempts >= limit {
            BatchAction::Drop
        } else {
            BatchAction::Wait { ms: SUBMIT_RETRY_WAIT_MS }
        }
    }

    /// Starts a try: while the node changes epochs the batch waits.
    pub fn begin(&mut self, transitioning: bool) -> (action: BatchAction)
        ensures
            transitioning ==> final(self).attempts == one_more(old(self).attempts) && action
                == retry_action(one_more(old(self).attempts), MAX_TRANSITION_RETRIES),
            !transitioning ==> *final(self) == *old(self) && action == BatchAction::AskNode,
    {
        if transitioning {
            self.retry(MAX_TRANSITION_RETRIES)
        } else {
            BatchAction::AskNode
        }
    }

    /// Goes on with what the node said.
    pub fn on_node_check(&mut self, check: NodeCheck) -> (action: BatchAction)
        ensures
            final(self).attempts == if check is BusyInTransition || check is StartingUp {
                one_more(old(self).attempts)
            } else {
                old(self).attempts
            },
            action == match check {
                NodeCheck::NotAsked | NodeCheck::Accept => BatchAction::Submit,
                NodeCheck::BusyInTransition => BatchAction::Wait { ms: SUBMIT_RETRY_WAIT_MS },
                NodeCheck::Queue => BatchAction::Queue,
                NodeCheck::StartingUp => retry_action(
                    one_more(old(self).attempts),
                    MAX_STARTUP_RETRIES,
                ),
                NodeCheck::Refuse => BatchAction::Refuse,
            },
    {
        match check {
            NodeCheck::NotAsked | NodeCheck::Accept => BatchAction::Submit,
            NodeCheck::BusyInTransition => {
                self.attempts = self.attempts.saturating_add(1);
                BatchAction::Wait { ms: SUBMIT_RETRY_WAIT_MS }
            },
            NodeCheck::Queue => BatchAction::Queue,
            NodeCheck::StartingUp => self.retry(MAX_STARTUP_RETRIES),
            NodeCheck::Refuse => BatchAction::Refuse,
        }
    }

    /// Goes on after the bundles were submitted. If any of them failed, the batch is retried.
    pub fn on_submitted(&mut self, all_succeeded: bool) -> (action: BatchAction)
        ensures
            all_succeeded ==> *final(self) == *old(self) && action == BatchAction::Finish,
            !all_succeeded ==> final(self).attempts == one_more(old(self).attempts) && action
                == retry_action(one_more(old(self).attempts), MAX_TRANSITION_RETRIES),
    {
        if all_succeeded {
            BatchAction::Finish
        } else {
            self.retry(MAX_TRANSITION_RETRIES)
        }
    }
}

/// A submission error that comes from the node changing its role or shutting down. The bundles
/// behind it are not tried; after any other error they are.
pub open spec fn is_context_loss(error: Seq<char>) -> bool {
    ||| first_occurrence(error, "SyncOnly"@) is Some
    ||| first_occurrence(error, "shutting down"@) is Some
    ||| first_occurrence(error, "channel closed"@) is Some
}

/// Whether a submission error stops the submission of further bundles.
pub fn stops_submission(error: &str) -> (r: bool)
    ensures
        r == is_context_loss(error@),
{
    let text = chars_of(error);
    let s = text.as_slice();
    find(s, chars_of("SyncOnly").as_slice()).is_some() || find(
        s,
        chars_of("shutting down").as_slice(),
    ).is_some() || find(s, chars_of("channel closed").as_slice()).is_some()
}

/// What to do about the bundles of a batch.
#[derive(Clone, Copy, Debug, PartialEq, Eq, Structural)]
pub enum BundleAction {
    /// Submit this bundle.
    Submit { bundle: usize },
    /// The submission is over.
    Finish { all_succeeded: bool },
}

/// The submission of the bundles of a batch, one after the other.
#[derive(Clone, Copy, Debug, PartialEq, Eq, Structural)]
pub struct BundleRun {
    pub count: usize,
    /// The bundle that is being submitted.
    pub next: usize,
    /// Whether all bundles so far were taken.
    pub all_succeeded: bool,
}

/// The error of a bundle stops the submission.
pub open spec fn stops_on(error: Option<&str>) -> bool {
    error matches Some(e) && is_context_loss(e@)
}

impl BundleRun {
    /// A bundle is being submitted.
    pub open spec fn is_running(&self) -> bool {
        self.next < self.count
    }

    /// Starts with the first bundle.
    pub fn start(count: usize) -> (r: (BundleRun, BundleAction))
        ensures
            r.0 == (BundleRun { count, next: 0, all_succeeded: true }),
            r.1 == if count > 0 {
                BundleAction::Submit { bundle: 0 }
            } else {
                BundleAction::Finish { all_succeeded: true }
            },
    {
        let run = BundleRun { count, next: 0, all_succeeded: true };
        if count > 0 {
            (run, BundleAction::Submit { bundle: 0 })
        } else {
            (run, BundleAction::Finish { all_succeeded: true })
        }
    }

    /// Goes on after a bundle that was taken, or refused with an error. The submission is over
    /// behind the last bundle, and behind an error that comes from the node changing its role.
    pub fn on_bundle(&mut self, error: Option<&str>) -> (action: BundleAction)
        requires
            old(self).is_running(),
        ensures
            final(self).count == old(self).count,
            final(self).all_succeeded == (old(self).all_succeeded && error is None),
            final(self).next == if stops_on(error) {
                old(self).count
            } else {
                (old(self).next + 1) as usize
            },
            action == if final(self).is_running() {
                BundleAction::Submit { bundle: final(self).next }
            } else {
                BundleAction::Finish { all_succeeded: final(self).all_succeeded }
            },
    {
        let stop = match error {
            Some(e) => {
                self.all_succeeded = false;
                stops_submission(e)
            },
            None => false,
        };
        self.next = if stop {
            self.count
        } else {
            self.next + 1
        };
        if self.next < self.count {
            BundleAction::Submit { bundle: self.next }
        } else {
            BundleAction::Finish { all_succeeded: self.all_succeeded }
        }
    }
}

/// A transaction in field 1 is taken out whole, and stands in front of what follows; if what
/// follows is malformed, or the bytes end too early, the whole batch is.
pub proof fn law_a_transaction_is_taken_out_whole(tx: Seq<u8>, rest: Seq<u8>, missing: Seq<u8>)
    requires
        tx.len() + missing.len() <= u64::MAX,
    ensures
        extract_spec(seq![0x0Au8] + (uvarint(tx.len()) + (tx + rest))) == match extract_spec(rest) {
            Some(others) => Some(seq![tx] + others),
            None => None,
        },
        missing.len() > 0 ==> extract_spec(
            seq![0x0Au8] + (uvarint(tx.len() + missing.len()) + tx),
        ) is None,
{
    assert(uvarint(10) =~= seq![0x0Au8]);
    lemma_field(0x0A, uvarint(tx.len()) + (tx + rest));
    lemma_field(0x0A, uvarint(tx.len() + missing.len()) + tx);
    law_uvarint_round_trip(tx.len() as u64, tx + rest);
    law_uvarint_round_trip((tx.len() + missing.len()) as u64, tx);
    assert((uvarint(tx.len()) + (tx + rest)).skip(uvarint(tx.len()).len() as int) =~= tx + rest);
    let short = uvarint(tx.len() + missing.len()) + tx;
    assert(short.skip(uvarint(tx.len() + missing.len()).len() as int) =~= tx);
    assert((tx + rest).take(tx.len() as int) =~= tx);
    assert((tx + rest).skip(tx.len() as int) =~= rest);
}

/// A tag is read as it was written, and the body stands behind it.
proof fn lemma_field(tag: u64, body: Seq<u8>)
    ensures
        (uvarint(tag as nat) + body).len() > 0,
        varint_ok(uvarint(tag as nat) + body),
        varint_value(uvarint(tag as nat) + body) == tag,
        after_varint(uvarint(tag as nat) + body) == body,
{
    law_uvarint_round_trip(tag, body);
    assert((uvarint(tag as nat) + body).skip(uvarint(tag as nat).len() as int) =~= body);
}

/// Fields of other kinds are passed over: numbers, four or eight bytes, and bytes in fields other
/// than 1. What stands behind them is taken apart as if they were not there.
pub proof fn law_other_fields_are_passed_over(
    tag: u64,
    number: u64,
    bytes: Seq<u8>,
    rest: Seq<u8>,
)
    requires
        bytes.len() <= u64::MAX,
    ensures
        tag % 8 == 0 ==> extract_spec(uvarint(tag as nat) + (uvarint(number as nat) + rest)) == extract_spec(
            rest,
        ),
        tag % 8 == 1 && bytes.len() == 8 ==> extract_spec(uvarint(tag as nat) + (bytes + rest))
            == extract_spec(rest),
        tag % 8 == 5 && bytes.len() == 4 ==> extract_spec(uvarint(tag as nat) + (bytes + rest))
            == extract_spec(rest),
        tag % 8 == 2 && tag != 10 ==> extract_spec(
            uvarint(tag as nat) + (uvarint(bytes.len()) + (bytes + rest)),
        ) == extract_spec(rest),
{
    lemma_field(tag, uvarint(number as nat) + rest);
    lemma_field(tag, bytes + rest);
    lemma_field(tag, uvarint(bytes.len()) + (bytes + rest));
    law_uvarint_round_trip(number, rest);
    law_uvarint_round_trip(bytes.len() as u64, bytes + rest);
    assert((uvarint(number as nat) + rest).skip(uvarint(number as nat).len() as int) =~= rest);
    assert((uvarint(bytes.len()) + (bytes + rest)).skip(uvarint(bytes.len()).len() as int) =~= bytes
        + rest);
    assert((bytes + rest).skip(bytes.len() as int) =~= rest);
}

/// A field of four or eight bytes, or of bytes in a field other than 1, that the end of the batch
/// cuts off is the end of the batch.
pub proof fn law_a_field_may_be_cut_off(tag: u64, bytes: Seq<u8>, len: u64)
    ensures
        tag % 8 == 1 && bytes.len() < 8 ==> extract_spec(uvarint(tag as nat) + bytes) == Some(
            Seq::<Seq<u8>>::empty(),
        ),
        tag % 8 == 5 && bytes.len() < 4 ==> extract_spec(uvarint(tag as nat) + bytes) == Some(
            Seq::<Seq<u8>>::empty(),
        ),
        tag % 8 == 2 && tag != 10 && bytes.len() < len ==> extract_spec(
            uvarint(tag as nat) + (uvarint(len as nat) + bytes),
        ) == Some(Seq::<Seq<u8>>::empty()),
{
    lemma_field(tag, bytes);
    lemma_field(tag, uvarint(len as nat) + bytes);
    law_uvarint_round_trip(len, bytes);
    assert((uvarint(len as nat) + bytes).skip(uvarint(len as nat).len() as int) =~= bytes);
    assert(extract_spec(Seq::empty()) == Some(Seq::<Seq<u8>>::empty()));
}

/// Groups, and kinds of field that do not exist, make a batch malformed; so does a tag that is no
/// varint.
pub proof fn law_unknown_fields_are_malformed(tag: u64, rest: Seq<u8>, s: Seq<u8>)
    ensures
        tag % 8 == 3 || tag % 8 == 4 || tag % 8 == 6 || tag % 8 == 7 ==> extract_spec(
            uvarint(tag as nat) + rest,
        ) is None,
        s.len() > 0 && !varint_ok(s) ==> extract_spec(s) is None,
        extract_spec(Seq::<u8>::empty()) == Some(Seq::<Seq<u8>>::empty()),
        tag % 8 == 2 && !varint_ok(rest) ==> extract_spec(uvarint(tag as nat) + rest) is None,
        tag % 8 == 0 && !varint_ok(rest) ==> extract_spec(uvarint(tag as nat) + rest) == extract_spec(
            rest.skip(varint_consumed(rest) as int),
        ),
{
    lemma_field(tag, rest);
}

/// Transactions are queued when the node says so, whatever else it says; otherwise they are taken
/// if it accepts them. A refusal is for good unless its reason is that the node is starting up.
pub proof fn law_what_the_node_answers(should_accept: bool, reason: Seq<char>)
    ensures
        check_for(should_accept, true, reason) == NodeCheck::Queue,
        check_for(true, false, reason) == NodeCheck::Accept,
        check_for(false, false, reason) == NodeCheck::StartingUp || check_for(false, false, reason)
            == NodeCheck::Refuse,
        check_for(false, false, reason) == NodeCheck::Refuse ==> forall|i: int|
            0 <= i <= reason.len() - "Node is still initializing"@.len() ==> #[trigger]
                reason.subrange(i, i + "Node is still initializing"@.len())
                    != "Node is still initializing"@,
{
    law_search_finds_the_first_place(reason, "Node is still initializing"@);
}

/// A node that refuses because it is starting up is asked again, whatever stands around the
/// reason.
pub proof fn law_starting_up_is_recognised(before: Seq<char>, after: Seq<char>)
    ensures
        check_for(false, false, before + "Node is still initializing"@ + after)
            == NodeCheck::StartingUp,
{
    law_search_finds_what_is_there(before, "Node is still initializing"@, after);
}

/// A batch waits a second between two tries, and is dropped with the try that reaches the limit.
pub proof fn law_how_often_a_batch_is_tried(attempts: u32, limit: u32)
    ensures
        attempts < limit ==> retry_action(attempts, limit) == (BatchAction::Wait { ms: 1000 }),
        attempts >= limit ==> retry_action(attempts, limit) == BatchAction::Drop,
        attempts < u32::MAX ==> one_more(attempts) == attempts + 1,
        one_more(u32::MAX) == u32::MAX,
        MAX_TRANSITION_RETRIES == 120,
        MAX_STARTUP_RETRIES == 300,
        MAX_BUNDLE_SIZE == 60000,
{
}

/// An error stops the submission if it speaks of a node that only follows, that shuts down, or of
/// a closed channel, and only those do.
pub proof fn law_which_errors_stop_a_submission(
    error: Seq<char>,
    before: Seq<char>,
    after: Seq<char>,
)
    ensures
        is_context_loss(before + "SyncOnly"@ + after),
        is_context_loss(before + "shutting down"@ + after),
        is_context_loss(before + "channel closed"@ + after),
        is_context_loss(error) ==> exists|i: int, j: int|
            0 <= i <= j <= error.len() && {
                let part = #[trigger] error.subrange(i, j);
                part == "SyncOnly"@ || part == "shutting down"@ || part == "channel closed"@
            },
{
    law_search_finds_what_is_there(before, "SyncOnly"@, after);
    law_search_finds_what_is_there(before, "shutting down"@, after);
    law_search_finds_what_is_there(before, "channel closed"@, after);
    law_search_finds_the_first_place(error, "SyncOnly"@);
    law_search_finds_the_first_place(error, "shutting down"@);
    law_search_finds_the_first_place(error, "channel closed"@);
}

/// A bundle that was taken never stops the submission, and it runs exactly while bundles are left.
pub proof fn law_when_a_submission_goes_on(run: BundleRun)
    ensures
        !stops_on(None),
        forall|error: &str| #[trigger] stops_on(Some(error)) <==> is_context_loss(error@),
        run.is_running() <==> run.next < run.count,
{
}

/// While the node changes epochs a batch waits a second at a time; with the 120th wait it is
/// dropped. Otherwise the node is asked.
pub proof fn law_batches_wait_for_the_next_epoch(
    b: &mut BatchSubmission,
    transitioning: bool,
    action: BatchAction,
)
    requires
        call_ensures(BatchSubmission::begin, (b, transitioning), action),
    ensures
        !transitioning ==> action is AskNode && final(b).attempts == old(b).attempts,
        transitioning && old(b).attempts < 119 ==> action == (BatchAction::Wait { ms: 1000 })
            && final(b).attempts == old(b).attempts + 1,
        transitioning && old(b).attempts >= 119 ==> action is Drop,
{
}

/// A batch is submitted if the node accepts it or was not asked, and put into the queue or refused
/// as the node says. While the node starts up or is busy the batch waits; with the 300th wait for
/// a start it is dropped.
pub proof fn law_batches_follow_what_the_node_says(
    b: &mut BatchSubmission,
    check: NodeCheck,
    action: BatchAction,
)
    requires
        call_ensures(BatchSubmission::on_node_check, (b, check), action),
    ensures
        check is NotAsked || check is Accept <==> action is Submit,
        check is Queue <==> action is Queue,
        check is Refuse <==> action is Refuse,
        check is BusyInTransition ==> action == (BatchAction::Wait { ms: 1000 }),
        check is StartingUp && old(b).attempts < 299 ==> action == (BatchAction::Wait { ms: 1000 }),
        check is StartingUp && old(b).attempts >= 299 ==> action is Drop,
        (check is BusyInTransition || check is StartingUp) && old(b).attempts < u32::MAX
            ==> final(b).attempts == old(b).attempts + 1,
        !(check is BusyInTransition || check is StartingUp) ==> final(b).attempts
            == old(b).attempts,
{
}

/// A batch is finished when all its bundles were taken; otherwise it is tried again, up to 120
/// times.
pub proof fn law_batches_are_tried_again(
    b: &mut BatchSubmission,
    all_succeeded: bool,
    action: BatchAction,
)
    requires
        call_ensures(BatchSubmission::on_submitted, (b, all_succeeded), action),
    ensures
        all_succeeded <==> action is Finish,
        !all_succeeded && old(b).attempts < 119 ==> action == (BatchAction::Wait { ms: 1000 })
            && final(b).attempts == old(b).attempts + 1,
        !all_succeeded && old(b).attempts >= 119 ==> action is Drop,
{
}

/// Bundles are submitted one after the other. The submission is over behind the last bundle, or
/// behind an error that stops it, and has succeeded only if no bundle failed.
pub proof fn law_bundles_are_submitted_in_turn(
    run: &mut BundleRun,
    error: Option<&str>,
    action: BundleAction,
)
    requires
        call_ensures(BundleRun::on_bundle, (run, error), action),
        old(run).next < old(run).count,
    ensures
        ({
            let stops = error is Some && is_context_loss(error->0@);
            let last = old(run).next + 1 == old(run).count;
            &&& stops || last ==> action == (BundleAction::Finish {
                all_succeeded: old(run).all_succeeded && error is None,
            })
            &&& !stops && !last ==> action == (BundleAction::Submit { bundle: final(run).next })
                && final(run).next == old(run).next + 1
            &&& final(run).all_succeeded == (old(run).all_succeeded && error is None)
        }),
{
}

/// A batch that a client encoded is taken apart into the transactions that went into it.
pub proof fn law_batches_are_taken_apart(
    txs: Seq<Seq<u8>>,
    data: &[u8],
    r: Result<Vec<Vec<u8>>, MalformedBatch>,
)
    requires
        call_ensures(extract_transactions, (data,), r),
        data@ == encode_batch(txs),
        forall|i: int| 0 <= i < txs.len() ==> (#[trigger] txs[i]).len() <= u64::MAX,
    ensures
        r is Ok <==> txs.len() > 0,
        r matches Ok(found) ==> found@.len() == txs.len() && forall|i: int|
            0 <= i < txs.len() ==> (#[trigger] found@[i])@ == txs[i],
{
    law_batch_round_trip(txs);
    if let Ok(found) = r {
        assert(contents(found@) == txs);
        assert forall|i: int| 0 <= i < txs.len() implies (#[trigger] found@[i])@ == txs[i] by {
            assert(contents(found@)[i] == found@[i]@);
        }
    }
}

} // verus!
