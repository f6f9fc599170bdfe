//! Asking other nodes.

use vstd::prelude::*;

use crate::chunks::{batch_end, batch_last};
use crate::deps::{decode_lossy, hex_bytes, hex_decode, hex_encode, hex_text, is_hex_text, lossy_text};
use crate::network::peer_rpc::types::SubmitTransactionResponse;
use crate::node::executor_client::rpc_queries::BlockData;
use crate::text::{
    chars_of, copy_str, decimal, decimal_string, find, first_occurrence,
    law_search_finds_the_first_place, law_search_finds_what_is_there, occurs_at, string_of,
};

verus! {

/// How many blocks are asked for at once. It is what a node answers with at most.
pub const FETCH_BATCH_SIZE: u64 = 5;

// ---------------------------------------------------------------------------------------------
// HTTP
// ---------------------------------------------------------------------------------------------

/// The text of a request for `target`.
pub open spec fn get_request_text(target: Seq<char>, host: Seq<char>) -> Seq<char> {
    "GET "@ + target + " HTTP/1.1\r\nHost: "@ + host + "\r\nConnection: close\r\n\r\n"@
}

/// A request for `target`.
pub fn get_request(target: &str, host: &str) -> (r: String)
    ensures
        r@ == get_request_text(target@, host@),
{
    let mut r = copy_str("GET ");
    r.append(target);
    r.append(" HTTP/1.1\r\nHost: ");
    r.append(host);
    r.append("\r\nConnection: close\r\n\r\n");
    r
}

/// A request for the boundary of an epoch.
pub fn epoch_boundary_request(epoch: u64, host: &str) -> (r: String)
    ensures
        r@ == get_request_text("/get_epoch_boundary_data?epoch="@ + decimal(epoch as nat), host@),
{
    let mut target = copy_str("/get_epoch_boundary_data?epoch=");
    let n = decimal_string(epoch);
    target.append(n.as_str());
    get_request(target.as_str(), host)
}

/// A request for blocks.
pub fn blocks_request(from_block: u64, to_block: u64, host: &str) -> (r: String)
    ensures
        r@ == get_request_text(
            "/get_blocks?from="@ + decimal(from_block as nat) + "&to="@ + decimal(to_block as nat),
            host@,
        ),
{
    let mut target = copy_str("/get_blocks?from=");
    let from = decimal_string(from_block);
    target.append(from.as_str());
    target.append("&to=");
    let to = decimal_string(to_block);
    target.append(to.as_str());
    get_request(target.as_str(), host)
}

/// The headers of a request that submits a body of so many bytes.
pub open spec fn submit_headers(host: Seq<char>, body_len: nat) -> Seq<char> {
    "POST /submit_transaction HTTP/1.1\r\nHost: "@ + host
        + "\r\nContent-Type: application/json\r\nContent-Length: "@ + decimal(body_len)
}

/// The text of a request that submits transactions. The length of the body is in bytes.
pub open spec fn submit_request_text(
    host: Seq<char>,
    body_len: nat,
    body: Seq<char>,
) -> Seq<char> {
    submit_headers(host, body_len) + "\r\n\r\n"@ + body
}

/// A request that submits transactions. `body` is their JSON text.
pub fn submit_request(host: &str, body: &str) -> (r: String)
    ensures
        r@ == submit_request_text(host@, body.len() as nat, body@),
{
    let mut r = copy_str("POST /submit_transaction HTTP/1.1\r\nHost: ");
    r.append(host);
    r.append("\r\nContent-Type: application/json\r\nContent-Length: ");
    let len = decimal_string(body.len() as u64);
    r.append(len.as_str());
    r.append("\r\n\r\n");
    r.append(body);
    r
}

/// Where the body of a message starts: behind the first empty line, or at the start if there is
/// none.
pub open spec fn body_start(message: Seq<char>) -> int {
    match first_occurrence(message, "\r\n\r\n"@) {
        Some(i) => i + 4,
        None => match first_occurrence(message, "\n\n"@) {
            Some(i) => i + 2,
            None => 0,
        },
    }
}

/// The body of a message.
pub fn message_body(message: &str) -> (body: String)
    ensures
        body@ == message@.skip(body_start(message@)),
{
    let chars = chars_of(message);
    let s = chars.as_slice();
    let n: usize = s.len();
    let crlf = chars_of("\r\n\r\n");
    let lf = chars_of("\n\n");
    proof {
        reveal_strlit("\r\n\r\n");
        reveal_strlit("\n\n");
    }
    let start: usize = match find(s, crlf.as_slice()) {
        Some(i) => {
            assert(occurs_at(s@, crlf@, i as int));
            i + 4
        },
        None => match find(s, lf.as_slice()) {
            Some(i) => {
                assert(occurs_at(s@, lf@, i as int));
                i + 2
            },
            None => 0,
        },
    };
    let rest = vstd::slice::slice_subrange(s, start, n);
    assert(rest@ =~= message@.skip(start as int));
    string_of(rest)
}

/// The body of a message that came as bytes. Bytes that are not valid UTF-8 are replaced.
pub fn message_body_of_bytes(message: &[u8]) -> (body: String)
    ensures
        body@ == lossy_text(message@).skip(body_start(lossy_text(message@))),
{
    let text = decode_lossy(message);
    message_body(text.as_str())
}

/// Whether an answer reports success.
pub fn reports_success(answer: &str) -> (r: bool)
    ensures
        r == (first_occurrence(answer@, "200 OK"@) is Some),
{
    let chars = chars_of(answer);
    let ok = chars_of("200 OK");
    find(chars.as_slice(), ok.as_slice()).is_some()
}

/// The hexadecimal texts of transactions.
pub fn encode_transactions(tx_batch: &Vec<Vec<u8>>) -> (r: Vec<String>)
    ensures
        r@.len() == tx_batch@.len(),
        forall|i: int| 0 <= i < r@.len() ==> (#[trigger] r@[i])@ == hex_text(tx_batch@[i]@),
{
    let mut r: Vec<String> = Vec::new();
    let mut i: usize = 0;
    while i < tx_batch.len()
        invariant
            i <= tx_batch@.len(),
            r@.len() == i,
            forall|j: int| 0 <= j < i ==> (#[trigger] r@[j])@ == hex_text(tx_batch@[j]@),
        decreases tx_batch@.len() - i,
    {
        r.push(hex_encode(tx_batch[i].as_slice()));
        i = i + 1;
    }
    r
}

// ---------------------------------------------------------------------------------------------
// The best peer
// ---------------------------------------------------------------------------------------------

/// Where a peer stands.
#[derive(Clone, Copy, Debug, PartialEq, Eq, Structural)]
pub struct PeerStatus {
    pub epoch: u64,
    pub last_block: u64,
    pub last_global_exec_index: u64,
}

/// `a` is ahead of `b`: in a later epoch, or in the same epoch at a greater index.
pub open spec fn is_ahead(a: PeerStatus, b: PeerStatus) -> bool {
    a.epoch > b.epoch || a.epoch == b.epoch && a.last_global_exec_index > b.last_global_exec_index
}

/// `i` is the first of the peers that no other peer is ahead of.
pub open spec fn is_best_peer(statuses: Seq<Option<PeerStatus>>, i: int) -> bool {
    &&& 0 <= i < statuses.len()
    &&& statuses[i] is Some
    &&& forall|j: int|
        0 <= j < statuses.len() ==> (#[trigger] statuses[j] matches Some(s) ==> !is_ahead(
            s,
            statuses[i]->0,
        ))
    &&& forall|j: int|
        0 <= j < i ==> (#[trigger] statuses[j] matches Some(s) ==> is_ahead(statuses[i]->0, s))
}

/// The best of the peers that answered.
pub fn best_peer(statuses: &Vec<Option<PeerStatus>>) -> (r: Option<usize>)
    ensures
        match r {
            Some(i) => is_best_peer(statuses@, i as int),
            None => forall|j: int| 0 <= j < statuses@.len() ==> (#[trigger] statuses@[j]) is None,
        },
{
    let mut best: Option<usize> = None;
    let mut i: usize = 0;
    while i < statuses.len()
        invariant
            i <= statuses@.len(),
            match best {
                Some(b) => is_best_peer(statuses@.take(i as int), b as int),
                None => forall|j: int| 0 <= j < i ==> (#[trigger] statuses@[j]) is None,
            },
        decreases statuses@.len() - i,
    {
        let ghost before = best;
        let ghost seen = statuses@.take(i as int);
        let ghost now = statuses@.take(i + 1);
        if let Some(s) = statuses[i] {
            let better = match best {
                None => true,
                Some(b) => {
                    assert(seen[b as int] == statuses@[b as int]);
                    match statuses[b] {
                        Some(t) => s.epoch > t.epoch || (s.epoch == t.epoch
                            && s.last_global_exec_index > t.last_global_exec_index),
                        None => true,
                    }
                },
            };
            if better {
                best = Some(i);
            }
        }
        proof {
            assert(now[i as int] == statuses@[i as int]);
            assert forall|j: int| 0 <= j < i implies now[j] == seen[j] by {}
            match best {
                Some(b) => {
                    assert forall|j: int| 0 <= j < now.len() implies (
                    #[trigger] now[j] matches Some(s) ==> !is_ahead(s, now[b as int]->0)) by {
                        if j < i {
                            assert(now[j] == seen[j]);
                            assert(seen[j] == statuses@[j]);
                        }
                    }
                    assert forall|j: int| 0 <= j < b implies (#[trigger] now[j] matches Some(s)
                        ==> is_ahead(now[b as int]->0, s)) by {
                        assert(now[j] == seen[j]);
                        assert(seen[j] == statuses@[j]);
                    }
                    assert(is_best_peer(now, b as int));
                },
                None => {},
            }
        }
        i = i + 1;
    }
    assert(statuses@.take(i as int) =~= statuses@);
    best
}

// ---------------------------------------------------------------------------------------------
// Fetching blocks
// ---------------------------------------------------------------------------------------------

/// What to do next to fetch blocks.
#[derive(Clone, Copy, Debug, PartialEq, Eq, Structural)]
pub enum FetchAction {
    /// Ask this peer for these blocks.
    AskPeer { peer: usize, from: u64, to: u64 },
    /// There is nothing more to fetch, or no peer has it.
    Finish,
}

/// The blocks from `next` to `to` are still to be fetched.
#[derive(Debug)]
pub struct BlockFetch {
    pub peer_count: usize,
    /// The peer that is being asked.
    pub peer: usize,
    pub next: u64,
    pub to: u64,
    /// What has been fetched.
    pub blocks: Vec<BlockData>,
}

impl BlockFetch {
    pub open spec fn wf(&self) -> bool {
        self.peer < self.peer_count && self.next <= self.to
    }

    /// The question that is asked now.
    pub open spec fn question(&self) -> FetchAction {
        FetchAction::AskPeer {
            peer: self.peer,
            from: self.next,
            to: batch_end(self.next, self.to, FETCH_BATCH_SIZE),
        }
    }

    /// Starts fetching the blocks `from` to `to`. `None` if there are no peers; an empty range is
    /// finished at once.
    pub fn start(peer_count: usize, from: u64, to: u64) -> (r: Option<(BlockFetch, FetchAction)>)
        ensures
            r is None <==> peer_count == 0,
            r matches Some((f, a)) ==> {
                &&& f.peer_count == peer_count
                &&& f.peer == 0
                &&& f.next == from
                &&& f.to == to
                &&& f.blocks@.len() == 0
                &&& a == if from <= to {
                    f.question()
                } else {
                    FetchAction::Finish
                }
                &&& from <= to ==> f.wf()
            },
    {
        if peer_count == 0 {
            return None;
        }
        let fetch = BlockFetch { peer_count, peer: 0, next: from, to, blocks: Vec::new() };
        if from > to {
            return Some((fetch, FetchAction::Finish));
        }
        let end: u64 = batch_last(from, to, FETCH_BATCH_SIZE);
        Some((fetch, FetchAction::AskPeer { peer: 0, from, to: end }))
    }

    /// Goes on after an answer, which is `None` if the peer failed. A peer that failed, or had none
    /// of the blocks, is followed by the next one; when no peer is left, fetching ends with what
    /// there is. The next batch starts with the first peer again.
    pub fn on_answer(&mut self, answer: Option<Vec<BlockData>>) -> (action: FetchAction)
        requires
            old(self).wf(),
        ensures
            fetch_step(*old(self), answer, *final(self), action),
    {
        let end: u64 = batch_last(self.next, self.to, FETCH_BATCH_SIZE);
        let mut fetched = match answer {
            Some(blocks) => blocks,
            None => Vec::new(),
        };
        if fetched.len() > 0 {
            self.blocks.append(&mut fetched);
            if end == self.to {
                return FetchAction::Finish;
            }
            self.next = end + 1;
            self.peer = 0;
        } else if self.peer + 1 < self.peer_count {
            self.peer = self.peer + 1;
        } else {
            return FetchAction::Finish;
        }
        let to: u64 = batch_last(self.next, self.to, FETCH_BATCH_SIZE);
        FetchAction::AskPeer { peer: self.peer, from: self.next, to }
    }
}

/// A fetch goes from `before` to `after`, and on with `action`, when `answer` comes.
pub open spec fn fetch_step(
    before: BlockFetch,
    answer: Option<Vec<BlockData>>,
    after: BlockFetch,
    action: FetchAction,
) -> bool {
    let end = batch_end(before.next, before.to, FETCH_BATCH_SIZE);
    &&& after.peer_count == before.peer_count
    &&& after.to == before.to
    &&& match answer {
        Some(blocks) if blocks@.len() > 0 => {
            &&& after.blocks@ == before.blocks@ + blocks@
            &&& if end == before.to {
                after.next == before.next && after.peer == before.peer && action is Finish
            } else {
                &&& after.next == end + 1
                &&& after.peer == 0
                &&& after.wf()
                &&& action == after.question()
            }
        },
        _ => {
            &&& after.blocks@ == before.blocks@
            &&& after.next == before.next
            &&& if before.peer + 1 < before.peer_count {
                &&& after.peer == before.peer + 1
                &&& after.wf()
                &&& action == after.question()
            } else {
                after.peer == before.peer && action is Finish
            }
        },
    }
}

/// Fetching ends: each further question is about later blocks, or goes to a later peer.
pub proof fn law_fetch_terminates(
    before: BlockFetch,
    answer: Option<Vec<BlockData>>,
    after: BlockFetch,
    action: FetchAction,
)
    requires
        before.wf(),
        fetch_step(before, answer, after, action),
        action is AskPeer,
    ensures
        after.wf(),
        after.next > before.next || (after.next == before.next && after.peer > before.peer),
{
}

/// What a fetch has got is never given up, and grows by what the answer holds.
pub proof fn law_fetch_keeps_blocks(
    before: BlockFetch,
    answer: Option<Vec<BlockData>>,
    after: BlockFetch,
    action: FetchAction,
)
    requires
        before.wf(),
        fetch_step(before, answer, after, action),
    ensures
        after.blocks@ == before.blocks@ + match answer {
            Some(blocks) => blocks@,
            None => Seq::empty(),
        },
{
}

/// Decodes the hexadecimal texts of blocks. The error is the number of the first one that is not
/// hexadecimal.
pub fn decode_blocks(blocks: &Vec<(u64, String)>) -> (r: Result<Vec<Vec<u8>>, u64>)
    ensures
        r is Ok <==> forall|i: int| 0 <= i < blocks@.len() ==> is_hex_text(
            (#[trigger] blocks@[i]).1@,
        ),
        match r {
            Ok(v) => v@.len() == blocks@.len() && forall|i: int|
                0 <= i < v@.len() ==> (#[trigger] v@[i])@ == hex_bytes(blocks@[i].1@),
            Err(number) => exists|i: int|
                0 <= i < blocks@.len() && number == (#[trigger] blocks@[i]).0 && !is_hex_text(
                    blocks@[i].1@,
                ) && forall|j: int| 0 <= j < i ==> is_hex_text((#[trigger] blocks@[j]).1@),
        },
{
    let mut v: Vec<Vec<u8>> = Vec::new();
    let mut i: usize = 0;
    while i < blocks.len()
        invariant
            i <= blocks@.len(),
            v@.len() == i,
            forall|j: int| 0 <= j < i ==> is_hex_text((#[trigger] blocks@[j]).1@),
            forall|j: int| 0 <= j < i ==> (#[trigger] v@[j])@ == hex_bytes(blocks@[j].1@),
        decreases blocks@.len() - i,
    {
        match hex_decode(blocks[i].1.as_str()) {
            Ok(bytes) => {
                v.push(bytes);
            },
            Err(_) => {
                assert(!is_hex_text(blocks@[i as int].1@));
                return Err(blocks[i].0);
            },
        }
        i = i + 1;
    }
    Ok(v)
}

/// In ascending order of number.
pub open spec fn numbers_ascend(blocks: Seq<BlockData>) -> bool {
    forall|i: int, j: int|
        0 <= i <= j < blocks.len() ==> (#[trigger] blocks[i]).block_number <= (
        #[trigger] blocks[j]).block_number
}

/// The blocks with a certain number, in the order in which they stand.
pub open spec fn with_number(blocks: Seq<BlockData>, number: u64) -> Seq<BlockData> {
    blocks.filter(|b: BlockData| b.block_number == number)
}

proof fn lemma_with_number_concat(a: Seq<BlockData>, b: Seq<BlockData>, number: u64)
    ensures
        with_number(a + b, number) == with_number(a, number) + with_number(b, number),
{
    Seq::filter_distributes_over_add(a, b, |b: BlockData| b.block_number == number);
}

proof fn lemma_with_number_none(blocks: Seq<BlockData>, number: u64)
    requires
        forall|i: int| 0 <= i < blocks.len() ==> (#[trigger] blocks[i]).block_number != number,
    ensures
        with_number(blocks, number) == Seq::<BlockData>::empty(),
    decreases blocks.len(),
{
    reveal(Seq::filter);
    if blocks.len() > 0 {
        let rest = blocks.drop_last();
        assert forall|i: int| 0 <= i < rest.len() implies (#[trigger] rest[i]).block_number
            != number by {
            assert(rest[i] == blocks[i]);
        }
        lemma_with_number_none(rest, number);
        assert(blocks.last() == blocks[blocks.len() - 1]);
    }
}

/// A block that goes in front of all blocks with its number or a greater one comes first among
/// those with its number.
proof fn lemma_insert_in_front(sorted: Seq<BlockData>, at: int, block: BlockData, number: u64)
    requires
        0 <= at <= sorted.len(),
        forall|k: int| 0 <= k < at ==> (#[trigger] sorted[k]).block_number < block.block_number,
    ensures
        with_number(sorted.insert(at, block), number) == with_number(
            seq![block],
            number,
        ) + with_number(sorted, number),
{
    let front = sorted.take(at);
    let back = sorted.skip(at);
    let one = seq![block];
    assert(sorted =~= front + back);
    assert(sorted.insert(at, block) =~= front + (one + back));
    lemma_with_number_concat(front, back, number);
    lemma_with_number_concat(front, one + back, number);
    lemma_with_number_concat(one, back, number);
    if block.block_number == number {
        assert forall|i: int| 0 <= i < front.len() implies (#[trigger] front[i]).block_number
            != number by {
            assert(front[i] == sorted[i]);
        }
        lemma_with_number_none(front, number);
    } else {
        lemma_with_number_none(one, number);
    }
    assert(with_number(sorted.insert(at, block), number) =~= with_number(one, number)
        + with_number(sorted, number));
}

/// Sorts blocks by number. Blocks with the same number stay in their order.
pub fn sort_blocks(blocks: Vec<BlockData>) -> (r: Vec<BlockData>)
    ensures
        numbers_ascend(r@),
        forall|number: u64| #[trigger]
            with_number(r@, number) == with_number(blocks@, number),
{
    let ghost all = blocks@;
    let mut rest = blocks;
    let mut sorted: Vec<BlockData> = Vec::new();
    assert(all.skip(all.len() as int) =~= sorted@);
    while rest.len() > 0
        invariant
            numbers_ascend(sorted@),
            rest@.len() <= all.len(),
            rest@ == all.take(rest@.len() as int),
            forall|number: u64| #[trigger]
                with_number(sorted@, number) == with_number(all.skip(rest@.len() as int), number),
        decreases rest@.len(),
    {
        let ghost before = sorted@;
        let ghost left = rest@.len() - 1;
        if let Some(block) = rest.pop() {
            assert(rest@ =~= all.take(left));
            let mut at: usize = 0;
            while at < sorted.len() && sorted[at].block_number < block.block_number
                invariant
                    at <= sorted@.len(),
                    forall|k: int|
                        0 <= k < at ==> (#[trigger] sorted@[k]).block_number < block.block_number,
                decreases sorted@.len() - at,
            {
                at = at + 1;
            }
            sorted.insert(at, block);
            proof {
                let after = sorted@;
                assert forall|i: int, j: int| 0 <= i <= j < after.len() implies (
                #[trigger] after[i]).block_number <= (#[trigger] after[j]).block_number by {
                    if i > at {
                        assert(after[i] == before[i - 1] && after[j] == before[j - 1]);
                    } else if j > at {
                        assert(after[j] == before[j - 1]);
                        assert(before[at as int].block_number <= before[j - 1].block_number);
                        if i < at {
                            assert(after[i] == before[i]);
                        }
                    } else if j < at {
                        assert(after[i] == before[i] && after[j] == before[j]);
                    } else if i < at {
                        assert(after[i] == before[i]);
                    }
                }
                assert(all.skip(left) =~= seq![block] + all.skip(left + 1));
                assert forall|number: u64| #[trigger]
                    with_number(after, number) == with_number(all.skip(left), number) by {
                    lemma_insert_in_front(before, at as int, block, number);
                    lemma_with_number_concat(seq![block], all.skip(left + 1), number);
                    assert(with_number(before, number) == with_number(all.skip(left + 1), number));
                }
            }
        }
    }
    assert(all.skip(0) =~= all);
    sorted
}

// ---------------------------------------------------------------------------------------------
// Forwarding transactions
// ---------------------------------------------------------------------------------------------

/// What to do next to forward transactions.
#[derive(Debug)]
pub enum ForwardAction {
    /// Send them to this peer.
    AskPeer { peer: usize },
    /// A peer took them.
    Accepted(SubmitTransactionResponse),
    /// No peer took them.
    Fail,
}

/// Transactions are offered to one peer after the other until one takes them.
#[derive(Clone, Copy, Debug, PartialEq, Eq, Structural)]
pub struct Forwarding {
    pub peer_count: usize,
    pub peer: usize,
}

impl Forwarding {
    /// Starts with the first peer; without peers it fails.
    pub fn start(peer_count: usize) -> (r: (Forwarding, ForwardAction))
        ensures
            r.0.peer_count == peer_count,
            r.0.peer == 0,
            peer_count > 0 ==> r.1 == (ForwardAction::AskPeer { peer: 0 }),
            peer_count == 0 ==> r.1 is Fail,
    {
        (
            Forwarding { peer_count, peer: 0 },
            if peer_count > 0 {
                ForwardAction::AskPeer { peer: 0 }
            } else {
                ForwardAction::Fail
            },
        )
    }

    /// Goes on after a peer answered, or failed to. Only an answer that reports success ends the
    /// search.
    pub fn on_answer(&mut self, answer: Option<SubmitTransactionResponse>) -> (action:
        ForwardAction)
        requires
            old(self).peer < old(self).peer_count,
        ensures
            final(self).peer_count == old(self).peer_count,
            match answer {
                Some(a) if a.success => *final(self) == *old(self) && action
                    == ForwardAction::Accepted(a),
                _ => final(self).peer == old(self).peer + 1 && if old(self).peer + 1 < old(
                    self,
                ).peer_count {
                    action == (ForwardAction::AskPeer { peer: (old(self).peer + 1) as usize })
                } else {
                    action is Fail
                },
            },
    {
        if let Some(a) = answer {
            if a.success {
                return ForwardAction::Accepted(a);
            }
        }
        self.peer = self.peer + 1;
        if self.peer < self.peer_count {
            ForwardAction::AskPeer { peer: self.peer }
        } else {
            ForwardAction::Fail
        }
    }
}

/// A request names its target and the host, asks for the connection to be closed, and ends with an
/// empty line.
pub proof fn law_what_a_request_looks_like(target: Seq<char>, host: Seq<char>, body: Seq<char>, len: nat)
    ensures
        get_request_text(target, host) == "GET "@ + (target + (" HTTP/1.1\r\nHost: "@ + (host
            + "\r\nConnection: close\r\n\r\n"@))),
        submit_request_text(host, len, body) == "POST /submit_transaction HTTP/1.1\r\nHost: "@ + (
        host + ("\r\nContent-Type: application/json\r\nContent-Length: "@ + (decimal(len) + (
        "\r\n\r\n"@ + body)))),
{
    assert(get_request_text(target, host) =~= "GET "@ + (target + (" HTTP/1.1\r\nHost: "@ + (host
        + "\r\nConnection: close\r\n\r\n"@))));
    assert(submit_request_text(host, len, body) =~= "POST /submit_transaction HTTP/1.1\r\nHost: "@
        + (host + ("\r\nContent-Type: application/json\r\nContent-Length: "@ + (decimal(len) + (
    "\r\n\r\n"@ + body)))));
}

/// The body of a message is all that follows the first empty line.
pub proof fn law_the_body_follows_the_first_empty_line(head: Seq<char>, body: Seq<char>)
    requires
        forall|i: int|
            0 <= i < head.len() ==> #[trigger] (head + "\r\n\r\n"@ + body).subrange(i, i + 4)
                != "\r\n\r\n"@,
    ensures
        (head + "\r\n\r\n"@ + body).skip(body_start(head + "\r\n\r\n"@ + body)) == body,
{
    let message = head + "\r\n\r\n"@ + body;
    reveal_strlit("\r\n\r\n");
    assert(message.subrange(head.len() as int, head.len() as int + 4) =~= "\r\n\r\n"@);
    law_search_finds_the_first_place(message, "\r\n\r\n"@);
    law_search_finds_what_is_there(head, "\r\n\r\n"@, body);
    assert(first_occurrence(message, "\r\n\r\n"@) == Some(head.len() as int));
    assert(message.skip(head.len() as int + 4) =~= body);
}

/// Line ends without a carriage return are put up with: where no empty line of the usual kind
/// stands, the body is all that follows the first one of two line feeds.
pub proof fn law_plain_line_ends_are_put_up_with(head: Seq<char>, body: Seq<char>)
    requires
        forall|i: int|
            0 <= i < head.len() + body.len() - 1 ==> #[trigger] (head + "\n\n"@ + body).subrange(
                i,
                i + 4,
            ) != "\r\n\r\n"@,
        forall|i: int|
            0 <= i < head.len() ==> #[trigger] (head + "\n\n"@ + body).subrange(i, i + 2)
                != "\n\n"@,
    ensures
        (head + "\n\n"@ + body).skip(body_start(head + "\n\n"@ + body)) == body,
{
    let message = head + "\n\n"@ + body;
    reveal_strlit("\r\n\r\n");
    reveal_strlit("\n\n");
    assert(message.subrange(head.len() as int, head.len() as int + 2) =~= "\n\n"@);
    law_search_finds_the_first_place(message, "\r\n\r\n"@);
    assert(first_occurrence(message, "\r\n\r\n"@) is None);
    law_search_finds_the_first_place(message, "\n\n"@);
    law_search_finds_what_is_there(head, "\n\n"@, body);
    assert(first_occurrence(message, "\n\n"@) == Some(head.len() as int));
    assert(message.skip(head.len() as int + 2) =~= body);
}

/// A message without an empty line is all body.
pub proof fn law_a_message_without_headers(message: Seq<char>)
    requires
        forall|i: int|
            0 <= i <= message.len() - 2 ==> #[trigger] message.subrange(i, i + 2) != "\n\n"@,
        forall|i: int|
            0 <= i <= message.len() - 4 ==> #[trigger] message.subrange(i, i + 4) != "\r\n\r\n"@,
    ensures
        message.skip(body_start(message)) == message,
{
    reveal_strlit("\r\n\r\n");
    reveal_strlit("\n\n");
    law_search_finds_the_first_place(message, "\r\n\r\n"@);
    law_search_finds_the_first_place(message, "\n\n"@);
    assert(message.skip(0) =~= message);
}

/// The best peer is in the latest epoch, and of the peers in that epoch it has executed the most;
/// the first of several such peers is taken. Its block does not count.
pub proof fn law_the_best_peer_is_furthest(statuses: Seq<Option<PeerStatus>>, i: int, j: int)
    requires
        is_best_peer(statuses, i),
        0 <= j < statuses.len(),
        statuses[j] is Some,
    ensures
        statuses[i] is Some,
        statuses[j]->0.epoch <= statuses[i]->0.epoch,
        statuses[j]->0.epoch == statuses[i]->0.epoch ==> statuses[j]->0.last_global_exec_index
            <= statuses[i]->0.last_global_exec_index,
        j < i ==> statuses[j]->0.epoch < statuses[i]->0.epoch
            || statuses[j]->0.last_global_exec_index < statuses[i]->0.last_global_exec_index,
        is_best_peer(statuses, j) ==> i == j,
{
}

/// There is a best peer as soon as one answered.
pub proof fn law_some_peer_is_best(statuses: Seq<Option<PeerStatus>>, j: int) -> (best: int)
    requires
        0 <= j < statuses.len(),
        statuses[j] is Some,
    ensures
        is_best_peer(statuses, best),
    decreases statuses.len(),
{
    let rest = statuses.drop_last();
    let last = statuses.len() - 1;
    if exists|k: int| 0 <= k < rest.len() && #[trigger] rest[k] is Some {
        let k = choose|k: int| 0 <= k < rest.len() && #[trigger] rest[k] is Some;
        let best = law_some_peer_is_best(rest, k);
        assert forall|m: int| 0 <= m < rest.len() implies rest[m] == statuses[m] by {}
        if statuses[last] is Some && is_ahead(statuses[last]->0, statuses[best]->0) {
            assert forall|m: int| 0 <= m < statuses.len() implies (
            #[trigger] statuses[m] matches Some(s) ==> !is_ahead(s, statuses[last]->0)) by {
                if m < last {
                    assert(rest[m] == statuses[m]);
                }
            }
            assert forall|m: int| 0 <= m < last implies (#[trigger] statuses[m] matches Some(s)
                ==> is_ahead(statuses[last]->0, s)) by {
                assert(rest[m] == statuses[m]);
            }
            last
        } else {
            assert forall|m: int| 0 <= m < statuses.len() implies (
            #[trigger] statuses[m] matches Some(s) ==> !is_ahead(s, statuses[best]->0)) by {
                if m < last {
                    assert(rest[m] == statuses[m]);
                }
            }
            assert forall|m: int| 0 <= m < best implies (#[trigger] statuses[m] matches Some(s)
                ==> is_ahead(statuses[best]->0, s)) by {
                assert(rest[m] == statuses[m]);
            }
            best
        }
    } else {
        assert forall|m: int| 0 <= m < last implies #[trigger] statuses[m] is None by {
            assert(rest[m] == statuses[m]);
        }
        assert(j == last);
        last
    }
}

/// Five blocks are asked for at a time, or what is left.
pub proof fn law_five_blocks_are_asked_for(fetch: BlockFetch)
    requires
        fetch.wf(),
    ensures
        fetch.peer < fetch.peer_count,
        fetch.next <= fetch.to,
        fetch.to - fetch.next < 5 ==> fetch.question() == (FetchAction::AskPeer {
            peer: fetch.peer,
            from: fetch.next,
            to: fetch.to,
        }),
        fetch.to - fetch.next >= 5 ==> fetch.question() == (FetchAction::AskPeer {
            peer: fetch.peer,
            from: fetch.next,
            to: (fetch.next + 4) as u64,
        }),
{
}

/// Blocks that a peer sends are kept behind those that are there, and the next five are asked of
/// the first peer again; behind the last block fetching ends.
pub proof fn law_what_blocks_lead_to(
    before: BlockFetch,
    blocks: Vec<BlockData>,
    after: BlockFetch,
    action: FetchAction,
)
    requires
        before.wf(),
        blocks@.len() > 0,
        fetch_step(before, Some(blocks), after, action),
    ensures
        after.blocks@ == before.blocks@ + blocks@,
        after.to == before.to,
        after.peer_count == before.peer_count,
        before.to - before.next < 5 ==> action is Finish,
        before.to - before.next >= 5 ==> {
            &&& after.next == before.next + 5
            &&& after.peer == 0
            &&& action matches FetchAction::AskPeer { peer, from, to } && peer == 0 && from
                == before.next + 5 && from <= to <= before.to && to - from <= 4 && (to == before.to
                || to == from + 4)
        },
{
}

/// A peer that failed, or sent nothing, is followed by the next one, which is asked the same; when
/// none is left fetching ends.
pub proof fn law_what_an_empty_answer_leads_to(
    before: BlockFetch,
    answer: Option<Vec<BlockData>>,
    after: BlockFetch,
    action: FetchAction,
)
    requires
        before.wf(),
        answer is None || answer->0@.len() == 0,
        fetch_step(before, answer, after, action),
    ensures
        after.blocks@ == before.blocks@,
        after.next == before.next,
        after.to == before.to,
        after.peer_count == before.peer_count,
        before.peer + 1 == before.peer_count ==> action is Finish,
        before.peer + 1 < before.peer_count ==> {
            &&& after.peer == before.peer + 1
            &&& action matches FetchAction::AskPeer { peer, from, to } && peer == before.peer + 1
                && from == before.next && before.question() == (FetchAction::AskPeer {
                peer: before.peer,
                from,
                to,
            })
        },
{
}

/// Blocks in ascending order have no block in front of one with a smaller number.
pub proof fn law_ascending_blocks(blocks: Seq<BlockData>, i: int, j: int)
    requires
        numbers_ascend(blocks),
        0 <= i < blocks.len(),
        0 <= j < blocks.len(),
        blocks[i].block_number > blocks[j].block_number,
    ensures
        j < i,
{
}

/// Two lists in which the blocks of each number are the same, in the same order, hold the same
/// blocks.
pub proof fn law_same_blocks_of_each_number(a: Seq<BlockData>, b: Seq<BlockData>)
    requires
        forall|number: u64| #[trigger] with_number(a, number) == with_number(b, number),
    ensures
        a.to_multiset() == b.to_multiset(),
        a.len() == b.len(),
{
    assert forall|x: BlockData| a.to_multiset().count(x) == b.to_multiset().count(x) by {
        lemma_count_with_number(a, x);
        lemma_count_with_number(b, x);
        assert(with_number(a, x.block_number) == with_number(b, x.block_number));
    }
    assert(a.to_multiset() =~= b.to_multiset());
    a.to_multiset_ensures();
    b.to_multiset_ensures();
}

proof fn lemma_count_with_number(blocks: Seq<BlockData>, x: BlockData)
    ensures
        with_number(blocks, x.block_number).to_multiset().count(x) == blocks.to_multiset().count(x),
    decreases blocks.len(),
{
    reveal(Seq::filter);
    let kept = with_number(blocks, x.block_number);
    blocks.to_multiset_ensures();
    kept.to_multiset_ensures();
    if blocks.len() > 0 {
        let rest = blocks.drop_last();
        let last = blocks.last();
        lemma_count_with_number(rest, x);
        rest.to_multiset_ensures();
        let kept_rest = with_number(rest, x.block_number);
        kept_rest.to_multiset_ensures();
        assert(rest.push(last) =~= blocks);
        assert(blocks.to_multiset() == rest.to_multiset().insert(last));
        if last.block_number == x.block_number {
            assert(kept == kept_rest.push(last));
        } else {
            assert(kept == kept_rest);
        }
    } else {
        assert(kept =~= blocks);
    }
}

/// Transactions are offered to the next peer until one reports success; an answer that reports a
/// failure counts as none. Behind the last peer forwarding fails.
pub proof fn law_transactions_are_offered_until_taken(
    f: &mut Forwarding,
    answer: Option<SubmitTransactionResponse>,
    action: ForwardAction,
)
    requires
        call_ensures(Forwarding::on_answer, (f, answer), action),
        old(f).peer < old(f).peer_count,
    ensures
        answer is Some && answer->0.success ==> action == ForwardAction::Accepted(answer->0),
        (answer is None || !answer->0.success) && old(f).peer + 1 < old(f).peer_count ==> action
            == (ForwardAction::AskPeer { peer: final(f).peer }) && final(f).peer == old(f).peer + 1,
        (answer is None || !answer->0.success) && old(f).peer + 1 == old(f).peer_count
            ==> action is Fail,
{
}

/// Forwarding starts with the first peer, and fails without peers.
pub proof fn law_forwarding_starts_with_the_first_peer(
    peers: usize,
    r: (Forwarding, ForwardAction),
)
    requires
        call_ensures(Forwarding::start, (peers,), r),
    ensures
        r.0.peer_count == peers,
        peers >= 1 ==> r.1 == (ForwardAction::AskPeer { peer: 0 }) && r.0.peer == 0,
        peers == 0 ==> r.1 is Fail,
{
}

} // verus!
