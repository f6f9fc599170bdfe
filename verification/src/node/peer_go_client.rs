//! Fetching blocks from the execution engines of peers.

use vstd::prelude::*;

use crate::chunks::{batch_end, batch_last};
use crate::node::consensus_node::{BoundaryData, DEFAULT_EPOCH_DURATION};
use crate::node::executor_client::rpc_queries::{BlockData, ResponsePayload};

verus! {

/// How many blocks are asked for at once.
pub const CHUNK_SIZE: u64 = 5;

/// The longest answer that is accepted, in bytes.
pub const MAX_PEER_RESPONSE_LEN: u32 = 100_000_000;

/// How long to wait for a peer, in seconds.
pub const DEFAULT_TIMEOUT_SECS: u64 = 10;

/// A client of the engine of one peer.
#[derive(Debug)]
pub struct PeerGoClient {
    pub peer_addr: String,
    pub timeout_secs: u64,
}

/// Why a peer gave no answer.
#[derive(Debug)]
pub enum PeerError {
    /// The announced length is 0 or too large.
    InvalidLength { len: u32 },
    /// The peer could not give the blocks.
    Reported { message: String },
    /// The peer answered with an error.
    Engine { message: String },
    /// The answer belongs to another question, or holds nothing.
    Unexpected,
}

/// `e` is the error for an answer that does not belong to the question.
pub open spec fn peer_refuses(payload: Option<ResponsePayload>, e: PeerError) -> bool {
    match payload {
        Some(ResponsePayload::Error(message)) => e == (PeerError::Engine { message }),
        _ => e is Unexpected,
    }
}

fn peer_refusal(payload: Option<ResponsePayload>) -> (e: PeerError)
    ensures
        peer_refuses(payload, e),
{
    match payload {
        Some(ResponsePayload::Error(message)) => PeerError::Engine { message },
        _ => PeerError::Unexpected,
    }
}

/// Checks the length that announces blocks.
pub fn check_peer_response_len(len: u32) -> (r: Result<u32, PeerError>)
    ensures
        r == if 1 <= len <= MAX_PEER_RESPONSE_LEN {
            Ok::<u32, PeerError>(len)
        } else {
            Err(PeerError::InvalidLength { len })
        },
{
    if len == 0 || len > MAX_PEER_RESPONSE_LEN {
        Err(PeerError::InvalidLength { len })
    } else {
        Ok(len)
    }
}

impl PeerGoClient {
    /// A client with the usual timeout.
    pub fn new(peer_addr: String) -> (c: PeerGoClient)
        ensures
            c.peer_addr == peer_addr,
            c.timeout_secs == DEFAULT_TIMEOUT_SECS,
    {
        PeerGoClient { peer_addr, timeout_secs: DEFAULT_TIMEOUT_SECS }
    }

    /// The same client with another timeout.
    pub fn with_timeout(self, timeout_secs: u64) -> (c: PeerGoClient)
        ensures
            c.peer_addr == self.peer_addr,
            c.timeout_secs == timeout_secs,
    {
        PeerGoClient { peer_addr: self.peer_addr, timeout_secs }
    }
}

/// The epoch of a peer.
pub fn interpret_peer_epoch(payload: Option<ResponsePayload>) -> (r: Result<u64, PeerError>)
    ensures
        match payload {
            Some(ResponsePayload::CurrentEpoch { epoch }) => r == Ok::<u64, PeerError>(epoch),
            _ => r matches Err(e) && peer_refuses(payload, e),
        },
{
    match payload {
        Some(ResponsePayload::CurrentEpoch { epoch }) => Ok(epoch),
        other => Err(peer_refusal(other)),
    }
}

/// The last block of a peer.
pub fn interpret_peer_last_block(payload: Option<ResponsePayload>) -> (r: Result<u64, PeerError>)
    ensures
        match payload {
            Some(ResponsePayload::LastBlockNumber { last_block_number, .. }) => r == Ok::<
                u64,
                PeerError,
            >(last_block_number),
            _ => r matches Err(e) && peer_refuses(payload, e),
        },
{
    match payload {
        Some(ResponsePayload::LastBlockNumber { last_block_number, .. }) => Ok(last_block_number),
        other => Err(peer_refusal(other)),
    }
}

/// The boundary of an epoch. A duration of 0 stands for the usual one.
pub fn interpret_peer_boundary(payload: Option<ResponsePayload>) -> (r: Result<
    BoundaryData,
    PeerError,
>)
    ensures
        match payload {
            Some(ResponsePayload::EpochBoundary(data)) => r == Ok::<BoundaryData, PeerError>(
                BoundaryData {
                    epoch_duration_secs: if data.epoch_duration_secs > 0 {
                        data.epoch_duration_secs
                    } else {
                        DEFAULT_EPOCH_DURATION
                    },
                    ..data
                },
            ),
            _ => r matches Err(e) && peer_refuses(payload, e),
        },
{
    match payload {
        Some(ResponsePayload::EpochBoundary(data)) => {
            let mut data = data;
            if data.epoch_duration_secs == 0 {
                data.epoch_duration_secs = DEFAULT_EPOCH_DURATION;
            }
            Ok(data)
        },
        other => Err(peer_refusal(other)),
    }
}

/// What to do next to get a range of blocks.
#[derive(Clone, Copy, Debug, PartialEq, Eq, Structural)]
pub enum RangeAction {
    /// Ask for these blocks.
    Ask { from: u64, to: u64 },
    /// All blocks are there.
    Finish,
}

/// A range of blocks that is asked for in pieces. The first error ends it.
#[derive(Debug)]
pub struct RangeFetch {
    pub next: u64,
    pub to: u64,
    pub blocks: Vec<BlockData>,
}

impl RangeFetch {
    /// The question that is asked now.
    pub open spec fn question(&self) -> RangeAction {
        RangeAction::Ask { from: self.next, to: batch_end(self.next, self.to, CHUNK_SIZE) }
    }

    /// Starts. An empty range is finished at once.
    pub fn start(from_block: u64, to_block: u64) -> (r: (RangeFetch, RangeAction))
        ensures
            r.0.next == from_block,
            r.0.to == to_block,
            r.0.blocks@.len() == 0,
            r.1 == if from_block <= to_block {
                r.0.question()
            } else {
                RangeAction::Finish
            },
    {
        let fetch = RangeFetch { next: from_block, to: to_block, blocks: Vec::new() };
        if from_block > to_block {
            return (fetch, RangeAction::Finish);
        }
        let to: u64 = batch_last(from_block, to_block, CHUNK_SIZE);
        (fetch, RangeAction::Ask { from: from_block, to })
    }

    /// Goes on after an answer.
    pub fn on_response(&mut self, payload: Option<ResponsePayload>) -> (r: Result<
        RangeAction,
        PeerError,
    >)
        requires
            old(self).next <= old(self).to,
        ensures
            range_step(*old(self), payload, *final(self), r),
    {
        match payload {
            Some(ResponsePayload::BlocksRange { error, blocks }) => {
                if !error.as_str().is_empty() {
                    return Err(PeerError::Reported { message: error });
                }
                let mut blocks = blocks;
                self.blocks.append(&mut blocks);
                let end: u64 = batch_last(self.next, self.to, CHUNK_SIZE);
                if end == self.to {
                    return Ok(RangeAction::Finish);
                }
                self.next = end + 1;
                let to: u64 = batch_last(self.next, self.to, CHUNK_SIZE);
                Ok(RangeAction::Ask { from: self.next, to })
            },
            other => Err(peer_refusal(other)),
        }
    }
}

/// A fetch goes from `before` to `after`, with the result `r`, when an answer comes.
pub open spec fn range_step(
    before: RangeFetch,
    payload: Option<ResponsePayload>,
    after: RangeFetch,
    r: Result<RangeAction, PeerError>,
) -> bool {
    let end = batch_end(before.next, before.to, CHUNK_SIZE);
    match payload {
        Some(ResponsePayload::BlocksRange { error, blocks }) => if error@.len() > 0 {
            after == before && r == Err::<RangeAction, PeerError>(
                PeerError::Reported { message: error },
            )
        } else {
            &&& after.to == before.to
            &&& after.blocks@ == before.blocks@ + blocks@
            &&& if end == before.to {
                after.next == before.next && r == Ok::<RangeAction, PeerError>(RangeAction::Finish)
            } else {
                after.next == end + 1 && r == Ok::<RangeAction, PeerError>(after.question())
            }
        },
        _ => after == before && (r matches Err(e) && peer_refuses(payload, e)),
    }
}

/// The pieces follow each other without gap or overlap, and none is larger than what a peer gives
/// at once.
pub proof fn law_pieces_are_contiguous(
    before: RangeFetch,
    payload: Option<ResponsePayload>,
    after: RangeFetch,
    r: Result<RangeAction, PeerError>,
)
    requires
        before.next <= before.to,
        range_step(before, payload, after, r),
    ensures
        before.question() matches RangeAction::Ask { from, to } && from == before.next && from <= to
            <= before.to && to - from < CHUNK_SIZE,
        r matches Ok(RangeAction::Ask { from, to }) ==> from == before.question()->Ask_to + 1
            && from <= to <= after.to,
        r matches Ok(RangeAction::Finish) ==> before.question()->Ask_to == before.to,
{
}

/// `best` is the first of the highest peers. A peer without blocks does not count.
pub open spec fn is_best(blocks: Seq<Option<u64>>, best: Option<(usize, u64)>) -> bool {
    match best {
        Some((i, n)) => {
            &&& i < blocks.len()
            &&& n > 0
            &&& blocks[i as int] == Some(n)
            &&& forall|j: int|
                0 <= j < blocks.len() ==> (#[trigger] blocks[j] matches Some(m) ==> m <= n)
            &&& forall|j: int| 0 <= j < i ==> (#[trigger] blocks[j] matches Some(m) ==> m < n)
        },
        None => forall|j: int|
            0 <= j < blocks.len() ==> (#[trigger] blocks[j] matches Some(m) ==> m == 0),
    }
}

/// Picks the best peer, given the last blocks of those that answered.
pub fn pick_best_peer(last_blocks: &Vec<Option<u64>>) -> (best: Option<(usize, u64)>)
    ensures
        is_best(last_blocks@, best),
{
    let mut best: Option<(usize, u64)> = None;
    let mut best_block: u64 = 0;
    let mut i: usize = 0;
    while i < last_blocks.len()
        invariant
            i <= last_blocks@.len(),
            is_best(last_blocks@.take(i as int), best),
            best_block == match best {
                Some((_, n)) => n,
                None => 0,
            },
        decreases last_blocks@.len() - i,
    {
        let ghost seen = last_blocks@.take(i as int);
        let ghost now = last_blocks@.take(i + 1);
        let ghost before = best;
        if let Some(n) = last_blocks[i] {
            if n > best_block {
                best_block = n;
                best = Some((i, n));
            }
        }
        proof {
            assert(now[i as int] == last_blocks@[i as int]);
            assert forall|j: int| 0 <= j < i implies now[j] == seen[j] by {}
            assert(is_best(seen, before));
            assert forall|j: int| 0 <= j < now.len() implies (
            #[trigger] now[j] matches Some(m) ==> m <= best_block) by {
                if j < i {
                    assert(seen[j] == now[j]);
                }
            }
            if let Some((b, _)) = best {
                assert forall|j: int| 0 <= j < b implies (
                #[trigger] now[j] matches Some(m) ==> m < best_block) by {
                    assert(seen[j] == now[j]);
                }
            }
            assert(is_best(now, best));
        }
        i = i + 1;
    }
    assert(last_blocks@.take(i as int) =~= last_blocks@);
    best
}

/// What the first question is, and every other: five blocks from the next one on, or up to the end.
pub proof fn law_five_blocks_at_a_time(f: RangeFetch)
    requires
        f.next <= f.to,
    ensures
        f.question() matches RangeAction::Ask { from, to } && from == f.next && (to == f.to && f.to
            - f.next < 5 || to == f.next + 4 && f.to - f.next >= 5),
{
}

/// What an answer does. The blocks that it brings are put behind those that are there. The next
/// question starts right behind the piece that was asked for, and when that piece reached the end,
/// all blocks are there. Any other answer is an error, and changes nothing.
pub proof fn law_what_an_answer_brings(
    before: RangeFetch,
    payload: Option<ResponsePayload>,
    after: RangeFetch,
    r: Result<RangeAction, PeerError>,
)
    requires
        before.next <= before.to,
        range_step(before, payload, after, r),
    ensures
        after.to == before.to,
        match payload {
            Some(ResponsePayload::BlocksRange { error, blocks }) => {
                &&& error@.len() == 0 ==> r is Ok && after.blocks@ == before.blocks@ + blocks@
                &&& error@.len() == 0 && before.to - before.next < 5 ==> r == Ok::<
                    RangeAction,
                    PeerError,
                >(RangeAction::Finish)
                &&& error@.len() == 0 && before.to - before.next >= 5 ==> after.next == before.next
                    + 5 && (r matches Ok(RangeAction::Ask { from, .. }) && from == before.next + 5)
                &&& error@.len() > 0 ==> after == before && r == Err::<RangeAction, PeerError>(
                    PeerError::Reported { message: error },
                )
            },
            Some(ResponsePayload::Error(message)) => after == before && r == Err::<
                RangeAction,
                PeerError,
            >(PeerError::Engine { message }),
            _ => after == before && (r matches Err(e) && e is Unexpected),
        },
{
}

/// The best peer has a block, no other has a higher one, and none before it has the same. Without a
/// best peer none has any.
pub proof fn law_the_highest_peer_is_picked(blocks: Seq<Option<u64>>, best: Option<(usize, u64)>, j: int)
    requires
        is_best(blocks, best),
        0 <= j < blocks.len(),
        blocks[j] is Some,
    ensures
        best matches Some((i, n)) ==> n > 0 && i < blocks.len() && blocks[i as int] == Some(n)
            && blocks[j]->0 <= n && (blocks[j]->0 == n ==> i <= j),
        best is None ==> blocks[j]->0 == 0,
{
}

/// Answers of peers are read up to a length; one that is empty or longer is an error, which tells
/// its length.
pub proof fn law_how_long_answers_of_peers_are(len: u32, r: Result<u32, PeerError>)
    requires
        call_ensures(check_peer_response_len, (len,), r),
    ensures
        len == 0 || len > 100_000_000 ==> r == Err::<u32, PeerError>(PeerError::InvalidLength { len }),
        0 < len <= 100_000_000 ==> r == Ok::<u32, PeerError>(len),
{
}

/// A client waits ten seconds for its peer unless it is given another time.
pub proof fn law_how_long_to_wait_for_a_peer(addr: String, c: PeerGoClient, secs: u64, d: PeerGoClient)
    requires
        call_ensures(PeerGoClient::new, (addr,), c),
        call_ensures(PeerGoClient::with_timeout, (c, secs), d),
    ensures
        c.peer_addr == addr,
        c.timeout_secs == 10,
        d.peer_addr == addr,
        d.timeout_secs == secs,
{
}

} // verus!
