//! Handing blocks of peers to the execution engine.

use vstd::prelude::*;

use crate::chunks::{chunk_end, chunk_ranges, chunk_start};
use crate::node::executor_client::rpc_queries::{refuses, refusal, QueryError, ResponsePayload};

verus! {

/// How many blocks are handed over at once when the engine only stores them.
pub const STORE_CHUNK: usize = 50;

/// How many blocks are handed over at once when the engine executes them, which takes longer.
pub const EXECUTE_CHUNK: usize = 20;

/// The number of blocks that are handed over at once.
pub open spec fn chunk_size(execute: bool) -> usize {
    if execute {
        EXECUTE_CHUNK
    } else {
        STORE_CHUNK
    }
}

/// Cuts `total` blocks into pieces: the half-open ranges of their positions.
pub fn sync_chunks(total: usize, execute: bool) -> (r: Vec<(usize, usize)>)
    requires
        total + STORE_CHUNK <= usize::MAX,
    ensures
        total > 0 ==> r@.len() > 0 && chunk_start(r@.len() - 1, chunk_size(execute) as int) < total,
        total <= chunk_start(r@.len() as int, chunk_size(execute) as int),
        total == 0 ==> r@.len() == 0,
        forall|i: int|
            0 <= i < r@.len() ==> (#[trigger] r@[i]).0 == chunk_start(i, chunk_size(execute) as int)
                && r@[i].1 == chunk_end(i, chunk_size(execute) as int, total as int),
{
    chunk_ranges(
        total,
        if execute {
            EXECUTE_CHUNK
        } else {
            STORE_CHUNK
        },
    )
}

/// What the engine has taken so far.
#[derive(Clone, Copy, Debug, PartialEq, Eq, Structural)]
pub struct SyncProgress {
    pub synced_count: u64,
    pub last_synced_block: u64,
    /// The last index that the engine has executed, if it executes the blocks.
    pub last_executed_gei: u64,
}

impl SyncProgress {
    /// The progress after one more piece: the counts add up, and the greatest block and index
    /// count.
    pub open spec fn plus(
        self,
        synced_count: u64,
        last_synced_block: u64,
        last_executed_gei: u64,
    ) -> SyncProgress {
        SyncProgress {
            synced_count: if self.synced_count + synced_count <= u64::MAX {
                (self.synced_count + synced_count) as u64
            } else {
                u64::MAX
            },
            last_synced_block: if last_synced_block > self.last_synced_block {
                last_synced_block
            } else {
                self.last_synced_block
            },
            last_executed_gei: if last_executed_gei > self.last_executed_gei {
                last_executed_gei
            } else {
                self.last_executed_gei
            },
        }
    }

    /// Nothing.
    pub fn new() -> (p: SyncProgress)
        ensures
            p == (SyncProgress { synced_count: 0, last_synced_block: 0, last_executed_gei: 0 }),
    {
        SyncProgress { synced_count: 0, last_synced_block: 0, last_executed_gei: 0 }
    }

    /// Takes note of the answer to one piece. An error ends the handover.
    pub fn record(&mut self, payload: Option<ResponsePayload>, response: &[u8]) -> (r: Result<
        (),
        QueryError,
    >)
        ensures
            r is Ok <==> (payload matches Some(ResponsePayload::SyncBlocks { error, .. })
                && error@.len() == 0),
            match payload {
                Some(
                    ResponsePayload::SyncBlocks {
                        error,
                        synced_count,
                        last_synced_block,
                        last_executed_gei,
                    },
                ) => if error@.len() == 0 {
                    *final(self) == old(self).plus(
                        synced_count,
                        last_synced_block,
                        last_executed_gei,
                    )
                } else {
                    &&& *final(self) == *old(self)
                    &&& r == Err::<(), _>(QueryError::Reported { message: error })
                },
                _ => *final(self) == *old(self) && (r matches Err(e) && refuses(
                    payload,
                    response@,
                    e,
                )),
            },
    {
        match payload {
            Some(
                ResponsePayload::SyncBlocks {
                    error,
                    synced_count,
                    last_synced_block,
                    last_executed_gei,
                },
            ) => {
                if !error.as_str().is_empty() {
                    return Err(QueryError::Reported { message: error });
                }
                self.synced_count = self.synced_count.saturating_add(synced_count);
                if last_synced_block > self.last_synced_block {
                    self.last_synced_block = last_synced_block;
                }
                if last_executed_gei > self.last_executed_gei {
                    self.last_executed_gei = last_executed_gei;
                }
                Ok(())
            },
            other => Err(refusal(other, response)),
        }
    }
}

/// The progress after answers without an error. Each is a count, a block and an index.
pub open spec fn progress_after(answers: Seq<(u64, u64, u64)>) -> SyncProgress
    decreases answers.len(),
{
    if answers.len() == 0 {
        SyncProgress { synced_count: 0, last_synced_block: 0, last_executed_gei: 0 }
    } else {
        let a = answers.last();
        progress_after(answers.drop_last()).plus(a.0, a.1, a.2)
    }
}

/// The sum of the counts.
pub open spec fn total_synced(answers: Seq<(u64, u64, u64)>) -> int
    decreases answers.len(),
{
    if answers.len() == 0 {
        0
    } else {
        total_synced(answers.drop_last()) + answers.last().0
    }
}

/// A handover reports as many blocks as the engine took in all its pieces, the last block that it
/// took, and the last index that it executed. The blocks and indices of an engine only grow, so
/// those are the ones that it reported last.
pub proof fn law_handover_reports_what_the_engine_reported(answers: Seq<(u64, u64, u64)>)
    requires
        answers.len() > 0,
        total_synced(answers) <= u64::MAX,
        forall|i: int, j: int|
            0 <= i <= j < answers.len() ==> (#[trigger] answers[i]).1 <= (
            #[trigger] answers[j]).1 && answers[i].2 <= answers[j].2,
    ensures
        progress_after(answers) == (SyncProgress {
            synced_count: total_synced(answers) as u64,
            last_synced_block: answers.last().1,
            last_executed_gei: answers.last().2,
        }),
    decreases answers.len(),
{
    let init = answers.drop_last();
    lemma_total_is_natural(init);
    if init.len() > 0 {
        law_handover_reports_what_the_engine_reported(init);
        assert(init.last() == answers[answers.len() - 2]);
        assert(answers.last() == answers[answers.len() - 1]);
    } else {
        assert(total_synced(init) == 0);
        assert(progress_after(init) == (SyncProgress {
            synced_count: 0,
            last_synced_block: 0,
            last_executed_gei: 0,
        }));
    }
}

proof fn lemma_total_is_natural(answers: Seq<(u64, u64, u64)>)
    ensures
        total_synced(answers) >= 0,
    decreases answers.len(),
{
    if answers.len() > 0 {
        lemma_total_is_natural(answers.drop_last());
    }
}

/// Fifty blocks are handed over at once to be stored, twenty to be executed.
pub proof fn law_how_many_blocks_at_once(execute: bool)
    ensures
        execute ==> chunk_size(execute) == 20,
        !execute ==> chunk_size(execute) == 50,
{
}

/// What one answer adds: its count, and its block and index if they are greater.
pub proof fn law_what_an_answer_adds(p: SyncProgress, n: u64, block: u64, gei: u64)
    ensures
        ({
            let next = p.plus(n, block, gei);
            &&& p.synced_count + n <= u64::MAX ==> next.synced_count == p.synced_count + n
            &&& p.synced_count + n > u64::MAX ==> next.synced_count == u64::MAX
            &&& next.last_synced_block >= block && next.last_synced_block >= p.last_synced_block
            &&& next.last_synced_block == block || next.last_synced_block == p.last_synced_block
            &&& next.last_executed_gei >= gei && next.last_executed_gei >= p.last_executed_gei
            &&& next.last_executed_gei == gei || next.last_executed_gei == p.last_executed_gei
        }),
{
}

} // verus!
