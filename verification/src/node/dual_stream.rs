//! Fetching blocks from peers beside consensus, until consensus alone drives the chain.

use vstd::prelude::*;

verus! {

/// This many rounds in a row that consensus alone drove are convergence.
pub const STABLE_THRESHOLD: u32 = 10;

/// Close to the network, this many rounds in a row suffice.
pub const FAST_THRESHOLD: u32 = 3;

/// At most this many blocks behind is close to the network.
pub const CONVERGENCE_GAP: u64 = 5;

/// The pause between rounds, in milliseconds.
pub const SYNC_INTERVAL_MS: u64 = 500;

/// How many blocks are fetched at once.
pub const FETCH_BATCH_SIZE: u64 = 500;

/// More errors in a row than this end the stream.
pub const MAX_CONSECUTIVE_ERRORS: u32 = 60;

/// What to do next.
#[derive(Clone, Copy, Debug, PartialEq, Eq, Structural)]
pub enum StreamAction {
    /// Ask the peers where the network is.
    AskPeers,
    /// Close the gap between these blocks.
    Fetch { go_block: u64, fetch_to: u64 },
    /// Pause and begin another round.
    NextRound,
    /// Too many errors.
    GiveUp,
    /// Consensus drives the chain.
    Converged,
    /// Consensus seems to drive the chain, and the engine is close to the network.
    FastConverged,
}

/// The stream of blocks from peers.
#[derive(Clone, Copy, Debug, PartialEq, Eq, Structural)]
pub struct DualStreamController {
    /// The rounds in a row in which peers brought nothing.
    pub consensus_driven_streak: u32,
    pub consecutive_errors: u32,
    pub total_peer_synced: u64,
    pub total_rounds: u64,
    pub last_go_block: u64,
}

/// `a + b`, but no more than fits.
pub open spec fn capped_sum(a: u64, b: u64) -> u64 {
    if a + b <= u64::MAX {
        (a + b) as u64
    } else {
        u64::MAX
    }
}

/// The last block of the next fetch.
pub open spec fn fetch_end(go_block: u64, net_block: u64) -> u64 {
    if go_block + FETCH_BATCH_SIZE <= net_block {
        (go_block + FETCH_BATCH_SIZE) as u64
    } else {
        net_block
    }
}

impl DualStreamController {
    /// Holds between rounds.
    pub open spec fn wf(&self) -> bool {
        self.consensus_driven_streak < STABLE_THRESHOLD && self.consecutive_errors
            <= MAX_CONSECUTIVE_ERRORS
    }

    /// What follows an error.
    pub open spec fn after_error(&self) -> (DualStreamController, StreamAction) {
        let next = DualStreamController {
            consecutive_errors: (self.consecutive_errors + 1) as u32,
            ..*self
        };
        (
            next,
            if next.consecutive_errors > MAX_CONSECUTIVE_ERRORS {
                StreamAction::GiveUp
            } else {
                StreamAction::NextRound
            },
        )
    }

    /// The engine is where it was, at the height of the network, and peers brought nothing.
    pub open spec fn is_idle(&self, go_block: u64, net_block: u64, peer_synced: u64) -> bool {
        go_block >= net_block && peer_synced == 0 && go_block == self.last_go_block
    }

    /// The streak after a round. Only a round in which the engine moved, or rests at the height of
    /// the network, counts; blocks from peers end the streak.
    pub open spec fn next_streak(&self, go_block: u64, net_block: u64, peer_synced: u64) -> int {
        if go_block != self.last_go_block || self.is_idle(go_block, net_block, peer_synced) {
            if peer_synced == 0 {
                self.consensus_driven_streak + 1
            } else {
                0
            }
        } else {
            self.consensus_driven_streak as int
        }
    }

    /// What follows a round.
    pub open spec fn after_round(&self, go_block: u64, net_block: u64, peer_synced: u64) -> (
        DualStreamController,
        StreamAction,
    ) {
        let streak = self.next_streak(go_block, net_block, peer_synced);
        let next = DualStreamController {
            consensus_driven_streak: streak as u32,
            total_peer_synced: capped_sum(self.total_peer_synced, peer_synced),
            last_go_block: go_block,
            ..*self
        };
        (
            next,
            if streak >= STABLE_THRESHOLD {
                StreamAction::Converged
            } else if go_block + CONVERGENCE_GAP >= net_block && streak >= FAST_THRESHOLD {
                StreamAction::FastConverged
            } else {
                StreamAction::NextRound
            },
        )
    }

    /// A stream that starts with the engine at `last_go_block`, or at 0 if that is not known.
    /// `None` if there are no peers.
    pub fn new(has_peers: bool, last_go_block: Option<u64>) -> (r: Option<DualStreamController>)
        ensures
            r is Some <==> has_peers,
            r matches Some(c) ==> c.wf() && c == (DualStreamController {
                consensus_driven_streak: 0,
                consecutive_errors: 0,
                total_peer_synced: 0,
                total_rounds: 0,
                last_go_block: match last_go_block {
                    Some(b) => b,
                    None => 0,
                },
            }),
    {
        if !has_peers {
            return None;
        }
        let last_go_block: u64 = match last_go_block {
            Some(b) => b,
            None => 0,
        };
        Some(
            DualStreamController {
                consensus_driven_streak: 0,
                consecutive_errors: 0,
                total_peer_synced: 0,
                total_rounds: 0,
                last_go_block,
            },
        )
    }

    /// A round begins with the block of the engine, or with the failure to learn it.
    pub fn on_go_block(&mut self, go_block: Option<u64>) -> (action: StreamAction)
        requires
            old(self).wf(),
        ensures
            ({
                let begun = DualStreamController {
                    total_rounds: capped_sum(old(self).total_rounds, 1),
                    ..*old(self)
                };
                match go_block {
                    Some(_) => *final(self) == (DualStreamController {
                        consecutive_errors: 0,
                        ..begun
                    }) && action is AskPeers,
                    None => (*final(self), action) == begun.after_error(),
                }
            }),
            action is GiveUp || final(self).wf(),
    {
        self.total_rounds = self.total_rounds.saturating_add(1);
        match go_block {
            Some(_) => {
                self.consecutive_errors = 0;
                StreamAction::AskPeers
            },
            None => self.note_error(),
        }
    }

    fn note_error(&mut self) -> (action: StreamAction)
        requires
            old(self).wf(),
        ensures
            (*final(self), action) == old(self).after_error(),
    {
        self.consecutive_errors = self.consecutive_errors + 1;
        if self.consecutive_errors > MAX_CONSECUTIVE_ERRORS {
            StreamAction::GiveUp
        } else {
            StreamAction::NextRound
        }
    }

    /// The peers said where the network is, or failed to. An engine that is behind gets blocks; for
    /// one that is not the round is over.
    pub fn on_network(&mut self, go_block: u64, net_block: Option<u64>) -> (action: StreamAction)
        requires
            old(self).wf(),
        ensures
            match net_block {
                None => (*final(self), action) == old(self).after_error(),
                Some(net) => {
                    let heard = DualStreamController { consecutive_errors: 0, ..*old(self) };
                    if go_block < net {
                        *final(self) == heard && action == (StreamAction::Fetch {
                            go_block,
                            fetch_to: fetch_end(go_block, net),
                        })
                    } else {
                        (*final(self), action) == heard.after_round(go_block, net, 0)
                    }
                },
            },
            action is GiveUp || action is Converged || final(self).wf(),
    {
        match net_block {
            None => self.note_error(),
            Some(net) => {
                self.consecutive_errors = 0;
                if go_block < net {
                    let fetch_to: u64 = if net - go_block >= FETCH_BATCH_SIZE {
                        go_block + FETCH_BATCH_SIZE
                    } else {
                        net
                    };
                    StreamAction::Fetch { go_block, fetch_to }
                } else {
                    self.finish_round(go_block, net, 0)
                }
            },
        }
    }

    /// The peers brought so many blocks; a failed fetch brings none.
    pub fn on_synced(&mut self, go_block: u64, net_block: u64, synced: Option<u64>) -> (action:
        StreamAction)
        requires
            old(self).wf(),
        ensures
            (*final(self), action) == old(self).after_round(
                go_block,
                net_block,
                match synced {
                    Some(n) => n,
                    None => 0,
                },
            ),
            action is Converged || final(self).wf(),
    {
        let peer_synced: u64 = match synced {
            Some(n) => n,
            None => 0,
        };
        self.finish_round(go_block, net_block, peer_synced)
    }

    fn finish_round(&mut self, go_block: u64, net_block: u64, peer_synced: u64) -> (action:
        StreamAction)
        requires
            old(self).wf(),
        ensures
            (*final(self), action) == old(self).after_round(go_block, net_block, peer_synced),
    {
        self.total_peer_synced = self.total_peer_synced.saturating_add(peer_synced);
        let advanced = go_block != self.last_go_block;
        let idle = go_block >= net_block && peer_synced == 0 && !advanced;
        if advanced || idle {
            if peer_synced == 0 {
                self.consensus_driven_streak = self.consensus_driven_streak + 1;
            } else {
                self.consensus_driven_streak = 0;
            }
            self.last_go_block = go_block;
        }
        if self.consensus_driven_streak >= STABLE_THRESHOLD {
            StreamAction::Converged
        } else if go_block >= net_block.saturating_sub(CONVERGENCE_GAP)
            && self.consensus_driven_streak >= FAST_THRESHOLD {
            StreamAction::FastConverged
        } else {
            StreamAction::NextRound
        }
    }
}

/// The stream after rounds, each of which is given by the block of the engine, that of the network,
/// and the number of blocks that peers brought.
pub open spec fn after_rounds(
    c: DualStreamController,
    rounds: Seq<(u64, u64, u64)>,
) -> DualStreamController
    decreases rounds.len(),
{
    if rounds.len() == 0 {
        c
    } else {
        let last = rounds.last();
        after_rounds(c, rounds.drop_last()).after_round(last.0, last.1, last.2).0
    }
}

/// No convergence without a streak: after fewer rounds than the fast threshold the stream goes on,
/// whatever happened in them.
pub proof fn law_no_early_convergence(c: DualStreamController, rounds: Seq<(u64, u64, u64)>)
    requires
        c.consensus_driven_streak == 0,
        rounds.len() < FAST_THRESHOLD,
    ensures
        after_rounds(c, rounds).consensus_driven_streak <= rounds.len(),
        rounds.len() > 0 ==> ({
            let last = rounds.last();
            after_rounds(c, rounds.drop_last()).after_round(last.0, last.1, last.2).1 is NextRound
        }),
    decreases rounds.len(),
{
    if rounds.len() > 0 {
        law_no_early_convergence(c, rounds.drop_last());
    }
}

/// When the engine moves while peers bring nothing, the stream converges after a full streak of
/// such rounds.
pub proof fn law_consensus_alone_converges(c: DualStreamController, rounds: Seq<(u64, u64, u64)>)
    requires
        c.consensus_driven_streak == 0,
        rounds.len() <= STABLE_THRESHOLD,
        forall|i: int|
            0 <= i < rounds.len() ==> (#[trigger] rounds[i]).2 == 0 && rounds[i].0 > if i == 0 {
                c.last_go_block
            } else {
                rounds[i - 1].0
            },
    ensures
        after_rounds(c, rounds).consensus_driven_streak == rounds.len(),
        rounds.len() > 0 ==> after_rounds(c, rounds).last_go_block == rounds.last().0,
        rounds.len() == STABLE_THRESHOLD ==> ({
            let last = rounds.last();
            after_rounds(c, rounds.drop_last()).after_round(last.0, last.1, last.2).1 is Converged
        }),
    decreases rounds.len(),
{
    if rounds.len() > 0 {
        let init = rounds.drop_last();
        assert forall|i: int| 0 <= i < init.len() implies (#[trigger] init[i]).2 == 0 && init[i].0
            > if i == 0 {
            c.last_go_block
        } else {
            init[i - 1].0
        } by {
            assert(init[i] == rounds[i]);
            if i > 0 {
                assert(init[i - 1] == rounds[i - 1]);
            }
        }
        law_consensus_alone_converges(c, init);
        assert(rounds.last() == rounds[rounds.len() - 1]);
        if init.len() > 0 {
            assert(init.last() == rounds[rounds.len() - 2]);
        }
    }
}

/// Blocks from peers end a streak as soon as the engine moves.
pub proof fn law_peer_blocks_reset_the_streak(
    c: DualStreamController,
    go_block: u64,
    net_block: u64,
    peer_synced: u64,
)
    requires
        peer_synced > 0,
        go_block != c.last_go_block,
    ensures
        c.after_round(go_block, net_block, peer_synced).0.consensus_driven_streak == 0,
        c.after_round(go_block, net_block, peer_synced).1 is NextRound,
{
}

/// What a round makes of the streak. It counts a round in which peers brought nothing, if the engine
/// moved or rests at the height of the network; it ends with a round in which peers brought
/// something and the engine moved; and otherwise it stays.
pub proof fn law_what_counts_for_the_streak(
    c: DualStreamController,
    go_block: u64,
    net_block: u64,
    peer_synced: u64,
)
    requires
        c.consensus_driven_streak < 10,
    ensures
        ({
            let next = c.after_round(go_block, net_block, peer_synced).0;
            let moved = go_block != c.last_go_block;
            &&& peer_synced == 0 && (moved || go_block >= net_block) ==> next.consensus_driven_streak
                == c.consensus_driven_streak + 1
            &&& peer_synced > 0 && moved ==> next.consensus_driven_streak == 0
            &&& !moved && (peer_synced > 0 || go_block < net_block) ==> next.consensus_driven_streak
                == c.consensus_driven_streak
            &&& next.last_go_block == go_block
            &&& c.total_peer_synced + peer_synced <= u64::MAX ==> next.total_peer_synced
                == c.total_peer_synced + peer_synced
            &&& next.consecutive_errors == c.consecutive_errors
            &&& next.total_rounds == c.total_rounds
        }),
{
}

/// When the stream ends: with a streak of ten, or with one of three if the engine is at most five
/// blocks behind the network; and not before.
pub proof fn law_when_the_streams_have_converged(
    c: DualStreamController,
    go_block: u64,
    net_block: u64,
    peer_synced: u64,
)
    requires
        c.consensus_driven_streak < 10,
    ensures
        ({
            let (next, action) = c.after_round(go_block, net_block, peer_synced);
            let streak = next.consensus_driven_streak;
            &&& action is Converged <==> streak >= 10
            &&& action is FastConverged <==> 3 <= streak < 10 && net_block <= go_block + 5
            &&& action is NextRound <==> streak < 3 || (streak < 10 && net_block > go_block + 5)
        }),
{
}

/// The stream is given up after more than sixty errors in a row, and not before; nothing else
/// changes with an error.
pub proof fn law_when_the_stream_is_given_up(c: DualStreamController)
    requires
        c.consecutive_errors <= 60,
    ensures
        ({
            let (next, action) = c.after_error();
            &&& next.consecutive_errors == c.consecutive_errors + 1
            &&& next.consensus_driven_streak == c.consensus_driven_streak
            &&& next.total_peer_synced == c.total_peer_synced
            &&& next.total_rounds == c.total_rounds
            &&& next.last_go_block == c.last_go_block
            &&& action is GiveUp <==> c.consecutive_errors == 60
            &&& action is NextRound <==> c.consecutive_errors < 60
        }),
{
}

/// A fetch goes up to the network, but takes no more than 500 blocks.
pub proof fn law_how_far_a_fetch_goes(go_block: u64, net_block: u64)
    requires
        go_block < net_block,
    ensures
        go_block < fetch_end(go_block, net_block) <= net_block,
        fetch_end(go_block, net_block) - go_block <= 500,
        fetch_end(go_block, net_block) == net_block || fetch_end(go_block, net_block) - go_block
            == 500,
{
}

/// Numbers add up as long as they fit.
pub proof fn law_sums_are_capped(a: u64, b: u64)
    ensures
        a + b <= u64::MAX ==> capped_sum(a, b) == a + b,
        a + b > u64::MAX ==> capped_sum(a, b) == u64::MAX,
        SYNC_INTERVAL_MS == 500,
{
}

} // verus!
