//! Catching up with the network after a restart.

use vstd::prelude::*;

use crate::text::copy_str;

verus! {

/// A node that is at most this many blocks behind the network has caught up.
pub const BLOCK_CATCHUP_THRESHOLD: u64 = 5;

/// How many blocks are fetched at once while the engine is in an old epoch.
pub const EPOCH_BATCH_SIZE: u64 = 500;

/// After this many fetches in a row that brought nothing, the epoch catch-up is given up.
pub const MAX_CONSECUTIVE_EMPTY: u32 = 20;

// ---------------------------------------------------------------------------------------------
// Where the node stands
// ---------------------------------------------------------------------------------------------

/// How far the catch-up is.
#[derive(Clone, Copy, Debug, PartialEq, Eq, Structural)]
pub enum CatchupState {
    /// Nothing is known yet.
    Initializing,
    /// The network is in another epoch.
    SyncingEpoch { target_epoch: u64, local_epoch: u64 },
    /// The epoch is right, blocks are missing.
    SyncingCommits { target_commit: u64, current_commit: u64 },
    /// The engine is behind what this node itself has stored.
    BehindRustLocal { target_block: u64, current_block: u64 },
    /// Ready for consensus.
    Ready,
}

/// Where the node stands, compared with the network.
#[derive(Clone, Copy, Debug, PartialEq, Eq, Structural)]
pub struct SyncStatus {
    /// The epoch of the network, or of the engine when it is behind the local store.
    pub go_epoch: u64,
    /// The last block of the engine.
    pub go_last_block: u64,
    /// Whether engine and network are in the same epoch.
    pub epoch_match: bool,
    /// How many commits are missing; the largest number in another epoch.
    pub commit_gap: u64,
    /// How many blocks are missing; the largest number in another epoch.
    pub block_gap: u64,
    pub network_block_height: u64,
    pub network_commit: u64,
    /// Whether the node may join consensus.
    pub ready: bool,
}

/// What the engine says of itself.
#[derive(Clone, Copy, Debug, PartialEq, Eq, Structural)]
pub struct EngineView {
    pub epoch: u64,
    pub last_block: u64,
}

/// What the best peer says of the network.
#[derive(Clone, Copy, Debug, PartialEq, Eq, Structural)]
pub struct NetworkView {
    pub epoch: u64,
    pub block: u64,
    pub global_exec_index: u64,
}

/// The larger of two numbers.
pub open spec fn larger(a: u64, b: u64) -> u64 {
    if a >= b {
        a
    } else {
        b
    }
}

fn max_of(a: u64, b: u64) -> (r: u64)
    ensures
        r == larger(a, b),
{
    if a >= b {
        a
    } else {
        b
    }
}

/// How far `a` is ahead of `b`.
pub open spec fn gap(a: u64, b: u64) -> u64 {
    if a > b {
        (a - b) as u64
    } else {
        0
    }
}

/// The last block in the local store, or that of the engine if the store is empty.
pub open spec fn stored_block(engine: EngineView, stored: Option<u64>) -> u64 {
    match stored {
        Some(n) => n,
        None => engine.last_block,
    }
}

/// What counts as the network: the best peer, or without an answer the node itself; never less
/// than what is stored.
pub open spec fn network_of(
    engine: EngineView,
    stored: Option<u64>,
    local_last_commit: u64,
    network: Option<NetworkView>,
) -> NetworkView {
    let floor = stored_block(engine, stored);
    match network {
        Some(n) => NetworkView {
            epoch: n.epoch,
            block: larger(n.block, floor),
            global_exec_index: larger(n.global_exec_index, floor),
        },
        None => NetworkView {
            epoch: engine.epoch,
            block: larger(engine.last_block, floor),
            global_exec_index: larger(local_last_commit, floor),
        },
    }
}

/// The status that follows from what is known.
pub open spec fn status_of(
    engine: EngineView,
    stored: Option<u64>,
    local_last_commit: u64,
    network: Option<NetworkView>,
) -> SyncStatus {
    let floor = stored_block(engine, stored);
    if engine.last_block < floor {
        SyncStatus {
            go_epoch: engine.epoch,
            go_last_block: engine.last_block,
            epoch_match: true,
            commit_gap: 0,
            block_gap: (floor - engine.last_block) as u64,
            network_block_height: floor,
            network_commit: floor,
            ready: false,
        }
    } else {
        let net = network_of(engine, stored, local_last_commit, network);
        let epoch_match = engine.epoch == net.epoch;
        let commit_gap = if epoch_match {
            gap(net.global_exec_index, local_last_commit)
        } else {
            u64::MAX
        };
        let block_gap = if epoch_match {
            gap(net.block, engine.last_block)
        } else {
            u64::MAX
        };
        SyncStatus {
            go_epoch: net.epoch,
            go_last_block: engine.last_block,
            epoch_match,
            commit_gap,
            block_gap,
            network_block_height: net.block,
            network_commit: net.global_exec_index,
            ready: epoch_match && block_gap <= BLOCK_CATCHUP_THRESHOLD,
        }
    }
}

/// The state that follows from what is known.
pub open spec fn state_of(
    engine: EngineView,
    stored: Option<u64>,
    local_epoch: u64,
    local_last_commit: u64,
    network: Option<NetworkView>,
) -> CatchupState {
    let floor = stored_block(engine, stored);
    let status = status_of(engine, stored, local_last_commit, network);
    if engine.last_block < floor {
        CatchupState::BehindRustLocal { target_block: floor, current_block: engine.last_block }
    } else if !status.epoch_match {
        CatchupState::SyncingEpoch { target_epoch: status.go_epoch, local_epoch }
    } else if !status.ready {
        CatchupState::SyncingCommits { target_commit: 0, current_commit: local_last_commit }
    } else {
        CatchupState::Ready
    }
}

/// Looks after the catch-up.
#[derive(Debug)]
pub struct CatchupManager {
    /// The socket of the own engine.
    pub own_socket: String,
    pub peer_rpc_addresses: Vec<String>,
    pub state: CatchupState,
}

impl CatchupManager {
    /// Nothing is known yet.
    pub fn new(own_socket: String, peer_rpc_addresses: Vec<String>) -> (m: CatchupManager)
        ensures
            m.own_socket == own_socket,
            m.peer_rpc_addresses == peer_rpc_addresses,
            m.state is Initializing,
    {
        CatchupManager { own_socket, peer_rpc_addresses, state: CatchupState::Initializing }
    }

    /// The addresses of the peers.
    pub fn peer_rpc_addresses(&self) -> (r: Vec<String>)
        ensures
            r@.len() == self.peer_rpc_addresses@.len(),
            forall|i: int|
                0 <= i < r@.len() ==> (#[trigger] r@[i])@ == self.peer_rpc_addresses@[i]@,
    {
        let mut r: Vec<String> = Vec::new();
        let mut i: usize = 0;
        while i < self.peer_rpc_addresses.len()
            invariant
                i <= self.peer_rpc_addresses@.len(),
                r@.len() == i,
                forall|j: int|
                    0 <= j < i ==> (#[trigger] r@[j])@ == self.peer_rpc_addresses@[j]@,
            decreases self.peer_rpc_addresses@.len() - i,
        {
            r.push(copy_str(self.peer_rpc_addresses[i].as_str()));
            i = i + 1;
        }
        r
    }

    /// Whether the engine is behind the local store, so that the peers need not be asked.
    pub fn is_behind_store(&self, engine: EngineView, stored: Option<u64>) -> (r: bool)
        ensures
            r == (engine.last_block < stored_block(engine, stored)),
    {
        match stored {
            Some(n) => engine.last_block < n,
            None => false,
        }
    }

    /// Compares the node with the network. `stored` is the last block of the local store, `network`
    /// what the best peer says; without it the node takes itself for the network.
    pub fn check_sync_status(
        &mut self,
        local_epoch: u64,
        local_last_commit: u64,
        engine: EngineView,
        stored: Option<u64>,
        network: Option<NetworkView>,
    ) -> (status: SyncStatus)
        ensures
            status == status_of(engine, stored, local_last_commit, network),
            final(self).state == state_of(engine, stored, local_epoch, local_last_commit, network),
            final(self).own_socket == old(self).own_socket,
            final(self).peer_rpc_addresses == old(self).peer_rpc_addresses,
    {
        let floor: u64 = match stored {
            Some(n) => n,
            None => engine.last_block,
        };
        if engine.last_block < floor {
            self.state =
            CatchupState::BehindRustLocal { target_block: floor, current_block: engine.last_block };
            return SyncStatus {
                go_epoch: engine.epoch,
                go_last_block: engine.last_block,
                epoch_match: true,
                commit_gap: 0,
                block_gap: floor - engine.last_block,
                network_block_height: floor,
                network_commit: floor,
                ready: false,
            };
        }
        let net = match network {
            Some(n) => NetworkView {
                epoch: n.epoch,
                block: max_of(n.block, floor),
                global_exec_index: max_of(n.global_exec_index, floor),
            },
            None => NetworkView {
                epoch: engine.epoch,
                block: max_of(engine.last_block, floor),
                global_exec_index: max_of(local_last_commit, floor),
            },
        };
        let epoch_match = engine.epoch == net.epoch;
        let commit_gap: u64 = if epoch_match {
            net.global_exec_index.saturating_sub(local_last_commit)
        } else {
            u64::MAX
        };
        let block_gap: u64 = if epoch_match {
            net.block.saturating_sub(engine.last_block)
        } else {
            u64::MAX
        };
        let ready = epoch_match && block_gap <= BLOCK_CATCHUP_THRESHOLD;
        self.state = if !epoch_match {
            CatchupState::SyncingEpoch { target_epoch: net.epoch, local_epoch }
        } else if !ready {
            CatchupState::SyncingCommits { target_commit: 0, current_commit: local_last_commit }
        } else {
            CatchupState::Ready
        };
        SyncStatus {
            go_epoch: net.epoch,
            go_last_block: engine.last_block,
            epoch_match,
            commit_gap,
            block_gap,
            network_block_height: net.block,
            network_commit: net.global_exec_index,
            ready,
        }
    }
}

/// A node that joins consensus is in the epoch of the network, at most a few blocks behind it, and
/// its engine is not behind the local store. The number of commits plays no part.
pub proof fn law_ready_means_caught_up(
    engine: EngineView,
    stored: Option<u64>,
    local_epoch: u64,
    local_last_commit: u64,
    network: Option<NetworkView>,
)
    ensures
        ({
            let net = network_of(engine, stored, local_last_commit, network);
            let status = status_of(engine, stored, local_last_commit, network);
            &&& status.ready <==> engine.last_block >= stored_block(engine, stored) && engine.epoch
                == net.epoch && net.block <= engine.last_block + BLOCK_CATCHUP_THRESHOLD
            &&& status.ready <==> state_of(
                engine,
                stored,
                local_epoch,
                local_last_commit,
                network,
            ) is Ready
        }),
{
}

// ---------------------------------------------------------------------------------------------
// Closing the gap
// ---------------------------------------------------------------------------------------------

/// Why blocks could not be brought to the engine.
#[derive(Clone, Copy, Debug, PartialEq, Eq, Structural)]
pub enum GapError {
    /// The local store does not help, and there are no peers.
    NoSource,
    /// The blocks could not be fetched.
    FetchFailed,
    /// The engine did not take the blocks.
    SyncFailed,
}

/// What to do next to close the gap.
#[derive(Clone, Copy, Debug, PartialEq, Eq, Structural)]
pub enum GapAction {
    /// Send the blocks from the local store.
    ReplayLocal { from: u64, to: u64 },
    /// Fetch the blocks from the peers.
    FetchFromPeers { from: u64, to: u64 },
    /// Hand the fetched blocks to the engine.
    HandToEngine,
    /// So many blocks were brought to the engine.
    Finish { synced: u64 },
    Fail(GapError),
}

/// How far the closing of the gap is.
#[derive(Clone, Copy, Debug, PartialEq, Eq, Structural)]
pub enum GapPhase {
    Replaying,
    Fetching,
    Handing,
    Done,
}

/// What has happened.
#[derive(Clone, Copy, Debug, PartialEq, Eq, Structural)]
pub enum GapEvent {
    /// How many blocks came from the local store; `None` is a failure.
    Replayed(Option<u64>),
    /// How many blocks the peers gave; `None` is a failure.
    Fetched(Option<u64>),
    /// How many blocks the engine took; `None` is a failure.
    Handed(Option<u64>),
}

/// Brings the blocks from `from` to `to` to the engine: from the local store if it has the first
/// of them, otherwise from the peers.
#[derive(Clone, Copy, Debug, PartialEq, Eq, Structural)]
pub struct GapSync {
    pub from: u64,
    pub to: u64,
    pub has_peers: bool,
    pub phase: GapPhase,
}

impl GapSync {
    /// What is done when the local store does not help.
    pub open spec fn ask_peers(&self) -> (GapSync, GapAction) {
        if self.has_peers {
            (
                GapSync { phase: GapPhase::Fetching, ..*self },
                GapAction::FetchFromPeers { from: self.from, to: self.to },
            )
        } else {
            (GapSync { phase: GapPhase::Done, ..*self }, GapAction::Fail(GapError::NoSource))
        }
    }

    pub open spec fn finished(&self, action: GapAction) -> (GapSync, GapAction) {
        (GapSync { phase: GapPhase::Done, ..*self }, action)
    }

    /// The event belongs to the phase.
    pub open spec fn expects(&self, event: GapEvent) -> bool {
        match event {
            GapEvent::Replayed(_) => self.phase is Replaying,
            GapEvent::Fetched(_) => self.phase is Fetching,
            GapEvent::Handed(_) => self.phase is Handing,
        }
    }

    /// What follows an event.
    pub open spec fn spec_step(&self, event: GapEvent) -> (GapSync, GapAction) {
        match event {
            GapEvent::Replayed(Some(n)) if n > 0 => self.finished(GapAction::Finish { synced: n }),
            GapEvent::Replayed(_) => self.ask_peers(),
            GapEvent::Fetched(Some(n)) => if n > 0 {
                (GapSync { phase: GapPhase::Handing, ..*self }, GapAction::HandToEngine)
            } else {
                self.finished(GapAction::Finish { synced: 0 })
            },
            GapEvent::Fetched(None) => self.finished(GapAction::Fail(GapError::FetchFailed)),
            GapEvent::Handed(Some(n)) => self.finished(GapAction::Finish { synced: n }),
            GapEvent::Handed(None) => self.finished(GapAction::Fail(GapError::SyncFailed)),
        }
    }

    /// The blocks that are missing when the engine is at `go_last_block`.
    pub open spec fn spec_start(
        go_last_block: u64,
        network_block: u64,
        stored: Option<u64>,
        has_peers: bool,
    ) -> (GapSync, GapAction) {
        let s = GapSync {
            from: (go_last_block + 1) as u64,
            to: network_block,
            has_peers,
            phase: GapPhase::Done,
        };
        let rust_max = match stored {
            Some(n) => n,
            None => 0,
        };
        if rust_max >= s.from {
            (
                GapSync { phase: GapPhase::Replaying, ..s },
                GapAction::ReplayLocal {
                    from: s.from,
                    to: if network_block <= rust_max {
                        network_block
                    } else {
                        rust_max
                    },
                },
            )
        } else {
            s.ask_peers()
        }
    }

    /// Starts with the engine at `go_last_block`. Nothing is to be done if it has reached
    /// `network_block`. `stored` is the last block of the local store.
    pub fn start(
        go_last_block: u64,
        network_block: u64,
        stored: Option<u64>,
        has_peers: bool,
    ) -> (r: (GapSync, GapAction))
        ensures
            go_last_block >= network_block ==> r.1 == (GapAction::Finish { synced: 0 })
                && r.0.phase is Done,
            go_last_block < network_block ==> r == GapSync::spec_start(
                go_last_block,
                network_block,
                stored,
                has_peers,
            ),
    {
        if go_last_block >= network_block {
            return (
                GapSync {
                    from: go_last_block,
                    to: network_block,
                    has_peers,
                    phase: GapPhase::Done,
                },
                GapAction::Finish { synced: 0 },
            );
        }
        let from: u64 = go_last_block + 1;
        let mut s = GapSync { from, to: network_block, has_peers, phase: GapPhase::Done };
        let rust_max: u64 = match stored {
            Some(n) => n,
            None => 0,
        };
        if rust_max >= from {
            s.phase = GapPhase::Replaying;
            let to: u64 = if network_block <= rust_max {
                network_block
            } else {
                rust_max
            };
            return (s, GapAction::ReplayLocal { from, to });
        }
        let action = s.turn_to_peers();
        (s, action)
    }

    fn turn_to_peers(&mut self) -> (action: GapAction)
        ensures
            (*final(self), action) == old(self).ask_peers(),
    {
        if self.has_peers {
            self.phase = GapPhase::Fetching;
            GapAction::FetchFromPeers { from: self.from, to: self.to }
        } else {
            self.phase = GapPhase::Done;
            GapAction::Fail(GapError::NoSource)
        }
    }

    /// Goes on after an event.
    pub fn step(&mut self, event: GapEvent) -> (action: GapAction)
        requires
            old(self).expects(event),
        ensures
            (*final(self), action) == old(self).spec_step(event),
    {
        match event {
            GapEvent::Replayed(n) => {
                if let Some(synced) = n {
                    if synced > 0 {
                        self.phase = GapPhase::Done;
                        return GapAction::Finish { synced };
                    }
                }
                self.turn_to_peers()
            },
            GapEvent::Fetched(Some(n)) => {
                if n > 0 {
                    self.phase = GapPhase::Handing;
                    GapAction::HandToEngine
                } else {
                    self.phase = GapPhase::Done;
                    GapAction::Finish { synced: 0 }
                }
            },
            GapEvent::Fetched(None) => {
                self.phase = GapPhase::Done;
                GapAction::Fail(GapError::FetchFailed)
            },
            GapEvent::Handed(Some(synced)) => {
                self.phase = GapPhase::Done;
                GapAction::Finish { synced }
            },
            GapEvent::Handed(None) => {
                self.phase = GapPhase::Done;
                GapAction::Fail(GapError::SyncFailed)
            },
        }
    }
}

/// The peers are left alone as long as the local store can help: they are asked only if it lacks
/// the first missing block, or has brought nothing.
pub proof fn law_local_store_comes_first(
    go_last_block: u64,
    network_block: u64,
    stored: Option<u64>,
    has_peers: bool,
)
    requires
        go_last_block < network_block,
        stored matches Some(n) && n > go_last_block,
    ensures
        ({
            let (s, a) = GapSync::spec_start(go_last_block, network_block, stored, has_peers);
            &&& a matches GapAction::ReplayLocal { from, to } && from == go_last_block + 1 && from
                <= to <= network_block && to <= stored->0
            &&& forall|n: u64|
                n > 0 ==> (#[trigger] s.spec_step(GapEvent::Replayed(Some(n)))).1 == (
                GapAction::Finish { synced: n })
        }),
{
}

// ---------------------------------------------------------------------------------------------
// Replaying the local store
// ---------------------------------------------------------------------------------------------

/// What to do next with the stored blocks.
#[derive(Clone, Copy, Debug, PartialEq, Eq, Structural)]
pub enum ReplayAction {
    /// Send the block at this position of the list.
    Send { position: usize },
    /// All blocks were sent.
    Finish { synced: u64 },
    /// This block could not be read or sent. Nothing behind it is sent.
    Fail { gei: u64 },
}

/// Sends stored blocks in order. A block that fails ends the replay, so that no gap comes about.
#[derive(Debug)]
pub struct LocalReplay {
    /// The indices of the blocks.
    pub geis: Vec<u64>,
    /// How many were sent.
    pub sent: usize,
}

impl LocalReplay {
    /// The next block, or the end.
    pub open spec fn next_action(&self) -> ReplayAction {
        if self.sent < self.geis@.len() {
            ReplayAction::Send { position: self.sent }
        } else {
            ReplayAction::Finish { synced: self.sent as u64 }
        }
    }

    /// Starts with the first block.
    pub fn start(geis: Vec<u64>) -> (r: (LocalReplay, ReplayAction))
        ensures
            r.0.geis == geis,
            r.0.sent == 0,
            r.1 == r.0.next_action(),
    {
        let action = if geis.len() > 0 {
            ReplayAction::Send { position: 0 }
        } else {
            ReplayAction::Finish { synced: 0 }
        };
        (LocalReplay { geis, sent: 0 }, action)
    }

    /// Goes on after a block.
    pub fn on_sent(&mut self, ok: bool) -> (action: ReplayAction)
        requires
            old(self).sent < old(self).geis@.len(),
        ensures
            final(self).geis == old(self).geis,
            ok ==> final(self).sent == old(self).sent + 1 && action == final(self).next_action(),
            !ok ==> final(self).sent == old(self).sent && action == (ReplayAction::Fail {
                gei: old(self).geis@[old(self).sent as int],
            }),
    {
        if !ok {
            return ReplayAction::Fail { gei: self.geis[self.sent] };
        }
        let total: usize = self.geis.len();
        self.sent = self.sent + 1;
        if self.sent < total {
            ReplayAction::Send { position: self.sent }
        } else {
            ReplayAction::Finish { synced: self.sent as u64 }
        }
    }
}

// ---------------------------------------------------------------------------------------------
// Reaching the epoch of the network
// ---------------------------------------------------------------------------------------------

/// What to do next to reach the epoch of the network.
#[derive(Clone, Copy, Debug, PartialEq, Eq, Structural)]
pub enum EpochCatchupAction {
    /// Ask the engine for its epoch.
    AskEpoch,
    /// Ask the engine for its last block.
    AskBlock,
    /// Close the gap between these blocks.
    Fetch { go_block: u64, fetch_to: u64 },
    /// Wait, and ask for the epoch again.
    Wait { ms: u64 },
    /// The epoch was reached, or nothing more comes.
    Finish { synced: u64 },
}

/// What has happened. `None` is a failure.
#[derive(Clone, Copy, Debug, PartialEq, Eq, Structural)]
pub enum EpochCatchupEvent {
    Epoch(Option<u64>),
    Block(Option<u64>),
    Fetched(Option<u64>),
}

/// Fetches blocks until the engine is in the epoch of the network.
#[derive(Clone, Copy, Debug, PartialEq, Eq, Structural)]
pub struct EpochCatchup {
    pub network_epoch: u64,
    pub synced_total: u64,
    /// The fetches in a row that brought nothing.
    pub consecutive_empty: u32,
}

impl EpochCatchup {
    pub open spec fn wf(&self) -> bool {
        self.consecutive_empty < MAX_CONSECUTIVE_EMPTY
    }

    /// What follows a fetch that brought nothing.
    pub open spec fn after_empty(&self, wait_ms: u64) -> (EpochCatchup, EpochCatchupAction) {
        let next = EpochCatchup {
            consecutive_empty: (self.consecutive_empty + 1) as u32,
            ..*self
        };
        (
            next,
            if next.consecutive_empty >= MAX_CONSECUTIVE_EMPTY {
                EpochCatchupAction::Finish { synced: self.synced_total }
            } else {
                EpochCatchupAction::Wait { ms: wait_ms }
            },
        )
    }

    /// What follows an event.
    pub open spec fn spec_step(&self, event: EpochCatchupEvent) -> (
        EpochCatchup,
        EpochCatchupAction,
    ) {
        match event {
            EpochCatchupEvent::Epoch(None) => (*self, EpochCatchupAction::Wait { ms: 1000 }),
            EpochCatchupEvent::Epoch(Some(epoch)) => if epoch >= self.network_epoch {
                (*self, EpochCatchupAction::Finish { synced: self.synced_total })
            } else {
                (*self, EpochCatchupAction::AskBlock)
            },
            EpochCatchupEvent::Block(None) => (*self, EpochCatchupAction::Wait { ms: 1000 }),
            EpochCatchupEvent::Block(Some(go_block)) => (
                *self,
                EpochCatchupAction::Fetch {
                    go_block,
                    fetch_to: if go_block + EPOCH_BATCH_SIZE <= u64::MAX {
                        (go_block + EPOCH_BATCH_SIZE) as u64
                    } else {
                        u64::MAX
                    },
                },
            ),
            EpochCatchupEvent::Fetched(Some(n)) if n > 0 => (
                EpochCatchup {
                    synced_total: if self.synced_total + n <= u64::MAX {
                        (self.synced_total + n) as u64
                    } else {
                        u64::MAX
                    },
                    consecutive_empty: 0,
                    ..*self
                },
                EpochCatchupAction::AskEpoch,
            ),
            EpochCatchupEvent::Fetched(Some(_)) => self.after_empty(500),
            EpochCatchupEvent::Fetched(None) => self.after_empty(1000),
        }
    }

    /// Starts. `None` if there are no peers.
    pub fn start(network_epoch: u64, has_peers: bool) -> (r: Option<
        (EpochCatchup, EpochCatchupAction),
    >)
        ensures
            r is Some <==> has_peers,
            r matches Some((c, a)) ==> c == (EpochCatchup {
                network_epoch,
                synced_total: 0,
                consecutive_empty: 0,
            }) && a is AskEpoch && c.wf(),
    {
        if !has_peers {
            return None;
        }
        Some(
            (
                EpochCatchup { network_epoch, synced_total: 0, consecutive_empty: 0 },
                EpochCatchupAction::AskEpoch,
            ),
        )
    }

    /// Goes on after an event.
    pub fn step(&mut self, event: EpochCatchupEvent) -> (action: EpochCatchupAction)
        requires
            old(self).wf(),
        ensures
            (*final(self), action) == old(self).spec_step(event),
            !(action is Finish) ==> final(self).wf(),
    {
        match event {
            EpochCatchupEvent::Epoch(None) => EpochCatchupAction::Wait { ms: 1000 },
            EpochCatchupEvent::Epoch(Some(epoch)) => {
                if epoch >= self.network_epoch {
                    EpochCatchupAction::Finish { synced: self.synced_total }
                } else {
                    EpochCatchupAction::AskBlock
                }
            },
            EpochCatchupEvent::Block(None) => EpochCatchupAction::Wait { ms: 1000 },
            EpochCatchupEvent::Block(Some(go_block)) => EpochCatchupAction::Fetch {
                go_block,
                fetch_to: go_block.saturating_add(EPOCH_BATCH_SIZE),
            },
            EpochCatchupEvent::Fetched(fetched) => {
                let wait_ms: u64 = match fetched {
                    Some(n) => {
                        if n > 0 {
                            self.synced_total = self.synced_total.saturating_add(n);
                            self.consecutive_empty = 0;
                            return EpochCatchupAction::AskEpoch;
                        }
                        500
                    },
                    None => 1000,
                };
                self.consecutive_empty = self.consecutive_empty + 1;
                if self.consecutive_empty >= MAX_CONSECUTIVE_EMPTY {
                    EpochCatchupAction::Finish { synced: self.synced_total }
                } else {
                    EpochCatchupAction::Wait { ms: wait_ms }
                }
            },
        }
    }
}

/// The state after fetches that all brought nothing.
pub open spec fn after_fetches(c: EpochCatchup, fetches: Seq<Option<u64>>) -> EpochCatchup
    decreases fetches.len(),
{
    if fetches.len() == 0 {
        c
    } else {
        after_fetches(c, fetches.drop_last()).spec_step(
            EpochCatchupEvent::Fetched(fetches.last()),
        ).0
    }
}

/// A run of fetches that bring nothing is counted, and a single fetch that brings something starts
/// the count again: the catch-up is given up after a full run of empty fetches and not before.
pub proof fn law_gives_up_after_a_run_of_empty_fetches(c: EpochCatchup, fetches: Seq<Option<u64>>)
    requires
        c.consecutive_empty == 0,
        fetches.len() < MAX_CONSECUTIVE_EMPTY,
        forall|i: int|
            0 <= i < fetches.len() ==> (#[trigger] fetches[i] is None || fetches[i] == Some(0u64)),
    ensures
        after_fetches(c, fetches).consecutive_empty == fetches.len(),
        after_fetches(c, fetches).synced_total == c.synced_total,
        ({
            let (_, action) = after_fetches(c, fetches).spec_step(
                EpochCatchupEvent::Fetched(None),
            );
            action is Finish <==> fetches.len() == MAX_CONSECUTIVE_EMPTY - 1
        }),
    decreases fetches.len(),
{
    if fetches.len() > 0 {
        let init = fetches.drop_last();
        assert forall|i: int| 0 <= i < init.len() implies (#[trigger] init[i] is None || init[i]
            == Some(0u64)) by {
            assert(init[i] == fetches[i]);
        }
        law_gives_up_after_a_run_of_empty_fetches(c, init);
        assert(fetches.last() == fetches[fetches.len() - 1]);
    }
}

// ---------------------------------------------------------------------------------------------
// What the numbers say
// ---------------------------------------------------------------------------------------------

/// A node joins consensus only if it stands where the best peer stands: in the same epoch and at
/// most five blocks behind it. And it does join then, if its engine has what it has stored itself
/// and the store is not further than five blocks ahead of the engine.
pub proof fn law_ready_means_close_to_the_best_peer(
    engine: EngineView,
    stored: Option<u64>,
    local_epoch: u64,
    local_last_commit: u64,
    peer: NetworkView,
)
    ensures
        ({
            let status = status_of(engine, stored, local_last_commit, Some(peer));
            let state = state_of(engine, stored, local_epoch, local_last_commit, Some(peer));
            let behind_store = stored matches Some(n) && engine.last_block < n;
            &&& status.ready <==> !behind_store && engine.epoch == peer.epoch && peer.block
                <= engine.last_block + 5
            &&& status.ready <==> state is Ready
            &&& status.go_last_block == engine.last_block
        }),
{
}

/// What the status says of the network when the engine is not behind the local store: the peer's
/// epoch; at least the peer's block and index, and exactly those if they are not below the engine;
/// and how far it is to them. In another epoch the gaps are as large as can be.
pub proof fn law_status_tells_the_distance_to_the_peer(
    engine: EngineView,
    stored: Option<u64>,
    local_epoch: u64,
    local_last_commit: u64,
    peer: NetworkView,
)
    requires
        stored matches Some(n) ==> engine.last_block >= n,
    ensures
        ({
            let status = status_of(engine, stored, local_last_commit, Some(peer));
            let state = state_of(engine, stored, local_epoch, local_last_commit, Some(peer));
            &&& status.go_epoch == peer.epoch
            &&& status.epoch_match <==> engine.epoch == peer.epoch
            &&& status.network_block_height >= peer.block
            &&& peer.block >= engine.last_block ==> status.network_block_height == peer.block
            &&& status.network_block_height <= peer.block || status.network_block_height
                <= engine.last_block
            &&& status.network_commit >= peer.global_exec_index
            &&& peer.global_exec_index >= engine.last_block ==> status.network_commit
                == peer.global_exec_index
            &&& engine.epoch == peer.epoch && peer.block >= engine.last_block ==> status.block_gap
                == peer.block - engine.last_block
            &&& engine.epoch == peer.epoch && peer.block <= engine.last_block ==> status.block_gap
                == 0
            &&& engine.epoch == peer.epoch && peer.global_exec_index >= engine.last_block
                && peer.global_exec_index >= local_last_commit ==> status.commit_gap
                == peer.global_exec_index - local_last_commit
            &&& engine.epoch != peer.epoch ==> status.block_gap == u64::MAX && status.commit_gap
                == u64::MAX && state == (CatchupState::SyncingEpoch {
                target_epoch: peer.epoch,
                local_epoch,
            })
            &&& engine.epoch == peer.epoch && peer.block > engine.last_block + 5 ==> state == (
            CatchupState::SyncingCommits { target_commit: 0, current_commit: local_last_commit })
        }),
{
}

/// An engine that is behind what the node has stored is brought up to that first, whatever the
/// network says.
pub proof fn law_own_store_comes_before_the_network(
    engine: EngineView,
    n: u64,
    local_epoch: u64,
    local_last_commit: u64,
    network: Option<NetworkView>,
)
    requires
        engine.last_block < n,
    ensures
        status_of(engine, Some(n), local_last_commit, network) == (SyncStatus {
            go_epoch: engine.epoch,
            go_last_block: engine.last_block,
            epoch_match: true,
            commit_gap: 0,
            block_gap: (n - engine.last_block) as u64,
            network_block_height: n,
            network_commit: n,
            ready: false,
        }),
        state_of(engine, Some(n), local_epoch, local_last_commit, network) == (
        CatchupState::BehindRustLocal { target_block: n, current_block: engine.last_block }),
{
}

/// A node that hears nothing of the network takes itself for it, and is ready once its engine has
/// what it has stored.
pub proof fn law_a_node_alone_is_the_network(
    engine: EngineView,
    stored: Option<u64>,
    local_epoch: u64,
    local_last_commit: u64,
)
    requires
        stored matches Some(n) ==> engine.last_block >= n,
    ensures
        ({
            let status = status_of(engine, stored, local_last_commit, None);
            &&& status.ready
            &&& status.epoch_match
            &&& status.go_epoch == engine.epoch
            &&& status.block_gap == 0
            &&& status.network_block_height == engine.last_block
            &&& status.network_commit >= local_last_commit
        }),
        state_of(engine, stored, local_epoch, local_last_commit, None) is Ready,
{
}

/// How a gap is closed, from the start. The blocks that are asked for are those from right behind
/// the engine to the height of the network. They come from the local store if it has the first of
/// them, as far as it goes; else from the peers; and with neither the sync fails.
pub proof fn law_where_missing_blocks_come_from(
    go_last_block: u64,
    network_block: u64,
    stored: Option<u64>,
    has_peers: bool,
)
    requires
        go_last_block < network_block,
    ensures
        ({
            let (s, a) = GapSync::spec_start(go_last_block, network_block, stored, has_peers);
            let in_store = stored matches Some(n) && n > go_last_block;
            &&& s.from == go_last_block + 1
            &&& s.to == network_block
            &&& s.has_peers == has_peers
            &&& in_store ==> s.phase is Replaying && (a matches GapAction::ReplayLocal { from, to }
                && from == go_last_block + 1 && (to == network_block || to == stored->0) && to
                <= network_block && to <= stored->0)
            &&& !in_store && has_peers ==> s.phase is Fetching && a == (GapAction::FetchFromPeers {
                from: (go_last_block + 1) as u64,
                to: network_block,
            })
            &&& !in_store && !has_peers ==> s.phase is Done && a == GapAction::Fail(
                GapError::NoSource,
            )
        }),
{
}

/// How a gap is closed, step by step. What the store brought is enough, however little; if it
/// brought nothing the peers are asked. What peers gave is handed to the engine, unless they gave
/// nothing. The number that is reported is the one that reached the engine.
pub proof fn law_how_a_gap_is_closed(s: GapSync, n: u64)
    ensures
        n > 0 ==> s.spec_step(GapEvent::Replayed(Some(n))).1 == (GapAction::Finish { synced: n }),
        s.has_peers ==> s.spec_step(GapEvent::Replayed(None)).1 == (GapAction::FetchFromPeers {
            from: s.from,
            to: s.to,
        }) && s.spec_step(GapEvent::Replayed(None)).0.phase is Fetching,
        !s.has_peers ==> s.spec_step(GapEvent::Replayed(None)).1 == GapAction::Fail(
            GapError::NoSource,
        ),
        s.spec_step(GapEvent::Replayed(Some(0))) == s.spec_step(GapEvent::Replayed(None)),
        n > 0 ==> s.spec_step(GapEvent::Fetched(Some(n))).1 is HandToEngine && s.spec_step(
            GapEvent::Fetched(Some(n)),
        ).0.phase is Handing,
        s.spec_step(GapEvent::Fetched(Some(0))).1 == (GapAction::Finish { synced: 0 }),
        s.spec_step(GapEvent::Fetched(None)).1 == GapAction::Fail(GapError::FetchFailed),
        s.spec_step(GapEvent::Handed(Some(n))).1 == (GapAction::Finish { synced: n }),
        s.spec_step(GapEvent::Handed(None)).1 == GapAction::Fail(GapError::SyncFailed),
        forall|e: GapEvent|
            (#[trigger] s.spec_step(e)).0.from == s.from && s.spec_step(e).0.to == s.to
                && s.spec_step(e).0.has_peers == s.has_peers,
        forall|e: GapEvent|
            ((#[trigger] s.spec_step(e)).1 is Finish || s.spec_step(e).1 is Fail) ==> s.spec_step(
                e,
            ).0.phase is Done,
{
}

/// Stored blocks are replayed one by one and in order, all of them; what is reported is how many.
pub proof fn law_stored_blocks_are_replayed_in_order(r: LocalReplay)
    ensures
        r.sent < r.geis@.len() ==> r.next_action() == (ReplayAction::Send { position: r.sent }),
        r.sent >= r.geis@.len() ==> r.next_action() == (ReplayAction::Finish {
            synced: r.sent as u64,
        }),
{
}

/// How the epoch of the network is reached. It is over exactly when the engine is in that epoch or
/// a later one, or has got nothing twenty times in a row; until then, 500 blocks from the engine's
/// last one on are fetched at a time, and all that come are counted.
pub proof fn law_how_the_epoch_of_the_network_is_reached(c: EpochCatchup, n: u64)
    requires
        c.consecutive_empty < 20,
    ensures
        n >= c.network_epoch ==> c.spec_step(EpochCatchupEvent::Epoch(Some(n))) == (
            c,
            EpochCatchupAction::Finish { synced: c.synced_total },
        ),
        n < c.network_epoch ==> c.spec_step(EpochCatchupEvent::Epoch(Some(n))) == (
            c,
            EpochCatchupAction::AskBlock,
        ),
        n <= u64::MAX - 500 ==> c.spec_step(EpochCatchupEvent::Block(Some(n))) == (
            c,
            EpochCatchupAction::Fetch { go_block: n, fetch_to: (n + 500) as u64 },
        ),
        n > 0 && c.synced_total + n <= u64::MAX ==> c.spec_step(
            EpochCatchupEvent::Fetched(Some(n)),
        ) == (
            EpochCatchup {
                network_epoch: c.network_epoch,
                synced_total: (c.synced_total + n) as u64,
                consecutive_empty: 0,
            },
            EpochCatchupAction::AskEpoch,
        ),
        c.spec_step(EpochCatchupEvent::Epoch(None)) == (c, EpochCatchupAction::Wait { ms: 1000 }),
        c.spec_step(EpochCatchupEvent::Block(None)) == (c, EpochCatchupAction::Wait { ms: 1000 }),
        c.spec_step(EpochCatchupEvent::Fetched(None)).0.consecutive_empty == c.consecutive_empty + 1,
        c.spec_step(EpochCatchupEvent::Fetched(Some(0))).0.consecutive_empty == c.consecutive_empty
            + 1,
        c.spec_step(EpochCatchupEvent::Fetched(None)).0.synced_total == c.synced_total,
        c.spec_step(EpochCatchupEvent::Fetched(Some(0))).0.synced_total == c.synced_total,
        c.consecutive_empty < 19 ==> c.spec_step(EpochCatchupEvent::Fetched(None)).1 == (
        EpochCatchupAction::Wait { ms: 1000 }) && c.spec_step(
            EpochCatchupEvent::Fetched(Some(0)),
        ).1 == (EpochCatchupAction::Wait { ms: 500 }),
        c.consecutive_empty == 19 ==> c.spec_step(EpochCatchupEvent::Fetched(None)).1 == (
        EpochCatchupAction::Finish { synced: c.synced_total }) && c.spec_step(
            EpochCatchupEvent::Fetched(Some(0)),
        ).1 == (EpochCatchupAction::Finish { synced: c.synced_total }),
{
}

/// A check finds the node ready exactly if the engine has what the node stored, is in the peer's
/// epoch and at most five blocks behind the peer, whatever the store holds; the block gap is the
/// distance to the peer.
pub proof fn law_a_check_measures_against_the_peer(
    m: &mut CatchupManager,
    local_epoch: u64,
    local_last_commit: u64,
    engine: EngineView,
    stored: Option<u64>,
    peer: NetworkView,
    status: SyncStatus,
)
    requires
        call_ensures(
            CatchupManager::check_sync_status,
            (m, local_epoch, local_last_commit, engine, stored, Some(peer)),
            status,
        ),
        stored matches Some(n) ==> engine.last_block >= n,
    ensures
        status.ready <==> engine.epoch == peer.epoch && peer.block <= engine.last_block + 5,
        status.ready <==> final(m).state is Ready,
        engine.epoch == peer.epoch && peer.block >= engine.last_block ==> status.block_gap
            == peer.block - engine.last_block && status.network_block_height == peer.block,
        engine.epoch == peer.epoch && peer.block < engine.last_block ==> status.block_gap == 0,
        final(m).peer_rpc_addresses == old(m).peer_rpc_addresses,
        final(m).own_socket == old(m).own_socket,
{
}

} // verus!
