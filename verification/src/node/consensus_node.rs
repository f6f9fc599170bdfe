//! Starting a node: which block and epoch it is at, which committee it belongs to, and in which
//! mode it starts.
//!
//! Starting up alternates questions to the local execution engine and to peers with decisions. The
//! decisions are here: [`StartupDiscovery`] finds the epoch to start in, and [`BoundarySearch`]
//! finds the data of that epoch's boundary.

use vstd::prelude::*;

use crate::node::NodeMode;
use crate::text::{chars_of, has_prefix, parse_number, parsed_number, same_text, starts_with};

verus! {

/// How often the engine is asked for its block, and for its epoch once a block is known.
pub const MAX_ENGINE_ATTEMPTS: u32 = 30;

/// How often the peers are asked for their epoch.
pub const MAX_PEER_ATTEMPTS: u32 = 3;

/// The wait between two questions.
pub const STARTUP_WAIT_MS: u64 = 2000;

/// The duration of an epoch when the source of the boundary does not tell, in seconds.
pub const DEFAULT_EPOCH_DURATION: u64 = 900;

// ---------------------------------------------------------------------------------------------
// Block and epoch
// ---------------------------------------------------------------------------------------------

/// How far the discovery has come. `attempt` counts from 1.
#[derive(Clone, Copy, Debug, PartialEq, Eq, Structural)]
pub enum DiscoveryPhase {
    /// Asking the engine for its last block.
    Block { attempt: u32 },
    /// Reading the last block from the files of the last run.
    PersistedBlock,
    /// Asking the engine for its epoch again and again: it has blocks, so its epoch is not 0.
    EngineEpoch { attempt: u32 },
    /// Asking the peers for their epoch.
    PeerEpoch { attempt: u32 },
    /// Asking the engine for its epoch once.
    LocalEpoch,
    /// The epoch is known, or cannot be found out.
    Done,
}

/// What the application reports back.
#[derive(Clone, Copy, Debug)]
pub enum DiscoveryEvent {
    /// The number of the last block, if it could be had.
    Block(Option<u64>),
    /// The epoch of the engine, if it could be had.
    Epoch(Option<u64>),
    /// The epoch and last block of the best peer, if one answered.
    Peers(Option<(u64, u64)>),
}

/// What the application is to do next. All questions are preceded by the given wait.
#[derive(Clone, Copy, Debug, PartialEq, Eq, Structural)]
pub enum DiscoveryAction {
    AskBlock { wait_ms: u64 },
    ReadPersistedBlock,
    AskEngineEpoch { wait_ms: u64 },
    AskPeers { wait_ms: u64 },
    /// Start with this epoch. `reference_block` is the block that the source of the epoch is at.
    StartWith { epoch: u64, latest_block: u64, reference_block: u64 },
    /// The epoch cannot be found out.
    Fail,
}

/// The search for the epoch to start in.
#[derive(Clone, Copy, Debug, PartialEq, Eq, Structural)]
pub struct StartupDiscovery {
    /// The node does not vote. Such a node starts in the epoch of its own engine, whatever epoch
    /// the peers are in: it gets to later epochs by executing the blocks that lead there.
    pub sync_only: bool,
    pub has_peers: bool,
    pub latest_block: u64,
    pub phase: DiscoveryPhase,
}

impl StartupDiscovery {
    pub open spec fn wf(&self) -> bool {
        &&& self.phase matches DiscoveryPhase::Block { attempt } ==> 1 <= attempt
            <= MAX_ENGINE_ATTEMPTS
        &&& self.phase matches DiscoveryPhase::EngineEpoch { attempt } ==> 1 <= attempt
            <= MAX_ENGINE_ATTEMPTS
        &&& self.phase matches DiscoveryPhase::PeerEpoch { attempt } ==> 1 <= attempt
            <= MAX_PEER_ATTEMPTS
    }

    /// The event that the current phase waits for.
    pub open spec fn expects(&self, event: DiscoveryEvent) -> bool {
        match self.phase {
            DiscoveryPhase::Block { .. } => event is Block,
            DiscoveryPhase::PersistedBlock => event is Block,
            DiscoveryPhase::EngineEpoch { .. } => event is Epoch,
            DiscoveryPhase::PeerEpoch { .. } => event is Peers,
            DiscoveryPhase::LocalEpoch => event is Epoch,
            DiscoveryPhase::Done => false,
        }
    }

    /// The phase in which the epoch is looked for, once the last block is `block`.
    pub open spec fn epoch_phase(&self, block: u64) -> DiscoveryPhase {
        if self.sync_only {
            if block > 0 {
                DiscoveryPhase::EngineEpoch { attempt: 1 }
            } else {
                DiscoveryPhase::LocalEpoch
            }
        } else if self.has_peers {
            DiscoveryPhase::PeerEpoch { attempt: 1 }
        } else {
            DiscoveryPhase::LocalEpoch
        }
    }

    /// The question that belongs to a phase.
    pub open spec fn question(phase: DiscoveryPhase, wait_ms: u64) -> DiscoveryAction {
        match phase {
            DiscoveryPhase::Block { .. } => DiscoveryAction::AskBlock { wait_ms },
            DiscoveryPhase::PersistedBlock => DiscoveryAction::ReadPersistedBlock,
            DiscoveryPhase::EngineEpoch { .. } => DiscoveryAction::AskEngineEpoch { wait_ms },
            DiscoveryPhase::PeerEpoch { .. } => DiscoveryAction::AskPeers { wait_ms },
            DiscoveryPhase::LocalEpoch => DiscoveryAction::AskEngineEpoch { wait_ms },
            DiscoveryPhase::Done => DiscoveryAction::Fail,
        }
    }

    /// The phase after `event`.
    pub open spec fn next_phase(&self, event: DiscoveryEvent) -> DiscoveryPhase {
        match (self.phase, event) {
            // A block number of 0 may mean that the engine is still loading its database.
            (DiscoveryPhase::Block { attempt }, DiscoveryEvent::Block(block)) => {
                if block matches Some(n) && n > 0 {
                    self.epoch_phase(block->0)
                } else if attempt < MAX_ENGINE_ATTEMPTS {
                    DiscoveryPhase::Block { attempt: (attempt + 1) as u32 }
                } else if block is Some {
                    self.epoch_phase(0)
                } else {
                    DiscoveryPhase::PersistedBlock
                }
            },
            (DiscoveryPhase::PersistedBlock, DiscoveryEvent::Block(block)) => self.epoch_phase(
                block_or_zero(block),
            ),
            (DiscoveryPhase::EngineEpoch { attempt }, DiscoveryEvent::Epoch(epoch)) => {
                if (epoch matches Some(e) && e > 0) || attempt >= MAX_ENGINE_ATTEMPTS {
                    DiscoveryPhase::Done
                } else {
                    DiscoveryPhase::EngineEpoch { attempt: (attempt + 1) as u32 }
                }
            },
            (DiscoveryPhase::PeerEpoch { attempt }, DiscoveryEvent::Peers(best)) => {
                if best is Some {
                    DiscoveryPhase::Done
                } else if attempt < MAX_PEER_ATTEMPTS {
                    DiscoveryPhase::PeerEpoch { attempt: (attempt + 1) as u32 }
                } else {
                    DiscoveryPhase::LocalEpoch
                }
            },
            _ => DiscoveryPhase::Done,
        }
    }

    /// The last block that is known after `event`.
    pub open spec fn next_block(&self, event: DiscoveryEvent) -> u64 {
        match event {
            DiscoveryEvent::Block(Some(n)) => n,
            DiscoveryEvent::Block(None) if self.phase is PersistedBlock => 0,
            _ => self.latest_block,
        }
    }

    /// The action after `event`.
    pub open spec fn next_action(&self, event: DiscoveryEvent) -> DiscoveryAction {
        let next = self.next_phase(event);
        if next is Done {
            match event {
                DiscoveryEvent::Epoch(Some(epoch)) => DiscoveryAction::StartWith {
                    epoch,
                    latest_block: self.latest_block,
                    reference_block: self.latest_block,
                },
                DiscoveryEvent::Peers(Some(best)) => DiscoveryAction::StartWith {
                    epoch: best.0,
                    latest_block: self.latest_block,
                    reference_block: best.1,
                },
                _ => DiscoveryAction::Fail,
            }
        } else {
            // The next try of the same question waits; another question does not.
            let repeated = match (self.phase, next) {
                (DiscoveryPhase::Block { .. }, DiscoveryPhase::Block { .. }) => true,
                (DiscoveryPhase::EngineEpoch { .. }, DiscoveryPhase::EngineEpoch { .. }) => true,
                (DiscoveryPhase::PeerEpoch { .. }, DiscoveryPhase::PeerEpoch { .. }) => true,
                _ => false,
            };
            StartupDiscovery::question(
                next,
                if repeated {
                    STARTUP_WAIT_MS
                } else {
                    0
                },
            )
        }
    }

    /// Starts the search.
    pub fn start(sync_only: bool, has_peers: bool) -> (r: (StartupDiscovery, DiscoveryAction))
        ensures
            r.0.wf(),
            r.0.sync_only == sync_only,
            r.0.has_peers == has_peers,
            r.0.latest_block == 0,
            r.0.phase == (DiscoveryPhase::Block { attempt: 1 }),
            r.1 == (DiscoveryAction::AskBlock { wait_ms: 0 }),
    {
        (
            StartupDiscovery {
                sync_only,
                has_peers,
                latest_block: 0,
                phase: DiscoveryPhase::Block { attempt: 1 },
            },
            DiscoveryAction::AskBlock { wait_ms: 0 },
        )
    }

    fn begin_epoch(&mut self) -> (action: DiscoveryAction)
        ensures
            final(self).sync_only == old(self).sync_only,
            final(self).has_peers == old(self).has_peers,
            final(self).latest_block == old(self).latest_block,
            final(self).phase == old(self).epoch_phase(old(self).latest_block),
            action == StartupDiscovery::question(final(self).phase, 0),
    {
        if self.sync_only {
            if self.latest_block > 0 {
                self.phase = DiscoveryPhase::EngineEpoch { attempt: 1 };
            } else {
                self.phase = DiscoveryPhase::LocalEpoch;
            }
            DiscoveryAction::AskEngineEpoch { wait_ms: 0 }
        } else if self.has_peers {
            self.phase = DiscoveryPhase::PeerEpoch { attempt: 1 };
            DiscoveryAction::AskPeers { wait_ms: 0 }
        } else {
            self.phase = DiscoveryPhase::LocalEpoch;
            DiscoveryAction::AskEngineEpoch { wait_ms: 0 }
        }
    }

    /// Goes on after `event`.
    pub fn step(&mut self, event: DiscoveryEvent) -> (action: DiscoveryAction)
        requires
            old(self).wf(),
            old(self).expects(event),
        ensures
            final(self).wf(),
            final(self).sync_only == old(self).sync_only,
            final(self).has_peers == old(self).has_peers,
            final(self).latest_block == old(self).next_block(event),
            final(self).phase == old(self).next_phase(event),
            action == old(self).next_action(event),
    {
        match event {
            DiscoveryEvent::Block(block) => {
                if let Some(n) = block {
                    self.latest_block = n;
                }
                if let DiscoveryPhase::Block { attempt } = self.phase {
                    let found = match block {
                        Some(n) => n > 0,
                        None => false,
                    };
                    if !found && attempt < MAX_ENGINE_ATTEMPTS {
                        self.phase = DiscoveryPhase::Block { attempt: attempt + 1 };
                        return DiscoveryAction::AskBlock { wait_ms: STARTUP_WAIT_MS };
                    }
                    if block.is_none() {
                        self.phase = DiscoveryPhase::PersistedBlock;
                        return DiscoveryAction::ReadPersistedBlock;
                    }
                } else if block.is_none() {
                    self.latest_block = 0;
                }
                self.begin_epoch()
            },
            DiscoveryEvent::Epoch(epoch) => {
                if let DiscoveryPhase::EngineEpoch { attempt } = self.phase {
                    let found = match epoch {
                        Some(e) => e > 0,
                        None => false,
                    };
                    if !found && attempt < MAX_ENGINE_ATTEMPTS {
                        self.phase = DiscoveryPhase::EngineEpoch { attempt: attempt + 1 };
                        return DiscoveryAction::AskEngineEpoch { wait_ms: STARTUP_WAIT_MS };
                    }
                }
                self.phase = DiscoveryPhase::Done;
                match epoch {
                    Some(epoch) => DiscoveryAction::StartWith {
                        epoch,
                        latest_block: self.latest_block,
                        reference_block: self.latest_block,
                    },
                    None => DiscoveryAction::Fail,
                }
            },
            DiscoveryEvent::Peers(best) => {
                if let Some((epoch, block)) = best {
                    self.phase = DiscoveryPhase::Done;
                    return DiscoveryAction::StartWith {
                        epoch,
                        latest_block: self.latest_block,
                        reference_block: block,
                    };
                }
                if let DiscoveryPhase::PeerEpoch { attempt } = self.phase {
                    if attempt < MAX_PEER_ATTEMPTS {
                        self.phase = DiscoveryPhase::PeerEpoch { attempt: attempt + 1 };
                        return DiscoveryAction::AskPeers { wait_ms: STARTUP_WAIT_MS };
                    }
                }
                self.phase = DiscoveryPhase::LocalEpoch;
                DiscoveryAction::AskEngineEpoch { wait_ms: 0 }
            },
        }
    }
}

/// A block number that may be unknown.
pub open spec fn block_or_zero(block: Option<u64>) -> u64 {
    match block {
        Some(n) => n,
        None => 0,
    }
}

/// A node that does not vote never starts in an epoch that a peer named: it asks no peers.
pub proof fn law_sync_only_ignores_peers(d: StartupDiscovery, event: DiscoveryEvent)
    requires
        d.sync_only,
        !(d.phase is PeerEpoch),
    ensures
        !(d.next_phase(event) is PeerEpoch),
        !(d.next_action(event) is AskPeers),
{
}

/// A bound on the number of events until the search is over.
pub open spec fn discovery_steps_left(d: StartupDiscovery) -> int {
    match d.phase {
        DiscoveryPhase::Block { attempt } => MAX_ENGINE_ATTEMPTS - attempt + 40,
        DiscoveryPhase::PersistedBlock => 39,
        DiscoveryPhase::EngineEpoch { attempt } => MAX_ENGINE_ATTEMPTS - attempt + 1,
        DiscoveryPhase::PeerEpoch { attempt } => MAX_PEER_ATTEMPTS - attempt + 2,
        DiscoveryPhase::LocalEpoch => 1,
        DiscoveryPhase::Done => 0,
    }
}

/// The search always comes to an end: every event brings it nearer.
pub proof fn law_discovery_terminates(d: StartupDiscovery, event: DiscoveryEvent)
    requires
        d.wf(),
        d.expects(event),
    ensures
        ({
            let next = StartupDiscovery { phase: d.next_phase(event), ..d };
            0 <= discovery_steps_left(next) < discovery_steps_left(d)
        }),
{
}

// ---------------------------------------------------------------------------------------------
// Data of old epochs
// ---------------------------------------------------------------------------------------------

/// Which epochs' data is removed when the node starts in another epoch than it stopped in.
#[derive(Clone, Copy, Debug, PartialEq, Eq, Structural)]
pub enum CleanupPlan {
    /// All data stays.
    KeepAll,
    /// The data of epochs before this one goes.
    RemoveBefore(u64),
    /// All data goes: it belongs to a chain that the network does not know.
    RemoveAll,
}

/// Which data is removed. A node that was ahead of the network starts from nothing; one that was
/// behind keeps the last `epochs_to_keep` epochs, or everything if that is 0.
pub open spec fn cleanup_plan(
    local_epoch: u64,
    network_epoch: u64,
    epochs_to_keep: u64,
) -> CleanupPlan {
    if local_epoch > network_epoch {
        CleanupPlan::RemoveAll
    } else if local_epoch == network_epoch || epochs_to_keep == 0 {
        CleanupPlan::KeepAll
    } else if network_epoch >= epochs_to_keep {
        CleanupPlan::RemoveBefore((network_epoch - epochs_to_keep) as u64)
    } else {
        CleanupPlan::RemoveBefore(0)
    }
}

/// Decides which data to remove.
pub fn plan_cleanup(local_epoch: u64, network_epoch: u64, epochs_to_keep: u64) -> (plan:
    CleanupPlan)
    ensures
        plan == cleanup_plan(local_epoch, network_epoch, epochs_to_keep),
{
    if local_epoch > network_epoch {
        CleanupPlan::RemoveAll
    } else if local_epoch == network_epoch || epochs_to_keep == 0 {
        CleanupPlan::KeepAll
    } else {
        CleanupPlan::RemoveBefore(network_epoch.saturating_sub(epochs_to_keep))
    }
}

/// The epoch whose data is in a directory: the number behind `epoch_`.
pub open spec fn epoch_of_dir(name: Seq<char>) -> Option<nat> {
    if starts_with(name, "epoch_"@) {
        parsed_number(name.skip("epoch_"@.len() as int), u64::MAX as nat)
    } else {
        None
    }
}

/// The epoch whose data is in a directory.
pub fn parse_epoch_dir(name: &str) -> (r: Option<u64>)
    ensures
        match r {
            Some(e) => epoch_of_dir(name@) == Some(e as nat),
            None => epoch_of_dir(name@) is None,
        },
{
    let chars = chars_of(name);
    let prefix = chars_of("epoch_");
    if !has_prefix(chars.as_slice(), prefix.as_slice()) {
        return None;
    }
    let digits = vstd::slice::slice_subrange(chars.as_slice(), prefix.len(), chars.len());
    assert(digits@ =~= name@.skip(prefix@.len() as int));
    parse_number(digits, u64::MAX)
}

/// Whether a directory below the epoch data is to be removed.
pub fn removes_dir(plan: CleanupPlan, name: &str) -> (r: bool)
    ensures
        r == match plan {
            CleanupPlan::KeepAll => false,
            CleanupPlan::RemoveBefore(keep_from) => epoch_of_dir(name@) matches Some(e) && e
                < keep_from,
            CleanupPlan::RemoveAll => true,
        },
{
    match plan {
        CleanupPlan::KeepAll => false,
        CleanupPlan::RemoveBefore(keep_from) => match parse_epoch_dir(name) {
            Some(e) => e < keep_from,
            None => false,
        },
        CleanupPlan::RemoveAll => true,
    }
}

/// The data of the epoch the node starts in, and of as many epochs before it as are to be kept,
/// stays, unless the node was ahead of the network.
pub proof fn law_recent_epochs_survive(
    local_epoch: u64,
    network_epoch: u64,
    epochs_to_keep: u64,
    e: u64,
)
    requires
        local_epoch <= network_epoch,
        e + epochs_to_keep >= network_epoch,
    ensures
        match cleanup_plan(local_epoch, network_epoch, epochs_to_keep) {
            CleanupPlan::KeepAll => true,
            CleanupPlan::RemoveBefore(keep_from) => e >= keep_from,
            CleanupPlan::RemoveAll => false,
        },
{
}

// ---------------------------------------------------------------------------------------------
// The boundary of the epoch
// ---------------------------------------------------------------------------------------------

/// A validator.
#[derive(Debug)]
pub struct ValidatorInfo {
    pub address: String,
    pub stake: String,
    pub name: String,
    pub authority_key: String,
    pub protocol_key: String,
    pub network_key: String,
}

/// The boundary at which an epoch starts.
#[derive(Debug)]
pub struct BoundaryData {
    pub epoch: u64,
    pub timestamp_ms: u64,
    pub boundary_block: u64,
    pub validators: Vec<ValidatorInfo>,
    pub epoch_duration_secs: u64,
    pub boundary_gei: u64,
}

/// Where the boundary is being looked for.
#[derive(Clone, Copy, Debug, PartialEq, Eq, Structural)]
pub enum BoundaryPhase {
    /// The engine, for the epoch the node starts in.
    Engine,
    /// The engine's own epoch.
    EngineEpoch,
    /// Peer `peer`, for the epoch the node starts in. If none answers, only the engine's own epoch
    /// is left.
    Peer { peer: usize, local_epoch: u64 },
    /// The engine, for its own epoch. If it fails and `genesis` is set, the genesis validators are
    /// tried.
    EngineLocal { local_epoch: u64, genesis: bool },
    /// The engine's genesis validators.
    Genesis,
    /// Peer `peer`, for epoch 0.
    GenesisPeer { peer: usize },
    /// The search is over.
    Done,
}

/// What the application reports back.
#[derive(Debug)]
pub enum BoundaryEvent {
    /// The boundary, if it could be had. From a peer, or as genesis validators, it comes without
    /// the epoch's duration.
    Boundary(Option<BoundaryData>),
    /// The engine's epoch, if it could be had.
    Epoch(Option<u64>),
}

/// What the application is to do next.
#[derive(Debug)]
pub enum BoundaryAction {
    AskEngine { epoch: u64 },
    AskEngineEpoch,
    AskPeer { peer: usize, epoch: u64 },
    AskGenesisValidators,
    /// Use this boundary.
    Use(BoundaryData),
    /// No source has the boundary.
    Fail,
}

/// The search for the boundary of epoch `epoch`.
#[derive(Clone, Copy, Debug, PartialEq, Eq, Structural)]
pub struct BoundarySearch {
    pub epoch: u64,
    pub peer_count: usize,
    pub phase: BoundaryPhase,
}

impl BoundarySearch {
    pub open spec fn wf(&self) -> bool {
        match self.phase {
            BoundaryPhase::Peer { peer, local_epoch } => peer < self.peer_count && local_epoch
                < self.epoch,
            BoundaryPhase::GenesisPeer { peer } => peer < self.peer_count,
            _ => true,
        }
    }

    /// The event that the current phase waits for.
    pub open spec fn expects(&self, event: BoundaryEvent) -> bool {
        match self.phase {
            BoundaryPhase::EngineEpoch => event is Epoch,
            BoundaryPhase::Done => false,
            _ => event is Boundary,
        }
    }

    /// The phase after `event`.
    pub open spec fn next_phase(&self, event: BoundaryEvent) -> BoundaryPhase {
        match (self.phase, event) {
            (_, BoundaryEvent::Boundary(Some(_))) => BoundaryPhase::Done,
            (BoundaryPhase::Engine, BoundaryEvent::Boundary(None)) => BoundaryPhase::EngineEpoch,
            // An engine that is behind was restored from a snapshot: the peers know better.
            (BoundaryPhase::EngineEpoch, BoundaryEvent::Epoch(e)) => {
                let local_epoch = block_or_zero(e);
                if local_epoch < self.epoch && self.peer_count > 0 {
                    BoundaryPhase::Peer { peer: 0, local_epoch }
                } else {
                    BoundaryPhase::EngineLocal { local_epoch, genesis: true }
                }
            },
            (BoundaryPhase::Peer { peer, local_epoch }, BoundaryEvent::Boundary(None)) => {
                if peer + 1 < self.peer_count {
                    BoundaryPhase::Peer { peer: (peer + 1) as usize, local_epoch }
                } else {
                    BoundaryPhase::EngineLocal { local_epoch, genesis: false }
                }
            },
            (BoundaryPhase::EngineLocal { genesis: true, .. }, BoundaryEvent::Boundary(None)) => {
                BoundaryPhase::Genesis
            },
            (BoundaryPhase::Genesis, BoundaryEvent::Boundary(None)) if self.peer_count > 0 => {
                BoundaryPhase::GenesisPeer { peer: 0 }
            },
            (BoundaryPhase::GenesisPeer { peer }, BoundaryEvent::Boundary(None)) if peer + 1
                < self.peer_count => BoundaryPhase::GenesisPeer { peer: (peer + 1) as usize },
            _ => BoundaryPhase::Done,
        }
    }

    /// What is done with a boundary that was found. The boundary of a peer is that of the epoch it
    /// was asked for, and genesis validators are those of epoch 0, which starts at 0.
    pub open spec fn adopted(&self, found: BoundaryData, used: BoundaryData) -> bool {
        &&& used.validators == found.validators
        &&& match self.phase {
            BoundaryPhase::Peer { .. } => used.epoch == self.epoch && used.timestamp_ms
                == found.timestamp_ms && used.boundary_block == found.boundary_block
                && used.boundary_gei == found.boundary_gei && used.epoch_duration_secs
                == DEFAULT_EPOCH_DURATION,
            BoundaryPhase::GenesisPeer { .. } => used.epoch == 0 && used.timestamp_ms
                == found.timestamp_ms && used.boundary_block == found.boundary_block
                && used.boundary_gei == found.boundary_gei && used.epoch_duration_secs
                == DEFAULT_EPOCH_DURATION,
            BoundaryPhase::Genesis => used.epoch == 0 && used.timestamp_ms == 0
                && used.boundary_block == 0 && used.boundary_gei == 0 && used.epoch_duration_secs
                == DEFAULT_EPOCH_DURATION,
            _ => used == found,
        }
    }

    /// `action` is the action after `event`.
    pub open spec fn acts(&self, event: BoundaryEvent, action: BoundaryAction) -> bool {
        match (event, self.next_phase(event)) {
            (BoundaryEvent::Boundary(Some(found)), _) => action matches BoundaryAction::Use(used)
                && self.adopted(found, used),
            (_, BoundaryPhase::EngineEpoch) => action is AskEngineEpoch,
            (_, BoundaryPhase::Peer { peer, .. }) => action == (BoundaryAction::AskPeer {
                peer,
                epoch: self.epoch,
            }),
            (_, BoundaryPhase::EngineLocal { local_epoch, .. }) => action == (
            BoundaryAction::AskEngine { epoch: local_epoch }),
            (_, BoundaryPhase::Genesis) => action is AskGenesisValidators,
            (_, BoundaryPhase::GenesisPeer { peer }) => action == (BoundaryAction::AskPeer {
                peer,
                epoch: 0,
            }),
            _ => action is Fail,
        }
    }

    /// Starts the search.
    pub fn start(epoch: u64, peer_count: usize) -> (r: (BoundarySearch, BoundaryAction))
        ensures
            r.0.wf(),
            r.0.epoch == epoch,
            r.0.peer_count == peer_count,
            r.0.phase == BoundaryPhase::Engine,
            r.1 == (BoundaryAction::AskEngine { epoch }),
    {
        (
            BoundarySearch { epoch, peer_count, phase: BoundaryPhase::Engine },
            BoundaryAction::AskEngine { epoch },
        )
    }

    /// Goes on after `event`.
    pub fn step(&mut self, event: BoundaryEvent) -> (action: BoundaryAction)
        requires
            old(self).wf(),
            old(self).expects(event),
        ensures
            final(self).wf(),
            final(self).epoch == old(self).epoch,
            final(self).peer_count == old(self).peer_count,
            final(self).phase == old(self).next_phase(event),
            old(self).acts(event, action),
    {
        match event {
            BoundaryEvent::Boundary(Some(found)) => {
                let phase = self.phase;
                self.phase = BoundaryPhase::Done;
                let mut used = found;
                match phase {
                    BoundaryPhase::Peer { .. } => {
                        used.epoch = self.epoch;
                        used.epoch_duration_secs = DEFAULT_EPOCH_DURATION;
                    },
                    BoundaryPhase::GenesisPeer { .. } => {
                        used.epoch = 0;
                        used.epoch_duration_secs = DEFAULT_EPOCH_DURATION;
                    },
                    BoundaryPhase::Genesis => {
                        used.epoch = 0;
                        used.timestamp_ms = 0;
                        used.boundary_block = 0;
                        used.boundary_gei = 0;
                        used.epoch_duration_secs = DEFAULT_EPOCH_DURATION;
                    },
                    _ => {},
                }
                BoundaryAction::Use(used)
            },
            BoundaryEvent::Boundary(None) => self.on_failure(),
            BoundaryEvent::Epoch(epoch) => {
                let local_epoch: u64 = match epoch {
                    Some(e) => e,
                    None => 0,
                };
                if local_epoch < self.epoch && self.peer_count > 0 {
                    self.phase = BoundaryPhase::Peer { peer: 0, local_epoch };
                    BoundaryAction::AskPeer { peer: 0, epoch: self.epoch }
                } else {
                    self.phase = BoundaryPhase::EngineLocal { local_epoch, genesis: true };
                    BoundaryAction::AskEngine { epoch: local_epoch }
                }
            },
        }
    }

    fn on_failure(&mut self) -> (action: BoundaryAction)
        requires
            old(self).wf(),
            old(self).expects(BoundaryEvent::Boundary(None)),
        ensures
            final(self).wf(),
            final(self).epoch == old(self).epoch,
            final(self).peer_count == old(self).peer_count,
            final(self).phase == old(self).next_phase(BoundaryEvent::Boundary(None)),
            old(self).acts(BoundaryEvent::Boundary(None), action),
    {
        match self.phase {
            BoundaryPhase::Engine => {
                self.phase = BoundaryPhase::EngineEpoch;
                BoundaryAction::AskEngineEpoch
            },
            BoundaryPhase::Peer { peer, local_epoch } => {
                if peer + 1 < self.peer_count {
                    self.phase = BoundaryPhase::Peer { peer: peer + 1, local_epoch };
                    BoundaryAction::AskPeer { peer: peer + 1, epoch: self.epoch }
                } else {
                    self.phase = BoundaryPhase::EngineLocal { local_epoch, genesis: false };
                    BoundaryAction::AskEngine { epoch: local_epoch }
                }
            },
            BoundaryPhase::EngineLocal { genesis: true, .. } => {
                self.phase = BoundaryPhase::Genesis;
                BoundaryAction::AskGenesisValidators
            },
            BoundaryPhase::Genesis if self.peer_count > 0 => {
                self.phase = BoundaryPhase::GenesisPeer { peer: 0 };
                BoundaryAction::AskPeer { peer: 0, epoch: 0 }
            },
            BoundaryPhase::GenesisPeer { peer } if peer + 1 < self.peer_count => {
                self.phase = BoundaryPhase::GenesisPeer { peer: peer + 1 };
                BoundaryAction::AskPeer { peer: peer + 1, epoch: 0 }
            },
            _ => {
                self.phase = BoundaryPhase::Done;
                BoundaryAction::Fail
            },
        }
    }
}

/// A bound on the number of events until the search is over.
pub open spec fn boundary_steps_left(s: BoundarySearch) -> int {
    let n = s.peer_count as int;
    match s.phase {
        BoundaryPhase::Engine => 2 * n + 5,
        BoundaryPhase::EngineEpoch => 2 * n + 4,
        BoundaryPhase::Peer { peer, .. } => 2 * n + 3 - peer,
        BoundaryPhase::EngineLocal { .. } => n + 2,
        BoundaryPhase::Genesis => n + 1,
        BoundaryPhase::GenesisPeer { peer } => n - peer,
        BoundaryPhase::Done => 0,
    }
}

/// The search always comes to an end, and asks every peer at most once per epoch.
pub proof fn law_boundary_search_terminates(s: BoundarySearch, event: BoundaryEvent)
    requires
        s.wf(),
        s.expects(event),
    ensures
        ({
            let next = BoundarySearch { phase: s.next_phase(event), ..s };
            0 <= boundary_steps_left(next) < boundary_steps_left(s)
        }),
{
}

/// The validators that form the committee: all of them, or for debugging only those called
/// `node-0`.
pub open spec fn chosen_validators(
    validators: Seq<ValidatorInfo>,
    single_node: bool,
) -> Seq<ValidatorInfo> {
    if single_node {
        validators.filter(|v: ValidatorInfo| v.name@ == "node-0"@)
    } else {
        validators
    }
}

/// Chooses the validators that form the committee; `None` if there are no validators at all.
pub fn choose_validators(validators: Vec<ValidatorInfo>, single_node: bool) -> (r: Option<
    Vec<ValidatorInfo>,
>)
    ensures
        r is None <==> validators@.len() == 0,
        r matches Some(chosen) ==> chosen@ == chosen_validators(validators@, single_node),
{
    if validators.len() == 0 {
        return None;
    }
    if !single_node {
        return Some(validators);
    }
    let ghost all = validators@;
    let ghost pred = |v: ValidatorInfo| v.name@ == "node-0"@;
    let mut rest = validators;
    let mut reversed: Vec<ValidatorInfo> = Vec::new();
    let wanted = crate::text::copy_str("node-0");
    assert(all.take(all.len() as int) =~= all);
    assert(all.skip(all.len() as int) =~= Seq::<ValidatorInfo>::empty());
    proof {
        reveal(Seq::filter);
        assert(all.skip(all.len() as int).filter(pred) =~= Seq::<ValidatorInfo>::empty());
    }
    while rest.len() > 0
        invariant
            rest@.len() <= all.len(),
            wanted@ == "node-0"@,
            pred == (|v: ValidatorInfo| v.name@ == "node-0"@),
            rest@ == all.take(rest@.len() as int),
            reversed@.reverse() == all.skip(rest@.len() as int).filter(pred),
        decreases rest@.len(),
    {
        let ghost n = rest@.len();
        match rest.pop() {
            Some(v) => {
                proof {
                    assert(v == all[n - 1]);
                    assert(rest@ =~= all.take(n - 1));
                    assert(all.skip(n - 1) =~= seq![v] + all.skip(n as int));
                    lemma_filter_cons(v, all.skip(n as int), pred);
                }
                let ghost before = reversed@;
                if v.name == wanted {
                    reversed.push(v);
                    assert(reversed@.reverse() =~= seq![v] + before.reverse());
                }
            },
            None => {},
        }
    }
    assert(all.skip(0) =~= all);
    let mut chosen: Vec<ValidatorInfo> = Vec::new();
    let ghost goal = reversed@.reverse();
    assert(chosen@ + goal =~= goal);
    while reversed.len() > 0
        invariant
            chosen@ + reversed@.reverse() == goal,
        decreases reversed@.len(),
    {
        let ghost before = reversed@;
        let ghost done = chosen@;
        match reversed.pop() {
            Some(v) => {
                chosen.push(v);
                proof {
                    assert(before.reverse() =~= seq![v] + reversed@.reverse());
                    assert(done + before.reverse() =~= chosen@ + reversed@.reverse());
                }
            },
            None => {},
        }
    }
    assert(chosen@ =~= goal);
    Some(chosen)
}

/// Filtering a list from its front.
proof fn lemma_filter_cons(
    v: ValidatorInfo,
    rest: Seq<ValidatorInfo>,
    pred: spec_fn(ValidatorInfo) -> bool,
)
    ensures
        (seq![v] + rest).filter(pred) == if pred(v) {
            seq![v] + rest.filter(pred)
        } else {
            rest.filter(pred)
        },
    decreases rest.len(),
{
    reveal(Seq::filter);
    if rest.len() == 0 {
        assert(seq![v] + rest =~= seq![v]);
        assert(seq![v].drop_last() =~= Seq::<ValidatorInfo>::empty());
        assert(rest.filter(pred) =~= Seq::<ValidatorInfo>::empty());
        assert(seq![v].drop_last().filter(pred) =~= Seq::<ValidatorInfo>::empty());
        assert(seq![v].filter(pred) =~= if pred(v) {
            seq![v]
        } else {
            Seq::<ValidatorInfo>::empty()
        });
    } else {
        lemma_filter_cons(v, rest.drop_last(), pred);
        assert((seq![v] + rest).drop_last() =~= seq![v] + rest.drop_last());
        assert((seq![v] + rest).last() == rest.last());
        assert((seq![v] + rest).filter(pred) =~= if pred(v) {
            seq![v] + rest.filter(pred)
        } else {
            rest.filter(pred)
        });
    }
}

/// The position of the node's own key among the keys of the committee.
pub fn find_own_index(committee_keys: &Vec<Vec<u8>>, own_key: &Vec<u8>) -> (r: Option<usize>)
    ensures
        match r {
            Some(i) => i < committee_keys@.len() && committee_keys@[i as int]@ == own_key@
                && forall|j: int| 0 <= j < i ==> (#[trigger] committee_keys@[j])@ != own_key@,
            None => forall|j: int|
                0 <= j < committee_keys@.len() ==> (#[trigger] committee_keys@[j])@ != own_key@,
        },
{
    let mut i: usize = 0;
    while i < committee_keys.len()
        invariant
            i <= committee_keys@.len(),
            forall|j: int| 0 <= j < i ==> (#[trigger] committee_keys@[j])@ != own_key@,
        decreases committee_keys@.len() - i,
    {
        match crate::lex::lex_relate(committee_keys[i].as_slice(), own_key.as_slice()) {
            crate::lex::LexRelation::Same => {
                return Some(i);
            },
            _ => {},
        }
        i = i + 1;
    }
    None
}

// ---------------------------------------------------------------------------------------------
// The execution index
// ---------------------------------------------------------------------------------------------

/// How the local engine stands to a peer. A difference of up to five blocks counts as in sync.
#[derive(Clone, Copy, Debug, PartialEq, Eq, Structural)]
pub enum ChainRelation {
    /// There is no peer to compare with.
    NoReference,
    /// The local engine is ahead: its chain is stale.
    Ahead,
    /// The local engine is behind.
    Behind,
    /// Both are in sync.
    InSync,
}

/// Where execution resumes.
#[derive(Clone, Copy, Debug, PartialEq, Eq, Structural)]
pub struct ExecutionStart {
    pub last_global_exec_index: u64,
    /// The node is too far behind to vote.
    pub is_lagging: bool,
    pub relation: ChainRelation,
}

/// A node that is behind by more than this is lagging.
pub const LAGGING_BLOCKS: u64 = 50;

/// A difference up to this counts as in sync.
pub const SYNC_TOLERANCE: u64 = 5;

/// How a local chain of `local` blocks stands to a peer with `peer` blocks.
pub open spec fn chain_relation(local: u64, peer: u64) -> ChainRelation {
    if peer == 0 {
        ChainRelation::NoReference
    } else if local > peer + SYNC_TOLERANCE {
        ChainRelation::Ahead
    } else if local + SYNC_TOLERANCE < peer {
        ChainRelation::Behind
    } else {
        ChainRelation::InSync
    }
}

/// The block that the local engine is compared with: that of the peer that the node starts from, or
/// 0 if it starts from its own engine.
pub fn reference_block(best_socket: &str, own_socket: &str, peer_last_block: u64) -> (r: u64)
    ensures
        r == if best_socket@ == own_socket@ {
            0
        } else {
            peer_last_block
        },
{
    let best = chars_of(best_socket);
    let own = chars_of(own_socket);
    if same_text(best.as_slice(), own.as_slice()) {
        0
    } else {
        peer_last_block
    }
}

/// Determines where execution resumes: at the local engine's index, whatever the peer has. Without
/// access to the engine that is 0. `peer_block` is 0 if there is no peer to compare with.
pub fn calculate_last_global_exec_index(
    executor_read_enabled: bool,
    local_block: u64,
    local_gei: u64,
    peer_block: u64,
) -> (r: ExecutionStart)
    ensures
        r.last_global_exec_index == if executor_read_enabled {
            local_gei
        } else {
            0
        },
        r.is_lagging == (executor_read_enabled && peer_block > local_block + LAGGING_BLOCKS),
        r.relation == if executor_read_enabled {
            chain_relation(local_block, peer_block)
        } else {
            ChainRelation::NoReference
        },
{
    if !executor_read_enabled {
        return ExecutionStart {
            last_global_exec_index: 0,
            is_lagging: false,
            relation: ChainRelation::NoReference,
        };
    }
    let mut is_lagging = false;
    let relation = if peer_block == 0 {
        ChainRelation::NoReference
    } else if local_block > peer_block && local_block - peer_block > SYNC_TOLERANCE {
        ChainRelation::Ahead
    } else if local_block < peer_block.saturating_sub(SYNC_TOLERANCE) {
        is_lagging = peer_block - local_block > LAGGING_BLOCKS;
        ChainRelation::Behind
    } else {
        ChainRelation::InSync
    };
    ExecutionStart { last_global_exec_index: local_gei, is_lagging, relation }
}

// ---------------------------------------------------------------------------------------------
// The mode
// ---------------------------------------------------------------------------------------------

/// How consensus starts.
#[derive(Clone, Copy, Debug, PartialEq, Eq, Structural)]
pub struct ConsensusStart {
    /// The node belongs to the committee but has no DAG of the running epoch: it was restored from
    /// a snapshot. It must not vote before it has caught up.
    pub cold_start: bool,
    /// The index up to which the commit processor passes over commits: all of them after a cold
    /// start, none otherwise. Once the node has caught up, a new processor executes commits.
    pub skip_gei: u64,
    /// The index that the execution engine waits for.
    pub initial_next_expected: u64,
    /// Whether the consensus engine is started.
    pub start_as_validator: bool,
    pub node_mode: NodeMode,
}

/// Decides how consensus starts.
pub fn plan_consensus(
    dag_has_history: bool,
    is_in_committee: bool,
    is_lagging: bool,
    epoch: u64,
    executor_read_enabled: bool,
    last_global_exec_index: u64,
) -> (r: ConsensusStart)
    requires
        last_global_exec_index < u64::MAX,
    ensures
        r.cold_start == (!dag_has_history && is_in_committee && epoch > 0),
        r.skip_gei == if r.cold_start {
            u64::MAX
        } else {
            0
        },
        r.initial_next_expected == if executor_read_enabled {
            last_global_exec_index + 1
        } else {
            1
        },
        r.start_as_validator == (is_in_committee && !is_lagging && !r.cold_start),
        r.node_mode == if !is_in_committee {
            NodeMode::SyncOnly
        } else if is_lagging || r.cold_start {
            NodeMode::SyncingUp
        } else {
            NodeMode::Validator
        },
        r.node_mode == NodeMode::Validator <==> r.start_as_validator,
{
    let cold_start = !dag_has_history && is_in_committee && epoch > 0;
    let start_as_validator = is_in_committee && !is_lagging && (dag_has_history || epoch == 0);
    let node_mode = if is_in_committee {
        if is_lagging || (!dag_has_history && epoch > 0) {
            NodeMode::SyncingUp
        } else {
            NodeMode::Validator
        }
    } else {
        NodeMode::SyncOnly
    };
    ConsensusStart {
        cold_start,
        skip_gei: if cold_start {
            u64::MAX
        } else {
            0
        },
        initial_next_expected: if executor_read_enabled {
            last_global_exec_index + 1
        } else {
            1
        },
        start_as_validator,
        node_mode,
    }
}

// ---------------------------------------------------------------------------------------------
// What a start does
// ---------------------------------------------------------------------------------------------

/// What a boundary that was found becomes. That of the engine is used as it is, in every field. Of a
/// peer's, when and where the epoch begins and who its validators are is used as it is; the epoch
/// is the one that was asked for, and its duration 900 seconds. Genesis validators begin epoch 0,
/// at time, block and index 0.
pub proof fn law_the_boundary_found_is_used(
    s: BoundarySearch,
    found: BoundaryData,
    action: BoundaryAction,
)
    requires
        s.acts(BoundaryEvent::Boundary(Some(found)), action),
        s.expects(BoundaryEvent::Boundary(Some(found))),
    ensures
        action is Use,
        s.next_phase(BoundaryEvent::Boundary(Some(found))) is Done,
        action matches BoundaryAction::Use(used) ==> {
            &&& used.validators == found.validators
            &&& s.phase is Engine || s.phase is EngineLocal ==> used == found
            &&& !(s.phase is Genesis) ==> used.timestamp_ms == found.timestamp_ms
                && used.boundary_block == found.boundary_block && used.boundary_gei
                == found.boundary_gei
            &&& s.phase is Peer ==> used.epoch == s.epoch && used.epoch_duration_secs == 900
            &&& s.phase is GenesisPeer ==> used.epoch == 0 && used.epoch_duration_secs == 900
            &&& s.phase is Genesis ==> used.epoch == 0 && used.timestamp_ms == 0
                && used.boundary_block == 0 && used.boundary_gei == 0 && used.epoch_duration_secs
                == 900
        },
{
}

/// Where the boundary is looked for when the sources before had none. After the engine, its epoch
/// decides: if it is behind and there are peers, they are asked in turn for the epoch the node
/// starts in, and then the engine for its own; otherwise the engine is asked for its own epoch
/// first, then for the genesis validators, then the peers in turn for epoch 0.
pub proof fn law_where_the_boundary_is_looked_for(
    s: BoundarySearch,
    event: BoundaryEvent,
    action: BoundaryAction,
)
    requires
        s.wf(),
        s.expects(event),
        s.acts(event, action),
        !(event matches BoundaryEvent::Boundary(Some(_))),
    ensures
        s.phase is Engine ==> action is AskEngineEpoch && s.next_phase(event) is EngineEpoch,
        s.phase is EngineEpoch ==> {
            let local: u64 = match event->Epoch_0 {
                Some(e) => e,
                None => 0,
            };
            &&& local < s.epoch && s.peer_count > 0 ==> action == (BoundaryAction::AskPeer {
                peer: 0,
                epoch: s.epoch,
            }) && s.next_phase(event) == (BoundaryPhase::Peer { peer: 0, local_epoch: local })
            &&& local >= s.epoch || s.peer_count == 0 ==> action == (BoundaryAction::AskEngine {
                epoch: local,
            }) && s.next_phase(event) == (BoundaryPhase::EngineLocal {
                local_epoch: local,
                genesis: true,
            })
        },
        s.phase matches BoundaryPhase::Peer { peer, local_epoch } ==> {
            &&& peer + 1 < s.peer_count ==> action == (BoundaryAction::AskPeer {
                peer: (peer + 1) as usize,
                epoch: s.epoch,
            }) && s.next_phase(event) == (BoundaryPhase::Peer {
                peer: (peer + 1) as usize,
                local_epoch,
            })
            &&& peer + 1 == s.peer_count ==> action == (BoundaryAction::AskEngine {
                epoch: local_epoch,
            }) && s.next_phase(event) == (BoundaryPhase::EngineLocal {
                local_epoch,
                genesis: false,
            })
        },
        s.phase matches BoundaryPhase::EngineLocal { genesis, .. } ==> {
            &&& genesis ==> action is AskGenesisValidators && s.next_phase(event) is Genesis
            &&& !genesis ==> action is Fail && s.next_phase(event) is Done
        },
        s.phase is Genesis ==> {
            &&& s.peer_count > 0 ==> action == (BoundaryAction::AskPeer { peer: 0, epoch: 0 })
                && s.next_phase(event) == (BoundaryPhase::GenesisPeer { peer: 0 })
            &&& s.peer_count == 0 ==> action is Fail && s.next_phase(event) is Done
        },
        s.phase matches BoundaryPhase::GenesisPeer { peer } ==> {
            &&& peer + 1 < s.peer_count ==> action == (BoundaryAction::AskPeer {
                peer: (peer + 1) as usize,
                epoch: 0,
            }) && s.next_phase(event) == (BoundaryPhase::GenesisPeer { peer: (peer + 1) as usize })
            &&& peer + 1 == s.peer_count ==> action is Fail && s.next_phase(event) is Done
        },
{
}

/// In which epoch a node starts: the one that the source it asked last named, and no other. The last
/// block is the one that is known, and what it is compared with is that of the source.
pub proof fn law_a_node_starts_in_the_epoch_it_was_told(d: StartupDiscovery, event: DiscoveryEvent)
    requires
        d.wf(),
        d.expects(event),
    ensures
        d.next_action(event) matches DiscoveryAction::StartWith {
            epoch,
            latest_block,
            reference_block,
        } ==> {
            &&& latest_block == d.latest_block
            &&& event matches DiscoveryEvent::Epoch(e) ==> e == Some(epoch) && reference_block
                == d.latest_block
            &&& event matches DiscoveryEvent::Peers(p) ==> p == Some((epoch, reference_block))
            &&& !(event is Block)
        },
        event matches DiscoveryEvent::Peers(Some(p)) ==> d.next_action(event) is StartWith,
        d.phase is LocalEpoch && event->Epoch_0 is Some ==> d.next_action(event) is StartWith,
        d.phase is LocalEpoch && event->Epoch_0 is None ==> d.next_action(event) is Fail,
        d.phase is EngineEpoch && (event->Epoch_0 matches Some(e) && e > 0) ==> d.next_action(
            event,
        ) is StartWith,
        d.next_action(event) is Fail || d.next_action(event) is StartWith <==> d.next_phase(event)
            is Done,
{
}

/// Which block a node takes for its last one: what the engine says, or without an answer what the
/// files of the last run say, or 0. An engine that says 0, or nothing, is asked thirty times, two
/// seconds apart: it may still be loading.
pub proof fn law_the_engine_is_asked_for_its_block(d: StartupDiscovery, block: Option<u64>)
    requires
        d.wf(),
        d.expects(DiscoveryEvent::Block(block)),
    ensures
        block matches Some(n) ==> d.next_block(DiscoveryEvent::Block(block)) == n,
        block is None && d.phase is PersistedBlock ==> d.next_block(DiscoveryEvent::Block(block))
            == 0,
        block is None && d.phase is Block ==> d.next_block(DiscoveryEvent::Block(block))
            == d.latest_block,
        d.phase matches DiscoveryPhase::Block { attempt } ==> {
            let again = block is None || block == Some(0u64);
            &&& again && attempt < 30 ==> d.next_action(DiscoveryEvent::Block(block)) == (
            DiscoveryAction::AskBlock { wait_ms: 2000 }) && d.next_phase(
                DiscoveryEvent::Block(block),
            ) == (DiscoveryPhase::Block { attempt: (attempt + 1) as u32 })
            &&& block is None && attempt == 30 ==> d.next_action(DiscoveryEvent::Block(block))
                is ReadPersistedBlock && d.next_phase(DiscoveryEvent::Block(block))
                is PersistedBlock
        },
{
}

/// Who is asked for the epoch once the last block is settled. A node that does not vote asks its
/// engine: again and again if it has blocks, once if it has none. One that votes asks its peers if
/// it has any, and its engine otherwise.
pub proof fn law_who_is_asked_for_the_epoch(d: StartupDiscovery, block: u64)
    requires
        d.wf(),
    ensures
        (d.phase is PersistedBlock || (d.phase is Block && block > 0)) ==> {
            let action = d.next_action(DiscoveryEvent::Block(Some(block)));
            let phase = d.next_phase(DiscoveryEvent::Block(Some(block)));
            &&& d.sync_only && block > 0 ==> phase == (DiscoveryPhase::EngineEpoch { attempt: 1 })
                && action == (DiscoveryAction::AskEngineEpoch { wait_ms: 0 })
            &&& d.sync_only && block == 0 ==> phase is LocalEpoch && action == (
            DiscoveryAction::AskEngineEpoch { wait_ms: 0 })
            &&& !d.sync_only && d.has_peers ==> phase == (DiscoveryPhase::PeerEpoch { attempt: 1 })
                && action == (DiscoveryAction::AskPeers { wait_ms: 0 })
            &&& !d.sync_only && !d.has_peers ==> phase is LocalEpoch && action == (
            DiscoveryAction::AskEngineEpoch { wait_ms: 0 })
        },
        d.phase is PersistedBlock ==> d.next_phase(DiscoveryEvent::Block(None)) == d.next_phase(
            DiscoveryEvent::Block(Some(0)),
        ),
        d.phase == (DiscoveryPhase::Block { attempt: 30 }) ==> d.next_phase(
            DiscoveryEvent::Block(Some(0)),
        ) == if d.sync_only || !d.has_peers {
            DiscoveryPhase::LocalEpoch
        } else {
            DiscoveryPhase::PeerEpoch { attempt: 1 }
        },
{
}

/// How often a question for the epoch is repeated, always after two seconds: to an engine that has
/// blocks until it names an epoch above 0, thirty times; to the peers three times, and then to the
/// engine instead.
pub proof fn law_how_often_the_epoch_is_asked_for(d: StartupDiscovery, epoch: Option<u64>)
    requires
        d.wf(),
    ensures
        d.phase matches DiscoveryPhase::EngineEpoch { attempt } ==> {
            let action = d.next_action(DiscoveryEvent::Epoch(epoch));
            let phase = d.next_phase(DiscoveryEvent::Epoch(epoch));
            let again = epoch is None || epoch == Some(0u64);
            &&& again && attempt < 30 ==> action == (DiscoveryAction::AskEngineEpoch {
                wait_ms: 2000,
            }) && phase == (DiscoveryPhase::EngineEpoch { attempt: (attempt + 1) as u32 })
            &&& epoch is None && attempt == 30 ==> action is Fail && phase is Done
            &&& epoch == Some(0u64) && attempt == 30 ==> action is StartWith && phase is Done
        },
        d.phase matches DiscoveryPhase::PeerEpoch { attempt } ==> {
            let action = d.next_action(DiscoveryEvent::Peers(None));
            let phase = d.next_phase(DiscoveryEvent::Peers(None));
            &&& attempt < 3 ==> action == (DiscoveryAction::AskPeers { wait_ms: 2000 }) && phase
                == (DiscoveryPhase::PeerEpoch { attempt: (attempt + 1) as u32 })
            &&& attempt == 3 ==> action == (DiscoveryAction::AskEngineEpoch { wait_ms: 0 })
                && phase is LocalEpoch
        },
{
}

/// Which data of old epochs goes when a node starts: all of it if the node was ahead of the network;
/// none if it was in the same epoch or keeps everything; else that of epochs more than
/// `epochs_to_keep` before the network's, and no other.
pub proof fn law_which_epochs_go(local_epoch: u64, network_epoch: u64, epochs_to_keep: u64, e: u64)
    ensures
        ({
            let plan = cleanup_plan(local_epoch, network_epoch, epochs_to_keep);
            &&& plan is RemoveAll <==> local_epoch > network_epoch
            &&& plan is KeepAll <==> local_epoch == network_epoch || (local_epoch < network_epoch
                && epochs_to_keep == 0)
            &&& plan matches CleanupPlan::RemoveBefore(keep_from) ==> (e < keep_from <==> e
                + epochs_to_keep < network_epoch)
        }),
{
}

/// The data of an epoch is in the directory that is named after it.
pub proof fn law_directories_are_named_after_epochs(e: u64, name: Seq<char>)
    ensures
        epoch_of_dir("epoch_"@ + crate::text::decimal(e as nat)) == Some(e as nat),
        name.len() < 6 || name.take(6) != "epoch_"@ ==> epoch_of_dir(name) is None,
{
    reveal_strlit("epoch_");
    let p = "epoch_"@;
    let s = p + crate::text::decimal(e as nat);
    assert(s.take(p.len() as int) =~= p);
    assert(s.skip(p.len() as int) =~= crate::text::decimal(e as nat));
    crate::text::law_decimal_round_trip(e as nat, u64::MAX as nat);
}

/// The committee is formed by all validators, in their order; when debugging a single node, by
/// those called `node-0` and no other.
pub proof fn law_who_forms_the_committee(validators: Seq<ValidatorInfo>)
    ensures
        chosen_validators(validators, false) == validators,
        forall|v: ValidatorInfo| #[trigger]
            chosen_validators(validators, true).contains(v) <==> validators.contains(v) && v.name@
                == "node-0"@,
        chosen_validators(validators, true).len() <= validators.len(),
{
    let pred = |v: ValidatorInfo| v.name@ == "node-0"@;
    assert forall|v: ValidatorInfo| #[trigger]
        chosen_validators(validators, true).contains(v) <==> validators.contains(v) && v.name@
            == "node-0"@ by {
        lemma_filter_holds(validators, pred, v);
    }
    lemma_filter_len(validators, pred);
}

proof fn lemma_filter_holds(
    s: Seq<ValidatorInfo>,
    pred: spec_fn(ValidatorInfo) -> bool,
    v: ValidatorInfo,
)
    ensures
        s.filter(pred).contains(v) <==> s.contains(v) && pred(v),
    decreases s.len(),
{
    reveal(Seq::filter);
    if s.len() > 0 {
        let init = s.drop_last();
        lemma_filter_holds(init, pred, v);
        assert(s =~= init.push(s.last()));
        assert(s.contains(v) <==> init.contains(v) || s.last() == v) by {
            if init.contains(v) {
                let i = choose|i: int| 0 <= i < init.len() && init[i] == v;
                assert(s[i] == v);
            }
            if s.contains(v) {
                let i = choose|i: int| 0 <= i < s.len() && s[i] == v;
                if i < init.len() {
                    assert(init[i] == v);
                }
            }
            assert(s[s.len() - 1] == s.last());
        }
        let f = init.filter(pred);
        let g = f.push(s.last());
        assert(g.contains(v) <==> f.contains(v) || s.last() == v) by {
            if f.contains(v) {
                let i = choose|i: int| 0 <= i < f.len() && f[i] == v;
                assert(g[i] == v);
            }
            if g.contains(v) {
                let i = choose|i: int| 0 <= i < g.len() && g[i] == v;
                if i < f.len() {
                    assert(f[i] == v);
                }
            }
            assert(g[f.len() as int] == s.last());
        }
    }
}

proof fn lemma_filter_len(s: Seq<ValidatorInfo>, pred: spec_fn(ValidatorInfo) -> bool)
    ensures
        s.filter(pred).len() <= s.len(),
    decreases s.len(),
{
    reveal(Seq::filter);
    if s.len() > 0 {
        lemma_filter_len(s.drop_last(), pred);
    }
}

/// How a chain stands to a peer's: a difference of up to five blocks is none, and without a peer's
/// block there is nothing to compare with.
pub proof fn law_how_chains_compare(local: u64, peer: u64)
    ensures
        chain_relation(local, peer) is NoReference <==> peer == 0,
        chain_relation(local, peer) is Ahead <==> peer > 0 && local - peer > 5,
        chain_relation(local, peer) is Behind <==> peer > 0 && peer - local > 5,
        chain_relation(local, peer) is InSync <==> peer > 0 && -5 <= local - peer <= 5,
{
}

/// A peer that is the node itself says nothing about the network; any other peer's block is the
/// reference.
pub proof fn law_the_node_is_no_reference_for_itself(best: &str, own: &str, block: u64, r: u64)
    requires
        call_ensures(reference_block, (best, own, block), r),
    ensures
        best@ == own@ ==> r == 0,
        best@ != own@ ==> r == block,
{
}

/// A node outside the committee only follows. A member votes unless it lags, or has no history in
/// an epoch after the first: that is a cold start, which passes over the commits it missed. Only
/// with the engine's index read is that index continued.
pub proof fn law_how_consensus_starts(
    has_history: bool,
    member: bool,
    lagging: bool,
    epoch: u64,
    reads: bool,
    last_gei: u64,
    r: ConsensusStart,
)
    requires
        call_ensures(plan_consensus, (has_history, member, lagging, epoch, reads, last_gei), r),
    ensures
        !member ==> r.node_mode is SyncOnly && !r.start_as_validator && !r.cold_start,
        member && lagging ==> r.node_mode is SyncingUp && !r.start_as_validator,
        member && !has_history && epoch >= 1 ==> r.cold_start && r.node_mode is SyncingUp
            && !r.start_as_validator,
        member && !lagging && has_history ==> r.node_mode is Validator && r.start_as_validator,
        member && !lagging && epoch == 0 ==> r.node_mode is Validator && r.start_as_validator,
        has_history || epoch == 0 ==> !r.cold_start,
        r.cold_start ==> r.skip_gei == u64::MAX,
        !r.cold_start ==> r.skip_gei == 0,
        reads ==> r.initial_next_expected == last_gei + 1,
        !reads ==> r.initial_next_expected == 1,
{
}

/// A boundary that the engine reports ends the search and is used as it is. One from a peer keeps
/// its block and its index.
pub proof fn law_a_reported_boundary_ends_the_search(
    s: &mut BoundarySearch,
    found: BoundaryData,
    action: BoundaryAction,
)
    requires
        call_ensures(BoundarySearch::step, (s, BoundaryEvent::Boundary(Some(found))), action),
        old(s).expects(BoundaryEvent::Boundary(Some(found))),
    ensures
        final(s).phase is Done,
        old(s).phase is Engine || old(s).phase is EngineLocal ==> action == BoundaryAction::Use(
            found,
        ),
        old(s).phase is Peer || old(s).phase is GenesisPeer ==> (action matches BoundaryAction::Use(
            used,
        ) && used.boundary_gei == found.boundary_gei && used.boundary_block == found.boundary_block
            && used.timestamp_ms == found.timestamp_ms && used.validators == found.validators),
{
}

/// Execution goes on from the local engine's index, whatever the peer has, and from 0 without
/// access to the engine. A node lags if it is more than fifty blocks behind the peer.
pub proof fn law_where_execution_goes_on(
    reads: bool,
    local_block: u64,
    local_gei: u64,
    peer_block: u64,
    r: ExecutionStart,
)
    requires
        call_ensures(
            calculate_last_global_exec_index,
            (reads, local_block, local_gei, peer_block),
            r,
        ),
    ensures
        reads ==> r.last_global_exec_index == local_gei,
        !reads ==> r.last_global_exec_index == 0 && !r.is_lagging,
        reads ==> (r.is_lagging <==> peer_block - local_block > 50),
        reads && peer_block > 0 ==> (r.relation is Behind <==> peer_block - local_block > 5),
        !reads || peer_block == 0 ==> r.relation is NoReference,
{
}

} // verus!
