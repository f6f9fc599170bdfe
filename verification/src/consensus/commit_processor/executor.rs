//! Handing one commit to the execution engine.
//!
//! Dispatching a commit alternates questions to the engine, waiting, and decisions. The decisions
//! are here: [`CommitDispatch`] goes from event to action until the commit is settled.

use std::collections::BTreeMap;
use vstd::prelude::*;
use vstd::utf8::encode_utf8;

use crate::deps::{hex_bytes, hex_decode, hex_text, is_hex_text, law_hex_round_trip};
use crate::node::executor_client::block_sending::copy_bytes;
use crate::node::executor_client::send_queue::{is_min_key, min_key};
use crate::sorting::{is_sorted_order, sorted_order};
use crate::text::{chars_of, find, first_occurrence, has_prefix, starts_with, string_of};

verus! {

/// How often resolving the leader is retried.
pub const MAX_LEADER_RETRIES: u32 = 10;

/// The wait for a committee to be loaded.
pub const EMPTY_CACHE_WAIT_MS: u64 = 200;

/// The wait after a committee turned out to be wrong.
pub const REFRESH_WAIT_MS: u64 = 500;

/// How far a commit may be ahead of the engine.
pub const MAX_ALLOWED_GEI_GAP: u64 = 200;

/// The wait between two looks at a gap.
pub const GAP_WAIT_INTERVAL_MS: u64 = 200;

/// How often a gap is looked at before the commit is sent anyway.
pub const MAX_GAP_WAIT_ATTEMPTS: u64 = 300;

/// The length of an address of the execution engine.
pub const ADDRESS_LEN: usize = 20;

// ---------------------------------------------------------------------------------------------
// Leader addresses
// ---------------------------------------------------------------------------------------------

/// The addresses of the validators of each known epoch, in committee order.
pub type CommitteeCache = BTreeMap<u64, Vec<Vec<u8>>>;

/// How many committees the cache keeps: enough for the lookups around a change of epoch.
pub const MAX_COMMITTEES: usize = 3;

/// `after` is the cache `before` with the committee of `epoch`. There is room for
/// [`MAX_COMMITTEES`]: of the other epochs, the earliest ones make way.
pub open spec fn remembers_committee(
    before: Map<u64, Vec<Vec<u8>>>,
    after: Map<u64, Vec<Vec<u8>>>,
    epoch: u64,
    addresses: Vec<Vec<u8>>,
) -> bool {
    &&& after.contains_key(epoch) && after[epoch] == addresses
    &&& after.len() <= MAX_COMMITTEES
    &&& forall|k: u64|
        k != epoch && #[trigger] after.contains_key(k) ==> before.contains_key(k) && after[k]
            == before[k]
    &&& forall|k: u64, j: u64|
        k != epoch && j != epoch && #[trigger] before.contains_key(k) && !after.contains_key(k)
            && #[trigger] after.contains_key(j) ==> k < j
    &&& forall|k: u64|
        k != epoch && #[trigger] before.contains_key(k) && !after.contains_key(k) ==> after.len()
            == MAX_COMMITTEES
}

/// Puts the committee of an epoch into the cache.
pub fn remember_committee(cache: &mut CommitteeCache, epoch: u64, addresses: Vec<Vec<u8>>)
    ensures
        remembers_committee(old(cache)@, final(cache)@, epoch, addresses),
{
    cache.remove(&epoch);
    let ghost others = old(cache)@.remove(epoch);
    assert(cache@ =~= others);
    while cache.len() >= MAX_COMMITTEES
        invariant
            !cache@.contains_key(epoch),
            cache@.submap_of(others),
            forall|k: u64, j: u64|
                #[trigger] others.contains_key(k) && !cache@.contains_key(k)
                    && #[trigger] cache@.contains_key(j) ==> k < j,
            forall|k: u64|
                #[trigger] others.contains_key(k) && !cache@.contains_key(k) ==> cache@.len() + 1
                    >= MAX_COMMITTEES,
        decreases cache@.len(),
    {
        if let Some(earliest) = min_key(cache) {
            cache.remove(&earliest);
        }
    }
    let ghost kept = cache@;
    cache.insert(epoch, addresses);
    proof {
        let before = old(cache)@;
        let after = cache@;
        assert forall|k: u64| k != epoch && #[trigger] after.contains_key(k) implies kept.contains_key(
            k,
        ) && before.contains_key(k) && after[k] == before[k] by {
            assert(others.contains_key(k));
        }
        assert forall|k: u64|
            k != epoch && #[trigger] before.contains_key(k) && !after.contains_key(
                k,
            ) implies others.contains_key(k) && !kept.contains_key(k) && after.len()
            == MAX_COMMITTEES by {
            assert(others.contains_key(k));
        }
    }
}

/// As epochs go by, the cache keeps the committees of the last ones: whatever it drops is earlier
/// than all that it keeps.
pub proof fn law_last_committees_are_kept(
    before: Map<u64, Vec<Vec<u8>>>,
    after: Map<u64, Vec<Vec<u8>>>,
    epoch: u64,
    addresses: Vec<Vec<u8>>,
)
    requires
        remembers_committee(before, after, epoch, addresses),
        forall|k: u64| #[trigger] before.contains_key(k) ==> k <= epoch,
    ensures
        forall|k: u64, j: u64| #[trigger]
            before.contains_key(k) && !after.contains_key(k) && #[trigger] after.contains_key(j)
                ==> k < j,
{
}

/// The epoch whose committee is used for a commit of `epoch`: its own, or else the previous one,
/// or else the earliest one that is known.
pub open spec fn committee_epoch(
    cache: Map<u64, Vec<Vec<u8>>>,
    epoch: u64,
    used: u64,
) -> bool {
    if cache.contains_key(epoch) {
        used == epoch
    } else if epoch > 0 && cache.contains_key((epoch - 1) as u64) {
        used == epoch - 1
    } else {
        is_min_key(cache, used)
    }
}

/// What a look into the committee cache finds.
#[derive(Debug)]
pub enum LeaderLookup {
    /// No committee is known.
    NoCommittee,
    /// The leader is not in the committee.
    OutOfRange { committee_size: usize },
    /// The leader's address is not an address.
    BadAddress { len: usize },
    /// The leader's address.
    Found(Vec<u8>),
}

/// Looks up the address of the leader of a commit.
pub fn lookup_leader(
    cache: &CommitteeCache,
    epoch: u64,
    leader_author_index: usize,
) -> (r: LeaderLookup)
    ensures
        r is NoCommittee <==> cache@ == Map::<u64, Vec<Vec<u8>>>::empty(),
        r !is NoCommittee ==> exists|used: u64| #[trigger]
            committee_epoch(cache@, epoch, used) && cache@.contains_key(used) && {
                let committee = cache@[used]@;
                match r {
                    LeaderLookup::NoCommittee => false,
                    LeaderLookup::OutOfRange { committee_size } => {
                        &&& committee_size == committee.len()
                        &&& leader_author_index >= committee.len()
                    },
                    LeaderLookup::BadAddress { len } => {
                        &&& leader_author_index < committee.len()
                        &&& len == committee[leader_author_index as int]@.len()
                        &&& len != ADDRESS_LEN
                    },
                    LeaderLookup::Found(address) => {
                        &&& leader_author_index < committee.len()
                        &&& address@ == committee[leader_author_index as int]@
                        &&& address@.len() == ADDRESS_LEN
                    },
                }
            },
{
    let used: u64 = if cache.contains_key(&epoch) {
        epoch
    } else if epoch > 0 && cache.contains_key(&(epoch - 1)) {
        epoch - 1
    } else {
        match min_key(cache) {
            Some(k) => k,
            None => {
                return LeaderLookup::NoCommittee;
            },
        }
    };
    assert(committee_epoch(cache@, epoch, used));
    assert(cache@.contains_key(used));
    let ghost pinned = cache@[used];
    match cache.get(&used) {
        Some(committee) => {
            assert(*committee == pinned);
            if leader_author_index >= committee.len() {
                LeaderLookup::OutOfRange { committee_size: committee.len() }
            } else {
                let address = &committee[leader_author_index];
                if address.len() != ADDRESS_LEN {
                    LeaderLookup::BadAddress { len: address.len() }
                } else {
                    LeaderLookup::Found(copy_bytes(address))
                }
            }
        },
        None => LeaderLookup::NoCommittee,
    }
}

/// A validator as the execution engine reports it.
#[derive(Debug)]
pub struct ValidatorEntry {
    pub address: String,
    pub authority_key: String,
}

/// The bytes of an address text: `0x` and 40 hexadecimal digits. Any other text has none.
pub open spec fn address_bytes(text: Seq<char>) -> Seq<u8> {
    if starts_with(text, "0x"@) && text.len() == 42 && is_hex_text(text.skip(2)) {
        hex_bytes(text.skip(2))
    } else {
        Seq::empty()
    }
}

/// Parses an address text; the result is empty if the text is not an address.
pub fn parse_address(text: &str) -> (bytes: Vec<u8>)
    ensures
        bytes@ == address_bytes(text@),
        bytes@.len() == ADDRESS_LEN || bytes@.len() == 0,
{
    let chars = chars_of(text);
    let prefix = chars_of("0x");
    if !has_prefix(chars.as_slice(), prefix.as_slice()) || chars.len() != 42 {
        return Vec::new();
    }
    let digits = vstd::slice::slice_subrange(chars.as_slice(), 2, 42);
    assert(digits@ =~= text@.skip(2));
    let digits_text = string_of(digits);
    match hex_decode(digits_text.as_str()) {
        Ok(bytes) => bytes,
        Err(_) => Vec::new(),
    }
}

/// The keys by which a committee is ordered.
pub open spec fn authority_keys(validators: Seq<ValidatorEntry>) -> Seq<Seq<u8>> {
    validators.map_values(|v: ValidatorEntry| encode_utf8(v.authority_key@))
}

/// The addresses of a committee: those of the validators in ascending order of authority key.
pub fn committee_addresses(validators: &Vec<ValidatorEntry>) -> (r: Vec<Vec<u8>>)
    ensures
        r@.len() == validators@.len(),
        exists|order: Seq<usize>| #[trigger]
            is_sorted_order(authority_keys(validators@), order) && forall|i: int|
                0 <= i < r@.len() ==> (#[trigger] r@[i])@ == address_bytes(
                    validators@[order[i] as int].address@,
                ),
{
    let mut keys: Vec<&[u8]> = Vec::new();
    let mut k: usize = 0;
    while k < validators.len()
        invariant
            k <= validators@.len(),
            keys@.len() == k,
            forall|i: int|
                0 <= i < k ==> (#[trigger] keys@[i])@ == authority_keys(validators@)[i],
        decreases validators@.len() - k,
    {
        keys.push(validators[k].authority_key.as_str().as_bytes());
        k = k + 1;
    }
    let order = sorted_order(&keys);
    assert(keys@.map_values(|b: &[u8]| b@) =~= authority_keys(validators@));
    let mut addresses: Vec<Vec<u8>> = Vec::new();
    let mut i: usize = 0;
    while i < order.len()
        invariant
            i <= order@.len(),
            order@.len() == validators@.len(),
            addresses@.len() == i,
            is_sorted_order(authority_keys(validators@), order@),
            forall|j: int|
                0 <= j < i ==> (#[trigger] addresses@[j])@ == address_bytes(
                    validators@[order@[j] as int].address@,
                ),
        decreases order@.len() - i,
    {
        assert(order@[i as int] < authority_keys(validators@).len());
        addresses.push(parse_address(validators[order[i]].address.as_str()));
        i = i + 1;
    }
    addresses
}

// ---------------------------------------------------------------------------------------------
// Dispatching
// ---------------------------------------------------------------------------------------------

/// Why no leader address could be found.
#[derive(Clone, Copy, Debug, PartialEq, Eq, Structural)]
pub enum LeaderFailure {
    NoCommittee,
    OutOfRange { committee_size: usize },
    BadAddress { len: usize },
}

/// How far a dispatch has come.
#[derive(Clone, Copy, Debug, PartialEq, Eq, Structural)]
pub enum DispatchPhase {
    /// The leader is being looked up; `attempts` lookups have failed.
    Leader { attempts: u32 },
    /// The engine's position is being asked for.
    Guard,
    /// The commit is far ahead of the engine; `looks` looks did not see the gap close.
    Gap { looks: u64 },
    /// The commit is being sent.
    Send,
    /// The commit is settled, or dispatching it failed.
    Done,
}

/// What came of sending the commit.
#[derive(Clone, Copy, Debug, PartialEq, Eq, Structural)]
pub enum SendOutcome {
    /// It was accepted and occupies this many indices.
    Accepted { slots: u64 },
    /// Its index is taken by another commit.
    Duplicate,
    /// It could not be sent.
    Failed,
}

/// What a failed try to send stands for: an error that names a duplicate index means that another
/// commit has taken it.
pub fn outcome_of_error(error: &str) -> (o: SendOutcome)
    ensures
        o == if first_occurrence(error@, "Duplicate global_exec_index"@) is Some {
            SendOutcome::Duplicate
        } else {
            SendOutcome::Failed
        },
{
    let text = chars_of(error);
    let mark = chars_of("Duplicate global_exec_index");
    if find(text.as_slice(), mark.as_slice()).is_some() {
        SendOutcome::Duplicate
    } else {
        SendOutcome::Failed
    }
}

/// What the application reports back.
#[derive(Debug)]
pub enum DispatchEvent {
    /// The leader was looked up.
    Leader(LeaderLookup),
    /// The engine reported its last index, or could not be asked.
    Position(Option<u64>),
    /// The commit was sent.
    Sent(SendOutcome),
}

/// What the application is to do next.
#[derive(Clone, Copy, Debug, PartialEq, Eq, Structural)]
pub enum DispatchAction {
    /// Refresh the committee from the engine if asked to, wait, and look up the leader.
    LookUpLeader { refresh: bool, wait_ms: u64 },
    /// Wait, and ask the engine for its last index.
    AskPosition { wait_ms: u64 },
    /// Wait, and send the commit.
    Send { wait_ms: u64 },
    /// The commit occupies `slots` indices. `last_gei` is the last index that was executed, if the
    /// engine accepted the commit. If `requeue` is set, its transactions go to the next epoch.
    Settle { slots: u64, last_gei: Option<u64>, requeue: bool },
    /// The commit cannot be processed.
    Fail(LeaderFailure),
}

/// The dispatch of one commit.
#[derive(Debug)]
pub struct CommitDispatch {
    pub global_exec_index: u64,
    /// Whether the commit ends the epoch. Such a commit is never skipped and never given up.
    pub ends_epoch: bool,
    /// Whether there is a queue for transactions that the next epoch retries.
    pub has_retry_queue: bool,
    pub phase: DispatchPhase,
    /// The leader's address, once it is known.
    pub leader_address: Option<Vec<u8>>,
}

/// The engine has executed the commit at `gei` already.
pub open spec fn already_executed(gei: u64, go_gei: u64) -> bool {
    go_gei >= gei && gei > 0
}

/// The commit at `gei` is within reach of an engine at `go_gei`.
pub open spec fn gap_closed(gei: u64, go_gei: u64) -> bool {
    gei <= go_gei + MAX_ALLOWED_GEI_GAP
}

pub open spec fn known_or_zero(position: Option<u64>) -> u64 {
    match position {
        Some(p) => p,
        None => 0,
    }
}

/// The failure that a lookup stands for.
pub open spec fn failure_of(lookup: LeaderLookup) -> LeaderFailure {
    match lookup {
        LeaderLookup::OutOfRange { committee_size } => LeaderFailure::OutOfRange { committee_size },
        LeaderLookup::BadAddress { len } => LeaderFailure::BadAddress { len },
        _ => LeaderFailure::NoCommittee,
    }
}

impl CommitDispatch {
    /// The address is known, and long enough, once the leader phase is over.
    pub open spec fn wf(&self) -> bool {
        &&& self.phase matches DispatchPhase::Leader { attempts } ==> attempts
            <= MAX_LEADER_RETRIES
        &&& self.phase matches DispatchPhase::Gap { looks } ==> looks < MAX_GAP_WAIT_ATTEMPTS
            && !self.ends_epoch
        &&& (self.phase is Guard || self.phase is Gap || self.phase is Send) ==> (
        self.leader_address matches Some(a) && a@.len() == ADDRESS_LEN)
    }

    /// The event that the current phase waits for.
    pub open spec fn expects(&self, event: DispatchEvent) -> bool {
        match self.phase {
            DispatchPhase::Leader { .. } => event matches DispatchEvent::Leader(l) && (
            l matches LeaderLookup::Found(a) ==> a@.len() == ADDRESS_LEN),
            DispatchPhase::Guard => event is Position,
            DispatchPhase::Gap { .. } => event is Position,
            DispatchPhase::Send => event matches DispatchEvent::Sent(o) && (
            o matches SendOutcome::Accepted { slots } ==> slots >= 1 && self.global_exec_index
                + slots - 1 <= u64::MAX),
            DispatchPhase::Done => false,
        }
    }

    /// The phase after `event`.
    pub open spec fn next_phase(&self, event: DispatchEvent) -> DispatchPhase {
        match (self.phase, event) {
            (DispatchPhase::Leader { attempts }, DispatchEvent::Leader(lookup)) => if lookup
                is Found {
                DispatchPhase::Guard
            } else if attempts >= MAX_LEADER_RETRIES {
                DispatchPhase::Done
            } else {
                DispatchPhase::Leader { attempts: (attempts + 1) as u32 }
            },
            (DispatchPhase::Guard, DispatchEvent::Position(p)) => if self.ends_epoch {
                DispatchPhase::Send
            } else if already_executed(self.global_exec_index, known_or_zero(p)) {
                DispatchPhase::Done
            } else if known_or_zero(p) > 0 && !gap_closed(
                self.global_exec_index,
                known_or_zero(p),
            ) {
                DispatchPhase::Gap { looks: 0 }
            } else {
                DispatchPhase::Send
            },
            // The engine may have got the commit from elsewhere during the wait.
            (DispatchPhase::Gap { looks }, DispatchEvent::Position(p)) => if already_executed(
                self.global_exec_index,
                known_or_zero(p),
            ) {
                DispatchPhase::Done
            } else if gap_closed(self.global_exec_index, known_or_zero(p)) || looks + 1 >= MAX_GAP_WAIT_ATTEMPTS {
                DispatchPhase::Send
            } else {
                DispatchPhase::Gap { looks: (looks + 1) as u64 }
            },
            (DispatchPhase::Send, DispatchEvent::Sent(outcome)) => if outcome is Failed
                && self.ends_epoch {
                DispatchPhase::Send
            } else {
                DispatchPhase::Done
            },
            _ => self.phase,
        }
    }

    /// The action after `event`.
    pub open spec fn next_action(&self, event: DispatchEvent) -> DispatchAction {
        match (self.phase, event) {
            (DispatchPhase::Leader { attempts }, DispatchEvent::Leader(lookup)) => if lookup
                is Found {
                DispatchAction::AskPosition { wait_ms: 0 }
            } else if attempts >= MAX_LEADER_RETRIES {
                DispatchAction::Fail(failure_of(lookup))
            } else {
                DispatchAction::LookUpLeader {
                    refresh: lookup !is NoCommittee,
                    wait_ms: if lookup is NoCommittee {
                        EMPTY_CACHE_WAIT_MS
                    } else {
                        REFRESH_WAIT_MS
                    },
                }
            },
            (_, DispatchEvent::Position(_)) => match self.next_phase(event) {
                DispatchPhase::Done => DispatchAction::Settle {
                    slots: 1,
                    last_gei: None,
                    requeue: false,
                },
                DispatchPhase::Gap { .. } => DispatchAction::AskPosition {
                    wait_ms: GAP_WAIT_INTERVAL_MS,
                },
                _ => DispatchAction::Send { wait_ms: 0 },
            },
            (_, DispatchEvent::Sent(outcome)) => match outcome {
                SendOutcome::Accepted { slots } => DispatchAction::Settle {
                    slots,
                    last_gei: Some((self.global_exec_index + slots - 1) as u64),
                    requeue: false,
                },
                SendOutcome::Duplicate => DispatchAction::Settle {
                    slots: 1,
                    last_gei: None,
                    requeue: false,
                },
                SendOutcome::Failed => if self.ends_epoch {
                    DispatchAction::Send { wait_ms: 1000 }
                } else {
                    DispatchAction::Settle {
                        slots: 1,
                        last_gei: None,
                        requeue: self.has_retry_queue,
                    }
                },
            },
            _ => DispatchAction::Fail(LeaderFailure::NoCommittee),
        }
    }

    /// Starts dispatching a commit. Without a connection to an engine nothing is to be done: the
    /// commit occupies one index.
    pub fn start(
        connected: bool,
        global_exec_index: u64,
        ends_epoch: bool,
        has_retry_queue: bool,
    ) -> (r: (CommitDispatch, DispatchAction))
        ensures
            r.0.wf(),
            r.0.global_exec_index == global_exec_index,
            r.0.ends_epoch == ends_epoch,
            r.0.has_retry_queue == has_retry_queue,
            r.0.leader_address is None,
            connected ==> r.0.phase == (DispatchPhase::Leader { attempts: 0 }) && r.1 == (
            DispatchAction::LookUpLeader { refresh: false, wait_ms: 0 }),
            !connected ==> r.0.phase == DispatchPhase::Done && r.1 == (DispatchAction::Settle {
                slots: 1,
                last_gei: None,
                requeue: false,
            }),
    {
        let phase = if connected {
            DispatchPhase::Leader { attempts: 0 }
        } else {
            DispatchPhase::Done
        };
        let action = if connected {
            DispatchAction::LookUpLeader { refresh: false, wait_ms: 0 }
        } else {
            DispatchAction::Settle { slots: 1, last_gei: None, requeue: false }
        };
        (
            CommitDispatch {
                global_exec_index,
                ends_epoch,
                has_retry_queue,
                phase,
                leader_address: None,
            },
            action,
        )
    }

    /// Goes on after `event`.
    pub fn step(&mut self, event: DispatchEvent) -> (action: DispatchAction)
        requires
            old(self).wf(),
            old(self).expects(event),
        ensures
            final(self).wf(),
            final(self).global_exec_index == old(self).global_exec_index,
            final(self).ends_epoch == old(self).ends_epoch,
            final(self).has_retry_queue == old(self).has_retry_queue,
            final(self).phase == old(self).next_phase(event),
            action == old(self).next_action(event),
            event matches DispatchEvent::Leader(LeaderLookup::Found(a)) ==> (
            final(self).leader_address matches Some(b) && b@ == a@),
            !(event matches DispatchEvent::Leader(LeaderLookup::Found(_)))
                ==> final(self).leader_address == old(self).leader_address,
    {
        match event {
            DispatchEvent::Leader(lookup) => self.on_leader(lookup),
            DispatchEvent::Position(position) => self.on_position(position),
            DispatchEvent::Sent(outcome) => self.on_sent(outcome),
        }
    }

    fn on_leader(&mut self, lookup: LeaderLookup) -> (action: DispatchAction)
        requires
            old(self).wf(),
            old(self).expects(DispatchEvent::Leader(lookup)),
        ensures
            final(self).wf(),
            final(self).global_exec_index == old(self).global_exec_index,
            final(self).ends_epoch == old(self).ends_epoch,
            final(self).has_retry_queue == old(self).has_retry_queue,
            final(self).phase == old(self).next_phase(DispatchEvent::Leader(lookup)),
            action == old(self).next_action(DispatchEvent::Leader(lookup)),
            lookup matches LeaderLookup::Found(a) ==> (final(self).leader_address matches Some(b)
                && b@ == a@),
            !(lookup is Found) ==> final(self).leader_address == old(self).leader_address,
    {
        let attempts: u32 = match self.phase {
            DispatchPhase::Leader { attempts } => attempts,
            _ => 0,
        };
        let (failure, refresh, wait_ms) = match lookup {
            LeaderLookup::Found(address) => {
                self.leader_address = Some(address);
                self.phase = DispatchPhase::Guard;
                return DispatchAction::AskPosition { wait_ms: 0 };
            },
            LeaderLookup::NoCommittee => (LeaderFailure::NoCommittee, false, EMPTY_CACHE_WAIT_MS),
            LeaderLookup::OutOfRange { committee_size } => (
                LeaderFailure::OutOfRange { committee_size },
                true,
                REFRESH_WAIT_MS,
            ),
            LeaderLookup::BadAddress { len } => (
                LeaderFailure::BadAddress { len },
                true,
                REFRESH_WAIT_MS,
            ),
        };
        if attempts >= MAX_LEADER_RETRIES {
            self.phase = DispatchPhase::Done;
            return DispatchAction::Fail(failure);
        }
        self.phase = DispatchPhase::Leader { attempts: attempts + 1 };
        DispatchAction::LookUpLeader { refresh, wait_ms }
    }

    fn on_position(&mut self, position: Option<u64>) -> (action: DispatchAction)
        requires
            old(self).wf(),
            old(self).expects(DispatchEvent::Position(position)),
        ensures
            final(self).wf(),
            final(self).global_exec_index == old(self).global_exec_index,
            final(self).ends_epoch == old(self).ends_epoch,
            final(self).has_retry_queue == old(self).has_retry_queue,
            final(self).leader_address == old(self).leader_address,
            final(self).phase == old(self).next_phase(DispatchEvent::Position(position)),
            action == old(self).next_action(DispatchEvent::Position(position)),
    {
        let go_gei: u64 = match position {
            Some(p) => p,
            None => 0,
        };
        let gei: u64 = self.global_exec_index;
        let closed = gei <= go_gei || gei - go_gei <= MAX_ALLOWED_GEI_GAP;
        match self.phase {
            DispatchPhase::Guard => {
                if !self.ends_epoch {
                    if go_gei >= gei && gei > 0 {
                        self.phase = DispatchPhase::Done;
                        return DispatchAction::Settle { slots: 1, last_gei: None, requeue: false };
                    }
                    if go_gei > 0 && !closed {
                        self.phase = DispatchPhase::Gap { looks: 0 };
                        return DispatchAction::AskPosition { wait_ms: GAP_WAIT_INTERVAL_MS };
                    }
                }
            },
            DispatchPhase::Gap { looks } => {
                if go_gei >= gei && gei > 0 {
                    self.phase = DispatchPhase::Done;
                    return DispatchAction::Settle { slots: 1, last_gei: None, requeue: false };
                }
                if !closed && looks + 1 < MAX_GAP_WAIT_ATTEMPTS {
                    self.phase = DispatchPhase::Gap { looks: looks + 1 };
                    return DispatchAction::AskPosition { wait_ms: GAP_WAIT_INTERVAL_MS };
                }
            },
            _ => {},
        }
        self.phase = DispatchPhase::Send;
        DispatchAction::Send { wait_ms: 0 }
    }

    fn on_sent(&mut self, outcome: SendOutcome) -> (action: DispatchAction)
        requires
            old(self).wf(),
            old(self).expects(DispatchEvent::Sent(outcome)),
        ensures
            final(self).wf(),
            final(self).global_exec_index == old(self).global_exec_index,
            final(self).ends_epoch == old(self).ends_epoch,
            final(self).has_retry_queue == old(self).has_retry_queue,
            final(self).leader_address == old(self).leader_address,
            final(self).phase == old(self).next_phase(DispatchEvent::Sent(outcome)),
            action == old(self).next_action(DispatchEvent::Sent(outcome)),
    {
        match outcome {
            SendOutcome::Failed if self.ends_epoch => DispatchAction::Send { wait_ms: 1000 },
            SendOutcome::Accepted { slots } => {
                self.phase = DispatchPhase::Done;
                DispatchAction::Settle {
                    slots,
                    last_gei: Some(self.global_exec_index + (slots - 1)),
                    requeue: false,
                }
            },
            SendOutcome::Duplicate => {
                self.phase = DispatchPhase::Done;
                DispatchAction::Settle { slots: 1, last_gei: None, requeue: false }
            },
            SendOutcome::Failed => {
                self.phase = DispatchPhase::Done;
                DispatchAction::Settle {
                    slots: 1,
                    last_gei: None,
                    requeue: self.has_retry_queue,
                }
            },
        }
    }
}

/// A commit is never sent without a leader address of the right length.
pub proof fn law_never_sent_without_leader(d: CommitDispatch, event: DispatchEvent)
    requires
        d.wf(),
        d.expects(event),
        d.next_action(event) is Send,
    ensures
        d.leader_address matches Some(a) && a@.len() == ADDRESS_LEN,
{
}

/// A commit that ends the epoch is only settled by being accepted or by turning out a duplicate; it
/// is neither skipped nor given up.
pub proof fn law_epoch_end_is_never_dropped(d: CommitDispatch, event: DispatchEvent)
    requires
        d.wf(),
        d.expects(event),
        d.ends_epoch,
        d.next_action(event) is Settle,
    ensures
        event matches DispatchEvent::Sent(o) && o !is Failed,
{
}

/// A bound on the number of events until a commit that does not end the epoch is settled.
pub open spec fn remaining_steps(d: CommitDispatch) -> int {
    match d.phase {
        DispatchPhase::Leader { attempts } => MAX_LEADER_RETRIES - attempts + 1
            + MAX_GAP_WAIT_ATTEMPTS + 2,
        DispatchPhase::Guard => MAX_GAP_WAIT_ATTEMPTS + 2,
        DispatchPhase::Gap { looks } => MAX_GAP_WAIT_ATTEMPTS - looks + 1,
        DispatchPhase::Send => 1,
        DispatchPhase::Done => 0,
    }
}

/// Dispatching a commit that does not end the epoch always comes to an end: every event brings it
/// nearer.
pub proof fn law_dispatch_terminates(d: CommitDispatch, event: DispatchEvent)
    requires
        d.wf(),
        d.expects(event),
        !d.ends_epoch,
    ensures
        ({
            let next = CommitDispatch { phase: d.next_phase(event), ..d };
            0 <= remaining_steps(next) < remaining_steps(d)
        }),
{
}

// ---------------------------------------------------------------------------------------------
// What a dispatch does
// ---------------------------------------------------------------------------------------------

/// A commit that the engine has executed is never sent again: at a position at or beyond the
/// commit it is settled, with nothing to note and nothing to queue. Only a commit that ends the
/// epoch is sent regardless.
pub proof fn law_executed_commits_are_not_sent_again(d: CommitDispatch, p: u64)
    requires
        d.phase is Guard || d.phase is Gap,
        !d.ends_epoch,
        d.global_exec_index > 0,
    ensures
        p >= d.global_exec_index ==> d.next_phase(DispatchEvent::Position(Some(p))) is Done
            && d.next_action(DispatchEvent::Position(Some(p))) == (DispatchAction::Settle {
            slots: 1,
            last_gei: None,
            requeue: false,
        }),
        d.next_action(DispatchEvent::Position(Some(p))) is Send ==> p < d.global_exec_index,
        d.next_action(DispatchEvent::Position(Some(p))) is AskPosition ==> p
            < d.global_exec_index,
{
}

/// A commit that the engine has not executed is never settled on account of the engine's position:
/// it is sent, or waits for its turn.
pub proof fn law_new_commits_are_not_skipped(d: CommitDispatch, p: Option<u64>)
    requires
        d.phase is Guard || d.phase is Gap,
        match p {
            Some(n) => n < d.global_exec_index,
            None => true,
        },
    ensures
        d.next_action(DispatchEvent::Position(p)) is Send || d.next_action(
            DispatchEvent::Position(p),
        ) is AskPosition,
{
}

/// When a commit waits for the engine. It does so exactly if the engine has begun to execute and is
/// more than 200 indices behind the commit; it looks again every 200 milliseconds, and after 300
/// looks it is sent anyway. A commit that ends the epoch does not wait.
pub proof fn law_wait_for_a_gap(d: CommitDispatch, p: u64)
    requires
        p < d.global_exec_index,
    ensures
        d.phase is Guard && !d.ends_epoch ==> {
            let action = d.next_action(DispatchEvent::Position(Some(p)));
            let phase = d.next_phase(DispatchEvent::Position(Some(p)));
            &&& p > 0 && d.global_exec_index - p > 200 ==> action == (DispatchAction::AskPosition {
                wait_ms: 200,
            }) && phase == (DispatchPhase::Gap { looks: 0 })
            &&& p == 0 || d.global_exec_index - p <= 200 ==> action == (DispatchAction::Send {
                wait_ms: 0,
            }) && phase is Send
        },
        d.phase matches DispatchPhase::Gap { looks } ==> {
            let action = d.next_action(DispatchEvent::Position(Some(p)));
            let phase = d.next_phase(DispatchEvent::Position(Some(p)));
            &&& d.global_exec_index - p > 200 && looks < 299 ==> action == (
            DispatchAction::AskPosition { wait_ms: 200 }) && phase == (DispatchPhase::Gap {
                looks: (looks + 1) as u64,
            })
            &&& d.global_exec_index - p <= 200 || looks >= 299 ==> action == (DispatchAction::Send {
                wait_ms: 0,
            }) && phase is Send
        },
        d.phase is Guard && d.ends_epoch ==> d.next_action(DispatchEvent::Position(Some(p))) == (
        DispatchAction::Send { wait_ms: 0 }),
{
}

/// An engine that does not tell its position counts as one that has executed nothing.
pub proof fn law_unknown_position_is_zero(d: CommitDispatch)
    requires
        d.phase is Guard || d.phase is Gap,
    ensures
        d.next_action(DispatchEvent::Position(None)) == d.next_action(
            DispatchEvent::Position(Some(0)),
        ),
        d.next_phase(DispatchEvent::Position(None)) == d.next_phase(
            DispatchEvent::Position(Some(0)),
        ),
{
}

/// A commit that ends the epoch goes to the engine whatever the engine has executed, and is sent
/// again every second until the engine takes it.
pub proof fn law_epoch_end_is_sent_until_taken(d: CommitDispatch, p: Option<u64>)
    requires
        d.ends_epoch,
    ensures
        d.phase is Guard ==> d.next_action(DispatchEvent::Position(p)) == (DispatchAction::Send {
            wait_ms: 0,
        }) && d.next_phase(DispatchEvent::Position(p)) is Send,
        d.phase is Send ==> d.next_action(DispatchEvent::Sent(SendOutcome::Failed)) == (
        DispatchAction::Send { wait_ms: 1000 }) && d.next_phase(
            DispatchEvent::Sent(SendOutcome::Failed),
        ) is Send,
{
}

/// What follows a lookup of the leader. With an address the engine's position is asked for at once.
/// Without one the lookup is repeated ten times: after 200 milliseconds while no committee is
/// known, and otherwise after the committee was refreshed and 500 milliseconds have passed. Then
/// the dispatch fails, for the reason that the last lookup gave.
pub proof fn law_leader_is_looked_up_eleven_times(d: CommitDispatch, lookup: LeaderLookup, n: u32)
    requires
        d.phase == (DispatchPhase::Leader { attempts: n }),
        n <= 10,
    ensures
        lookup is Found ==> d.next_action(DispatchEvent::Leader(lookup)) == (
        DispatchAction::AskPosition { wait_ms: 0 }) && d.next_phase(DispatchEvent::Leader(lookup))
            is Guard,
        !(lookup is Found) && n < 10 ==> d.next_phase(DispatchEvent::Leader(lookup)) == (
        DispatchPhase::Leader { attempts: (n + 1) as u32 }),
        lookup is NoCommittee && n < 10 ==> d.next_action(DispatchEvent::Leader(lookup)) == (
        DispatchAction::LookUpLeader { refresh: false, wait_ms: 200 }),
        (lookup is OutOfRange || lookup is BadAddress) && n < 10 ==> d.next_action(
            DispatchEvent::Leader(lookup),
        ) == (DispatchAction::LookUpLeader { refresh: true, wait_ms: 500 }),
        !(lookup is Found) && n == 10 ==> d.next_phase(DispatchEvent::Leader(lookup)) is Done
            && match lookup {
            LeaderLookup::NoCommittee => d.next_action(DispatchEvent::Leader(lookup)) == (
            DispatchAction::Fail(LeaderFailure::NoCommittee)),
            LeaderLookup::OutOfRange { committee_size } => d.next_action(
                DispatchEvent::Leader(lookup),
            ) == (DispatchAction::Fail(LeaderFailure::OutOfRange { committee_size })),
            LeaderLookup::BadAddress { len } => d.next_action(DispatchEvent::Leader(lookup)) == (
            DispatchAction::Fail(LeaderFailure::BadAddress { len })),
            LeaderLookup::Found(_) => true,
        },
{
}

/// What follows a send. A commit that was taken occupies its indices, and the last of them is noted.
/// A duplicate, like a commit that is given up, occupies one and is not noted; the transactions of
/// one that is given up are queued if there is a queue.
pub proof fn law_what_a_send_leads_to(d: CommitDispatch, slots: u64)
    requires
        d.phase is Send,
        slots >= 1,
        d.global_exec_index + slots - 1 <= u64::MAX,
    ensures
        d.next_action(DispatchEvent::Sent(SendOutcome::Accepted { slots })) == (
        DispatchAction::Settle {
            slots,
            last_gei: Some((d.global_exec_index + slots - 1) as u64),
            requeue: false,
        }),
        d.next_action(DispatchEvent::Sent(SendOutcome::Duplicate)) == (DispatchAction::Settle {
            slots: 1,
            last_gei: None,
            requeue: false,
        }),
        !d.ends_epoch ==> d.next_action(DispatchEvent::Sent(SendOutcome::Failed)) == (
        DispatchAction::Settle { slots: 1, last_gei: None, requeue: d.has_retry_queue }),
        d.next_phase(DispatchEvent::Sent(SendOutcome::Accepted { slots })) is Done,
        d.next_phase(DispatchEvent::Sent(SendOutcome::Duplicate)) is Done,
        !d.ends_epoch ==> d.next_phase(DispatchEvent::Sent(SendOutcome::Failed)) is Done,
{
}

/// Whose committee is used: that of the epoch itself if it is known, else that of the epoch before
/// it, else the earliest one that is known.
pub proof fn law_whose_committee_is_used(
    cache: Map<u64, Vec<Vec<u8>>>,
    epoch: u64,
    used: u64,
)
    requires
        committee_epoch(cache, epoch, used),
    ensures
        cache.contains_key(epoch) ==> used == epoch,
        !cache.contains_key(epoch) && epoch > 0 && cache.contains_key((epoch - 1) as u64) ==> used
            == epoch - 1,
        !cache.contains_key(epoch) && !(epoch > 0 && cache.contains_key((epoch - 1) as u64))
            ==> cache.contains_key(used) && forall|k: u64| #[trigger]
            cache.contains_key(k) ==> used <= k,
{
}

/// The bytes of an address are those whose hexadecimal text stands behind `0x`: every twenty bytes
/// have an address.
pub proof fn law_address_text_round_trip(bytes: Seq<u8>)
    requires
        bytes.len() == 20,
    ensures
        address_bytes("0x"@ + hex_text(bytes)) == bytes,
{
    reveal_strlit("0x");
    let digits = hex_text(bytes);
    let t = "0x"@ + digits;
    law_hex_round_trip(bytes);
    assert(digits.len() == 40);
    assert(t.take(2) =~= "0x"@);
    assert(t.skip(2) =~= digits);
    assert(starts_with(t, "0x"@));
}

/// An address is `0x` and forty hexadecimal digits, and has twenty bytes; any other text has none.
pub proof fn law_which_texts_are_addresses(text: Seq<char>)
    ensures
        address_bytes(text).len() == if text.len() == 42 && text.take(2) == "0x"@ && is_hex_text(
            text.skip(2),
        ) {
            20nat
        } else {
            0
        },
{
    reveal_strlit("0x");
    assert(starts_with(text, "0x"@) <==> text.len() >= 2 && text.take(2) == "0x"@);
}

/// A committee is ordered by the bytes of the authority keys: each validator has its own key there.
pub proof fn law_committee_is_ordered_by_authority_key(validators: Seq<ValidatorEntry>)
    ensures
        authority_keys(validators).len() == validators.len(),
        forall|i: int|
            0 <= i < validators.len() ==> #[trigger] authority_keys(validators)[i] == encode_utf8(
                validators[i].authority_key@,
            ),
{
}

/// A commit is looked after from its leader on if the engine is connected; otherwise it is settled
/// at once, with one index and no requeuing.
pub proof fn law_how_a_dispatch_begins(
    connected: bool,
    gei: u64,
    ends_epoch: bool,
    has_retry_queue: bool,
    r: (CommitDispatch, DispatchAction),
)
    requires
        call_ensures(CommitDispatch::start, (connected, gei, ends_epoch, has_retry_queue), r),
    ensures
        r.0.global_exec_index == gei,
        r.0.ends_epoch == ends_epoch,
        r.0.has_retry_queue == has_retry_queue,
        connected <==> r.1 is LookUpLeader,
        connected ==> r.0.phase == (DispatchPhase::Leader { attempts: 0 }),
        r.1 matches DispatchAction::LookUpLeader { refresh, wait_ms } ==> !refresh && wait_ms == 0,
        !connected ==> r.1 is Settle && r.0.phase is Done,
        r.1 matches DispatchAction::Settle { slots, last_gei, requeue } ==> slots == 1
            && last_gei is None && !requeue,
{
}

/// A commit that the engine says it has executed is settled there and then, with one index; one
/// that it has not executed is sent or waits.
pub proof fn law_a_position_settles_what_is_executed(
    d: &mut CommitDispatch,
    p: u64,
    action: DispatchAction,
)
    requires
        call_ensures(CommitDispatch::step, (d, DispatchEvent::Position(Some(p))), action),
        old(d).phase is Guard || old(d).phase is Gap,
        !old(d).ends_epoch,
        old(d).global_exec_index > 0,
    ensures
        p >= old(d).global_exec_index ==> final(d).phase is Done && action == (
        DispatchAction::Settle { slots: 1, last_gei: None, requeue: false }),
        p < old(d).global_exec_index ==> action is Send || action is AskPosition,
        final(d).global_exec_index == old(d).global_exec_index,
{
}

/// The cache holds the new committee and two others at most. Another committee goes only if the
/// cache is full behind it, and then it is earlier than those that stay.
pub proof fn law_three_committees_are_kept(
    cache: &mut CommitteeCache,
    epoch: u64,
    addresses: Vec<Vec<u8>>,
    k: u64,
)
    requires
        call_ensures(remember_committee, (cache, epoch, addresses), ()),
        k != epoch,
    ensures
        final(cache)@.contains_key(epoch),
        final(cache)@[epoch] == addresses,
        final(cache)@.len() <= 3,
        final(cache)@.contains_key(k) ==> old(cache)@.contains_key(k) && final(cache)@[k] == old(
            cache,
        )@[k],
        old(cache)@.contains_key(k) && !final(cache)@.contains_key(k) ==> final(cache)@.len() == 3
            && forall|j: u64| j != epoch && #[trigger] final(cache)@.contains_key(j) ==> k < j,
{
}

/// An address of the engine has twenty bytes.
pub proof fn law_addresses_have_twenty_bytes(text: &str, bytes: Vec<u8>)
    requires
        call_ensures(parse_address, (text,), bytes),
    ensures
        bytes@.len() == 20 || bytes@.len() == 0,
        bytes@ == address_bytes(text@),
        ADDRESS_LEN == 20,
{
}

} // verus!
