//! Which peers are worth asking.
//!
//! A peer that keeps failing is left alone for a while, longer the more often it failed.

use std::collections::HashMap;
use vstd::prelude::*;

use crate::clock::{deadline, later, Clock};

verus! {

/// Failures that lead to a backoff of ten seconds.
pub const BACKOFF_THRESHOLD_1: u32 = 3;

/// Failures that lead to a backoff of thirty seconds.
pub const BACKOFF_THRESHOLD_2: u32 = 5;

/// Failures that lead to a backoff of sixty seconds.
pub const BACKOFF_THRESHOLD_3: u32 = 10;

/// What is known of a peer. Times are nanoseconds of the tracker's clock.
#[derive(Clone, Copy, Debug, PartialEq, Eq, Structural)]
pub struct PeerHealth {
    pub consecutive_failures: u32,
    pub last_failure: Option<u128>,
    pub backoff_until: Option<u128>,
}

/// A peer of which nothing bad is known.
pub open spec fn sound_peer() -> PeerHealth {
    PeerHealth { consecutive_failures: 0, last_failure: None, backoff_until: None }
}

/// The backoff after `failures` failures in a row, in nanoseconds.
pub open spec fn backoff_nanos(failures: u32) -> Option<u128> {
    if failures >= BACKOFF_THRESHOLD_3 {
        Some(60_000_000_000)
    } else if failures >= BACKOFF_THRESHOLD_2 {
        Some(30_000_000_000)
    } else if failures >= BACKOFF_THRESHOLD_1 {
        Some(10_000_000_000)
    } else {
        None
    }
}

impl PeerHealth {
    /// Whether the peer may be asked at time `now`.
    pub open spec fn is_sound(self, now: u128) -> bool {
        match self.backoff_until {
            None => true,
            Some(until) => now >= until,
        }
    }

    /// The peer after a failure at time `now`.
    pub open spec fn spec_after_failure(self, now: u128) -> PeerHealth {
        let failures = if self.consecutive_failures < u32::MAX {
            (self.consecutive_failures + 1) as u32
        } else {
            u32::MAX
        };
        PeerHealth {
            consecutive_failures: failures,
            last_failure: Some(now),
            backoff_until: match backoff_nanos(failures) {
                Some(wait) => Some(later(now, wait)),
                None => self.backoff_until,
            },
        }
    }

    fn after_failure(self, now: u128) -> (h: PeerHealth)
        ensures
            h == self.spec_after_failure(now),
    {
        let failures: u32 = self.consecutive_failures.saturating_add(1);
        let backoff_until = if failures >= BACKOFF_THRESHOLD_3 {
            Some(deadline(now, 60_000_000_000))
        } else if failures >= BACKOFF_THRESHOLD_2 {
            Some(deadline(now, 30_000_000_000))
        } else if failures >= BACKOFF_THRESHOLD_1 {
            Some(deadline(now, 10_000_000_000))
        } else {
            self.backoff_until
        };
        PeerHealth { consecutive_failures: failures, last_failure: Some(now), backoff_until }
    }
}

/// Tracks which peers failed.
#[derive(Debug)]
pub struct PeerHealthTracker {
    pub peers: HashMap<u32, PeerHealth>,
    pub clock: Clock,
}

/// The peers of `list` that may be asked at time `now`, in order.
pub open spec fn sound_peers(
    peers: Map<u32, PeerHealth>,
    list: Seq<u32>,
    now: u128,
) -> Seq<u32> {
    list.filter(|p: u32| health_in(peers, p).is_sound(now))
}

/// What `peers` knows of peer `p`.
pub open spec fn health_in(peers: Map<u32, PeerHealth>, p: u32) -> PeerHealth {
    if peers.contains_key(p) {
        peers[p]
    } else {
        sound_peer()
    }
}

impl PeerHealthTracker {
    /// What is known of peer `p`.
    pub open spec fn health(&self, p: u32) -> PeerHealth {
        health_in(self.peers@, p)
    }

    /// Nothing is known of peers other than `p` that was not known before.
    pub open spec fn others_unchanged(&self, before: &PeerHealthTracker, p: u32) -> bool {
        forall|q: u32| q != p ==> #[trigger] self.health(q) == before.health(q)
    }

    /// A tracker that knows of no failures.
    pub fn new() -> (t: PeerHealthTracker)
        ensures
            forall|p: u32| #[trigger] t.health(p) == sound_peer(),
    {
        PeerHealthTracker { peers: HashMap::new(), clock: Clock::start() }
    }

    fn get(&self, peer_index: u32) -> (h: PeerHealth)
        ensures
            h == self.health(peer_index),
    {
        match self.peers.get(&peer_index) {
            Some(h) => *h,
            None => PeerHealth {
                consecutive_failures: 0,
                last_failure: None,
                backoff_until: None,
            },
        }
    }

    /// Whether a peer may be asked at time `now`. Unknown peers may.
    pub fn is_healthy_at(&self, peer_index: u32, now: u128) -> (r: bool)
        ensures
            r == self.health(peer_index).is_sound(now),
    {
        match self.get(peer_index).backoff_until {
            None => true,
            Some(until) => now >= until,
        }
    }

    /// Whether a peer may be asked now. One that has failed less than three times in a row may.
    pub fn is_healthy(&self, peer_index: u32) -> (r: bool)
        ensures
            exists|now: u128| r == #[trigger] self.health(peer_index).is_sound(now),
            self.health(peer_index).backoff_until is None ==> r,
    {
        let now: u128 = self.clock.now();
        self.is_healthy_at(peer_index, now)
    }

    /// Records that a peer answered: its failures are forgotten.
    pub fn record_success(&mut self, peer_index: u32)
        ensures
            final(self).health(peer_index) == sound_peer(),
            final(self).others_unchanged(old(self), peer_index),
    {
        if self.peers.contains_key(&peer_index) {
            let cleared = PeerHealth {
                consecutive_failures: 0,
                last_failure: None,
                backoff_until: None,
            };
            self.peers.insert(peer_index, cleared);
        }
    }

    /// Records that a peer failed at time `now`.
    pub fn record_failure_at(&mut self, peer_index: u32, now: u128)
        ensures
            final(self).health(peer_index) == old(self).health(peer_index).spec_after_failure(now),
            final(self).others_unchanged(old(self), peer_index),
    {
        let health = self.get(peer_index).after_failure(now);
        self.peers.insert(peer_index, health);
    }

    /// Records that a peer failed just now.
    pub fn record_failure(&mut self, peer_index: u32)
        ensures
            exists|now: u128|
                final(self).health(peer_index) == #[trigger] old(self).health(
                    peer_index,
                ).spec_after_failure(now),
            final(self).others_unchanged(old(self), peer_index),
    {
        let now: u128 = self.clock.now();
        self.record_failure_at(peer_index, now);
    }

    /// The number of times a peer failed in a row.
    pub fn failure_count(&self, peer_index: u32) -> (n: u32)
        ensures
            n == self.health(peer_index).consecutive_failures,
    {
        self.get(peer_index).consecutive_failures
    }

    /// The peers of a list that may be asked at time `now`.
    pub fn filter_healthy_at(&self, peer_indices: &[u32], now: u128) -> (r: Vec<u32>)
        ensures
            r@ == sound_peers(self.peers@, peer_indices@, now),
    {
        let ghost pred = |p: u32| health_in(self.peers@, p).is_sound(now);
        let mut healthy: Vec<u32> = Vec::new();
        let mut i: usize = 0;
        proof {
            reveal(Seq::filter);
            assert(peer_indices@.take(0) =~= Seq::<u32>::empty());
        }
        while i < peer_indices.len()
            invariant
                i <= peer_indices@.len(),
                pred == (|p: u32| health_in(self.peers@, p).is_sound(now)),
                healthy@ == peer_indices@.take(i as int).filter(pred),
            decreases peer_indices@.len() - i,
        {
            let p: u32 = peer_indices[i];
            proof {
                reveal(Seq::filter);
                assert(peer_indices@.take(i + 1).drop_last() =~= peer_indices@.take(i as int));
                assert(peer_indices@.take(i + 1).last() == p);
            }
            if self.is_healthy_at(p, now) {
                healthy.push(p);
            }
            i = i + 1;
        }
        assert(peer_indices@.take(i as int) =~= peer_indices@);
        healthy
    }

    /// The peers of a list that may be asked now.
    pub fn filter_healthy(&self, peer_indices: &[u32]) -> (r: Vec<u32>)
        ensures
            exists|now: u128| r@ == #[trigger] sound_peers(self.peers@, peer_indices@, now),
    {
        let now: u128 = self.clock.now();
        self.filter_healthy_at(peer_indices, now)
    }
}

/// A peer that failed `times.len()` times in a row, at the given times.
pub open spec fn failed_peer(times: Seq<u128>) -> PeerHealth
    decreases times.len(),
{
    if times.len() == 0 {
        sound_peer()
    } else {
        failed_peer(times.drop_last()).spec_after_failure(times.last())
    }
}

/// A peer is left alone for 10, 30 or 60 seconds after its last failure once it has failed 3, 5 or
/// 10 times in a row, and not at all before that.
pub proof fn law_backoff_escalates(times: Seq<u128>, now: u128)
    requires
        times.len() <= u32::MAX,
    ensures
        failed_peer(times).consecutive_failures == times.len(),
        times.len() < BACKOFF_THRESHOLD_1 ==> failed_peer(times).is_sound(now),
        times.len() >= BACKOFF_THRESHOLD_1 ==> failed_peer(times).is_sound(now) == (now >= later(
            times.last(),
            backoff_nanos(times.len() as u32)->0,
        )),
    decreases times.len(),
{
    if times.len() > 0 {
        law_backoff_escalates(times.drop_last(), now);
        if times.len() < BACKOFF_THRESHOLD_1 {
            lemma_no_early_backoff(times);
        }
    }
}

proof fn lemma_no_early_backoff(times: Seq<u128>)
    requires
        times.len() < BACKOFF_THRESHOLD_1,
    ensures
        failed_peer(times).backoff_until is None,
        failed_peer(times).consecutive_failures == times.len(),
    decreases times.len(),
{
    if times.len() > 0 {
        lemma_no_early_backoff(times.drop_last());
    }
}

/// What is known of a peer after a failure: one failure more, when it was, and how long the peer is
/// left alone for it: sixty seconds from the tenth failure in a row on, thirty from the fifth, ten
/// from the third; before that whatever was in force stays.
pub proof fn law_what_a_failure_of_a_peer_does(h: PeerHealth, now: u128)
    requires
        h.consecutive_failures < u32::MAX,
        now <= u128::MAX - 60_000_000_000,
    ensures
        ({
            let next = h.spec_after_failure(now);
            let n = h.consecutive_failures + 1;
            &&& next.consecutive_failures == n
            &&& next.last_failure == Some(now)
            &&& n >= 10 ==> next.backoff_until == Some((now + 60_000_000_000) as u128)
            &&& 5 <= n < 10 ==> next.backoff_until == Some((now + 30_000_000_000) as u128)
            &&& 3 <= n < 5 ==> next.backoff_until == Some((now + 10_000_000_000) as u128)
            &&& n < 3 ==> next.backoff_until == h.backoff_until
        }),
{
}

/// A peer may be asked unless it is to be left alone until a later time. Of a peer that is not known
/// nothing bad is known.
pub proof fn law_when_a_peer_may_be_asked(h: PeerHealth, now: u128, peers: Map<u32, PeerHealth>, p: u32)
    ensures
        !h.is_sound(now) <==> h.backoff_until is Some && now < h.backoff_until->0,
        peers.contains_key(p) ==> health_in(peers, p) == peers[p],
        !peers.contains_key(p) ==> health_in(peers, p) == (PeerHealth {
            consecutive_failures: 0,
            last_failure: None,
            backoff_until: None,
        }),
        sound_peer() == (PeerHealth {
            consecutive_failures: 0,
            last_failure: None,
            backoff_until: None,
        }),
{
}

/// Of a list of peers those are chosen that may be asked, and no other, in their order.
pub proof fn law_which_peers_are_chosen(peers: Map<u32, PeerHealth>, list: Seq<u32>, now: u128)
    ensures
        sound_peers(peers, list, now) == list.filter(
            |p: u32|
                !(peers.contains_key(p) && peers[p].backoff_until is Some && now
                    < peers[p].backoff_until->0),
        ),
{
    let a = |p: u32| health_in(peers, p).is_sound(now);
    let b = |p: u32|
        !(peers.contains_key(p) && peers[p].backoff_until is Some && now
            < peers[p].backoff_until->0);
    lemma_same_choice(list, a, b);
}

proof fn lemma_same_choice(list: Seq<u32>, a: spec_fn(u32) -> bool, b: spec_fn(u32) -> bool)
    requires
        forall|p: u32| #[trigger] a(p) == b(p),
    ensures
        list.filter(a) == list.filter(b),
    decreases list.len(),
{
    reveal(Seq::filter);
    if list.len() > 0 {
        lemma_same_choice(list.drop_last(), a, b);
        assert(a(list.last()) == b(list.last()));
    }
}

/// What is recorded of one peer says nothing of another.
pub proof fn law_peers_do_not_affect_each_other(
    before: PeerHealthTracker,
    after: PeerHealthTracker,
    p: u32,
    q: u32,
)
    requires
        after.others_unchanged(&before, p),
        q != p,
    ensures
        after.health(q) == before.health(q),
{
}

} // verus!
