//! Transactions that were submitted but not committed yet.
//!
//! A transaction that consensus takes in is lost when the block that proposed it is never
//! committed. The recycler remembers what was submitted, forgets what was committed, and hands out
//! what has been pending for too long so that it can be submitted again.

use std::collections::BTreeMap;
use vstd::bytes::{
    lemma_auto_spec_u128_to_from_le_bytes, lemma_auto_spec_u32_to_from_le_bytes,
    spec_u128_from_le_bytes, spec_u128_to_le_bytes, spec_u32_from_le_bytes, spec_u32_to_le_bytes,
    u128_from_le_bytes, u128_to_le_bytes, u32_from_le_bytes, u32_to_le_bytes,
};
use vstd::prelude::*;
use vstd::slice::slice_subrange;
use vstd::std_specs::iter::IteratorSpec;

use crate::clock::{since, spec_since, Clock};
use crate::deps::{hash_all, sha256, sha256_digest};
use crate::node::executor_client::block_sending::copy_bytes;

verus! {

/// How long a transaction may be pending before it is recycled, in nanoseconds.
pub const RECYCLE_TIMEOUT: u128 = 15_000_000_000;

/// How many pending transactions are remembered.
pub const MAX_PENDING_TXS: usize = 100_000;

/// How often a transaction is recycled.
pub const MAX_RECYCLES: u32 = 3;

/// A transaction hash as two numbers: its lower and its upper half, little endian.
pub type TxKey = (u128, u128);

/// The key of a hash of 32 bytes.
pub open spec fn key_of(hash: Seq<u8>) -> TxKey {
    (spec_u128_from_le_bytes(hash.subrange(0, 16)), spec_u128_from_le_bytes(hash.subrange(16, 32)))
}

/// The hash that a key stands for.
pub open spec fn hash_of(key: TxKey) -> Seq<u8> {
    spec_u128_to_le_bytes(key.0) + spec_u128_to_le_bytes(key.1)
}

/// The key of a transaction: that of its SHA-256 hash.
pub open spec fn tx_key(data: Seq<u8>) -> TxKey {
    key_of(sha256(data))
}

/// Keys and hashes of 32 bytes correspond one to one.
pub proof fn lemma_key_hash(hash: Seq<u8>, key: TxKey)
    ensures
        hash.len() == 32 ==> hash_of(key_of(hash)) == hash,
        hash_of(key).len() == 32,
        key_of(hash_of(key)) == key,
{
    lemma_auto_spec_u128_to_from_le_bytes();
    let b = hash_of(key);
    assert(spec_u128_to_le_bytes(key.0).len() == 16);
    assert(spec_u128_to_le_bytes(key.1).len() == 16);
    assert(b.subrange(0, 16) =~= spec_u128_to_le_bytes(key.0));
    assert(b.subrange(16, 32) =~= spec_u128_to_le_bytes(key.1));
    if hash.len() == 32 {
        assert(hash.subrange(0, 16) + hash.subrange(16, 32) =~= hash);
    }
}

/// A transaction that waits to be committed.
#[derive(Debug)]
pub struct PendingTx {
    pub data: Vec<u8>,
    /// When it was submitted last.
    pub submitted_at: u128,
    /// How often it was recycled.
    pub recycle_count: u32,
}

impl PendingTx {
    /// It has been pending for too long at time `now`.
    pub open spec fn is_overdue(&self, now: u128) -> bool {
        spec_since(now, self.submitted_at) > RECYCLE_TIMEOUT
    }

    /// It is to be submitted again at time `now`.
    pub open spec fn is_stale(&self, now: u128) -> bool {
        self.is_overdue(now) && self.recycle_count < MAX_RECYCLES
    }

    /// It is to be given up at time `now`.
    pub open spec fn is_expired(&self, now: u128) -> bool {
        self.is_overdue(now) && self.recycle_count >= MAX_RECYCLES
    }
}

/// The submitted transactions that are not committed yet.
#[derive(Debug)]
pub struct TxRecycler {
    pub clock: Clock,
    pub pending: BTreeMap<TxKey, PendingTx>,
    pub total_submitted: u64,
    pub total_confirmed: u64,
    pub total_recycled: u64,
}

/// `k` is the key of a transaction that was submitted no later than any other.
pub open spec fn is_oldest(m: Map<TxKey, PendingTx>, k: TxKey) -> bool {
    m.contains_key(k) && forall|j: TxKey| #[trigger]
        m.contains_key(j) ==> m[k].submitted_at <= m[j].submitted_at
}

/// `kept` is what remains of `m` when room is made for one more transaction: everything while
/// there is room, and everything but an oldest one otherwise.
pub open spec fn makes_room(m: Map<TxKey, PendingTx>, kept: Map<TxKey, PendingTx>) -> bool {
    if m.len() < MAX_PENDING_TXS {
        kept == m
    } else {
        exists|k: TxKey| #[trigger] is_oldest(m, k) && kept == m.remove(k)
    }
}

/// `total + n`, or the greatest number.
pub open spec fn counted(total: u64, n: nat) -> u64 {
    if total + n <= u64::MAX {
        (total + n) as u64
    } else {
        u64::MAX
    }
}

fn key_of_hash(hash: &[u8]) -> (key: TxKey)
    requires
        hash@.len() == 32,
    ensures
        key == key_of(hash@),
{
    (
        u128_from_le_bytes(slice_subrange(hash, 0, 16)),
        u128_from_le_bytes(slice_subrange(hash, 16, 32)),
    )
}

/// The key of a transaction that was submitted no later than any other.
fn oldest_key(m: &BTreeMap<TxKey, PendingTx>) -> (r: Option<TxKey>)
    ensures
        match r {
            Some(k) => is_oldest(m@, k),
            None => m@ == Map::<TxKey, PendingTx>::empty(),
        },
{
    let mut best: Option<TxKey> = None;
    let mut best_time: u128 = 0;
    for entry in it: m.iter()
        invariant
            it.seq() == m.iter().remaining(),
            best is None ==> it.index() == 0,
            best matches Some(k) ==> m@.contains_key(k) && m@[k].submitted_at == best_time,
            best matches Some(k) ==> forall|i: int|
                0 <= i < it.index() ==> best_time <= m@[*(#[trigger] it.seq()[i]).0].submitted_at,
    {
        let (k, v) = entry;
        proof {
            assert(m@.contains_key(*k) && m@[*k] == *v);
        }
        if best.is_none() || v.submitted_at < best_time {
            best = Some(*k);
            best_time = v.submitted_at;
        }
    }
    best
}

/// The keys of the transactions that are overdue at time `now`: first those that are to be
/// submitted again, then those that are to be given up.
fn overdue_keys(m: &BTreeMap<TxKey, PendingTx>, now: u128) -> (r: (Vec<TxKey>, Vec<TxKey>))
    ensures
        r.0@.no_duplicates(),
        forall|k: TxKey| #[trigger]
            r.0@.contains(k) <==> m@.contains_key(k) && m@[k].is_stale(now),
        forall|k: TxKey| #[trigger]
            r.1@.contains(k) <==> m@.contains_key(k) && m@[k].is_expired(now),
{
    let mut stale: Vec<TxKey> = Vec::new();
    let mut expired: Vec<TxKey> = Vec::new();
    for entry in it: m.iter()
        invariant
            it.seq() == m.iter().remaining(),
            it.seq().no_duplicates(),
            stale@.no_duplicates(),
            forall|k: TxKey| #[trigger]
                stale@.contains(k) ==> m@.contains_key(k) && m@[k].is_stale(now) && exists|i: int|
                    0 <= i < it.index() && *(#[trigger] it.seq()[i]).0 == k,
            forall|k: TxKey| #[trigger]
                expired@.contains(k) ==> m@.contains_key(k) && m@[k].is_expired(now),
            forall|i: int|
                0 <= i < it.index() ==> (m@[*(#[trigger] it.seq()[i]).0].is_stale(now)
                    ==> stale@.contains(*it.seq()[i].0)),
            forall|i: int|
                0 <= i < it.index() ==> (m@[*(#[trigger] it.seq()[i]).0].is_expired(now)
                    ==> expired@.contains(*it.seq()[i].0)),
    {
        let (k, v) = entry;
        let ghost at = it.index();
        let ghost all = it.seq();
        proof {
            assert(*all[at].0 == *k);
            assert(m@.contains_key(*k) && m@[*k] == *v);
            if stale@.contains(*k) {
                let i = choose|i: int| 0 <= i < at && *(#[trigger] all[i]).0 == *k;
                assert(m@[*all[i].0] == *all[i].1);
                assert(all[i] == all[at]);
                assert(false);
            }
        }
        let ghost stale_before = stale@;
        let ghost expired_before = expired@;
        if since(now, v.submitted_at) > RECYCLE_TIMEOUT {
            if v.recycle_count < MAX_RECYCLES {
                stale.push(*k);
            } else {
                expired.push(*k);
            }
        }
        proof {
            assert forall|x: TxKey| #[trigger] stale@.contains(x) <==> stale_before.contains(x) || (
            v.is_stale(now) && x == *k) by {
                if stale_before.contains(x) {
                    let j = choose|j: int| 0 <= j < stale_before.len() && stale_before[j] == x;
                    assert(stale@[j] == x);
                }
                if v.is_stale(now) {
                    assert(stale@[stale_before.len() as int] == *k);
                }
            }
            assert forall|x: TxKey| #[trigger]
                expired@.contains(x) <==> expired_before.contains(x) || (v.is_expired(now) && x
                    == *k) by {
                if expired_before.contains(x) {
                    let j = choose|j: int| 0 <= j < expired_before.len() && expired_before[j] == x;
                    assert(expired@[j] == x);
                }
                if v.is_expired(now) {
                    assert(expired@[expired_before.len() as int] == *k);
                }
            }
        }
    }
    proof {
        let all = m.iter().remaining();
        assert forall|k: TxKey| m@.contains_key(k) implies exists|i: int|
            0 <= i < all.len() && *(#[trigger] all[i]).0 == k by {
            assert(all.contains((&k, &m@[k])));
            let i = choose|i: int| 0 <= i < all.len() && all[i] == (&k, &m@[k]);
            assert(*all[i].0 == k);
        }
    }
    (stale, expired)
}

/// The pending transactions after those overdue at time `now` were recycled or given up.
pub open spec fn after_collection(
    m: Map<TxKey, PendingTx>,
    now: u128,
) -> Map<TxKey, PendingTx> {
    Map::new(
        |k: TxKey| m.contains_key(k) && !m[k].is_expired(now),
        |k: TxKey|
            if m[k].is_stale(now) {
                PendingTx {
                    submitted_at: now,
                    recycle_count: (m[k].recycle_count + 1) as u32,
                    ..m[k]
                }
            } else {
                m[k]
            },
    )
}

/// The pending transactions go from `before` to `after` when `data` is submitted at time `now`: a
/// transaction that is pending already keeps its time; another one is added, and if too many are
/// pending, an oldest one is forgotten.
pub open spec fn remembers(
    before: Map<TxKey, PendingTx>,
    data: Seq<u8>,
    now: u128,
    after: Map<TxKey, PendingTx>,
) -> bool {
    let key = tx_key(data);
    if before.contains_key(key) {
        after == before
    } else {
        &&& exists|kept: Map<TxKey, PendingTx>| #[trigger]
            makes_room(before, kept) && after == kept.insert(key, after[key])
        &&& after[key].data@ == data
        &&& after[key].submitted_at == now
        &&& after[key].recycle_count == 0
    }
}

/// `states` are the pending transactions as `list` is submitted one by one at `times`.
pub open spec fn remembered_one_by_one(
    states: Seq<Map<TxKey, PendingTx>>,
    list: Seq<Vec<u8>>,
    times: Seq<u128>,
) -> bool {
    &&& states.len() == list.len() + 1
    &&& times.len() == list.len()
    &&& forall|i: int|
        0 <= i < list.len() ==> remembers(states[i], (#[trigger] list[i])@, times[i], states[i + 1])
}

impl TxRecycler {
    /// A recycler that remembers nothing.
    pub fn new() -> (r: TxRecycler)
        ensures
            r.pending@ == Map::<TxKey, PendingTx>::empty(),
            r.total_submitted == 0,
            r.total_confirmed == 0,
            r.total_recycled == 0,
    {
        TxRecycler {
            clock: Clock::start(),
            pending: BTreeMap::new(),
            total_submitted: 0,
            total_confirmed: 0,
            total_recycled: 0,
        }
    }

    /// The identity of a transaction: its SHA-256 hash.
    pub fn hash_tx(data: &[u8]) -> (hash: [u8; 32])
        ensures
            hash@ == sha256(data@),
    {
        sha256_digest(data)
    }

    /// Remembers one transaction that was submitted at time `now`. A transaction that is pending
    /// already keeps its time. If too many are pending, an oldest one is forgotten.
    pub fn track_at(&mut self, data: &Vec<u8>, now: u128)
        ensures
            final(self).total_submitted == counted(old(self).total_submitted, 1),
            final(self).total_confirmed == old(self).total_confirmed,
            final(self).total_recycled == old(self).total_recycled,
            remembers(old(self).pending@, data@, now, final(self).pending@),
    {
        let hash = TxRecycler::hash_tx(data.as_slice());
        let key = key_of_hash(hash.as_slice());
        if !self.pending.contains_key(&key) {
            let ghost mut kept = self.pending@;
            if self.pending.len() >= MAX_PENDING_TXS {
                match oldest_key(&self.pending) {
                    Some(oldest) => {
                        self.pending.remove(&oldest);
                        proof {
                            kept = self.pending@;
                            assert(is_oldest(old(self).pending@, oldest) && kept == old(
                                self,
                            ).pending@.remove(oldest));
                        }
                    },
                    None => {
                        assert(false);
                    },
                }
            }
            let tx = PendingTx { data: copy_bytes(data), submitted_at: now, recycle_count: 0 };
            self.pending.insert(key, tx);
            assert(makes_room(old(self).pending@, kept));
            assert(self.pending@ =~= kept.insert(tx_key(data@), self.pending@[tx_key(data@)]));
        }
        self.total_submitted = self.total_submitted.saturating_add(1);
    }

    /// Remembers transactions that were submitted just now, one by one.
    pub fn track_submitted(&mut self, tx_data_list: &Vec<Vec<u8>>)
        ensures
            exists|states: Seq<Map<TxKey, PendingTx>>, times: Seq<u128>| #[trigger]
                remembered_one_by_one(states, tx_data_list@, times) && states[0] == old(self).pending@
                    && states.last() == final(self).pending@,
            final(self).total_submitted == counted(
                old(self).total_submitted,
                tx_data_list@.len(),
            ),
            final(self).total_confirmed == old(self).total_confirmed,
            final(self).total_recycled == old(self).total_recycled,
            old(self).pending@.len() + tx_data_list@.len() <= MAX_PENDING_TXS ==> {
                &&& old(self).pending@.submap_of(final(self).pending@)
                &&& forall|i: int|
                    0 <= i < tx_data_list@.len() ==> final(self).pending@.contains_key(
                        tx_key((#[trigger] tx_data_list@[i])@),
                    )
                &&& forall|k: TxKey| #[trigger]
                    final(self).pending@.contains_key(k) && !old(self).pending@.contains_key(k)
                        ==> final(self).pending@[k].recycle_count == 0 && exists|i: int|
                        0 <= i < tx_data_list@.len() && tx_key((#[trigger] tx_data_list@[i])@) == k
                            && final(self).pending@[k].data@ == tx_data_list@[i]@
            },
    {
        let ghost start = self.pending@;
        let ghost fits = start.len() + tx_data_list@.len() <= MAX_PENDING_TXS;
        let ghost mut states: Seq<Map<TxKey, PendingTx>> = seq![start];
        let ghost mut times: Seq<u128> = Seq::empty();
        let mut i: usize = 0;
        while i < tx_data_list.len()
            invariant
                i <= tx_data_list@.len(),
                states[0] == start,
                states.last() == self.pending@,
                remembered_one_by_one(states, tx_data_list@.take(i as int), times),
                start == old(self).pending@,
                self.total_submitted == counted(old(self).total_submitted, i as nat),
                self.total_confirmed == old(self).total_confirmed,
                self.total_recycled == old(self).total_recycled,
                fits == (start.len() + tx_data_list@.len() <= MAX_PENDING_TXS),
                fits ==> self.pending@.len() <= start.len() + i,
                fits ==> start.submap_of(self.pending@),
                fits ==> forall|j: int|
                    0 <= j < i ==> self.pending@.contains_key(
                        tx_key((#[trigger] tx_data_list@[j])@),
                    ),
                fits ==> forall|k: TxKey| #[trigger]
                    self.pending@.contains_key(k) && !start.contains_key(k)
                        ==> self.pending@[k].recycle_count == 0 && exists|j: int|
                        0 <= j < i && tx_key((#[trigger] tx_data_list@[j])@) == k
                            && self.pending@[k].data@ == tx_data_list@[j]@,
            decreases tx_data_list@.len() - i,
        {
            let ghost before = self.pending@;
            let now: u128 = self.clock.now();
            let tx = &tx_data_list[i];
            self.track_at(tx, now);
            proof {
                let seen = tx_data_list@.take(i as int);
                let next = tx_data_list@.take(i + 1);
                let states_before = states;
                let times_before = times;
                states = states.push(self.pending@);
                times = times.push(now);
                assert forall|j: int| 0 <= j < next.len() implies remembers(
                    states[j],
                    (#[trigger] next[j])@,
                    times[j],
                    states[j + 1],
                ) by {
                    if j < i {
                        assert(next[j] == seen[j]);
                        assert(remembers(
                            states_before[j],
                            seen[j]@,
                            times_before[j],
                            states_before[j + 1],
                        ));
                    }
                }
                if fits {
                    let key = tx_key(tx@);
                    let after = self.pending@;
                    if before.contains_key(key) {
                        assert(after == before);
                    } else {
                        assert(makes_room(before, before));
                        assert(after =~= before.insert(key, after[key]));
                        assert(after.dom() =~= before.dom().insert(key));
                    }
                    assert forall|k: TxKey| start.contains_key(k) implies after.contains_key(k)
                        && #[trigger] after[k] == start[k] by {
                        assert(before.contains_key(k) && before[k] == start[k]);
                    }
                    assert(start.submap_of(after));
                    assert forall|k: TxKey| #[trigger]
                        after.contains_key(k) && !start.contains_key(k) implies after[k].recycle_count
                        == 0 && exists|j: int|
                        0 <= j < i + 1 && tx_key((#[trigger] tx_data_list@[j])@) == k
                            && after[k].data@ == tx_data_list@[j]@ by {
                        if before.contains_key(k) {
                            let j = choose|j: int|
                                0 <= j < i && tx_key((#[trigger] tx_data_list@[j])@) == k
                                    && before[k].data@ == tx_data_list@[j]@;
                            assert(tx_key(tx_data_list@[j]@) == k);
                        } else {
                            assert(k == key);
                            assert(tx_key(tx_data_list@[i as int]@) == k);
                        }
                    }
                }
            }
            i = i + 1;
        }
        assert(tx_data_list@.take(i as int) =~= tx_data_list@);
    }

    /// Forgets transactions that were committed.
    pub fn confirm_committed(&mut self, committed_tx_data: &Vec<Vec<u8>>)
        ensures
            final(self).pending@.submap_of(old(self).pending@),
            forall|k: TxKey| #[trigger]
                final(self).pending@.contains_key(k) <==> old(self).pending@.contains_key(k)
                    && !is_key_among(committed_tx_data@, k),
            final(self).total_confirmed == counted(
                old(self).total_confirmed,
                (old(self).pending@.len() - final(self).pending@.len()) as nat,
            ),
            final(self).pending@.len() <= old(self).pending@.len(),
            final(self).total_submitted == old(self).total_submitted,
            final(self).total_recycled == old(self).total_recycled,
    {
        let hashes = hash_all(committed_tx_data);
        let mut i: usize = 0;
        while i < hashes.len()
            invariant
                i <= hashes@.len(),
                hashes@.len() == committed_tx_data@.len(),
                forall|j: int|
                    0 <= j < hashes@.len() ==> (#[trigger] hashes@[j])@ == sha256(
                        committed_tx_data@[j]@,
                    ),
                self.pending@.submap_of(old(self).pending@),
                self.pending@.len() <= old(self).pending@.len(),
                forall|k: TxKey| #[trigger]
                    self.pending@.contains_key(k) <==> old(self).pending@.contains_key(k)
                        && !is_key_among(committed_tx_data@.take(i as int), k),
                self.total_confirmed == counted(
                    old(self).total_confirmed,
                    (old(self).pending@.len() - self.pending@.len()) as nat,
                ),
                self.total_submitted == old(self).total_submitted,
                self.total_recycled == old(self).total_recycled,
            decreases hashes@.len() - i,
        {
            let hash = hashes[i];
            let key = key_of_hash(hash.as_slice());
            let ghost before = self.pending@;
            match self.pending.remove(&key) {
                Some(_) => {
                    self.total_confirmed = self.total_confirmed.saturating_add(1);
                },
                None => {
                    assert(self.pending@ =~= before);
                },
            }
            proof {
                let seen = committed_tx_data@.take(i as int);
                let now_seen = committed_tx_data@.take(i + 1);
                assert(key == tx_key(committed_tx_data@[i as int]@));
                assert forall|k: TxKey| #[trigger] is_key_among(now_seen, k) <==> is_key_among(
                    seen,
                    k,
                ) || k == key by {
                    if is_key_among(seen, k) {
                        let j = choose|j: int|
                            0 <= j < seen.len() && tx_key((#[trigger] seen[j])@) == k;
                        assert(tx_key(now_seen[j]@) == k);
                    }
                    if k == key {
                        assert(tx_key(now_seen[i as int]@) == k);
                    }
                    if is_key_among(now_seen, k) {
                        let j = choose|j: int|
                            0 <= j < now_seen.len() && tx_key((#[trigger] now_seen[j])@) == k;
                        if j < i {
                            assert(tx_key(seen[j]@) == k);
                        }
                    }
                }
            }
            i = i + 1;
        }
        assert(committed_tx_data@.take(i as int) =~= committed_tx_data@);
    }

    /// Hands out the transactions that have been pending for too long at time `now`, at most three
    /// times each, and gives up those that were handed out often enough.
    pub fn collect_stale_at(&mut self, now: u128) -> (r: Vec<Vec<u8>>)
        ensures
            final(self).pending@ == after_collection(old(self).pending@, now),
            final(self).total_submitted == old(self).total_submitted,
            final(self).total_confirmed == old(self).total_confirmed,
            final(self).total_recycled == counted(old(self).total_recycled, r@.len()),
            exists|keys: Seq<TxKey>|
                {
                    &&& #[trigger] keys.no_duplicates()
                    &&& keys.len() == r@.len()
                    &&& forall|k: TxKey| #[trigger]
                        keys.contains(k) <==> old(self).pending@.contains_key(k) && old(
                            self,
                        ).pending@[k].is_stale(now)
                    &&& forall|i: int|
                        0 <= i < r@.len() ==> (#[trigger] r@[i])@ == old(
                            self,
                        ).pending@[keys[i]].data@
                },
    {
        let (stale, expired) = overdue_keys(&self.pending, now);
        let ghost start = self.pending@;
        let mut handed_out: Vec<Vec<u8>> = Vec::new();
        let mut i: usize = 0;
        while i < stale.len()
            invariant
                i <= stale@.len(),
                start == old(self).pending@,
                handed_out@.len() == i,
                stale@.no_duplicates(),
                forall|k: TxKey| #[trigger]
                    stale@.contains(k) <==> start.contains_key(k) && start[k].is_stale(now),
                self.pending@.dom() =~= start.dom(),
                forall|j: int|
                    0 <= j < i ==> self.pending@[#[trigger] stale@[j]] == (PendingTx {
                        submitted_at: now,
                        recycle_count: (start[stale@[j]].recycle_count + 1) as u32,
                        ..start[stale@[j]]
                    }),
                forall|k: TxKey|
                    start.contains_key(k) && !stale@.take(i as int).contains(k)
                        ==> #[trigger] self.pending@[k] == start[k],
                forall|j: int|
                    0 <= j < i ==> (#[trigger] handed_out@[j])@ == start[stale@[j]].data@,
                self.total_submitted == old(self).total_submitted,
                self.total_confirmed == old(self).total_confirmed,
                self.total_recycled == counted(old(self).total_recycled, i as nat),
            decreases stale@.len() - i,
        {
            let key = stale[i];
            let ghost before = self.pending@;
            proof {
                assert(stale@.contains(stale@[i as int]));
                assert(start.contains_key(key) && start[key].is_stale(now));
                assert(!stale@.take(i as int).contains(key)) by {
                    if stale@.take(i as int).contains(key) {
                        let j = choose|j: int|
                            0 <= j < i && stale@.take(i as int)[j] == key;
                        assert(stale@[j] == stale@[i as int]);
                    }
                }
                assert(before[key] == start[key]);
                assert(before.contains_key(key));
            }
            match self.pending.remove(&key) {
                Some(tx) => {
                    handed_out.push(copy_bytes(&tx.data));
                    let mut updated = tx;
                    updated.recycle_count = updated.recycle_count + 1;
                    updated.submitted_at = now;
                    self.pending.insert(key, updated);
                    self.total_recycled = self.total_recycled.saturating_add(1);
                },
                None => {
                    assert(false);
                },
            }
            proof {
                let after = self.pending@;
                assert(after.dom() =~= start.dom());
                assert forall|j: int| 0 <= j < i + 1 implies after[#[trigger] stale@[j]] == (
                PendingTx {
                    submitted_at: now,
                    recycle_count: (start[stale@[j]].recycle_count + 1) as u32,
                    ..start[stale@[j]]
                }) by {
                    if j < i {
                        assert(stale@[j] != stale@[i as int]);
                    }
                }
                assert forall|k: TxKey|
                    start.contains_key(k) && !stale@.take(i + 1).contains(k) implies
                    #[trigger] after[k] == start[k] by {
                    if k == key {
                        assert(stale@.take(i + 1)[i as int] == key);
                    }
                    if stale@.take(i as int).contains(k) {
                        let j = choose|j: int| 0 <= j < i && stale@.take(i as int)[j] == k;
                        assert(stale@.take(i + 1)[j] == k);
                    }
                }
            }
            i = i + 1;
        }
        let ghost bumped = self.pending@;
        proof {
            assert(stale@.take(i as int) =~= stale@);
            assert forall|k: TxKey| start.contains_key(k) && start[k].is_stale(now) implies
                #[trigger] bumped[k] == (PendingTx {
                submitted_at: now,
                recycle_count: (start[k].recycle_count + 1) as u32,
                ..start[k]
            }) by {
                assert(stale@.contains(k));
                let j = choose|j: int| 0 <= j < stale@.len() && stale@[j] == k;
                assert(bumped[stale@[j]] == bumped[k]);
            }
        }
        let mut e: usize = 0;
        while e < expired.len()
            invariant
                e <= expired@.len(),
                bumped.dom() =~= start.dom(),
                self.pending@ =~= bumped.remove_keys(expired@.take(e as int).to_set()),
                self.total_submitted == old(self).total_submitted,
                self.total_confirmed == old(self).total_confirmed,
                self.total_recycled == counted(old(self).total_recycled, handed_out@.len()),
            decreases expired@.len() - e,
        {
            let key = expired[e];
            self.pending.remove(&key);
            proof {
                let a = expired@.take(e as int);
                let b = expired@.take(e + 1);
                assert(b =~= a.push(key));
                assert(b.to_set() =~= a.to_set().insert(key)) by {
                    assert forall|k: TxKey| b.to_set().contains(k) <==> a.to_set().insert(
                        key,
                    ).contains(k) by {
                        if a.contains(k) {
                            let j = choose|j: int| 0 <= j < a.len() && a[j] == k;
                            assert(b[j] == k);
                        }
                        if k == key {
                            assert(b[e as int] == k);
                        }
                    }
                }
            }
            e = e + 1;
        }
        proof {
            assert(expired@.take(e as int) =~= expired@);
            let target = after_collection(start, now);
            assert forall|k: TxKey| self.pending@.contains_key(k) <==> target.contains_key(k) by {
                assert(expired@.to_set().contains(k) <==> expired@.contains(k));
            }
            assert forall|k: TxKey| self.pending@.contains_key(k) implies self.pending@[k]
                == target[k] by {
                if start[k].is_stale(now) {
                    assert(bumped[k] == target[k]);
                } else {
                    assert(!stale@.contains(k));
                    assert(bumped[k] == start[k]);
                }
            }
            assert(self.pending@ =~= target);
            assert(stale@.no_duplicates());
        }
        handed_out
    }

    /// Hands out the transactions that have been pending for too long.
    pub fn collect_stale(&mut self) -> (r: Vec<Vec<u8>>)
        ensures
            exists|now: u128|
                {
                    &&& final(self).pending@ == #[trigger] after_collection(
                        old(self).pending@,
                        now,
                    )
                    &&& exists|keys: Seq<TxKey>|
                        {
                            &&& #[trigger] keys.no_duplicates()
                            &&& keys.len() == r@.len()
                            &&& forall|k: TxKey| #[trigger]
                                keys.contains(k) <==> old(self).pending@.contains_key(k) && old(
                                    self,
                                ).pending@[k].is_stale(now)
                            &&& forall|i: int|
                                0 <= i < r@.len() ==> (#[trigger] r@[i])@ == old(
                                    self,
                                ).pending@[keys[i]].data@
                        }
                },
            final(self).total_submitted == old(self).total_submitted,
            final(self).total_confirmed == old(self).total_confirmed,
            final(self).total_recycled == counted(old(self).total_recycled, r@.len()),
    {
        let now: u128 = self.clock.now();
        self.collect_stale_at(now)
    }

    /// The number of pending transactions, and how many were submitted, confirmed and recycled.
    pub fn stats(&self) -> (r: (usize, u64, u64, u64))
        ensures
            r.0 == self.pending@.len(),
            r.1 == self.total_submitted,
            r.2 == self.total_confirmed,
            r.3 == self.total_recycled,
    {
        (self.pending.len(), self.total_submitted, self.total_confirmed, self.total_recycled)
    }
}

/// `k` is the key of one of `txs`.
pub open spec fn is_key_among(txs: Seq<Vec<u8>>, k: TxKey) -> bool {
    exists|i: int| 0 <= i < txs.len() && tx_key((#[trigger] txs[i])@) == k
}

// ---------------------------------------------------------------------------------------------
// The file of pending transactions
// ---------------------------------------------------------------------------------------------

/// The entries of a file: keys and payloads.
pub type Entries = Seq<(TxKey, Seq<u8>)>;

/// One entry: the hash, the length of the payload as four bytes, little endian, and the payload.
pub open spec fn entry_bytes(key: TxKey, data: Seq<u8>) -> Seq<u8> {
    hash_of(key) + (spec_u32_to_le_bytes(data.len() as u32) + data)
}

/// The bytes of a file.
pub open spec fn file_bytes(entries: Entries) -> Seq<u8>
    decreases entries.len(),
{
    if entries.len() == 0 {
        Seq::empty()
    } else {
        file_bytes(entries.drop_last()) + entry_bytes(entries.last().0, entries.last().1)
    }
}

/// The entries that a file holds, up to the first one that is cut off.
pub open spec fn entries_in(bytes: Seq<u8>) -> Entries
    decreases bytes.len(),
{
    if bytes.len() < 36 {
        Seq::empty()
    } else {
        let end = 36 + spec_u32_from_le_bytes(bytes.subrange(32, 36));
        if end > bytes.len() {
            Seq::empty()
        } else {
            seq![(key_of(bytes.subrange(0, 32)), bytes.subrange(36, end))] + entries_in(
                bytes.skip(end),
            )
        }
    }
}

/// The payload of the last entry with key `k`.
pub open spec fn last_payload(entries: Entries, k: TxKey) -> Option<Seq<u8>>
    decreases entries.len(),
{
    if entries.len() == 0 {
        None
    } else if entries.last().0 == k {
        Some(entries.last().1)
    } else {
        last_payload(entries.drop_last(), k)
    }
}

/// `after` is `before` with `entries` put in as submitted at `now`.
pub open spec fn is_loaded(
    before: Map<TxKey, PendingTx>,
    after: Map<TxKey, PendingTx>,
    entries: Entries,
    now: u128,
) -> bool {
    forall|k: TxKey|
        match last_payload(entries, k) {
            Some(data) => #[trigger] after.contains_key(k) && after[k].data@ == data
                && after[k].submitted_at == now && after[k].recycle_count == 0,
            None => (after.contains_key(k) <==> before.contains_key(k)) && (after.contains_key(k)
                ==> after[k] == before[k]),
        }
}

/// `entries` lists every pending transaction once.
pub open spec fn lists_all(m: Map<TxKey, PendingTx>, entries: Entries) -> bool {
    &&& forall|i: int, j: int|
        0 <= i < j < entries.len() ==> (#[trigger] entries[i]).0 != (#[trigger] entries[j]).0
    &&& forall|i: int|
        0 <= i < entries.len() ==> m.contains_key((#[trigger] entries[i]).0) && m[entries[i].0].data@
            == entries[i].1
    &&& forall|k: TxKey| #[trigger]
        m.contains_key(k) ==> exists|i: int| 0 <= i < entries.len() && (#[trigger] entries[i]).0
            == k
}

impl TxRecycler {
    /// The bytes of a file that holds the pending transactions.
    pub fn encode_pending(&self) -> (bytes: Vec<u8>)
        requires
            forall|k: TxKey| #[trigger]
                self.pending@.contains_key(k) ==> self.pending@[k].data@.len() <= u32::MAX,
        ensures
            exists|entries: Entries| #[trigger]
                lists_all(self.pending@, entries) && bytes@ == file_bytes(entries),
    {
        let mut bytes: Vec<u8> = Vec::new();
        let ghost mut entries: Entries = Seq::empty();
        for entry in it: self.pending.iter()
            invariant
                it.seq() == self.pending.iter().remaining(),
                it.seq().no_duplicates(),
                forall|k: TxKey| #[trigger]
                    self.pending@.contains_key(k) ==> self.pending@[k].data@.len() <= u32::MAX,
                entries.len() == it.index(),
                forall|i: int|
                    0 <= i < entries.len() ==> (#[trigger] entries[i]).0 == *it.seq()[i].0
                        && entries[i].1 == it.seq()[i].1.data@,
                bytes@ == file_bytes(entries),
        {
            let (key, tx) = entry;
            proof {
                assert(*it.seq()[it.index()].0 == *key);
                assert(self.pending@.contains_key(*key) && self.pending@[*key] == *tx);
            }
            let ghost before = bytes@;
            let mut low = u128_to_le_bytes(key.0);
            let mut high = u128_to_le_bytes(key.1);
            let mut len = u32_to_le_bytes(tx.data.len() as u32);
            bytes.append(&mut low);
            bytes.append(&mut high);
            bytes.append(&mut len);
            bytes.extend_from_slice(tx.data.as_slice());
            proof {
                assert(bytes@ =~= before + entry_bytes(*key, tx.data@));
                let old_entries = entries;
                entries = entries.push((*key, tx.data@));
                assert(entries.drop_last() =~= old_entries);
            }
        }
        proof {
            let all = self.pending.iter().remaining();
            assert forall|i: int, j: int| 0 <= i < j < entries.len() implies (
            #[trigger] entries[i]).0 != (#[trigger] entries[j]).0 by {
                if entries[i].0 == entries[j].0 {
                    assert(self.pending@[*all[i].0] == *all[i].1);
                    assert(self.pending@[*all[j].0] == *all[j].1);
                    assert(all[i] == all[j]);
                }
            }
            assert forall|i: int| 0 <= i < entries.len() implies self.pending@.contains_key(
                (#[trigger] entries[i]).0,
            ) && self.pending@[entries[i].0].data@ == entries[i].1 by {
                assert(self.pending@.contains_key(*all[i].0) && self.pending@[*all[i].0]
                    == *all[i].1);
            }
            assert forall|k: TxKey| #[trigger] self.pending@.contains_key(k) implies exists|i: int|
                0 <= i < entries.len() && (#[trigger] entries[i]).0 == k by {
                assert(all.contains((&k, &self.pending@[k])));
                let i = choose|i: int| 0 <= i < all.len() && all[i] == (&k, &self.pending@[k]);
                assert(entries[i].0 == k);
            }
            assert(lists_all(self.pending@, entries));
        }
        bytes
    }

    /// Puts the transactions of a file back as submitted at time `now`.
    pub fn load_encoded(&mut self, bytes: &[u8], now: u128)
        ensures
            is_loaded(old(self).pending@, final(self).pending@, entries_in(bytes@), now),
            final(self).total_submitted == old(self).total_submitted,
            final(self).total_confirmed == old(self).total_confirmed,
            final(self).total_recycled == old(self).total_recycled,
    {
        let mut rest: &[u8] = bytes;
        let ghost mut done: Entries = Seq::empty();
        assert(done + entries_in(bytes@) =~= entries_in(bytes@));
        while rest.len() >= 36
            invariant
                entries_in(bytes@) == done + entries_in(rest@),
                is_loaded(old(self).pending@, self.pending@, done, now),
                self.total_submitted == old(self).total_submitted,
                self.total_confirmed == old(self).total_confirmed,
                self.total_recycled == old(self).total_recycled,
            ensures
                entries_in(rest@) == Entries::empty(),
            decreases rest@.len(),
        {
            let ghost s = rest@;
            let len: u32 = u32_from_le_bytes(slice_subrange(rest, 32, 36));
            if len as usize > rest.len() - 36 {
                break ;
            }
            let end: usize = 36 + len as usize;
            let key = key_of_hash(slice_subrange(rest, 0, 32));
            let mut data: Vec<u8> = Vec::new();
            data.extend_from_slice(slice_subrange(rest, 36, end));
            assert(data@ =~= s.subrange(36, end as int));
            let ghost before = self.pending@;
            self.pending.insert(key, PendingTx { data, submitted_at: now, recycle_count: 0 });
            rest = slice_subrange(rest, end, rest.len());
            proof {
                assert(rest@ =~= s.skip(end as int));
                let old_done = done;
                done = done.push((key, data@));
                assert(done.drop_last() =~= old_done);
                assert(old_done + entries_in(s) =~= done + entries_in(rest@));
                lemma_load_one(old(self).pending@, before, old_done, now, key, self.pending@[key]);
                assert(self.pending@ =~= before.insert(key, self.pending@[key]));
            }
        }
        assert(done + entries_in(rest@) =~= done);
    }
}

/// Loading one more entry.
proof fn lemma_load_one(
    start: Map<TxKey, PendingTx>,
    before: Map<TxKey, PendingTx>,
    done: Entries,
    now: u128,
    key: TxKey,
    tx: PendingTx,
)
    requires
        is_loaded(start, before, done, now),
        tx.submitted_at == now,
        tx.recycle_count == 0,
    ensures
        is_loaded(start, before.insert(key, tx), done.push((key, tx.data@)), now),
{
    let after = before.insert(key, tx);
    let all = done.push((key, tx.data@));
    assert(all.drop_last() =~= done);
    assert(all.last() == (key, tx.data@));
    assert forall|k: TxKey| k != key implies last_payload(all, k) == last_payload(done, k) && (
    #[trigger] after.contains_key(k) <==> before.contains_key(k)) by {}
    assert(last_payload(all, key) == Some(tx.data@));
}

/// A file that was written is read back completely: same transactions, same order.
pub proof fn law_file_round_trip(entries: Entries)
    requires
        forall|i: int| 0 <= i < entries.len() ==> (#[trigger] entries[i]).1.len() <= u32::MAX,
    ensures
        entries_in(file_bytes(entries)) == entries,
    decreases entries.len(),
{
    lemma_file_prefix(entries, Seq::empty());
    assert(file_bytes(entries) + Seq::<u8>::empty() =~= file_bytes(entries));
    assert(entries + entries_in(Seq::<u8>::empty()) =~= entries);
}

/// The last payload of a key comes from an entry with that key.
proof fn lemma_last_payload(entries: Entries, k: TxKey)
    ensures
        match last_payload(entries, k) {
            Some(data) => exists|i: int| 0 <= i < entries.len() && #[trigger] entries[i] == (k, data),
            None => forall|i: int| 0 <= i < entries.len() ==> (#[trigger] entries[i]).0 != k,
        },
    decreases entries.len(),
{
    if entries.len() > 0 {
        let front = entries.drop_last();
        lemma_last_payload(front, k);
        if entries.last().0 == k {
            assert(entries[entries.len() - 1] == (k, entries.last().1));
        } else {
            match last_payload(front, k) {
                Some(data) => {
                    let i = choose|i: int| 0 <= i < front.len() && #[trigger] front[i] == (k, data);
                    assert(entries[i] == (k, data));
                },
                None => {
                    assert forall|i: int| 0 <= i < entries.len() implies (#[trigger] entries[i]).0
                        != k by {
                        if i < front.len() {
                            assert(front[i] == entries[i]);
                        }
                    }
                },
            }
        }
    }
}

/// A restart loses no pending transaction and invents none: what was saved is pending again, with
/// its payload, as submitted at the time of the restart and not recycled yet.
pub proof fn law_restart_keeps_pending(
    saved: Map<TxKey, PendingTx>,
    entries: Entries,
    restored: Map<TxKey, PendingTx>,
    now: u128,
    k: TxKey,
)
    requires
        lists_all(saved, entries),
        forall|i: int| 0 <= i < entries.len() ==> (#[trigger] entries[i]).1.len() <= u32::MAX,
        is_loaded(Map::empty(), restored, entries_in(file_bytes(entries)), now),
    ensures
        restored.contains_key(k) <==> saved.contains_key(k),
        saved.contains_key(k) ==> restored[k].data@ == saved[k].data@ && restored[k].submitted_at
            == now && restored[k].recycle_count == 0,
{
    law_file_round_trip(entries);
    lemma_last_payload(entries, k);
    assert(restored.contains_key(k) || !restored.contains_key(k));
    match last_payload(entries, k) {
        Some(data) => {
            let i = choose|i: int| 0 <= i < entries.len() && #[trigger] entries[i] == (k, data);
            assert(saved.contains_key(entries[i].0));
        },
        None => {
            if saved.contains_key(k) {
                let i = choose|i: int| 0 <= i < entries.len() && (#[trigger] entries[i]).0 == k;
                assert(entries[i].0 != k);
            }
        },
    }
}

/// Whatever follows a file, its own entries come first.
proof fn lemma_file_prefix(entries: Entries, tail: Seq<u8>)
    requires
        forall|i: int| 0 <= i < entries.len() ==> (#[trigger] entries[i]).1.len() <= u32::MAX,
    ensures
        entries_in(file_bytes(entries) + tail) == entries + entries_in(tail),
    decreases entries.len(),
{
    if entries.len() == 0 {
        assert(file_bytes(entries) + tail =~= tail);
        assert(entries + entries_in(tail) =~= entries_in(tail));
    } else {
        let front = entries.drop_last();
        let (key, data) = entries.last();
        assert(entries[entries.len() - 1].1.len() <= u32::MAX);
        let e = entry_bytes(key, data);
        assert(file_bytes(entries) + tail =~= file_bytes(front) + (e + tail));
        lemma_file_prefix(front, e + tail);
        lemma_auto_spec_u32_to_from_le_bytes();
        lemma_key_hash(hash_of(key), key);
        let s = e + tail;
        let n = data.len() as u32;
        assert(spec_u32_to_le_bytes(n).len() == 4);
        assert(s.subrange(0, 32) =~= hash_of(key));
        assert(s.subrange(32, 36) =~= spec_u32_to_le_bytes(n));
        let end = 36 + n;
        assert(e.len() == end);
        assert(s.subrange(36, end as int) =~= data);
        assert(s.skip(end as int) =~= tail);
        assert(entries_in(s) == seq![(key, data)] + entries_in(tail));
        assert(front + (seq![(key, data)] + entries_in(tail)) =~= entries + entries_in(tail));
    }
}

/// No transaction is handed out more than three times: one that was handed out three times is not
/// stale at any time.
pub proof fn law_at_most_three_recycles(tx: PendingTx, now: u128)
    requires
        tx.recycle_count >= MAX_RECYCLES,
    ensures
        !tx.is_stale(now),
{
}

/// What is committed is never handed out again: once a transaction is forgotten, collecting does
/// not bring it back.
pub proof fn law_collection_adds_nothing(m: Map<TxKey, PendingTx>, now: u128, k: TxKey)
    requires
        !m.contains_key(k),
    ensures
        !after_collection(m, now).contains_key(k),
{
}

// ---------------------------------------------------------------------------------------------
// What the recycler does
// ---------------------------------------------------------------------------------------------

/// A transaction is told by its whole hash: from its key the hash can be read off, so two
/// transactions with different hashes have different keys.
pub proof fn law_transactions_are_told_by_their_hash(a: Seq<u8>, b: Seq<u8>)
    requires
        sha256(a).len() == 32,
        sha256(b).len() == 32,
    ensures
        tx_key(a) == tx_key(b) <==> sha256(a) == sha256(b),
        hash_of(tx_key(a)) == sha256(a),
{
    lemma_key_hash(sha256(a), tx_key(a));
    lemma_key_hash(sha256(b), tx_key(b));
}

/// When a transaction is handed out again, and when it is given up: after more than fifteen seconds,
/// the first three times, and after that, respectively.
pub proof fn law_when_transactions_are_recycled(tx: PendingTx, now: u128)
    requires
        tx.submitted_at <= now,
    ensures
        tx.is_stale(now) <==> now - tx.submitted_at > 15_000_000_000 && tx.recycle_count < 3,
        tx.is_expired(now) <==> now - tx.submitted_at > 15_000_000_000 && tx.recycle_count >= 3,
{
}

/// What a collection leaves pending: all but what is given up. What is handed out counts as submitted
/// now, once more than before; the rest stays as it was.
pub proof fn law_what_a_collection_leaves(m: Map<TxKey, PendingTx>, now: u128, k: TxKey)
    requires
        m.contains_key(k),
        m[k].submitted_at <= now,
    ensures
        ({
            let after = after_collection(m, now);
            let overdue = now - m[k].submitted_at > 15_000_000_000;
            &&& after.contains_key(k) <==> !(overdue && m[k].recycle_count >= 3)
            &&& overdue && m[k].recycle_count < 3 ==> after[k].submitted_at == now
                && after[k].recycle_count == m[k].recycle_count + 1 && after[k].data == m[k].data
            &&& !overdue ==> after[k] == m[k]
        }),
{
}

/// What a submission leaves pending. The transaction is pending then, with the time at which it was
/// first submitted. Nothing that was pending changes; and nothing is forgotten, unless 100 000 were
/// pending, and then one that is as old as any.
pub proof fn law_what_a_submission_leaves(
    before: Map<TxKey, PendingTx>,
    data: Seq<u8>,
    now: u128,
    after: Map<TxKey, PendingTx>,
    k: TxKey,
)
    requires
        remembers(before, data, now, after),
    ensures
        before.contains_key(tx_key(data)) ==> after == before,
        !before.contains_key(tx_key(data)) ==> after.contains_key(tx_key(data)) && after[tx_key(
            data,
        )].data@ == data && after[tx_key(data)].submitted_at == now && after[tx_key(
            data,
        )].recycle_count == 0,
        k != tx_key(data) && after.contains_key(k) ==> before.contains_key(k) && after[k]
            == before[k],
        before.len() < 100_000 && before.contains_key(k) ==> after.contains_key(k),
        before.contains_key(k) && !after.contains_key(k) ==> before.len() >= 100_000 && forall|
            j: TxKey,
        | #[trigger]
            before.contains_key(j) ==> before[k].submitted_at <= before[j].submitted_at,
{
    if !before.contains_key(tx_key(data)) {
        let key = tx_key(data);
        let kept = choose|kept: Map<TxKey, PendingTx>| #[trigger]
            makes_room(before, kept) && after == kept.insert(key, after[key]);
        if before.len() >= 100_000 {
            let o = choose|o: TxKey| #[trigger] is_oldest(before, o) && kept == before.remove(o);
            assert(is_oldest(before, o));
        }
    }
}

/// Numbers are counted as long as they fit.
pub proof fn law_totals_add_up(total: u64, n: nat)
    ensures
        total + n <= u64::MAX ==> counted(total, n) == total + n,
        total + n > u64::MAX ==> counted(total, n) == u64::MAX,
        RECYCLE_TIMEOUT == 15_000_000_000,
        MAX_PENDING_TXS == 100_000,
        MAX_RECYCLES == 3,
{
}

/// A key is among those of committed transactions exactly if one of these has it.
pub proof fn law_which_transactions_are_confirmed(txs: Seq<Vec<u8>>, i: int, k: TxKey)
    ensures
        0 <= i < txs.len() ==> is_key_among(txs, tx_key(txs[i]@)),
        is_key_among(txs, k) ==> exists|j: int|
            0 <= j < txs.len() && tx_key((#[trigger] txs[j])@) == k,
{
}

/// An entry of the file is the hash, four bytes with the length of the payload, the lowest first,
/// and the payload.
pub proof fn law_what_an_entry_looks_like(key: TxKey, data: Seq<u8>)
    requires
        data.len() <= u32::MAX,
    ensures
        entry_bytes(key, data).len() == 36 + data.len(),
        entry_bytes(key, data).take(32) == hash_of(key),
        spec_u32_from_le_bytes(entry_bytes(key, data).subrange(32, 36)) == data.len(),
        entry_bytes(key, data).skip(36) == data,
{
    lemma_key_hash(hash_of(key), key);
    vstd::bytes::lemma_auto_spec_u32_to_from_le_bytes();
    let e = entry_bytes(key, data);
    let len = spec_u32_to_le_bytes(data.len() as u32);
    assert(len.len() == 4);
    assert(e.take(32) =~= hash_of(key));
    assert(e.subrange(32, 36) =~= len);
    assert(e.skip(36) =~= data);
}

/// Of several entries for one transaction the last one counts.
pub proof fn law_the_last_entry_counts(entries: Entries, i: int)
    requires
        0 <= i < entries.len(),
        forall|j: int| i < j < entries.len() ==> (#[trigger] entries[j]).0 != entries[i].0,
    ensures
        last_payload(entries, entries[i].0) == Some(entries[i].1),
    decreases entries.len(),
{
    if i < entries.len() - 1 {
        let init = entries.drop_last();
        assert(entries.last() == entries[entries.len() - 1]);
        assert(init[i] == entries[i]);
        assert forall|j: int| i < j < init.len() implies (#[trigger] init[j]).0 != init[i].0 by {
            assert(init[j] == entries[j]);
        }
        law_the_last_entry_counts(init, i);
    }
}

/// A transaction of which the file says nothing stays as it is when the file is loaded.
pub proof fn law_loading_leaves_the_rest_alone(
    before: Map<TxKey, PendingTx>,
    after: Map<TxKey, PendingTx>,
    entries: Entries,
    now: u128,
    k: TxKey,
)
    requires
        is_loaded(before, after, entries, now),
        forall|j: int| 0 <= j < entries.len() ==> (#[trigger] entries[j]).0 != k,
    ensures
        after.contains_key(k) <==> before.contains_key(k),
        after.contains_key(k) ==> after[k] == before[k],
{
    lemma_no_payload(entries, k);
    if before.contains_key(k) || after.contains_key(k) {
        assert(after.contains_key(k) <==> before.contains_key(k));
    }
}

proof fn lemma_no_payload(entries: Entries, k: TxKey)
    requires
        forall|j: int| 0 <= j < entries.len() ==> (#[trigger] entries[j]).0 != k,
    ensures
        last_payload(entries, k) is None,
    decreases entries.len(),
{
    if entries.len() > 0 {
        let init = entries.drop_last();
        assert(entries.last() == entries[entries.len() - 1]);
        assert forall|j: int| 0 <= j < init.len() implies (#[trigger] init[j]).0 != k by {
            assert(init[j] == entries[j]);
        }
        lemma_no_payload(init, k);
    }
}

/// A transaction that was committed is pending no longer, and any other one stays as it was.
pub proof fn law_committed_transactions_are_forgotten(
    r: &mut TxRecycler,
    committed: &Vec<Vec<u8>>,
    i: int,
    k: TxKey,
)
    requires
        call_ensures(TxRecycler::confirm_committed, (r, committed), ()),
    ensures
        0 <= i < committed@.len() ==> !final(r).pending@.contains_key(tx_key(committed@[i]@)),
        old(r).pending@.contains_key(k) && (forall|j: int|
            0 <= j < committed@.len() ==> tx_key((#[trigger] committed@[j])@) != k)
            ==> final(r).pending@.contains_key(k) && final(r).pending@[k] == old(r).pending@[k],
        !old(r).pending@.contains_key(k) ==> !final(r).pending@.contains_key(k),
        final(r).total_submitted == old(r).total_submitted,
{
    if 0 <= i < committed@.len() {
        law_which_transactions_are_confirmed(committed@, i, tx_key(committed@[i]@));
    }
    law_which_transactions_are_confirmed(committed@, 0, k);
}

} // verus!
