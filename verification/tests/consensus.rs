//! Commits on their way to the execution engine.

use metanode::consensus::checkpoint::calculate_global_exec_index;
use metanode::consensus::commit_processor::epoch::queue_commit_transactions_for_next_epoch;
use metanode::consensus::commit_processor::executor::{
    committee_addresses, lookup_leader, outcome_of_error, parse_address, remember_committee,
    CommitDispatch, CommitteeCache,
    DispatchAction, DispatchEvent, LeaderFailure, LeaderLookup, SendOutcome, ValidatorEntry,
};
use metanode::consensus::commit_processor::lag_monitor::{LagAlert, LagMonitor};
use metanode::consensus::commit_processor::processor::{
    resolve_epoch_base, CommitProcessor, Received,
};
use metanode::consensus::subdag::{
    CommittedBlock, CommittedSubDag, CommittedTransaction, SystemTransaction,
};
use metanode::consensus::tx_recycler::{TxRecycler, RECYCLE_TIMEOUT};

const SECOND: u128 = 1_000_000_000;

#[test]
fn test_calculate_global_exec_index_consensus_based() {
    assert_eq!(calculate_global_exec_index(0, 1, 0), 1);
    assert_eq!(calculate_global_exec_index(0, 100, 0), 100);
    assert_eq!(calculate_global_exec_index(0, 4000, 0), 4000);

    assert_eq!(calculate_global_exec_index(1, 1, 4000), 4001);
    assert_eq!(calculate_global_exec_index(1, 500, 4000), 4500);
    assert_eq!(calculate_global_exec_index(1, 1000, 4000), 5000);

    assert_eq!(calculate_global_exec_index(2, 1, 5000), 5001);
}

#[test]
fn test_global_exec_index_deterministic_across_nodes() {
    let epoch_base = 10000;
    let commit_index = 500;

    let node_0_result = calculate_global_exec_index(1, commit_index, epoch_base);
    let node_1_result = calculate_global_exec_index(1, commit_index, epoch_base);
    let node_4_result = calculate_global_exec_index(1, commit_index, epoch_base);

    assert_eq!(node_0_result, node_1_result);
    assert_eq!(node_1_result, node_4_result);
    assert_eq!(node_0_result, 10500);
}

fn tx(data: Vec<u8>, system: Option<SystemTransaction>) -> CommittedTransaction {
    CommittedTransaction {
        hash: data.clone(),
        data,
        system,
        valid_user_tx: true,
    }
}

fn commit(commit_index: u32, transactions: Vec<CommittedTransaction>) -> CommittedSubDag {
    CommittedSubDag {
        commit_index,
        timestamp_ms: 0,
        leader_author_index: 0,
        blocks: vec![CommittedBlock { transactions }],
    }
}

fn end_of_epoch() -> Option<SystemTransaction> {
    Some(SystemTransaction::EndOfEpoch {
        new_epoch: 2,
        boundary_block: 77,
    })
}

#[test]
fn commits_are_executed_in_order() {
    let mut p = CommitProcessor::new().with_epoch_info(1, 4000);
    let order = match p.receive(commit(1, vec![])) {
        Received::Dispatch(order) => order,
        other => panic!("got {:?}", other),
    };
    assert_eq!(order.global_exec_index, 4001);
    assert!(order.in_time);
    let done = p.complete(order, 1);
    assert_eq!(done.last_gei, 4001);
    assert_eq!(done.persist_offset, None);
    assert_eq!(done.epoch_end, None);

    assert!(matches!(p.receive(commit(3, vec![])), Received::Stored));
    assert!(matches!(p.receive(commit(1, vec![])), Received::Stale));
    assert!(p.next_pending().is_none());
    let order = match p.receive(commit(2, vec![])) {
        Received::Dispatch(order) => order,
        other => panic!("got {:?}", other),
    };
    let done = p.complete(order, 3);
    assert_eq!(done.last_gei, 4004);
    assert_eq!(done.persist_offset, Some(2));
    let order = p.next_pending().unwrap();
    assert_eq!(order.subdag.commit_index, 3);
    assert_eq!(order.global_exec_index, 4005);
    assert!(!order.in_time);
}

/// Executes what is due, each commit taking one index, and notes the indices.
fn run(p: &mut CommitProcessor, arrivals: &[u32]) -> Vec<(u32, u64)> {
    let mut executed = Vec::new();
    for index in arrivals {
        let mut due = match p.receive(commit(*index, vec![])) {
            Received::Dispatch(order) => Some(order),
            _ => None,
        };
        while let Some(order) = due {
            executed.push((order.subdag.commit_index, order.global_exec_index));
            p.complete(order, 1);
            due = p.next_pending();
        }
    }
    executed
}

#[test]
fn a_run_executes_commits_up_to_the_first_missing_one() {
    let in_order = vec![(3, 103), (4, 104), (5, 105), (6, 106), (7, 107)];
    let mut p = CommitProcessor::new().with_epoch_info(1, 100);
    assert_eq!(run(&mut p, &[3, 4, 5, 6, 7, 9]), in_order);
    let mut p = CommitProcessor::new().with_epoch_info(1, 100);
    assert_eq!(run(&mut p, &[3, 7, 9, 6, 1, 5, 5, 3, 4, 2]), in_order);
    assert_eq!(p.next_expected_index, 8);
}

#[test]
fn a_cold_start_passes_over_commits_of_the_snapshot() {
    let mut p = CommitProcessor::new()
        .with_epoch_info(1, 100)
        .with_cold_start(true)
        .with_cold_start_skip_gei(102);
    let mut skipped = Vec::new();
    for index in 1..=3 {
        match p.receive(commit(index, vec![])) {
            Received::Dispatch(order) => {
                skipped.push(order.skip);
                p.complete(order, 1);
            }
            other => panic!("got {:?}", other),
        }
    }
    assert_eq!(skipped, vec![true, true, false]);
    let mut p = CommitProcessor::new().with_cold_start_skip_gei(u64::MAX);
    match p.receive(commit(1, vec![])) {
        Received::Dispatch(order) => assert!(!order.skip),
        other => panic!("got {:?}", other),
    }
}

#[test]
fn a_cache_of_one_committee() {
    let p = CommitProcessor::new().with_epoch_info(4, 0);
    let cache = p.with_validator_eth_addresses(vec![vec![7; 20]]);
    assert_eq!(cache.len(), 1);
    assert_eq!(cache[&0], vec![vec![7; 20]]);
}

#[test]
fn first_commit_sets_the_start() {
    let mut p = CommitProcessor::new();
    match p.receive(commit(500, vec![])) {
        Received::Dispatch(order) => assert_eq!(order.global_exec_index, 500),
        other => panic!("got {:?}", other),
    }
}

#[test]
fn end_of_epoch_halts_the_processor() {
    let mut p = CommitProcessor::new().with_epoch_info(1, 100);
    let order = match p.receive(commit(1, vec![tx(vec![1], end_of_epoch())])) {
        Received::Dispatch(order) => order,
        other => panic!("got {:?}", other),
    };
    let done = p.complete(order, 1);
    let end = done.epoch_end.unwrap();
    assert_eq!(end.new_epoch, 2);
    assert_eq!(end.boundary_block, 77);
    assert_eq!(end.global_exec_index, 101);
    assert!(matches!(p.receive(commit(2, vec![])), Received::Halted));
}

#[test]
fn epoch_base_comes_from_the_first_source_that_knows_it() {
    assert_eq!(resolve_epoch_base(Some(1), Some(2), Some(3)), 1);
    assert_eq!(resolve_epoch_base(None, Some(2), Some(3)), 2);
    assert_eq!(resolve_epoch_base(None, None, Some(3)), 3);
    assert_eq!(resolve_epoch_base(None, None, None), 0);
}

#[test]
fn restored_fragment_offset_shifts_indices() {
    let mut p = CommitProcessor::new()
        .with_epoch_info(1, 100)
        .with_fragment_offset(7);
    match p.receive(commit(1, vec![])) {
        Received::Dispatch(order) => assert_eq!(order.global_exec_index, 108),
        other => panic!("got {:?}", other),
    }
}

#[test]
fn user_transactions_of_a_failed_commit_are_queued() {
    let mut queue = vec![vec![9]];
    let subdag = commit(
        1,
        vec![
            tx(vec![1], None),
            tx(vec![2], end_of_epoch()),
            tx(vec![3], Some(SystemTransaction::Other)),
        ],
    );
    queue_commit_transactions_for_next_epoch(&subdag, &mut queue);
    assert_eq!(queue, vec![vec![9], vec![1], vec![3]]);
    assert_eq!(
        subdag.transaction_payloads(),
        vec![vec![1], vec![2], vec![3]]
    );
    assert_eq!(subdag.transaction_hashes().len(), 3);
    assert_eq!(subdag.extract_end_of_epoch_transaction(), Some((2, 77)));
}

#[test]
fn addresses_are_parsed() {
    let text = "0x00112233445566778899aabbccddeeff00112233";
    let bytes = parse_address(text);
    assert_eq!(bytes.len(), 20);
    assert_eq!(bytes[1], 0x11);
    assert_eq!(bytes[19], 0x33);
    assert!(parse_address("00112233445566778899aabbccddeeff00112233").is_empty());
    assert!(parse_address("0x1234").is_empty());
    assert!(parse_address("0xzz112233445566778899aabbccddeeff00112233").is_empty());
}

#[test]
fn committee_is_sorted_by_authority_key() {
    let entry = |key: &str, last: u8| ValidatorEntry {
        address: format!("0x{}{:02x}", "00".repeat(19), last),
        authority_key: key.to_string(),
    };
    let addresses = committee_addresses(&vec![entry("b", 2), entry("a", 1), entry("c", 3)]);
    let last: Vec<u8> = addresses.iter().map(|a| a[19]).collect();
    assert_eq!(last, vec![1, 2, 3]);
}

#[test]
fn leaders_are_looked_up() {
    let mut cache: CommitteeCache = CommitteeCache::new();
    assert!(matches!(
        lookup_leader(&cache, 3, 0),
        LeaderLookup::NoCommittee
    ));
    cache.insert(2, vec![vec![7; 20], vec![1; 3]]);
    match lookup_leader(&cache, 3, 0) {
        LeaderLookup::Found(address) => assert_eq!(address, vec![7; 20]),
        other => panic!("got {:?}", other),
    }
    assert!(matches!(
        lookup_leader(&cache, 2, 1),
        LeaderLookup::BadAddress { len: 3 }
    ));
    assert!(matches!(
        lookup_leader(&cache, 2, 2),
        LeaderLookup::OutOfRange { committee_size: 2 }
    ));
}

#[test]
fn dispatch_sends_with_a_leader() {
    let (mut d, action) = CommitDispatch::start(true, 50, false, true);
    assert!(matches!(
        action,
        DispatchAction::LookUpLeader {
            refresh: false,
            wait_ms: 0
        }
    ));
    let action = d.step(DispatchEvent::Leader(LeaderLookup::Found(vec![1; 20])));
    assert!(matches!(action, DispatchAction::AskPosition { wait_ms: 0 }));
    let action = d.step(DispatchEvent::Position(Some(40)));
    assert!(matches!(action, DispatchAction::Send { wait_ms: 0 }));
    let action = d.step(DispatchEvent::Sent(SendOutcome::Accepted { slots: 3 }));
    assert!(matches!(
        action,
        DispatchAction::Settle {
            slots: 3,
            last_gei: Some(52),
            requeue: false
        }
    ));
}

#[test]
fn dispatch_without_connection_settles_at_once() {
    let (_, action) = CommitDispatch::start(false, 50, false, true);
    assert!(matches!(
        action,
        DispatchAction::Settle {
            slots: 1,
            last_gei: None,
            requeue: false
        }
    ));
}

#[test]
fn dispatch_fails_without_committee() {
    let (mut d, _) = CommitDispatch::start(true, 50, false, true);
    for _ in 0..10 {
        let action = d.step(DispatchEvent::Leader(LeaderLookup::NoCommittee));
        assert!(matches!(
            action,
            DispatchAction::LookUpLeader {
                refresh: false,
                wait_ms: 200
            }
        ));
    }
    let action = d.step(DispatchEvent::Leader(LeaderLookup::NoCommittee));
    assert!(matches!(
        action,
        DispatchAction::Fail(LeaderFailure::NoCommittee)
    ));
}

#[test]
fn out_of_range_leader_refreshes_the_committee() {
    let (mut d, _) = CommitDispatch::start(true, 50, false, true);
    let lookup = LeaderLookup::OutOfRange { committee_size: 1 };
    assert!(matches!(
        d.step(DispatchEvent::Leader(lookup)),
        DispatchAction::LookUpLeader {
            refresh: true,
            wait_ms: 500
        }
    ));
}

#[test]
fn invalid_leader_address_refreshes_the_committee() {
    let (mut d, _) = CommitDispatch::start(true, 50, false, true);
    for _ in 0..10 {
        let lookup = LeaderLookup::BadAddress { len: 3 };
        assert!(matches!(
            d.step(DispatchEvent::Leader(lookup)),
            DispatchAction::LookUpLeader {
                refresh: true,
                wait_ms: 500
            }
        ));
    }
    let lookup = LeaderLookup::BadAddress { len: 3 };
    assert!(matches!(
        d.step(DispatchEvent::Leader(lookup)),
        DispatchAction::Fail(LeaderFailure::BadAddress { len: 3 })
    ));
}

#[test]
fn failed_commit_is_requeued_unless_it_ends_the_epoch() {
    let (mut d, _) = CommitDispatch::start(true, 50, false, true);
    d.step(DispatchEvent::Leader(LeaderLookup::Found(vec![1; 20])));
    d.step(DispatchEvent::Position(None));
    assert!(matches!(
        d.step(DispatchEvent::Sent(SendOutcome::Failed)),
        DispatchAction::Settle { requeue: true, .. }
    ));

    let (mut d, _) = CommitDispatch::start(true, 50, true, true);
    d.step(DispatchEvent::Leader(LeaderLookup::Found(vec![1; 20])));
    d.step(DispatchEvent::Position(Some(60)));
    for _ in 0..5 {
        assert!(matches!(
            d.step(DispatchEvent::Sent(SendOutcome::Failed)),
            DispatchAction::Send { wait_ms: 1000 }
        ));
    }
}

#[test]
fn executed_commit_is_skipped_and_distant_commit_waits() {
    let (mut d, _) = CommitDispatch::start(true, 50, false, true);
    d.step(DispatchEvent::Leader(LeaderLookup::Found(vec![1; 20])));
    assert!(matches!(
        d.step(DispatchEvent::Position(Some(50))),
        DispatchAction::Settle {
            slots: 1,
            last_gei: None,
            requeue: false
        }
    ));

    let (mut d, _) = CommitDispatch::start(true, 500, false, true);
    d.step(DispatchEvent::Leader(LeaderLookup::Found(vec![1; 20])));
    assert!(matches!(
        d.step(DispatchEvent::Position(Some(299))),
        DispatchAction::AskPosition { wait_ms: 200 }
    ));
    assert!(matches!(
        d.step(DispatchEvent::Position(Some(300))),
        DispatchAction::Send { wait_ms: 0 }
    ));
}

#[test]
fn a_commit_that_the_engine_reached_during_the_wait_is_skipped() {
    let (mut d, _) = CommitDispatch::start(true, 1000, false, true);
    d.step(DispatchEvent::Leader(LeaderLookup::Found(vec![1; 20])));
    d.step(DispatchEvent::Position(Some(1)));
    assert!(matches!(
        d.step(DispatchEvent::Position(Some(1000))),
        DispatchAction::Settle {
            slots: 1,
            last_gei: None,
            requeue: false
        }
    ));
}

#[test]
fn the_cache_keeps_the_last_three_committees() {
    let mut cache = CommitteeCache::new();
    for epoch in 1..=5u64 {
        remember_committee(&mut cache, epoch, vec![vec![epoch as u8; 20]]);
    }
    let epochs: Vec<u64> = cache.keys().copied().collect();
    assert_eq!(epochs, vec![3, 4, 5]);
    assert_eq!(cache[&4], vec![vec![4; 20]]);
    remember_committee(&mut cache, 4, vec![vec![9; 20]]);
    assert_eq!(cache.len(), 3);
    assert_eq!(cache[&4], vec![vec![9; 20]]);
    remember_committee(&mut cache, 1, vec![]);
    let epochs: Vec<u64> = cache.keys().copied().collect();
    assert_eq!(epochs, vec![1, 4, 5]);
}

#[test]
fn duplicate_indices_are_told_from_other_errors() {
    assert_eq!(
        outcome_of_error("engine: Duplicate global_exec_index=7"),
        SendOutcome::Duplicate
    );
    assert_eq!(outcome_of_error("timeout"), SendOutcome::Failed);
}

#[test]
fn lag_is_reported_and_recovers() {
    let mut monitor = LagMonitor::new(Some(10), 0);
    assert!(monitor.check(0, 0, 0, 0).is_none());
    assert!(monitor.check(110, 10, 5, SECOND).is_none());
    match monitor.check(111, 10, 5, 3 * SECOND) {
        Some(LagAlert::ModerateLag(report)) => {
            assert_eq!(report.gap, 101);
            assert_eq!(report.go_executed, 0);
            assert_eq!(report.elapsed_nanos, 2 * SECOND);
        }
        other => panic!("got {:?}", other),
    }
    assert!(matches!(
        monitor.check(300, 20, 5, 4 * SECOND),
        Some(LagAlert::SevereLag(_))
    ));
    assert!(monitor.check(300, 250, 5, 5 * SECOND).is_none());
    match monitor.check(300, 251, 5, 6 * SECOND) {
        Some(LagAlert::Recovered { rust_gei, go_gei }) => {
            assert_eq!(rust_gei, 300);
            assert_eq!(go_gei, 251);
        }
        other => panic!("got {:?}", other),
    }
    assert!(monitor.check(300, 251, 5, 7 * SECOND).is_none());
}

#[test]
fn lag_thresholds_can_be_set() {
    let mut monitor = LagMonitor::new(None, 0).with_thresholds(10, 20);
    assert!(matches!(
        monitor.check(21, 0, 0, 1),
        Some(LagAlert::SevereLag(_))
    ));
    assert!(matches!(
        monitor.check(20, 0, 0, 2),
        Some(LagAlert::ModerateLag(_))
    ));
}

fn hex_of(bytes: &[u8]) -> String {
    let mut text = String::new();
    for b in bytes {
        text.push_str(&format!("{:02x}", b));
    }
    text
}

#[test]
fn transaction_hash_is_sha256() {
    assert_eq!(
        hex_of(&TxRecycler::hash_tx(b"abc")),
        "ba7816bf8f01cfea414140de5dae2223b00361a396177a9cb410ff61f20015ad"
    );
    assert_eq!(
        hex_of(&TxRecycler::hash_tx(b"")),
        "e3b0c44298fc1c149afbf4c8996fb92427ae41e4649b934ca495991b7852b855"
    );
}

#[test]
fn unconfirmed_transactions_are_recycled_three_times() {
    let mut recycler = TxRecycler::new();
    recycler.track_at(&vec![1], 0);
    recycler.track_at(&vec![2], 0);
    recycler.track_at(&vec![1], 5);
    assert_eq!(recycler.stats().0, 2);
    recycler.confirm_committed(&vec![vec![2], vec![77]]);
    assert_eq!(recycler.stats().0, 1);

    let mut now = 0;
    for _ in 0..3 {
        now += RECYCLE_TIMEOUT + SECOND;
        assert_eq!(recycler.collect_stale_at(now), vec![vec![1]]);
        assert!(recycler.collect_stale_at(now).is_empty());
    }
    now += RECYCLE_TIMEOUT + SECOND;
    assert!(recycler.collect_stale_at(now).is_empty());
    assert_eq!(recycler.stats().0, 0);
}

#[test]
fn submitted_batches_are_tracked() {
    let mut recycler = TxRecycler::new();
    recycler.track_submitted(&vec![vec![1], vec![2], vec![3], vec![2]]);
    assert_eq!(recycler.stats().0, 3);
    assert!(recycler.collect_stale().is_empty());
    recycler.confirm_committed(&vec![vec![1], vec![3]]);
    assert_eq!(recycler.stats().0, 1);
    recycler.confirm_committed(&vec![vec![2]]);
    assert_eq!(recycler.stats().0, 0);
}

#[test]
fn pending_transactions_survive_a_restart() {
    let mut recycler = TxRecycler::new();
    recycler.track_at(&vec![1, 2, 3], 0);
    recycler.track_at(&vec![], 0);
    recycler.track_at(&vec![9; 300], 0);
    let file = recycler.encode_pending();
    let mut restored = TxRecycler::new();
    restored.load_encoded(&file, 0);
    assert_eq!(restored.stats().0, 3);
    restored.confirm_committed(&vec![vec![1, 2, 3], vec![], vec![9; 300]]);
    assert_eq!(restored.stats().0, 0);
}
