//! The node: how it starts, catches up, changes mode and recovers.

use metanode::network::tx_socket_server::{node_check_of, NodeCheck};
use metanode::node::catchup::{
    CatchupManager, CatchupState, EngineView, EpochCatchup, EpochCatchupAction, EpochCatchupEvent,
    GapAction, GapError, GapEvent, GapSync, LocalReplay, NetworkView, ReplayAction,
};
use metanode::node::consensus_node::{
    calculate_last_global_exec_index, choose_validators, find_own_index, parse_epoch_dir,
    plan_cleanup, plan_consensus, reference_block, removes_dir, BoundaryAction, BoundaryData, BoundaryEvent,
    BoundarySearch, ChainRelation, CleanupPlan, DiscoveryAction, DiscoveryEvent, StartupDiscovery,
    ValidatorInfo,
};
use metanode::node::dual_stream::{DualStreamController, StreamAction};
use metanode::node::epoch_monitor::{
    poll_interval_secs, EpochBoundary, MonitorAction, MonitorEvent, MonitorRound, StartOutcome,
};
use metanode::node::node_methods::{ConsensusNode, ModeAction, ModeEvent};
use metanode::node::notification_server::{
    notification_socket_name, EpochNotificationServer, NotificationPayload, NotificationResponse,
};
use metanode::node::recovery::{
    consensus_db, fragment_offset_at, geis_consumed, CommitDecision, OffsetAt, Recovery,
    RecoveryStart, StoredCommit,
};
use metanode::node::NodeMode;

#[test]
fn validator_starts_in_the_epoch_of_the_network() {
    let (mut d, action) = StartupDiscovery::start(false, true);
    assert_eq!(action, DiscoveryAction::AskBlock { wait_ms: 0 });
    assert_eq!(
        d.step(DiscoveryEvent::Block(Some(0))),
        DiscoveryAction::AskBlock { wait_ms: 2000 }
    );
    assert_eq!(
        d.step(DiscoveryEvent::Block(Some(40))),
        DiscoveryAction::AskPeers { wait_ms: 0 }
    );
    assert_eq!(
        d.step(DiscoveryEvent::Peers(Some((3, 90)))),
        DiscoveryAction::StartWith {
            epoch: 3,
            latest_block: 40,
            reference_block: 90
        }
    );
}

#[test]
fn follower_starts_in_the_epoch_of_its_engine() {
    let (mut d, _) = StartupDiscovery::start(true, true);
    assert_eq!(
        d.step(DiscoveryEvent::Block(Some(40))),
        DiscoveryAction::AskEngineEpoch { wait_ms: 0 }
    );
    assert_eq!(
        d.step(DiscoveryEvent::Epoch(None)),
        DiscoveryAction::AskEngineEpoch { wait_ms: 2000 }
    );
    assert_eq!(
        d.step(DiscoveryEvent::Epoch(Some(2))),
        DiscoveryAction::StartWith {
            epoch: 2,
            latest_block: 40,
            reference_block: 40
        }
    );
}

#[test]
fn persisted_block_replaces_an_engine_that_is_down() {
    let (mut d, _) = StartupDiscovery::start(false, false);
    for _ in 0..29 {
        assert_eq!(
            d.step(DiscoveryEvent::Block(None)),
            DiscoveryAction::AskBlock { wait_ms: 2000 }
        );
    }
    assert_eq!(
        d.step(DiscoveryEvent::Block(None)),
        DiscoveryAction::ReadPersistedBlock
    );
    assert_eq!(
        d.step(DiscoveryEvent::Block(Some(11))),
        DiscoveryAction::AskEngineEpoch { wait_ms: 0 }
    );
    assert_eq!(d.step(DiscoveryEvent::Epoch(None)), DiscoveryAction::Fail);
}

#[test]
fn old_epochs_are_removed() {
    assert_eq!(plan_cleanup(3, 3, 2), CleanupPlan::KeepAll);
    assert_eq!(plan_cleanup(3, 9, 0), CleanupPlan::KeepAll);
    assert_eq!(plan_cleanup(3, 9, 2), CleanupPlan::RemoveBefore(7));
    assert_eq!(plan_cleanup(9, 3, 2), CleanupPlan::RemoveAll);
    assert_eq!(parse_epoch_dir("epoch_12"), Some(12));
    assert_eq!(parse_epoch_dir("epoch_x"), None);
    assert!(removes_dir(CleanupPlan::RemoveBefore(7), "epoch_6"));
    assert!(!removes_dir(CleanupPlan::RemoveBefore(7), "epoch_7"));
    assert!(!removes_dir(CleanupPlan::RemoveBefore(7), "other"));
    assert!(removes_dir(CleanupPlan::RemoveAll, "other"));
}

fn boundary(epoch: u64) -> BoundaryData {
    BoundaryData {
        epoch,
        timestamp_ms: 5,
        boundary_block: 6,
        validators: vec![],
        epoch_duration_secs: 60,
        boundary_gei: 7,
    }
}

#[test]
fn boundary_of_an_engine_that_is_behind_comes_from_peers() {
    let (mut s, action) = BoundarySearch::start(4, 2);
    assert!(matches!(action, BoundaryAction::AskEngine { epoch: 4 }));
    assert!(matches!(
        s.step(BoundaryEvent::Boundary(None)),
        BoundaryAction::AskEngineEpoch
    ));
    assert!(matches!(
        s.step(BoundaryEvent::Epoch(Some(2))),
        BoundaryAction::AskPeer { peer: 0, epoch: 4 }
    ));
    assert!(matches!(
        s.step(BoundaryEvent::Boundary(None)),
        BoundaryAction::AskPeer { peer: 1, epoch: 4 }
    ));
    match s.step(BoundaryEvent::Boundary(Some(boundary(9)))) {
        BoundaryAction::Use(used) => {
            assert_eq!(used.epoch, 4);
            assert_eq!(used.boundary_gei, 7);
            assert_eq!(used.epoch_duration_secs, 900);
        }
        other => panic!("got {:?}", other),
    }
}

#[test]
fn genesis_is_the_last_resort() {
    let (mut s, _) = BoundarySearch::start(0, 0);
    s.step(BoundaryEvent::Boundary(None));
    assert!(matches!(
        s.step(BoundaryEvent::Epoch(None)),
        BoundaryAction::AskEngine { epoch: 0 }
    ));
    assert!(matches!(
        s.step(BoundaryEvent::Boundary(None)),
        BoundaryAction::AskGenesisValidators
    ));
    assert!(matches!(
        s.step(BoundaryEvent::Boundary(None)),
        BoundaryAction::Fail
    ));
}

fn validator(name: &str) -> ValidatorInfo {
    ValidatorInfo {
        address: String::new(),
        stake: String::new(),
        name: name.to_string(),
        authority_key: String::new(),
        protocol_key: String::new(),
        network_key: String::new(),
    }
}

#[test]
fn committee_members() {
    assert!(choose_validators(vec![], false).is_none());
    let chosen = choose_validators(vec![validator("node-0"), validator("node-1")], true).unwrap();
    assert_eq!(chosen.len(), 1);
    assert_eq!(chosen[0].name, "node-0");
    let all = choose_validators(vec![validator("a"), validator("b")], false).unwrap();
    assert_eq!(all.len(), 2);
    assert_eq!(
        find_own_index(&vec![vec![1], vec![2], vec![2]], &vec![2]),
        Some(1)
    );
    assert_eq!(find_own_index(&vec![vec![1]], &vec![2]), None);
}

#[test]
fn execution_resumes_at_the_engine() {
    let start = calculate_last_global_exec_index(true, 100, 500, 151);
    assert_eq!(start.last_global_exec_index, 500);
    assert!(start.is_lagging);
    assert_eq!(start.relation, ChainRelation::Behind);
    let start = calculate_last_global_exec_index(true, 100, 500, 105);
    assert!(!start.is_lagging);
    assert_eq!(start.relation, ChainRelation::InSync);
    let start = calculate_last_global_exec_index(true, 106, 500, 100);
    assert_eq!(start.relation, ChainRelation::Ahead);
    let start = calculate_last_global_exec_index(false, 100, 500, 900);
    assert_eq!(start.last_global_exec_index, 0);
    assert_eq!(start.relation, ChainRelation::NoReference);
}

#[test]
fn own_engine_is_no_reference() {
    assert_eq!(reference_block("/a.sock", "/a.sock", 900), 0);
    assert_eq!(reference_block("/b.sock", "/a.sock", 900), 900);
}

#[test]
fn consensus_starts_by_membership_and_history() {
    let start = plan_consensus(true, true, false, 2, true, 9);
    assert!(start.start_as_validator);
    assert_eq!(start.node_mode, NodeMode::Validator);
    assert_eq!(start.initial_next_expected, 10);
    let start = plan_consensus(false, true, false, 2, false, 9);
    assert!(start.cold_start);
    assert_eq!(start.skip_gei, u64::MAX);
    assert_eq!(start.node_mode, NodeMode::SyncingUp);
    assert_eq!(start.initial_next_expected, 1);
    let start = plan_consensus(true, false, false, 2, true, 9);
    assert_eq!(start.node_mode, NodeMode::SyncOnly);
}

const ENGINE: EngineView = EngineView {
    epoch: 2,
    last_block: 100,
};

fn network(epoch: u64, block: u64) -> Option<NetworkView> {
    Some(NetworkView {
        epoch,
        block,
        global_exec_index: 400,
    })
}

#[test]
fn node_is_ready_close_to_the_network() {
    let mut manager = CatchupManager::new(String::new(), vec!["p".to_string()]);
    assert_eq!(manager.state, CatchupState::Initializing);
    assert_eq!(manager.peer_rpc_addresses(), vec!["p".to_string()]);

    let status = manager.check_sync_status(2, 300, ENGINE, None, network(2, 105));
    assert!(status.ready);
    assert_eq!(status.block_gap, 5);
    assert_eq!(status.commit_gap, 100);
    assert_eq!(manager.state, CatchupState::Ready);

    let status = manager.check_sync_status(2, 300, ENGINE, None, network(2, 106));
    assert!(!status.ready);
    assert_eq!(
        manager.state,
        CatchupState::SyncingCommits {
            target_commit: 0,
            current_commit: 300
        }
    );

    let status = manager.check_sync_status(1, 300, ENGINE, None, network(3, 100));
    assert!(!status.epoch_match);
    assert_eq!(status.block_gap, u64::MAX);
    assert_eq!(
        manager.state,
        CatchupState::SyncingEpoch {
            target_epoch: 3,
            local_epoch: 1
        }
    );

    let status = manager.check_sync_status(2, 300, ENGINE, None, None);
    assert!(status.ready);
    assert_eq!(status.network_commit, 300);

    assert!(manager.is_behind_store(ENGINE, Some(101)));
    let status = manager.check_sync_status(2, 300, ENGINE, Some(120), network(2, 100));
    assert!(!status.ready);
    assert_eq!(status.block_gap, 20);
    assert_eq!(
        manager.state,
        CatchupState::BehindRustLocal {
            target_block: 120,
            current_block: 100
        }
    );
}

#[test]
fn gap_is_closed_from_the_local_store_first() {
    let (mut gap, action) = GapSync::start(10, 20, Some(15), true);
    assert_eq!(action, GapAction::ReplayLocal { from: 11, to: 15 });
    assert_eq!(
        gap.step(GapEvent::Replayed(Some(5))),
        GapAction::Finish { synced: 5 }
    );
    let (mut gap, _) = GapSync::start(10, 20, Some(15), true);
    assert_eq!(
        gap.step(GapEvent::Replayed(Some(0))),
        GapAction::FetchFromPeers { from: 11, to: 20 }
    );
    assert_eq!(
        gap.step(GapEvent::Fetched(Some(3))),
        GapAction::HandToEngine
    );
    assert_eq!(
        gap.step(GapEvent::Handed(Some(3))),
        GapAction::Finish { synced: 3 }
    );
    let (_, action) = GapSync::start(10, 20, None, false);
    assert_eq!(action, GapAction::Fail(GapError::NoSource));
    let (_, action) = GapSync::start(20, 20, Some(30), true);
    assert_eq!(action, GapAction::Finish { synced: 0 });
    let (mut gap, _) = GapSync::start(10, 20, None, true);
    assert_eq!(
        gap.step(GapEvent::Fetched(None)),
        GapAction::Fail(GapError::FetchFailed)
    );
    let (mut gap, _) = GapSync::start(10, 20, None, true);
    gap.step(GapEvent::Fetched(Some(1)));
    assert_eq!(
        gap.step(GapEvent::Handed(None)),
        GapAction::Fail(GapError::SyncFailed)
    );
}

#[test]
fn replay_stops_at_the_first_failure() {
    let (mut replay, action) = LocalReplay::start(vec![5, 6, 8]);
    assert_eq!(action, ReplayAction::Send { position: 0 });
    assert_eq!(replay.on_sent(true), ReplayAction::Send { position: 1 });
    assert_eq!(replay.on_sent(false), ReplayAction::Fail { gei: 6 });
    let (mut replay, _) = LocalReplay::start(vec![5]);
    assert_eq!(replay.on_sent(true), ReplayAction::Finish { synced: 1 });
}

#[test]
fn epoch_catchup_gives_up_after_twenty_empty_fetches() {
    assert!(EpochCatchup::start(5, false).is_none());
    let (mut catchup, action) = EpochCatchup::start(5, true).unwrap();
    assert_eq!(action, EpochCatchupAction::AskEpoch);
    assert_eq!(
        catchup.step(EpochCatchupEvent::Epoch(None)),
        EpochCatchupAction::Wait { ms: 1000 }
    );
    assert_eq!(
        catchup.step(EpochCatchupEvent::Epoch(Some(4))),
        EpochCatchupAction::AskBlock
    );
    assert_eq!(
        catchup.step(EpochCatchupEvent::Block(Some(70))),
        EpochCatchupAction::Fetch {
            go_block: 70,
            fetch_to: 570
        }
    );
    assert_eq!(
        catchup.step(EpochCatchupEvent::Fetched(Some(30))),
        EpochCatchupAction::AskEpoch
    );
    for _ in 0..10 {
        assert_eq!(
            catchup.step(EpochCatchupEvent::Fetched(Some(0))),
            EpochCatchupAction::Wait { ms: 500 }
        );
    }
    for _ in 0..9 {
        assert_eq!(
            catchup.step(EpochCatchupEvent::Fetched(None)),
            EpochCatchupAction::Wait { ms: 1000 }
        );
    }
    assert_eq!(
        catchup.step(EpochCatchupEvent::Fetched(None)),
        EpochCatchupAction::Finish { synced: 30 }
    );
    let (mut catchup, _) = EpochCatchup::start(5, true).unwrap();
    assert_eq!(
        catchup.step(EpochCatchupEvent::Epoch(Some(5))),
        EpochCatchupAction::Finish { synced: 0 }
    );
}

#[test]
fn stream_converges_when_consensus_drives() {
    assert!(DualStreamController::new(false, None).is_none());
    let mut stream = DualStreamController::new(true, Some(100)).unwrap();
    assert_eq!(stream.on_go_block(Some(100)), StreamAction::AskPeers);
    assert_eq!(
        stream.on_network(100, Some(700)),
        StreamAction::Fetch {
            go_block: 100,
            fetch_to: 600
        }
    );
    assert_eq!(
        stream.on_synced(100, 700, Some(500)),
        StreamAction::NextRound
    );
    assert_eq!(stream.total_peer_synced, 500);
    for (i, go) in (601..610u64).enumerate() {
        stream.on_go_block(Some(go));
        stream.on_network(go, Some(2000));
        assert_eq!(
            stream.on_synced(go, 2000, Some(0)),
            StreamAction::NextRound,
            "round {}",
            i
        );
    }
    assert_eq!(stream.on_synced(610, 2000, None), StreamAction::Converged);
}

#[test]
fn stream_converges_fast_near_the_network() {
    let mut stream = DualStreamController::new(true, Some(50)).unwrap();
    assert_eq!(stream.on_network(50, Some(50)), StreamAction::NextRound);
    assert_eq!(stream.on_network(50, Some(50)), StreamAction::NextRound);
    assert_eq!(stream.on_network(50, Some(50)), StreamAction::FastConverged);
}

#[test]
fn blocks_from_peers_reset_the_streak() {
    let mut stream = DualStreamController::new(true, Some(50)).unwrap();
    stream.on_network(50, Some(50));
    stream.on_network(50, Some(50));
    assert_eq!(stream.consensus_driven_streak, 2);
    assert_eq!(stream.on_synced(51, 60, Some(4)), StreamAction::NextRound);
    assert_eq!(stream.consensus_driven_streak, 0);
}

#[test]
fn stream_gives_up_after_sixty_errors() {
    let mut stream = DualStreamController::new(true, None).unwrap();
    for _ in 0..60 {
        assert_eq!(stream.on_go_block(None), StreamAction::NextRound);
    }
    assert_eq!(stream.on_go_block(None), StreamAction::GiveUp);
}

fn node() -> ConsensusNode {
    ConsensusNode {
        has_authority: true,
        node_mode: NodeMode::Validator,
        current_epoch: 4,
        last_global_exec_index: 99,
        has_transition_hash: false,
        is_transitioning: false,
        execution_lock: 4,
        accepts_user_certs: true,
        has_executor_client: true,
    }
}

#[test]
fn transactions_are_taken_queued_or_refused() {
    let mut n = node();
    assert_eq!(
        n.check_transaction_acceptance(),
        (true, false, "Node is ready".to_string())
    );
    n.close_user_certs();
    assert_eq!(
        n.check_transaction_acceptance(),
        (false, true, "Reconfiguration in progress".to_string())
    );
    n.reset_reconfig_state();
    assert!(n.should_accept_tx());
    n.is_transitioning = true;
    assert_eq!(
        n.check_transaction_acceptance(),
        (false, true, "Epoch transition in progress".to_string())
    );
    n.has_transition_hash = true;
    assert_eq!(
        n.check_transaction_acceptance(),
        (
            false,
            true,
            "Epoch transition in progress: epoch 4 -> 5".to_string()
        )
    );
    n.has_authority = false;
    assert_eq!(
        n.check_transaction_acceptance(),
        (false, false, "Node is still initializing".to_string())
    );
    n.update_execution_lock_epoch(5);
    assert_eq!(n.execution_lock, 5);
}

#[test]
fn follower_stops_sync_before_it_becomes_a_validator() {
    let mut n = node();
    n.node_mode = NodeMode::SyncOnly;
    let keys = vec![vec![1], vec![2]];
    let (mut change, action) = n.check_and_update_node_mode(&keys, &vec![2], false, true);
    assert_eq!(action, ModeAction::AcquireLock { to_validator: true });
    assert_eq!(change.step(ModeEvent::Done), ModeAction::StopSync);
    assert_eq!(change.node.node_mode, NodeMode::SyncOnly);
    assert_eq!(
        change.step(ModeEvent::Done),
        ModeAction::SetConsensusStart { block: 100 }
    );
    assert_eq!(change.node.node_mode, NodeMode::Validator);
    assert_eq!(
        change.step(ModeEvent::Refused),
        ModeAction::WaitForSync {
            block: 99,
            timeout_secs: 30
        }
    );
    assert_eq!(change.step(ModeEvent::Failed), ModeAction::StartMonitor);
    assert_eq!(
        change.step(ModeEvent::Done),
        ModeAction::CompleteTransition { to_validator: true }
    );
    assert_eq!(change.step(ModeEvent::Done), ModeAction::Finish);
}

#[test]
fn validator_stops_its_authority_before_it_follows() {
    let n = node();
    let (mut change, action) = n.check_and_update_node_mode(&vec![vec![1]], &vec![2], true, false);
    assert_eq!(action, ModeAction::StopAuthority);
    assert_eq!(
        change.step(ModeEvent::Done),
        ModeAction::SetSyncStart {
            last_consensus_block: 99
        }
    );
    assert!(!change.node.has_authority);
    assert_eq!(change.step(ModeEvent::Failed), ModeAction::StartSync);
    assert_eq!(change.step(ModeEvent::Done), ModeAction::StartMonitor);
    assert_eq!(change.step(ModeEvent::Done), ModeAction::Finish);
    assert_eq!(change.node.node_mode, NodeMode::SyncOnly);
}

#[test]
fn refused_or_needless_change_changes_nothing() {
    let n = node();
    let (_, action) = n.check_and_update_node_mode(&vec![vec![2]], &vec![2], false, true);
    assert_eq!(action, ModeAction::Finish);
    let (mut change, _) = n.check_and_update_node_mode(&vec![], &vec![2], false, true);
    assert_eq!(change.step(ModeEvent::Refused), ModeAction::Finish);
    assert_eq!(change.node, n);
}

fn epoch_change() -> Option<NotificationPayload> {
    Some(NotificationPayload::EpochChange {
        new_epoch: 5,
        epoch_timestamp_ms: 6,
        boundary_block: 7,
    })
}

#[test]
fn notifications_are_answered() {
    assert_eq!(
        notification_socket_name(3),
        "metanode-notification-3.sock"
    );
    let server = EpochNotificationServer::new("s".to_string(), |epoch: u64, ts: u64, block: u64| {
        if (epoch, ts, block) == (5, 6, 7) {
            Ok(())
        } else {
            Err("wrong".to_string())
        }
    });
    match server.handle_request(epoch_change()) {
        NotificationResponse::EpochChange { success, message } => {
            assert!(success);
            assert_eq!(message, "Transition triggered");
        }
        other => panic!("got {:?}", other),
    }
    match server.handle_request(Some(NotificationPayload::Other)) {
        NotificationResponse::Error(e) => assert_eq!(e, "Unexpected request type"),
        other => panic!("got {:?}", other),
    }
    match server.handle_request(None) {
        NotificationResponse::Error(e) => assert_eq!(e, "Empty payload"),
        other => panic!("got {:?}", other),
    }
    let failing = EpochNotificationServer::new("s".to_string(), |_: u64, _: u64, _: u64| {
        Err("closed".to_string())
    });
    match failing.handle_request(epoch_change()) {
        NotificationResponse::EpochChange { success, message } => {
            assert!(!success);
            assert_eq!(message, "Callback failed: closed");
        }
        other => panic!("got {:?}", other),
    }
}

#[test]
fn lost_commits_are_replayed_in_order() {
    assert_eq!(
        consensus_db("/data", 3),
        "/data/epochs/epoch_3/consensus_db"
    );
    let (_, start) = Recovery::start(9, 5, 0, false);
    assert_eq!(start, RecoveryStart::NoDatabase);
    let (_, start) = Recovery::start(4, 5, 0, true);
    assert_eq!(start, RecoveryStart::BehindEpoch);
    let (mut recovery, start) = Recovery::start(9, 5, 0, true);
    assert_eq!(
        start,
        RecoveryStart::Scan {
            start_commit_index: 5
        }
    );
    assert_eq!(recovery.decide(4), CommitDecision::Skip);
    assert_eq!(recovery.decide(5), CommitDecision::Replay { gei: 10 });
    recovery.on_sent(1);
    assert_eq!(recovery.decide(6), CommitDecision::Replay { gei: 11 });
    assert_eq!(
        recovery.decide(8),
        CommitDecision::Gap {
            expected: 11,
            found: 13
        }
    );
    recovery.on_sent(3);
    assert_eq!(recovery.next_required_global, 14);
    assert_eq!(recovery.fragment_offset, 2);
    assert_eq!(recovery.decide(7), CommitDecision::Replay { gei: 14 });
    assert_eq!(geis_consumed(0), 1);
    assert_eq!(geis_consumed(50000), 1);
    assert_eq!(geis_consumed(50001), 2);
    assert_eq!(geis_consumed(150000), 3);
}

#[test]
fn a_commit_behind_a_fragmented_one_is_replayed() {
    let (mut recovery, start) = Recovery::start(0, 0, 0, true);
    assert_eq!(
        start,
        RecoveryStart::Scan {
            start_commit_index: 1
        }
    );
    assert_eq!(recovery.decide(1), CommitDecision::Replay { gei: 1 });
    recovery.on_sent(2);
    assert_eq!(recovery.decide(2), CommitDecision::Replay { gei: 3 });
}

#[test]
fn fragments_that_the_engine_has_are_counted() {
    let commit = |commit_index: u32, slots: u64| StoredCommit {
        commit_index,
        slots,
    };
    let commits = vec![commit(1, 1), commit(2, 3), commit(3, 1), commit(4, 2)];
    // Of the first five indices, the second commit took three.
    assert_eq!(fragment_offset_at(&commits, 0, 9), OffsetAt::Known(0));
    assert_eq!(fragment_offset_at(&commits, 1, 9), OffsetAt::Known(0));
    assert_eq!(fragment_offset_at(&commits, 5, 9), OffsetAt::Known(2));
    assert_eq!(fragment_offset_at(&commits, 7, 9), OffsetAt::Known(3));
    assert_eq!(
        fragment_offset_at(&commits, 3, 9),
        OffsetAt::Inside { commit_index: 2 }
    );
    assert_eq!(
        fragment_offset_at(&vec![commit(7, 1)], 3, 9),
        OffsetAt::Known(9)
    );
    let (recovery, start) = Recovery::start(105, 100, 2, true);
    assert_eq!(
        start,
        RecoveryStart::Scan {
            start_commit_index: 4
        }
    );
    assert_eq!(recovery.decide(3), CommitDecision::Skip);
    assert_eq!(recovery.decide(4), CommitDecision::Replay { gei: 106 });
    let (recovery, start) = Recovery::start(101, 100, 9, true);
    assert_eq!(
        start,
        RecoveryStart::Scan {
            start_commit_index: 1
        }
    );
    assert_eq!(
        recovery.decide(1),
        CommitDecision::Gap {
            expected: 102,
            found: 110
        }
    );
}

#[test]
fn monitor_takes_a_validator_to_the_next_epoch() {
    let b = EpochBoundary {
        epoch: 3,
        timestamp_ms: 7,
        boundary_block: 50,
    };
    let (mut round, action) = MonitorRound::start(1);
    assert_eq!(action, MonitorAction::AskEngineEpoch);
    assert_eq!(
        round.step(MonitorEvent::Epoch(Some(2))),
        MonitorAction::AskNetworkEpoch
    );
    assert_eq!(
        round.step(MonitorEvent::Epoch(Some(3))),
        MonitorAction::AskNode
    );
    assert_eq!(
        round.step(MonitorEvent::Node {
            epoch: 2,
            mode: NodeMode::Validator
        }),
        MonitorAction::AskPosition
    );
    assert_eq!(
        round.step(MonitorEvent::Position(Some(40))),
        MonitorAction::FetchBlocks { from: 41, to: 140 }
    );
    assert_eq!(
        round.step(MonitorEvent::Done { success: false }),
        MonitorAction::AskPeerBoundary { peer: 0, epoch: 3 }
    );
    assert_eq!(
        round.step(MonitorEvent::Boundary(Some(b))),
        MonitorAction::AskPosition
    );
    assert_eq!(
        round.step(MonitorEvent::Position(Some(40))),
        MonitorAction::FetchBlocks { from: 41, to: 50 }
    );
    assert_eq!(
        round.step(MonitorEvent::Done { success: true }),
        MonitorAction::AskEngineEpoch
    );
    assert_eq!(
        round.step(MonitorEvent::Epoch(Some(2))),
        MonitorAction::AdvanceEngine {
            epoch: 3,
            timestamp_ms: 7,
            boundary_block: 50
        }
    );
    assert_eq!(
        round.step(MonitorEvent::Done { success: true }),
        MonitorAction::StartTransition { epoch: 3 }
    );
    assert_eq!(
        round.step(MonitorEvent::Started(StartOutcome::Granted)),
        MonitorAction::RunTransition { boundary: b }
    );
    assert_eq!(
        round.step(MonitorEvent::Done { success: true }),
        MonitorAction::CompleteTransition {
            epoch: 3,
            wait_ms: 200
        }
    );
    assert_eq!(
        round.step(MonitorEvent::Done { success: true }),
        MonitorAction::EndRound
    );
}

#[test]
fn monitor_of_a_follower_takes_its_engine_along_and_nothing_else() {
    let boundary = |epoch: u64, block: u64| {
        MonitorEvent::Boundary(Some(EpochBoundary {
            epoch,
            timestamp_ms: 7,
            boundary_block: block,
        }))
    };
    let (mut round, _) = MonitorRound::start(2);
    round.step(MonitorEvent::Epoch(Some(1)));
    round.step(MonitorEvent::Epoch(Some(3)));
    round.step(MonitorEvent::Node {
        epoch: 1,
        mode: NodeMode::SyncOnly,
    });
    round.step(MonitorEvent::Position(None));
    assert_eq!(
        round.step(MonitorEvent::Done { success: true }),
        MonitorAction::AskPeerBoundary { peer: 0, epoch: 2 }
    );
    assert_eq!(
        round.step(MonitorEvent::Boundary(None)),
        MonitorAction::AskPeerBoundary { peer: 1, epoch: 2 }
    );
    round.step(boundary(2, 50));
    assert_eq!(
        round.step(MonitorEvent::Position(Some(50))),
        MonitorAction::AdvanceEngine {
            epoch: 2,
            timestamp_ms: 7,
            boundary_block: 50
        }
    );
    assert_eq!(
        round.step(MonitorEvent::Done { success: true }),
        MonitorAction::AskPeerBoundary { peer: 0, epoch: 3 }
    );
    round.step(boundary(3, 90));
    assert_eq!(
        round.step(MonitorEvent::Position(Some(50))),
        MonitorAction::FetchBlocks { from: 51, to: 90 }
    );
    assert_eq!(
        round.step(MonitorEvent::Done { success: false }),
        MonitorAction::AdvanceEngine {
            epoch: 3,
            timestamp_ms: 7,
            boundary_block: 90
        }
    );
    assert_eq!(
        round.step(MonitorEvent::Done { success: true }),
        MonitorAction::EndRound
    );
}

#[test]
fn what_a_node_says_decides_what_becomes_of_a_batch() {
    let mut n = node();
    let (accept, queue, reason) = n.check_transaction_acceptance();
    assert_eq!(node_check_of(accept, queue, &reason), NodeCheck::Accept);
    n.is_transitioning = true;
    let (accept, queue, reason) = n.check_transaction_acceptance();
    assert_eq!(node_check_of(accept, queue, &reason), NodeCheck::Queue);
    n.has_authority = false;
    let (accept, queue, reason) = n.check_transaction_acceptance();
    assert_eq!(node_check_of(accept, queue, &reason), NodeCheck::StartingUp);
}

#[test]
fn monitor_interval() {
    assert_eq!(poll_interval_secs(None), 10);
    assert_eq!(poll_interval_secs(Some(3)), 3);
}
