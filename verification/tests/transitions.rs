//! Epoch and mode transitions, and their checkpoints.

use metanode::node::epoch_checkpoint::{
    CheckpointManager, FoundCheckpoint, TransitionCheckpoint, TransitionState,
};
use metanode::node::epoch_transition_manager::{
    StateTransitionManager, TransitionError, TransitionType,
};

const SECOND: u128 = 1_000_000_000;

fn resumed(found: FoundCheckpoint) -> TransitionCheckpoint {
    match found {
        FoundCheckpoint::Resume(checkpoint) => checkpoint,
        other => panic!("expected a checkpoint to resume, got {:?}", other),
    }
}

#[test]
fn test_epoch_transition() {
    let mut manager = StateTransitionManager::new(1, false);

    manager.try_start_epoch_transition(2, "test").unwrap();
    assert!(manager.is_transition_in_progress());

    manager.complete_epoch_transition(2);
    assert!(!manager.is_transition_in_progress());
    assert_eq!(manager.current_epoch(), 2);
}

#[test]
fn test_mode_transition() {
    let mut manager = StateTransitionManager::new(1, false);
    assert!(!manager.is_validator());

    manager.try_start_mode_transition(true, "test").unwrap();
    assert!(manager.is_transition_in_progress());

    manager.complete_mode_transition(true);
    assert!(!manager.is_transition_in_progress());
    assert!(manager.is_validator());
}

#[test]
fn test_concurrent_transitions_blocked() {
    let mut manager = StateTransitionManager::new(1, false);

    manager.try_start_epoch_transition(2, "first").unwrap();

    let result = manager.try_start_mode_transition(true, "second");
    assert!(matches!(
        result,
        Err(TransitionError::TransitionInProgress { .. })
    ));

    let result = manager.try_start_epoch_transition(3, "third");
    assert!(matches!(
        result,
        Err(TransitionError::TransitionInProgress { .. })
    ));

    manager.complete_epoch_transition(2);
    assert!(!manager.is_transition_in_progress());
}

#[test]
fn test_multi_epoch_sequential() {
    let mut manager = StateTransitionManager::new(1, true);
    assert_eq!(manager.current_epoch(), 1);
    assert!(manager.is_validator());

    manager.try_start_epoch_transition_at(2, "test", 0).unwrap();
    assert!(manager.is_transition_in_progress());
    manager.complete_epoch_transition_at(2, 0);
    assert_eq!(manager.current_epoch(), 2);
    assert!(!manager.is_transition_in_progress());

    manager
        .try_start_epoch_transition_at(3, "test", 4 * SECOND)
        .unwrap();
    manager.complete_epoch_transition_at(3, 4 * SECOND);
    assert_eq!(manager.current_epoch(), 3);

    manager
        .try_start_epoch_transition_at(4, "test", 8 * SECOND)
        .unwrap();
    manager.complete_epoch_transition_at(4, 8 * SECOND);
    assert_eq!(manager.current_epoch(), 4);

    assert!(manager.is_validator());
}

#[test]
fn test_epoch_rollback_rejected() {
    let mut manager = StateTransitionManager::new(5, false);

    let result = manager.try_start_epoch_transition(3, "rollback");
    assert!(
        matches!(
            result,
            Err(TransitionError::EpochAlreadyCurrent {
                current: 5,
                requested: 3
            })
        ),
        "Expected EpochAlreadyCurrent, got {:?}",
        result
    );

    let result = manager.try_start_epoch_transition(5, "same");
    assert!(
        matches!(
            result,
            Err(TransitionError::EpochAlreadyCurrent {
                current: 5,
                requested: 5
            })
        ),
        "Expected EpochAlreadyCurrent, got {:?}",
        result
    );

    manager.try_start_epoch_transition(6, "forward").unwrap();
    assert!(manager.is_transition_in_progress());
    manager.complete_epoch_transition(6);
    assert_eq!(manager.current_epoch(), 6);
}

#[test]
fn test_failed_transition_allows_retry() {
    let mut manager = StateTransitionManager::new(1, true);

    manager
        .try_start_epoch_transition(2, "first_attempt")
        .unwrap();
    assert!(manager.is_transition_in_progress());

    manager.fail_transition("simulated failure");
    assert!(!manager.is_transition_in_progress());
    assert_eq!(manager.current_epoch(), 1);

    manager.try_start_epoch_transition(2, "retry").unwrap();
    assert!(manager.is_transition_in_progress());
    manager.complete_epoch_transition(2);
    assert_eq!(manager.current_epoch(), 2);
}

#[test]
fn test_debounce_prevents_rapid_transitions() {
    let mut manager = StateTransitionManager::new(1, true);

    manager.try_start_epoch_transition(2, "test").unwrap();
    manager.complete_epoch_transition(2);
    assert_eq!(manager.current_epoch(), 2);

    let result = manager.try_start_epoch_transition(3, "test");
    assert!(
        matches!(result, Err(TransitionError::Debouncing { .. })),
        "Expected Debouncing error, got {:?}",
        result
    );

    assert_eq!(manager.current_epoch(), 2);
}

#[test]
fn debounce_ends_after_three_seconds() {
    let mut manager = StateTransitionManager::new(1, true);
    manager.try_start_epoch_transition_at(2, "test", 0).unwrap();
    manager.complete_epoch_transition_at(2, SECOND);
    let result = manager.try_start_epoch_transition_at(3, "test", 3 * SECOND);
    assert!(
        matches!(result, Err(TransitionError::Debouncing { remaining_ms: 1000 })),
        "got {:?}",
        result
    );
    manager
        .try_start_epoch_transition_at(3, "test", 4 * SECOND)
        .unwrap();
    assert!(manager.is_transition_in_progress());
}

#[test]
fn test_set_current_state_force_update() {
    let mut manager = StateTransitionManager::new(1, true);
    assert_eq!(manager.current_epoch(), 1);
    assert!(manager.is_validator());

    manager.set_current_state(10, false);
    assert_eq!(manager.current_epoch(), 10);
    assert!(!manager.is_validator());

    manager.set_current_state(10, true);
    assert!(manager.is_validator());

    manager.set_current_state(100, true);
    assert_eq!(manager.current_epoch(), 100);
}

#[test]
fn test_concurrent_epoch_and_mode_transitions() {
    let mut manager = StateTransitionManager::new(1, false);

    manager.try_start_epoch_transition_at(2, "epoch", 0).unwrap();
    assert!(manager.is_transition_in_progress());

    let result = manager.try_start_mode_transition_at(true, "mode", 0);
    assert!(
        matches!(result, Err(TransitionError::TransitionInProgress { .. })),
        "Expected TransitionInProgress, got {:?}",
        result
    );

    manager.complete_epoch_transition_at(2, 0);
    manager
        .try_start_mode_transition_at(true, "mode", 4 * SECOND)
        .unwrap();
    manager.complete_mode_transition_at(true, 4 * SECOND);
    assert!(manager.is_validator());
}

#[test]
fn test_epoch_skip_allowed() {
    let mut manager = StateTransitionManager::new(1, true);

    manager.try_start_epoch_transition(5, "skip").unwrap();
    manager.complete_epoch_transition(5);
    assert_eq!(manager.current_epoch(), 5);
}

#[test]
fn mode_that_is_current_is_refused() {
    let mut manager = StateTransitionManager::new(1, true);
    let result = manager.try_start_mode_transition(true, "test");
    assert!(matches!(result, Err(TransitionError::ModeAlreadyCurrent)));
    assert!(!manager.is_transition_in_progress());
}

#[test]
fn stale_transition_is_cleared_only_when_old_enough() {
    let mut manager = StateTransitionManager::new(1, true);
    assert!(!manager.force_clear_stale_transition_at(SECOND, 100 * SECOND));
    manager
        .try_start_epoch_transition_at(2, "test", 10 * SECOND)
        .unwrap();
    assert!(!manager.force_clear_stale_transition_at(60 * SECOND, 70 * SECOND));
    assert!(manager.is_transition_in_progress());
    assert!(manager.force_clear_stale_transition_at(60 * SECOND, 70 * SECOND + 1));
    assert!(!manager.is_transition_in_progress());
    assert_eq!(manager.current_epoch(), 1);
    manager.set_current_state(9, true);
    assert!(!manager.force_clear_stale_transition(SECOND));
}

#[test]
fn test_transition_type_display_epoch() {
    let t = TransitionType::EpochChange {
        from_epoch: 1,
        to_epoch: 2,
    };
    assert_eq!(t.to_text(), "Epoch(1 → 2)");
}

#[test]
fn test_transition_type_display_mode() {
    let t = TransitionType::ModeChange {
        from_mode: "SyncOnly".to_string(),
        to_mode: "Validator".to_string(),
    };
    assert_eq!(t.to_text(), "Mode(SyncOnly → Validator)");
}

#[test]
fn test_transition_type_display_epoch_and_mode() {
    let t = TransitionType::EpochAndModeChange {
        from_epoch: 3,
        to_epoch: 4,
        from_mode: "Validator".to_string(),
        to_mode: "SyncOnly".to_string(),
    };
    assert_eq!(t.to_text(), "Epoch(3 → 4) + Mode(Validator → SyncOnly)");
}

#[test]
fn test_transition_error_display_all_variants() {
    let err1 = TransitionError::EpochAlreadyCurrent {
        current: 5,
        requested: 3,
    };
    assert!(err1.to_text().contains("5"));
    assert!(err1.to_text().contains("3"));

    let err2 = TransitionError::ModeAlreadyCurrent;
    assert!(err2.to_text().contains("Mode already current"));

    let err3 = TransitionError::TransitionInProgress {
        current: Some("Epoch(1 → 2) by monitor".to_string()),
        requested: "Mode(SyncOnly → Validator) by api".to_string(),
    };
    let display = err3.to_text();
    assert!(display.contains("in progress"));

    let err4 = TransitionError::Debouncing { remaining_ms: 2500 };
    assert!(err4.to_text().contains("2500"));
}

#[test]
fn error_texts_show_the_running_transition_as_an_option() {
    let some = TransitionError::TransitionInProgress {
        current: Some("Epoch(1 → 2) by \"x\"".to_string()),
        requested: "b".to_string(),
    };
    assert!(some.to_text().contains("Some(\"Epoch(1 → 2) by \\\"x\\\"\")"));
    let none = TransitionError::TransitionInProgress {
        current: None,
        requested: "b".to_string(),
    };
    assert!(none.to_text().contains("None"));
}

#[test]
fn test_transition_state_epoch_and_name() {
    let s = TransitionState::NotStarted;
    assert_eq!(s.epoch(), None);
    assert_eq!(s.name(), "NotStarted");

    let s = TransitionState::AdvancedEpochToGo {
        epoch: 5,
        boundary_block: 1000,
        boundary_gei: 0,
        timestamp_ms: 1700000000000,
    };
    assert_eq!(s.epoch(), Some(5));
    assert_eq!(s.name(), "AdvancedEpochToGo");

    let s = TransitionState::CommitteeFetched {
        epoch: 5,
        committee_hash: [42u8; 32],
        validator_count: 4,
    };
    assert_eq!(s.epoch(), Some(5));
    assert_eq!(s.name(), "CommitteeFetched");

    let s = TransitionState::AuthorityStopped {
        epoch: 5,
        previous_epoch: 4,
    };
    assert_eq!(s.epoch(), Some(5));
    assert_eq!(s.name(), "AuthorityStopped");

    let s = TransitionState::Completed {
        epoch: 5,
        completed_at_ms: 1700000060000,
    };
    assert_eq!(s.epoch(), Some(5));
    assert_eq!(s.name(), "Completed");
}

#[test]
fn test_resume_instructions_all_states() {
    let cases = vec![
        (TransitionState::NotStarted, "No action needed"),
        (
            TransitionState::AdvancedEpochToGo {
                epoch: 1,
                boundary_block: 0,
                boundary_gei: 0,
                timestamp_ms: 0,
            },
            "fetch_committee",
        ),
        (
            TransitionState::CommitteeFetched {
                epoch: 1,
                committee_hash: [0u8; 32],
                validator_count: 4,
            },
            "stop_authority",
        ),
        (
            TransitionState::AuthorityStopped {
                epoch: 2,
                previous_epoch: 1,
            },
            "start_new_epoch",
        ),
        (
            TransitionState::Completed {
                epoch: 2,
                completed_at_ms: 1700000000000,
            },
            "No action needed",
        ),
    ];

    for (state, expected_substr) in cases {
        let instructions = CheckpointManager::get_resume_instructions(&state);
        assert!(
            instructions.contains(expected_substr),
            "State '{}': expected instruction containing '{}', got: '{}'",
            state.name(),
            expected_substr,
            instructions
        );
    }
}

#[test]
fn test_incomplete_checkpoint_detected() {
    let manager = CheckpointManager::new("/data", "node-1");

    assert!(!manager.has_incomplete_transition(&None));

    let loaded = Some(manager.checkpoint_advance_epoch(3, 500, 500, 1700000000000));
    assert!(manager.has_incomplete_transition(&loaded));

    let incomplete = resumed(manager.get_incomplete_transition(loaded));
    assert_eq!(incomplete.state.epoch(), Some(3));
    let instructions = CheckpointManager::get_resume_instructions(&incomplete.state);
    assert!(
        instructions.contains("fetch_committee"),
        "Expected resume instruction about fetch_committee, got: {}",
        instructions
    );

    let loaded = Some(manager.checkpoint_committee_fetched(3, [0u8; 32], 4));
    let incomplete = resumed(manager.get_incomplete_transition(loaded));
    let instructions = CheckpointManager::get_resume_instructions(&incomplete.state);
    assert!(
        instructions.contains("stop_authority"),
        "Expected resume instruction about stop_authority, got: {}",
        instructions
    );

    assert!(!manager.has_incomplete_transition(&None));
}

#[test]
fn test_checkpoint_manager() {
    let manager = CheckpointManager::new("/data", "node-0");
    assert_eq!(
        manager.checkpoint_path,
        "/data/epoch_transition.checkpoint"
    );

    assert!(!manager.has_incomplete_transition(&None));

    let loaded = Some(manager.checkpoint_advance_epoch(5, 1000, 1000, 123456789));
    assert!(manager.has_incomplete_transition(&loaded));

    let completed = Some(TransitionCheckpoint::new(
        TransitionState::Completed {
            epoch: 5,
            completed_at_ms: 1,
        },
        "node-0",
    ));
    assert!(!manager.has_incomplete_transition(&completed));
    assert!(matches!(
        manager.get_incomplete_transition(completed),
        FoundCheckpoint::Obsolete
    ));
    assert!(matches!(
        manager.get_incomplete_transition(None),
        FoundCheckpoint::Nothing
    ));
}

#[test]
fn test_checkpoint_full_lifecycle() {
    let cp1 = TransitionCheckpoint::new(
        TransitionState::AdvancedEpochToGo {
            epoch: 5,
            boundary_block: 1000,
            boundary_gei: 0,
            timestamp_ms: 1700000000000,
        },
        "node-0",
    );
    assert_eq!(cp1.state.name(), "AdvancedEpochToGo");
    assert_eq!(cp1.state.epoch(), Some(5));
    assert_eq!(cp1.node_id, "node-0");

    let cp2 = TransitionCheckpoint::new(
        TransitionState::CommitteeFetched {
            epoch: 5,
            committee_hash: [42u8; 32],
            validator_count: 4,
        },
        "node-0",
    );
    assert_eq!(cp2.state.name(), "CommitteeFetched");
    if let TransitionState::CommitteeFetched {
        validator_count, ..
    } = cp2.state
    {
        assert_eq!(validator_count, 4);
    } else {
        panic!("Expected CommitteeFetched state");
    }

    let cp3 = TransitionCheckpoint::new(
        TransitionState::AuthorityStopped {
            epoch: 5,
            previous_epoch: 4,
        },
        "node-0",
    );
    assert_eq!(cp3.state.name(), "AuthorityStopped");

    let cp4 = TransitionCheckpoint::new(
        TransitionState::Completed {
            epoch: 5,
            completed_at_ms: 1700000060000,
        },
        "node-0",
    );
    assert_eq!(cp4.state.name(), "Completed");
    assert_eq!(cp4.state.epoch(), Some(5));
}

#[test]
fn checkpoint_time_is_the_wall_clock() {
    let checkpoint = TransitionCheckpoint::new(TransitionState::NotStarted, "n");
    assert!(checkpoint.created_at_ms > 1_600_000_000_000);
    let dated = TransitionCheckpoint::created_at(TransitionState::NotStarted, "n", 7);
    assert_eq!(dated.created_at_ms, 7);
}

#[test]
fn test_epoch_transition_with_checkpoint_and_state() {
    let mut state_manager = StateTransitionManager::new(1, true);
    let checkpoint_manager = CheckpointManager::new("/data", "node-0");

    assert_eq!(state_manager.current_epoch(), 1);
    assert!(!checkpoint_manager.has_incomplete_transition(&None));

    state_manager
        .try_start_epoch_transition_at(2, "epoch_monitor", 0)
        .unwrap();
    assert!(state_manager.is_transition_in_progress());

    let saved = Some(checkpoint_manager.checkpoint_advance_epoch(2, 500, 500, 1700000000000));
    assert!(checkpoint_manager.has_incomplete_transition(&saved));
    let saved = Some(checkpoint_manager.checkpoint_committee_fetched(2, [1u8; 32], 4));
    assert!(checkpoint_manager.has_incomplete_transition(&saved));
    let saved = Some(checkpoint_manager.checkpoint_authority_stopped(2, 1));
    assert!(checkpoint_manager.has_incomplete_transition(&saved));

    state_manager.complete_epoch_transition_at(2, 0);
    assert_eq!(state_manager.current_epoch(), 2);
    assert!(!state_manager.is_transition_in_progress());
    assert!(!checkpoint_manager.has_incomplete_transition(&None));

    state_manager
        .try_start_epoch_transition_at(3, "epoch_monitor", 4 * SECOND)
        .unwrap();
    let saved = Some(checkpoint_manager.checkpoint_advance_epoch(3, 1000, 1000, 1700000060000));

    assert!(state_manager.is_transition_in_progress());
    assert!(checkpoint_manager.has_incomplete_transition(&saved));
    let incomplete = resumed(checkpoint_manager.get_incomplete_transition(saved));
    assert_eq!(incomplete.state.epoch(), Some(3));
    assert_eq!(incomplete.state.name(), "AdvancedEpochToGo");

    state_manager.fail_transition("simulated crash");
    assert!(!state_manager.is_transition_in_progress());
    assert_eq!(state_manager.current_epoch(), 2);

    state_manager
        .try_start_epoch_transition_at(3, "recovery", 4 * SECOND)
        .unwrap();
    state_manager.complete_epoch_transition_at(3, 4 * SECOND);
    assert_eq!(state_manager.current_epoch(), 3);
    assert!(!checkpoint_manager.has_incomplete_transition(&None));
}
