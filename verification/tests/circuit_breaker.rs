//! Circuit breakers, peer health and committee sources.

use metanode::node::committee_source::CommitteeSource;
use metanode::node::executor_client::{SendCircuitBreaker, SEND_COOLDOWN};
use metanode::node::peer_health::PeerHealthTracker;
use metanode::node::rpc_circuit_breaker::{CircuitBreakerConfig, CircuitState, RpcCircuitBreaker};

const MS: u128 = 1_000_000;
const SECOND: u128 = 1_000_000_000;

#[test]
fn default_limits() {
    let cb = RpcCircuitBreaker::new();
    assert_eq!(cb.config.failure_threshold, 5);
    assert_eq!(cb.config.cooldown_ms, 30_000);
    assert_eq!(cb.config.success_threshold, 1);
}

#[test]
fn test_circuit_breaker_starts_closed() {
    let mut cb = RpcCircuitBreaker::new();
    assert_eq!(cb.state("any_method"), CircuitState::Closed);
    assert_eq!(cb.failure_count("any_method"), 0);
    assert_eq!(cb.total_rejections("any_method"), 0);
    assert!(cb.check("any_method").is_ok());
}

#[test]
fn test_circuit_breaker_opens_after_failures() {
    let config = CircuitBreakerConfig {
        failure_threshold: 3,
        cooldown_ms: 60_000,
        success_threshold: 1,
    };
    let mut cb = RpcCircuitBreaker::with_config(config);

    cb.record_failure("get_epoch");
    cb.record_failure("get_epoch");
    assert_eq!(cb.state("get_epoch"), CircuitState::Closed);
    assert!(cb.check("get_epoch").is_ok());

    cb.record_failure("get_epoch");
    assert_eq!(cb.state("get_epoch"), CircuitState::Open);
    assert_eq!(cb.failure_count("get_epoch"), 3);

    let result = cb.check("get_epoch");
    assert!(result.is_err());
    assert_eq!(cb.total_rejections("get_epoch"), 1);

    assert_eq!(cb.state("get_block"), CircuitState::Closed);
    assert!(cb.check("get_block").is_ok());
}

fn short_config() -> CircuitBreakerConfig {
    CircuitBreakerConfig {
        failure_threshold: 2,
        cooldown_ms: 1,
        success_threshold: 1,
    }
}

#[test]
fn test_circuit_breaker_half_open_after_cooldown() {
    let mut cb = RpcCircuitBreaker::with_config(short_config());

    cb.record_failure_at("rpc_call", 0);
    cb.record_failure_at("rpc_call", 0);
    assert_eq!(cb.state("rpc_call"), CircuitState::Open);

    assert!(cb.check_at("rpc_call", 10 * MS).is_ok());
    assert_eq!(cb.state("rpc_call"), CircuitState::HalfOpen);
}

#[test]
fn test_circuit_breaker_closes_on_success() {
    let mut cb = RpcCircuitBreaker::with_config(short_config());

    cb.record_failure_at("rpc_call", 0);
    cb.record_failure_at("rpc_call", 0);
    cb.check_at("rpc_call", 10 * MS).unwrap();

    cb.record_success("rpc_call");
    assert_eq!(cb.state("rpc_call"), CircuitState::Closed);
    assert_eq!(cb.failure_count("rpc_call"), 0);

    assert!(cb.check_at("rpc_call", 10 * MS).is_ok());
}

#[test]
fn test_circuit_breaker_reopens_on_probe_failure() {
    let mut cb = RpcCircuitBreaker::with_config(short_config());

    cb.record_failure_at("rpc_call", 0);
    cb.record_failure_at("rpc_call", 0);
    cb.check_at("rpc_call", 10 * MS).unwrap();
    assert_eq!(cb.state("rpc_call"), CircuitState::HalfOpen);

    cb.record_failure_at("rpc_call", 10 * MS);
    assert_eq!(cb.state("rpc_call"), CircuitState::Open);

    let result = cb.check_at("rpc_call", 10 * MS);
    assert!(result.is_err());
}

#[test]
fn send_circuit_opens_for_ten_seconds() {
    let mut breaker = SendCircuitBreaker::new();
    breaker.record_failure(0);
    breaker.record_failure(0);
    assert!(breaker.check(0).is_ok());
    breaker.record_failure(SECOND);
    let open = breaker.check(2 * SECOND).unwrap_err();
    assert_eq!(open.remaining_secs, 9);
    assert!(breaker.check(SECOND + SEND_COOLDOWN).is_ok());
    breaker.record_success();
    assert_eq!(breaker.failures, 0);
    assert!(breaker.check(2 * SECOND).is_ok());
}

#[test]
fn test_healthy_by_default() {
    let tracker = PeerHealthTracker::new();
    assert!(tracker.is_healthy(0));
    assert!(tracker.is_healthy(99));
    assert_eq!(tracker.failure_count(0), 0);
}

#[test]
fn test_backoff_after_failures() {
    let mut tracker = PeerHealthTracker::new();

    tracker.record_failure(1);
    tracker.record_failure(1);
    assert!(tracker.is_healthy(1));
    assert_eq!(tracker.failure_count(1), 2);

    tracker.record_failure(1);
    assert!(!tracker.is_healthy(1));
    assert_eq!(tracker.failure_count(1), 3);

    assert!(tracker.is_healthy(2));
}

#[test]
fn test_reset_on_success() {
    let mut tracker = PeerHealthTracker::new();

    for _ in 0..5 {
        tracker.record_failure(1);
    }
    assert!(!tracker.is_healthy(1));
    assert_eq!(tracker.failure_count(1), 5);

    tracker.record_success(1);
    assert!(tracker.is_healthy(1));
    assert_eq!(tracker.failure_count(1), 0);
}

#[test]
fn test_filter_healthy() {
    let mut tracker = PeerHealthTracker::new();

    for _ in 0..3 {
        tracker.record_failure(1);
    }

    let all_peers = vec![0, 1, 2, 3];
    let healthy = tracker.filter_healthy(&all_peers);
    assert_eq!(healthy, vec![0, 2, 3]);
}

#[test]
fn test_escalating_backoff() {
    let mut tracker = PeerHealthTracker::new();

    for _ in 0..3 {
        tracker.record_failure(1);
    }
    assert!(!tracker.is_healthy(1));

    tracker.record_success(1);
    for _ in 0..5 {
        tracker.record_failure(1);
    }
    assert!(!tracker.is_healthy(1));
    assert_eq!(tracker.failure_count(1), 5);

    tracker.record_success(1);
    for _ in 0..10 {
        tracker.record_failure(1);
    }
    assert!(!tracker.is_healthy(1));
    assert_eq!(tracker.failure_count(1), 10);
}

#[test]
fn backoff_lasts_ten_thirty_and_sixty_seconds() {
    for (failures, secs) in [(3u32, 10u128), (5, 30), (10, 60)] {
        let mut tracker = PeerHealthTracker::new();
        for _ in 0..failures {
            tracker.record_failure_at(1, 0);
        }
        assert!(!tracker.is_healthy_at(1, secs * SECOND - 1), "{} failures", failures);
        assert!(tracker.is_healthy_at(1, secs * SECOND), "{} failures", failures);
    }
}

fn source(epoch: u64) -> CommitteeSource {
    CommitteeSource {
        socket_path: "/dev/null".to_string(),
        epoch,
        last_block: 1000,
        is_peer: false,
        peer_rpc_addresses: vec![],
    }
}

#[test]
fn test_committee_source_validate_epoch_match() {
    assert!(source(5).validate_epoch(5));
}

#[test]
fn test_committee_source_validate_epoch_mismatch() {
    let source = source(5);
    assert!(!source.validate_epoch(3));
    assert!(!source.validate_epoch(6));
}

#[test]
fn test_committee_source_create_executor_client() {
    let source = CommitteeSource {
        socket_path: "/tmp/test_recv.sock".to_string(),
        epoch: 1,
        last_block: 0,
        is_peer: true,
        peer_rpc_addresses: vec!["10.0.0.1:8080".to_string()],
    };

    let client = source.create_executor_client("/tmp/test_send.sock");
    assert!(client.is_enabled());
}
