//! The client of the execution engine: its files, its queue, its blocks and its questions.

use metanode::consensus::subdag::{CommittedBlock, CommittedSubDag, CommittedTransaction};
use metanode::node::consensus_node::{BoundaryData, DEFAULT_EPOCH_DURATION};
use metanode::node::executor_client::block_sending::{
    build_sorted_transactions, commit_slots, SendPlan, MAX_TXS_PER_GO_BLOCK,
};
use metanode::node::executor_client::block_store::{
    block_file, blocks_dir, is_storable, max_stored_gei, parse_block_file,
};
use metanode::node::executor_client::block_sync::{sync_chunks, SyncProgress};
use metanode::node::executor_client::persistence::{
    decode_fragment_offset, decode_last_block_number, decode_last_sent_index, encode_last_sent_index,
    encode_u64, write_uvarint, StateFile,
};
use metanode::node::executor_client::rpc_queries::{
    check_response_len, interpret_current_epoch, interpret_epoch_boundary, interpret_last_block,
    interpret_validators, PayloadKind, Question, QueryError, ResponsePayload, SafeBoundary,
    SafeBoundaryAction,
};
use metanode::node::executor_client::send_queue::{
    BufferedBlock, EnqueueOutcome, SendQueue, MAX_BUFFER_SIZE,
};
use metanode::node::executor_client::socket_stream::SocketAddress;
use metanode::node::executor_client::transition_handoff::{
    wait_for_sync_timeout, AdvanceEpoch, AdvanceStep,
};
use metanode::node::executor_client::{
    next_init_step, ExecutorClient, ExecutorPosition, InitStep, PositionReply,
};

fn client(enabled: bool, can_commit: bool) -> ExecutorClient {
    ExecutorClient::new(
        enabled,
        can_commit,
        "/tmp/test_send.sock".to_string(),
        "/tmp/test_recv.sock".to_string(),
        None,
    )
}

#[test]
fn test_executor_client_creation_defaults() {
    let client = client(true, true);
    assert!(client.is_enabled());
    assert!(client.can_commit());
}

#[test]
fn test_executor_client_disabled() {
    let client = client(false, false);
    assert!(!client.is_enabled());
    assert!(!client.can_commit());
}

#[test]
fn test_executor_client_enabled_always_commits() {
    let client = client(true, true);
    assert!(client.is_enabled());
    assert!(client.can_commit());
}

#[test]
fn test_executor_client_buffer_empty_on_creation() {
    let client = client(true, true);
    assert!(
        client.queue.buffer.is_empty(),
        "Send buffer should be empty on creation"
    );
}

#[test]
fn test_executor_client_initial_next_expected() {
    let client = client(true, true);
    assert_eq!(
        client.queue.next_expected, 1,
        "Default next_expected_index should be 1"
    );
}

#[test]
fn test_executor_client_custom_initial_index() {
    let client = ExecutorClient::new_with_initial_index(
        true,
        true,
        "/tmp/test_send.sock".to_string(),
        "/tmp/test_recv.sock".to_string(),
        42,
        None,
    );
    assert_eq!(
        client.queue.next_expected, 42,
        "Custom next_expected_index should be 42"
    );
    assert!(client.queue.buffer.is_empty());
}

#[test]
fn test_executor_client_circuit_breaker_initialized() {
    let mut client = client(true, true);
    let cb = client.circuit_breaker();
    assert!(cb.check("any_method").is_ok());
}

#[test]
fn test_executor_client_sent_indices_empty() {
    let client = client(true, true);
    assert!(
        client.queue.sent.is_empty(),
        "Sent indices should be empty on creation"
    );
}

#[test]
fn test_write_uvarint_small_value() {
    let mut buf = Vec::new();
    write_uvarint(&mut buf, 42);
    assert_eq!(buf, vec![42u8]);
}

#[test]
fn test_write_uvarint_large_value() {
    let mut buf = Vec::new();
    write_uvarint(&mut buf, 300);
    assert_eq!(buf, vec![0xAC, 0x02]);
}

#[test]
fn test_write_uvarint_encoding() {
    let mut buf = Vec::new();
    write_uvarint(&mut buf, 0);
    assert_eq!(buf, vec![0x00]);

    buf.clear();
    write_uvarint(&mut buf, 127);
    assert_eq!(buf, vec![0x7F]);

    buf.clear();
    write_uvarint(&mut buf, 128);
    assert_eq!(buf, vec![0x80, 0x01]);

    buf.clear();
    write_uvarint(&mut buf, 300);
    assert_eq!(buf, vec![0xAC, 0x02]);

    buf.clear();
    write_uvarint(&mut buf, u64::MAX);
    assert_eq!(buf.len(), 10, "u64::MAX should encode to 10 bytes");
    for byte in &buf[..9] {
        assert!(
            byte & 0x80 != 0,
            "byte {:#04x} should have high bit set",
            byte
        );
    }
    assert!(buf[9] & 0x80 == 0, "last byte should not have high bit set");
}

#[test]
fn test_persist_and_load_last_index() {
    let file = encode_last_sent_index(12345, 67);
    assert_eq!(decode_last_sent_index(&file), Some((12345, 67)));
}

#[test]
fn test_persist_and_load_sent_index() {
    let file = encode_last_sent_index(12345, 67);
    assert_eq!(decode_last_sent_index(&file), Some((12345, 67)));
    let file = encode_last_sent_index(99999, 200);
    assert_eq!(decode_last_sent_index(&file), Some((99999, 200)));
}

#[test]
fn test_load_corrupted_file() {
    assert_eq!(decode_last_sent_index(&[1, 2, 3]), None);
}

#[test]
fn test_load_legacy_format() {
    assert_eq!(
        decode_last_sent_index(&999u64.to_le_bytes()),
        Some((999, 0))
    );
}

#[test]
fn test_persist_legacy_format_compat() {
    let legacy_index: u64 = 42;
    assert_eq!(
        decode_last_sent_index(&legacy_index.to_le_bytes()),
        Some((42, 0)),
        "Legacy format should return index=42, commit=0"
    );
}

#[test]
fn test_persist_and_read_block_number() {
    assert_eq!(decode_last_block_number(&encode_u64(42069)), Some(42069));
}

#[test]
fn test_persist_last_block_number_roundtrip() {
    for block_number in [0u64, 1, 1000, u64::MAX] {
        assert_eq!(
            decode_last_block_number(&encode_u64(block_number)),
            Some(block_number),
            "block_number mismatch for value {}",
            block_number
        );
    }
}

#[test]
fn fragment_offset_file() {
    assert_eq!(decode_fragment_offset(None), 0);
    assert_eq!(decode_fragment_offset(Some(encode_u64(17))), 17);
    assert_eq!(decode_fragment_offset(Some(vec![1, 2, 3])), 0);
}

/// What reading the TCP part of an address gives, for the addresses of these tests.
fn read_address(addr: &str) -> Result<String, String> {
    match SocketAddress::tcp_part(addr) {
        Some(text) if text == "not-an-address" => Err("invalid socket address syntax".to_string()),
        Some(text) => Ok(text),
        None => Err("not a TCP address".to_string()),
    }
}

#[test]
fn test_parse_unix_prefix() {
    let addr = "unix:///tmp/socket.sock";
    match SocketAddress::parse(addr, read_address(addr)).unwrap() {
        SocketAddress::Unix(path) => assert_eq!(path, "/tmp/socket.sock"),
        _ => panic!("Expected Unix variant"),
    }
}

#[test]
fn test_parse_unix_default() {
    let addr = "/tmp/go-executor.sock";
    match SocketAddress::parse(addr, read_address(addr)).unwrap() {
        SocketAddress::Unix(path) => assert_eq!(path, "/tmp/go-executor.sock"),
        _ => panic!("Expected Unix variant"),
    }
}

#[test]
fn test_parse_tcp_prefix() {
    let addr = "tcp://127.0.0.1:9001";
    match SocketAddress::parse(addr, read_address(addr)).unwrap() {
        SocketAddress::Tcp(address) => {
            let (ip, port) = address.split_once(':').unwrap();
            assert_eq!(ip, "127.0.0.1");
            assert_eq!(port, "9001");
        }
        _ => panic!("Expected Tcp variant"),
    }
}

#[test]
fn test_parse_tcp_bare() {
    let addr = "192.168.1.100:9001";
    match SocketAddress::parse(addr, read_address(addr)).unwrap() {
        SocketAddress::Tcp(address) => {
            let (ip, port) = address.split_once(':').unwrap();
            assert_eq!(ip, "192.168.1.100");
            assert_eq!(port, "9001");
        }
        _ => panic!("Expected Tcp variant"),
    }
}

#[test]
fn test_parse_tcp_invalid() {
    let addr = "tcp://not-an-address";
    let result = SocketAddress::parse(addr, read_address(addr));
    assert!(result.is_err());
    let err_msg = result.unwrap_err().to_text();
    assert!(
        err_msg.contains("Invalid TCP address"),
        "Unexpected error: {}",
        err_msg
    );
    assert_eq!(
        err_msg,
        "Invalid TCP address 'not-an-address': invalid socket address syntax"
    );
}

#[test]
fn what_is_no_address_is_a_path() {
    let addr = "tcp://not-an-address";
    let fallback = SocketAddress::parse_or_path(addr, read_address(addr));
    assert_eq!(fallback.as_str(), "tcp://not-an-address");
    assert!(matches!(fallback, SocketAddress::Unix(_)));
    let client = ExecutorClient::new(true, true, addr.to_string(), "[0::1]:9".to_string(), None);
    let send = client.socket_address(read_address(addr));
    assert!(matches!(send, SocketAddress::Unix(_)));
    let request = client.request_socket_address(Ok("[::1]:9".to_string()));
    assert_eq!(request.as_str(), "tcp://[::1]:9");
}

#[test]
fn address_display_names_the_kind() {
    let tcp = SocketAddress::parse_or_path("127.0.0.1:9001", read_address("127.0.0.1:9001"));
    assert_eq!(tcp.as_str(), "tcp://127.0.0.1:9001");
    let again = SocketAddress::parse_or_path(&tcp.as_str(), read_address(&tcp.as_str()));
    assert_eq!(again.as_str(), "tcp://127.0.0.1:9001");
    let path = SocketAddress::parse_or_path("/a:b", read_address("/a:b"));
    assert_eq!(path.as_str(), "/a:b");
}

#[test]
fn the_send_circuit_of_a_client() {
    let mut client = client(true, true);
    client.record_send_failure(0);
    client.record_send_failure(1);
    assert!(client.check_send_circuit_breaker(2).is_ok());
    client.record_send_failure(2);
    let open = client.check_send_circuit_breaker(3).unwrap_err();
    assert_eq!(
        open.to_text(),
        "TCP Send Circuit Breaker is OPEN. Cooling down for 9s"
    );
    client.record_send_success();
    assert!(client.check_send_circuit_breaker(3).is_ok());
}

#[test]
fn state_file_paths() {
    assert_eq!(
        StateFile::LastSentIndex.path("/data"),
        "/data/executor_state/last_sent_index.bin"
    );
    assert_eq!(
        StateFile::LastBlockNumber.path("/data/"),
        "/data/executor_state/last_block_number.bin"
    );
    assert_eq!(
        StateFile::FragmentOffset.path("d"),
        "d/executor_state/fragment_offset.bin"
    );
}

#[test]
fn block_files() {
    assert_eq!(block_file(42), "42.bin");
    assert_eq!(parse_block_file("42.bin"), Some(42));
    assert_eq!(parse_block_file("42.tmp"), None);
    assert_eq!(parse_block_file("x.bin"), None);
    let names = vec![
        "7.bin".to_string(),
        "notes.txt".to_string(),
        "19.bin".to_string(),
        "3.bin".to_string(),
    ];
    assert_eq!(max_stored_gei(&names), Some(19));
    assert_eq!(max_stored_gei(&vec![]), None);
    assert!(blocks_dir("/data").starts_with("/data/"));
    assert!(!is_storable(&[]));
    assert!(is_storable(&[1]));
}

fn tx(data: Vec<u8>, hash: u8) -> CommittedTransaction {
    CommittedTransaction {
        data,
        hash: vec![hash; 32],
        system: None,
        valid_user_tx: true,
    }
}

fn commit(transactions: Vec<CommittedTransaction>) -> CommittedSubDag {
    CommittedSubDag {
        commit_index: 9,
        timestamp_ms: 1234,
        leader_author_index: 2,
        blocks: vec![CommittedBlock { transactions }],
    }
}

#[test]
fn transactions_are_sorted_by_hash_without_duplicates() {
    let subdag = commit(vec![
        tx(vec![3], 30),
        tx(vec![1], 10),
        tx(vec![2], 20),
        tx(vec![9], 10),
    ]);
    let sorted = build_sorted_transactions(&subdag);
    let payloads: Vec<Vec<u8>> = sorted.into_iter().map(|t| t.digest).collect();
    assert_eq!(payloads, vec![vec![1], vec![2], vec![3]]);
}

#[test]
fn order_of_arrival_does_not_matter() {
    let a = build_sorted_transactions(&commit(vec![tx(vec![1], 1), tx(vec![2], 2)]));
    let b = build_sorted_transactions(&commit(vec![tx(vec![2], 2), tx(vec![1], 1)]));
    let a: Vec<Vec<u8>> = a.into_iter().map(|t| t.digest).collect();
    let b: Vec<Vec<u8>> = b.into_iter().map(|t| t.digest).collect();
    assert_eq!(a, b);
}

#[test]
fn small_commit_is_one_block() {
    let mut client = client(true, true);
    let plan = client.send_committed_subdag(&commit(vec![tx(vec![7], 1)]), 3, 50, Some(vec![8; 20]));
    assert_eq!(plan.slots(), 1);
    match plan {
        SendPlan::Single(block) => {
            assert_eq!(block.global_exec_index, 50);
            assert_eq!(block.commit_index, 9);
            assert_eq!(block.epoch, 3);
            assert_eq!(block.commit_timestamp_ms, 1234);
            assert_eq!(block.leader_author_index, 2);
            assert_eq!(block.leader_address, vec![8; 20]);
            assert_eq!(block.transactions.len(), 1);
            assert_eq!(block.transactions[0].digest, vec![7]);
            assert_eq!(block.transactions[0].worker_id, 0);
        }
        other => panic!("expected a single block, got {:?}", other),
    }
}

#[test]
fn large_commit_is_cut_into_fragments() {
    let total = MAX_TXS_PER_GO_BLOCK + 1;
    let transactions: Vec<CommittedTransaction> = (0..total)
        .map(|i| CommittedTransaction {
            data: vec![1],
            hash: (i as u64).to_be_bytes().to_vec(),
            system: None,
            valid_user_tx: true,
        })
        .collect();
    let mut client = client(true, true);
    let large = commit(transactions);
    assert_eq!(commit_slots(&large), 2);
    assert_eq!(commit_slots(&commit(vec![])), 1);
    let plan = client.send_committed_subdag(&large, 1, 10, None);
    assert_eq!(plan.slots(), 2);
    match plan {
        SendPlan::Fragmented(mut fragments) => {
            let first = client.next_fragment(&mut fragments).unwrap();
            assert_eq!(first.global_exec_index, 10);
            assert_eq!(first.transactions.len(), MAX_TXS_PER_GO_BLOCK);
            let second = client.next_fragment(&mut fragments).unwrap();
            assert_eq!(second.global_exec_index, 11);
            assert_eq!(second.transactions.len(), 1);
            assert_eq!(second.commit_index, first.commit_index);
            assert!(client.next_fragment(&mut fragments).is_none());
        }
        other => panic!("expected fragments, got {:?}", other),
    }
}

fn block(n: u8) -> BufferedBlock {
    BufferedBlock {
        data: vec![n],
        epoch: 1,
        commit_index: n as u32,
    }
}

#[test]
fn queue_sends_consecutive_blocks_only() {
    let mut queue = SendQueue::new(1);
    assert!(matches!(queue.enqueue(1, block(1)), Ok(EnqueueOutcome::Added)));
    assert!(matches!(queue.enqueue(2, block(2)), Ok(EnqueueOutcome::Added)));
    assert!(matches!(queue.enqueue(4, block(4)), Ok(EnqueueOutcome::Added)));
    let batch = queue.take_batch();
    let indices: Vec<u64> = batch.iter().map(|b| b.gei).collect();
    assert_eq!(indices, vec![1, 2]);
    let sent = batch.len();
    let report = queue.finish_batch(batch, sent).unwrap();
    assert_eq!(report.last_index, 2);
    assert_eq!(report.last_commit_index, 2);
    assert_eq!(queue.next_expected, 3);
    assert!(!queue.has_next());
    queue.enqueue(3, block(3)).unwrap();
    assert!(queue.has_next());
    let batch = queue.take_batch();
    let indices: Vec<u64> = batch.iter().map(|b| b.gei).collect();
    assert_eq!(indices, vec![3, 4]);
}

#[test]
fn partial_send_keeps_the_rest() {
    let mut queue = SendQueue::new(1);
    for n in 1..=3u8 {
        queue.enqueue(n as u64, block(n)).unwrap();
    }
    let batch = queue.take_batch();
    let report = queue.finish_batch(batch, 1).unwrap();
    assert_eq!(report.sent.len(), 1);
    assert_eq!(queue.next_expected, 2);
    let batch = queue.take_batch();
    let indices: Vec<u64> = batch.iter().map(|b| b.gei).collect();
    assert_eq!(indices, vec![2, 3]);
}

#[test]
fn failed_send_changes_nothing() {
    let mut queue = SendQueue::new(5);
    queue.enqueue(5, block(5)).unwrap();
    let batch = queue.take_batch();
    assert!(queue.finish_batch(batch, 0).is_none());
    assert_eq!(queue.next_expected, 5);
    assert!(queue.has_next());
}

#[test]
fn full_queue_refuses_blocks() {
    let mut queue = SendQueue::new(1);
    for gei in 0..MAX_BUFFER_SIZE as u64 {
        queue.enqueue(gei + 2, block(0)).unwrap();
    }
    let full = queue.enqueue(MAX_BUFFER_SIZE as u64 + 2, block(0));
    assert_eq!(full.unwrap_err().len, MAX_BUFFER_SIZE);
}

#[test]
fn position_of_the_engine_at_start() {
    let position = ExecutorPosition {
        last_block_number: 3,
        last_global_exec_index: 8,
    };
    assert!(matches!(
        next_init_step(PositionReply::Loading, None, None),
        InitStep::AskAgain
    ));
    assert!(matches!(
        next_init_step(PositionReply::Unavailable, Some(3), None),
        InitStep::KeepCurrent
    ));
    match next_init_step(PositionReply::Unavailable, Some(3), Some(8)) {
        InitStep::StartFrom(p) => assert_eq!(p, position),
        other => panic!("got {:?}", other),
    }
    match next_init_step(PositionReply::Ready(position), None, None) {
        InitStep::StartFrom(p) => assert_eq!(p.last_global_exec_index, 8),
        other => panic!("got {:?}", other),
    }
    let mut client = client(true, true);
    client.initialize_position(position);
    assert_eq!(client.queue.next_expected, 9);
}

#[test]
fn answers_are_told_apart() {
    let epoch = interpret_current_epoch(Some(ResponsePayload::CurrentEpoch { epoch: 4 }), &[]);
    assert_eq!(epoch.unwrap(), 4);

    let error = interpret_current_epoch(Some(ResponsePayload::Error("busy".to_string())), &[])
        .unwrap_err();
    assert_eq!(error.to_text(Question::CurrentEpoch), "Go returned error: busy");
    assert_eq!(
        error.to_text(Question::AdvanceEpoch),
        "Go returned error during epoch advance: busy"
    );
    assert_eq!(error.to_text(Question::SyncBlocks), "Go Master error: busy");

    let error = interpret_current_epoch(Some(ResponsePayload::AdvanceEpoch), &[]).unwrap_err();
    assert!(matches!(
        error,
        QueryError::Unexpected {
            got: PayloadKind::AdvanceEpoch
        }
    ));
    assert_eq!(
        error.to_text(Question::CurrentEpoch),
        "Unexpected response payload type"
    );
    assert_eq!(
        error.to_text(Question::Validators),
        "Unexpected AdvanceEpochResponse response (expected ValidatorInfoList)"
    );
    assert_eq!(
        error.to_text(Question::LastIndex),
        "Unexpected response type from Go (expected LastBlockNumberResponse)"
    );

    let error =
        interpret_current_epoch(Some(ResponsePayload::NotifyEpochChange), &[]).unwrap_err();
    assert_eq!(
        error.to_text(Question::CurrentEpoch),
        "Unexpected NotifyEpochChangeResponse"
    );
    assert_eq!(
        error.to_text(Question::BlocksRange),
        "Unexpected response type from Go Master"
    );

    let error = interpret_validators(None, &[0xDE, 0xAD]).unwrap_err();
    match &error {
        QueryError::NoPayload { hex } => assert_eq!(hex, "dead"),
        other => panic!("got {:?}", other),
    }
    assert!(error.to_text(Question::Validators).ends_with("dead"));
    assert_eq!(
        error.to_text(Question::EpochStart),
        "Response payload is missing"
    );

    let position = interpret_last_block(
        Some(ResponsePayload::LastBlockNumber {
            last_block_number: 7,
            last_global_exec_index: 9,
            is_ready: true,
        }),
        &[],
    )
    .unwrap();
    assert_eq!(position.last_block_number, 7);
    assert_eq!(position.last_global_exec_index, 9);
}

#[test]
fn boundary_without_duration_gets_the_usual_one() {
    let boundary = |secs: u64| BoundaryData {
        epoch: 2,
        timestamp_ms: 5,
        boundary_block: 6,
        validators: vec![],
        epoch_duration_secs: secs,
        boundary_gei: 7,
    };
    let r = interpret_epoch_boundary(Some(ResponsePayload::EpochBoundary(boundary(0))), &[]);
    assert_eq!(r.unwrap().epoch_duration_secs, DEFAULT_EPOCH_DURATION);
    let r = interpret_epoch_boundary(Some(ResponsePayload::EpochBoundary(boundary(60))), &[]);
    assert_eq!(r.unwrap().epoch_duration_secs, 60);
}

#[test]
fn response_lengths() {
    assert!(matches!(
        check_response_len(0),
        Err(QueryError::EmptyResponse)
    ));
    assert_eq!(check_response_len(10_000_000).unwrap(), 10_000_000);
    let error = check_response_len(10_000_001).unwrap_err();
    assert_eq!(
        error.to_text(Question::Validators),
        "Response too large: 10000001 bytes"
    );
    assert_eq!(
        error.to_text(Question::SyncStart),
        "Invalid response length: 10000001"
    );
}

#[test]
fn disabled_client_and_open_circuit_ask_nothing() {
    let mut off = client(false, false);
    let question = Question::CurrentEpoch;
    let error = off.begin_query(question, 0).unwrap_err();
    assert_eq!(error.to_text(question), "Executor client is not enabled");

    let mut on = client(true, true);
    assert!(on.begin_query(question, 0).is_ok());
    for _ in 0..5 {
        on.circuit_breaker().record_failure_at("get_current_epoch", 0);
    }
    let error = on.begin_query(question, 1).unwrap_err();
    assert_eq!(
        error.to_text(question),
        "Circuit breaker: open for get_current_epoch"
    );
    assert!(on.begin_query(Question::LastBlock, 1).is_ok());
    assert!(on.begin_query(Question::AdvanceEpoch, 1).is_ok());
}

#[test]
fn missing_boundary_index_is_asked_of_peers() {
    let (_, action) = SafeBoundary::start(3, 77, false, 2);
    assert_eq!(
        action,
        SafeBoundaryAction::Use {
            boundary_gei: 77,
            update_engine: false
        }
    );
    let (mut search, action) = SafeBoundary::start(3, 0, false, 2);
    assert_eq!(action, SafeBoundaryAction::AskPeer { peer: 0 });
    assert_eq!(
        search.on_peer(None),
        SafeBoundaryAction::AskPeer { peer: 1 }
    );
    assert_eq!(
        search.on_peer(Some(55)),
        SafeBoundaryAction::Use {
            boundary_gei: 55,
            update_engine: true
        }
    );
}

#[test]
fn blocks_are_handed_over_in_pieces() {
    assert_eq!(sync_chunks(120, false), vec![(0, 50), (50, 100), (100, 120)]);
    assert_eq!(sync_chunks(41, true), vec![(0, 20), (20, 40), (40, 41)]);
    assert_eq!(sync_chunks(0, true), vec![]);
    let mut progress = SyncProgress::new();
    progress
        .record(
            Some(ResponsePayload::SyncBlocks {
                error: String::new(),
                synced_count: 50,
                last_synced_block: 99,
                last_executed_gei: 120,
            }),
            &[],
        )
        .unwrap();
    assert_eq!(progress.synced_count, 50);
    assert_eq!(progress.last_synced_block, 99);
    assert_eq!(progress.last_executed_gei, 120);
    progress
        .record(
            Some(ResponsePayload::SyncBlocks {
                error: String::new(),
                synced_count: 20,
                last_synced_block: 119,
                last_executed_gei: 141,
            }),
            &[],
        )
        .unwrap();
    assert_eq!(progress.synced_count, 70);
    assert_eq!(progress.last_synced_block, 119);
    assert_eq!(progress.last_executed_gei, 141);
    let error = progress.record(
        Some(ResponsePayload::SyncBlocks {
            error: "disk".to_string(),
            synced_count: 50,
            last_synced_block: 149,
            last_executed_gei: 180,
        }),
        &[],
    );
    assert!(matches!(error, Err(QueryError::Reported { .. })));
    assert_eq!(progress.synced_count, 70);
    assert_eq!(progress.last_executed_gei, 141);
}

#[test]
fn epoch_advance_is_tried_three_times() {
    let mut advance = AdvanceEpoch::new();
    assert_eq!(advance.on_failure(), AdvanceStep::TryAgain { wait_ms: 1000 });
    assert_eq!(advance.on_failure(), AdvanceStep::TryAgain { wait_ms: 1000 });
    assert_eq!(advance.on_failure(), AdvanceStep::GiveUp);
    assert_eq!(wait_for_sync_timeout(30), 40);
}
