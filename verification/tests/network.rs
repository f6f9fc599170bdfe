//! Frames, batches of transactions, and questions between nodes.

use metanode::network::codec::{frame_header, frame_len, FrameError, MAX_FRAME_SIZE};
use metanode::network::peer_rpc::client::{
    best_peer, blocks_request, decode_blocks, encode_transactions, epoch_boundary_request,
    get_request, message_body, message_body_of_bytes, reports_success, sort_blocks, submit_request,
    BlockFetch, FetchAction, ForwardAction, Forwarding, PeerStatus,
};
use metanode::network::peer_rpc::server::{
    answer, content_length, engine_failure, find_headers_end, health, limit_block_range, not_found,
    parse_block_range, parse_epoch_param, route, route_bytes, simplify_validators, RequestReader,
    Route, Status,
};
use metanode::network::peer_rpc::types::SubmitTransactionResponse;
use metanode::network::tx_socket_server::{
    bundle_ranges, extract_transactions, node_check_of, stops_submission, BatchAction,
    BatchSubmission, BundleAction, BundleRun, NodeCheck,
};
use metanode::node::consensus_node::ValidatorInfo;
use metanode::node::executor_client::rpc_queries::{BlockData, ResponsePayload};
use metanode::node::peer_go_client::{
    check_peer_response_len, interpret_peer_boundary, interpret_peer_epoch,
    interpret_peer_last_block, pick_best_peer, PeerError, PeerGoClient, RangeAction, RangeFetch,
};

#[test]
fn frames() {
    assert_eq!(frame_header(258), [0, 0, 1, 2]);
    assert_eq!(frame_len([0, 0, 1, 2]), Ok(258));
    assert_eq!(frame_len([0, 0, 0, 0]), Err(FrameError::Empty));
    assert_eq!(frame_len(frame_header(MAX_FRAME_SIZE)), Ok(MAX_FRAME_SIZE));
    assert_eq!(
        frame_len(frame_header(MAX_FRAME_SIZE + 1)),
        Err(FrameError::TooLarge {
            len: MAX_FRAME_SIZE + 1
        })
    );
}

#[test]
fn batches_are_taken_apart() {
    let batch = [0x0A, 2, 7, 8, 0x10, 0xAC, 0x02, 0x0A, 1, 9];
    assert_eq!(
        extract_transactions(&batch).unwrap(),
        vec![vec![7, 8], vec![9]]
    );
    assert!(extract_transactions(&[]).is_err());
    assert!(extract_transactions(&[0x0A, 5, 1]).is_err());
    assert!(extract_transactions(&[0x0B]).is_err());
    assert!(extract_transactions(&[0xFF; 11]).is_err());
}

#[test]
fn bundles() {
    assert_eq!(bundle_ranges(60001), vec![(0, 60000), (60000, 60001)]);
}

#[test]
fn batch_waits_for_the_node() {
    let mut batch = BatchSubmission::new();
    assert_eq!(batch.begin(true), BatchAction::Wait { ms: 1000 });
    assert_eq!(batch.begin(false), BatchAction::AskNode);
    assert_eq!(
        batch.on_node_check(NodeCheck::StartingUp),
        BatchAction::Wait { ms: 1000 }
    );
    assert_eq!(batch.attempts, 2);
    assert_eq!(batch.on_node_check(NodeCheck::Queue), BatchAction::Queue);
    assert_eq!(batch.on_node_check(NodeCheck::Refuse), BatchAction::Refuse);
    assert_eq!(batch.on_node_check(NodeCheck::Accept), BatchAction::Submit);
    assert_eq!(
        batch.on_node_check(NodeCheck::NotAsked),
        BatchAction::Submit
    );
    assert_eq!(batch.on_submitted(true), BatchAction::Finish);
    assert_eq!(batch.on_submitted(false), BatchAction::Wait { ms: 1000 });
    batch.attempts = 119;
    assert_eq!(batch.on_submitted(false), BatchAction::Drop);
}

#[test]
fn bundles_are_submitted_one_after_the_other() {
    let (mut run, action) = BundleRun::start(3);
    assert_eq!(action, BundleAction::Submit { bundle: 0 });
    assert_eq!(run.on_bundle(None), BundleAction::Submit { bundle: 1 });
    assert_eq!(
        run.on_bundle(Some("full")),
        BundleAction::Submit { bundle: 2 }
    );
    assert_eq!(
        run.on_bundle(None),
        BundleAction::Finish {
            all_succeeded: false
        }
    );
    let (mut run, _) = BundleRun::start(3);
    assert_eq!(
        run.on_bundle(Some("channel closed")),
        BundleAction::Finish {
            all_succeeded: false
        }
    );
    let (mut run, _) = BundleRun::start(1);
    assert_eq!(
        run.on_bundle(None),
        BundleAction::Finish {
            all_succeeded: true
        }
    );
}

#[test]
fn answers_of_the_node() {
    assert_eq!(node_check_of(true, false, "Node is ready"), NodeCheck::Accept);
    assert_eq!(node_check_of(false, true, "x"), NodeCheck::Queue);
    assert_eq!(
        node_check_of(false, false, "Node is still initializing"),
        NodeCheck::StartingUp
    );
    assert_eq!(node_check_of(false, false, "x"), NodeCheck::Refuse);
}

#[test]
fn errors_that_stop_a_submission() {
    assert!(stops_submission("node is SyncOnly now"));
    assert!(stops_submission("consensus is shutting down"));
    assert!(stops_submission("channel closed"));
    assert!(!stops_submission("full"));
}

#[test]
fn requests() {
    assert_eq!(
        get_request("/peer_info", "h:1"),
        "GET /peer_info HTTP/1.1\r\nHost: h:1\r\nConnection: close\r\n\r\n"
    );
    assert_eq!(
        epoch_boundary_request(7, "h"),
        "GET /get_epoch_boundary_data?epoch=7 HTTP/1.1\r\nHost: h\r\nConnection: close\r\n\r\n"
    );
    assert_eq!(
        blocks_request(3, 12, "h"),
        "GET /get_blocks?from=3&to=12 HTTP/1.1\r\nHost: h\r\nConnection: close\r\n\r\n"
    );
    assert_eq!(
        submit_request("h", "{\"ä\":1}"),
        "POST /submit_transaction HTTP/1.1\r\nHost: h\r\nContent-Type: application/json\r\nContent-Length: 8\r\n\r\n{\"ä\":1}"
    );
}

#[test]
fn bodies() {
    assert_eq!(message_body("a\r\n\r\nb\n\nc"), "b\n\nc");
    assert_eq!(message_body("a\n\nb"), "b");
    assert_eq!(message_body("ab"), "ab");
    assert_eq!(message_body_of_bytes(b"a\r\n\r\n\xC3\xA4"), "ä");
    assert_eq!(message_body_of_bytes(b"a\r\n\r\nx\xFFy"), "x\u{FFFD}y");
    assert!(reports_success("HTTP/1.1 200 OK\r\n"));
    assert!(!reports_success("HTTP/1.1 404 Not Found\r\n"));
}

#[test]
fn transactions_travel_as_hex() {
    assert_eq!(
        encode_transactions(&vec![vec![0, 0xAB], vec![]]),
        vec!["00ab".to_string(), String::new()]
    );
    assert_eq!(
        decode_blocks(&vec![(1, "00AB".to_string()), (2, String::new())]).unwrap(),
        vec![vec![0, 0xAB], vec![]]
    );
    assert_eq!(
        decode_blocks(&vec![(1, "00".to_string()), (2, "0".to_string())]).unwrap_err(),
        2
    );
    assert_eq!(
        decode_blocks(&vec![(5, "zz".to_string())]).unwrap_err(),
        5
    );
}

fn status(epoch: u64, gei: u64) -> Option<PeerStatus> {
    Some(PeerStatus {
        epoch,
        last_block: 0,
        last_global_exec_index: gei,
    })
}

#[test]
fn best_peer_has_the_latest_epoch_and_index() {
    assert_eq!(best_peer(&vec![]), None);
    assert_eq!(best_peer(&vec![None, None]), None);
    assert_eq!(
        best_peer(&vec![
            status(1, 900),
            None,
            status(2, 10),
            status(2, 11),
            status(2, 11)
        ]),
        Some(3)
    );
}

fn block(block_number: u64) -> BlockData {
    BlockData {
        block_number,
        data: vec![],
    }
}

fn numbers(blocks: &[BlockData]) -> Vec<u64> {
    blocks.iter().map(|b| b.block_number).collect()
}

#[test]
fn blocks_are_sorted_by_number() {
    let mut early = block(2);
    early.data = vec![1];
    let mut late = block(2);
    late.data = vec![2];
    let sorted = sort_blocks(vec![block(3), early, block(1), late]);
    assert_eq!(numbers(&sorted), vec![1, 2, 2, 3]);
    assert_eq!(sorted[1].data, vec![1]);
    assert_eq!(sorted[2].data, vec![2]);
}

#[test]
fn blocks_are_fetched_in_batches_from_the_first_peer_that_has_them() {
    assert!(BlockFetch::start(0, 1, 2).is_none());
    let (mut fetch, action) = BlockFetch::start(2, 10, 17).unwrap();
    assert_eq!(
        action,
        FetchAction::AskPeer {
            peer: 0,
            from: 10,
            to: 14
        }
    );
    let action = fetch.on_answer(Some(vec![]));
    assert_eq!(
        action,
        FetchAction::AskPeer {
            peer: 1,
            from: 10,
            to: 14
        }
    );
    let action = fetch.on_answer(Some(vec![block(10)]));
    assert_eq!(
        action,
        FetchAction::AskPeer {
            peer: 0,
            from: 15,
            to: 17
        }
    );
    assert!(matches!(
        fetch.on_answer(None),
        FetchAction::AskPeer { peer: 1, .. }
    ));
    assert_eq!(fetch.on_answer(None), FetchAction::Finish);
    assert_eq!(numbers(&fetch.blocks), vec![10]);
    let (_, action) = BlockFetch::start(1, 5, 4).unwrap();
    assert_eq!(action, FetchAction::Finish);
}

fn reply(success: bool) -> Option<SubmitTransactionResponse> {
    Some(SubmitTransactionResponse {
        success,
        count: 1,
        error: None,
    })
}

#[test]
fn transactions_are_forwarded_until_a_peer_takes_them() {
    assert!(matches!(Forwarding::start(0).1, ForwardAction::Fail));
    let (mut forwarding, action) = Forwarding::start(3);
    assert!(matches!(action, ForwardAction::AskPeer { peer: 0 }));
    assert!(matches!(
        forwarding.on_answer(None),
        ForwardAction::AskPeer { peer: 1 }
    ));
    assert!(matches!(
        forwarding.on_answer(reply(false)),
        ForwardAction::AskPeer { peer: 2 }
    ));
    assert!(matches!(
        forwarding.on_answer(reply(true)),
        ForwardAction::Accepted(_)
    ));
    let (mut forwarding, _) = Forwarding::start(1);
    assert!(matches!(
        forwarding.on_answer(reply(false)),
        ForwardAction::Fail
    ));
}

#[test]
fn requests_are_read_to_their_announced_length() {
    assert_eq!(find_headers_end(b"ab\r\n\r\n\r\n"), Some(2));
    assert_eq!(find_headers_end(b"ab\r\n"), None);
    assert_eq!(content_length("POST / HTTP/1.1\r\nCONTENT-length:  12 \r"), 12);
    assert_eq!(content_length("Content-Length: x\r\nContent-Length: 3"), 3);
    assert_eq!(content_length("Host: h"), 0);
    let mut reader = RequestReader::new();
    assert!(!reader.on_data(b"POST /x HTTP/1.1\r\nContent-Length: 3\r\n"));
    assert!(!reader.on_data(b"\r\nab"));
    assert!(reader.on_data(b"c"));
    assert_eq!(reader.bytes.len(), 42);
    let mut reader = RequestReader::new();
    assert!(reader.on_data(b"GET /health HTTP/1.1\r\n\r\n"));
}

#[test]
fn query_parameters() {
    assert_eq!(
        parse_epoch_param("GET /get_epoch_boundary_data?epoch=5 HTTP/1.1"),
        Some(5)
    );
    assert_eq!(parse_epoch_param("GET /x?a=1&epoch=7&epoch=8 H"), Some(7));
    assert_eq!(parse_epoch_param("GET /x?epoch=a&epoch=8 H"), None);
    assert_eq!(parse_epoch_param("GET /x HTTP/1.1"), None);
    assert_eq!(
        parse_block_range("GET /get_blocks?from=3&to=12 HTTP/1.1"),
        (Some(3), Some(12))
    );
    assert_eq!(
        parse_block_range("GET /get_blocks?from=3&from=4 H"),
        (Some(4), None)
    );
    assert_eq!(limit_block_range(10, 100), 14);
    assert_eq!(limit_block_range(10, 12), 12);
}

#[test]
fn routes() {
    assert!(matches!(route("GET /peer_info HTTP/1.1"), Route::PeerInfo));
    assert!(matches!(
        route("GET /get_epoch_boundary_data?epoch=9 H"),
        Route::EpochBoundary { epoch: Some(9) }
    ));
    assert!(matches!(
        route("GET /get_blocks?from=1&to=2 H"),
        Route::Blocks {
            from: Some(1),
            to: Some(2)
        }
    ));
    assert!(matches!(route("GET /health H"), Route::Health));
    match route("POST /submit_transaction H\r\n\r\n{}") {
        Route::SubmitTransaction { body } => assert_eq!(body, "{}"),
        other => panic!("got {:?}", other),
    }
    assert!(matches!(route("PUT /health H"), Route::NotFound));
    assert!(matches!(route_bytes(b"GET /health \xFF"), Route::Health));
}

#[test]
fn answers() {
    assert_eq!(
        not_found(),
        "HTTP/1.1 404 Not Found\r\nContent-Type: application/json\r\n\r\n{\"error\":\"Not Found\"}"
    );
    assert_eq!(
        health(),
        "HTTP/1.1 200 OK\r\nContent-Type: application/json\r\n\r\n{\"status\":\"ok\"}"
    );
    assert_eq!(
        answer(Status::Success, "{}"),
        "HTTP/1.1 200 OK\r\nContent-Type: application/json\r\nAccess-Control-Allow-Origin: *\r\n\r\n{}"
    );
    assert!(answer(Status::BadRequest, "{}").starts_with("HTTP/1.1 400 Bad Request"));
    let failure = engine_failure("epoch", "say \"x\"");
    assert!(failure.starts_with("HTTP/1.1 500 Internal Server Error"));
    assert!(failure.ends_with("{\"error\":\"Failed to get epoch: say \\\"x\\\"\"}"));
}

#[test]
fn stakes_that_are_no_numbers_count_as_nothing() {
    let validator = |stake: &str| ValidatorInfo {
        address: "a".to_string(),
        stake: stake.to_string(),
        name: "n".to_string(),
        authority_key: "k".to_string(),
        protocol_key: "p".to_string(),
        network_key: "w".to_string(),
    };
    let simple = simplify_validators(&vec![validator("12"), validator("x")]);
    assert_eq!(simple[0].stake, 12);
    assert_eq!(simple[1].stake, 0);
    assert_eq!(simple[0].authority_key, "k");
}

#[test]
fn engines_of_peers_are_asked_in_pieces() {
    let client = PeerGoClient::new("h:1".to_string());
    assert_eq!(client.timeout_secs, 10);
    assert_eq!(client.with_timeout(3).timeout_secs, 3);

    let (mut fetch, action) = RangeFetch::start(1, 7);
    assert_eq!(action, RangeAction::Ask { from: 1, to: 5 });
    let answer = |error: &str, n: u64| {
        Some(ResponsePayload::BlocksRange {
            error: error.to_string(),
            blocks: vec![block(n)],
        })
    };
    assert_eq!(
        fetch.on_response(answer("", 1)).unwrap(),
        RangeAction::Ask { from: 6, to: 7 }
    );
    assert_eq!(
        fetch.on_response(answer("", 6)).unwrap(),
        RangeAction::Finish
    );
    assert_eq!(numbers(&fetch.blocks), vec![1, 6]);

    let (mut fetch, _) = RangeFetch::start(1, 7);
    assert!(matches!(
        fetch.on_response(answer("gone", 1)),
        Err(PeerError::Reported { .. })
    ));
    assert!(matches!(
        fetch.on_response(Some(ResponsePayload::Error("e".to_string()))),
        Err(PeerError::Engine { .. })
    ));
    assert!(matches!(
        fetch.on_response(None),
        Err(PeerError::Unexpected)
    ));
    assert!(fetch.blocks.is_empty());
    assert!(matches!(
        check_peer_response_len(0),
        Err(PeerError::InvalidLength { len: 0 })
    ));
    assert!(check_peer_response_len(100_000_000).is_ok());
    assert!(check_peer_response_len(100_000_001).is_err());
}

#[test]
fn answers_of_peer_engines() {
    assert_eq!(
        interpret_peer_epoch(Some(ResponsePayload::CurrentEpoch { epoch: 3 })).unwrap(),
        3
    );
    assert_eq!(
        interpret_peer_last_block(Some(ResponsePayload::LastBlockNumber {
            last_block_number: 8,
            last_global_exec_index: 9,
            is_ready: true
        }))
        .unwrap(),
        8
    );
    assert!(interpret_peer_boundary(None).is_err());
}

#[test]
fn highest_peer_is_picked() {
    assert_eq!(pick_best_peer(&vec![]), None);
    assert_eq!(pick_best_peer(&vec![Some(0), None]), None);
    assert_eq!(
        pick_best_peer(&vec![Some(3), None, Some(9), Some(9)]),
        Some((2, 9))
    );
}

#[test]
fn requests_are_understood() {
    assert!(matches!(
        route(&epoch_boundary_request(7, "host:1")),
        Route::EpochBoundary { epoch: Some(7) }
    ));
    assert!(matches!(
        route(&blocks_request(3, 12, "a?b&from=9")),
        Route::Blocks {
            from: Some(3),
            to: Some(12)
        }
    ));
    let request = submit_request("host:1", "{\"a\":\"ä\r\n\r\n\"}");
    match route(&request) {
        Route::SubmitTransaction { body } => assert_eq!(body, "{\"a\":\"ä\r\n\r\n\"}"),
        other => panic!("got {:?}", other),
    }
    let mut reader = RequestReader::new();
    let bytes = request.as_bytes();
    assert!(!reader.on_data(&bytes[..bytes.len() - 1]));
    assert!(reader.on_data(&bytes[bytes.len() - 1..]));
}

#[test]
fn answers_carry_their_body() {
    for status in [
        Status::Success,
        Status::SuccessPlain,
        Status::BadRequest,
        Status::InternalError,
        Status::NotFound,
    ] {
        assert_eq!(message_body(&answer(status, "{\"x\":1}\n\n")), "{\"x\":1}\n\n");
    }
}
