use xraft_server::config::MAX_SNAPSHOT_INSTALL_BYTES;
use xraft_server::message::{
    FetchRequest, FetchResponse, FetchSnapshotChunk, FetchSnapshotRequest, OutboundMessage,
    PreVoteRequest, PreVoteResponse, VoteRequest, VoteResponse,
};
use xraft_server::router::{
    dispatch, fetch_result, fetch_snapshot_failed, fetch_snapshot_timed_out, pre_vote_result,
    vote_result, OutboundCall, OutboundResult, SnapshotAssembly, TransferState,
};
use xraft_server::types::{LogIndex, NodeId, SnapshotMeta, Term};

fn meta(id: &str, index: u64, term: u64, size: Option<u64>, checksum: Option<u64>) -> SnapshotMeta {
    SnapshotMeta {
        id: id.to_string(),
        last_included_index: LogIndex(index),
        last_included_term: Term(term),
        voter_set: None,
        size_bytes: size,
        checksum,
    }
}

fn chunk(
    epoch: u64,
    index: u64,
    data: Vec<u8>,
    done: bool,
    metadata: Option<SnapshotMeta>,
) -> FetchSnapshotChunk {
    FetchSnapshotChunk {
        cluster_id: "test-router".to_string(),
        leader_epoch: epoch,
        chunk_index: index,
        data,
        done,
        metadata,
    }
}

fn drain(limit: usize, chunks: Vec<FetchSnapshotChunk>) -> OutboundResult {
    let mut assembly = SnapshotAssembly::new(limit);
    for c in chunks {
        if assembly.state != TransferState::Open {
            break;
        }
        assembly.accept(c);
    }
    assembly.conclude(NodeId(2))
}

fn error_of(result: OutboundResult) -> (NodeId, &'static str, String) {
    match result {
        OutboundResult::Error { peer, kind, err } => (peer, kind, err),
        other => panic!("expected an error, got {other:?}"),
    }
}

fn vote_request() -> VoteRequest {
    VoteRequest {
        cluster_id: "test-router".to_string(),
        leader_epoch: 1,
        term: Term(1),
        candidate_id: NodeId(1),
        last_log_index: LogIndex(0),
        last_log_term: Term(0),
    }
}

fn fetch_request() -> FetchRequest {
    FetchRequest {
        cluster_id: "test-router".to_string(),
        leader_epoch: 1,
        replica_id: NodeId(1),
        fetch_offset: LogIndex(0),
        last_fetched_epoch: Term(0),
    }
}

fn snapshot_request() -> FetchSnapshotRequest {
    FetchSnapshotRequest {
        cluster_id: "test-router".to_string(),
        leader_epoch: 7,
        replica_id: NodeId(1),
        snapshot_id: "snap-multi".to_string(),
        offset: 0,
        max_bytes: 0,
    }
}

fn fetch_response(leader: u64) -> FetchResponse {
    FetchResponse {
        cluster_id: "test-router".to_string(),
        leader_epoch: 1,
        leader_id: NodeId(leader),
        high_watermark: LogIndex(0),
        entries: vec![],
        diverging_epoch: None,
        snapshot_redirect: None,
        is_leader: true,
    }
}

#[test]
fn message_router_dispatches_vote_to_transport() {
    assert_eq!(
        dispatch(OutboundMessage::VoteRequest(vote_request())),
        OutboundCall::Vote(vote_request())
    );
    let (peer, kind, err) = error_of(vote_result(NodeId(2), Err("mock: no network".to_string())));
    assert_eq!(peer, NodeId(2));
    assert_eq!(kind, "vote");
    assert_eq!(err, "mock: no network");
    let pre_vote = PreVoteRequest {
        cluster_id: "test-router".to_string(),
        leader_epoch: 1,
        next_term: Term(1),
        candidate_id: NodeId(1),
        last_log_index: LogIndex(0),
        last_log_term: Term(0),
    };
    assert_eq!(
        dispatch(OutboundMessage::PreVoteRequest(pre_vote.clone())),
        OutboundCall::PreVote(pre_vote)
    );
    let (peer, kind, _) =
        error_of(pre_vote_result(NodeId(3), Err("mock: no network".to_string())));
    assert_eq!(peer, NodeId(3));
    assert_eq!(kind, "pre_vote");
}

#[test]
fn message_router_dispatches_fetch_to_transport() {
    assert_eq!(
        dispatch(OutboundMessage::FetchRequest(fetch_request())),
        OutboundCall::Fetch(fetch_request())
    );
    let (peer, kind, _) = error_of(fetch_result(NodeId(2), Err("mock: no network".to_string())));
    assert_eq!(peer, NodeId(2));
    assert_eq!(kind, "fetch");
}

#[test]
fn every_request_becomes_its_own_call() {
    let pre_vote = PreVoteRequest {
        cluster_id: "test-router".to_string(),
        leader_epoch: 1,
        next_term: Term(2),
        candidate_id: NodeId(1),
        last_log_index: LogIndex(0),
        last_log_term: Term(0),
    };
    assert_eq!(
        dispatch(OutboundMessage::PreVoteRequest(pre_vote.clone())),
        OutboundCall::PreVote(pre_vote)
    );
    assert_eq!(
        dispatch(OutboundMessage::FetchSnapshotRequest(snapshot_request())),
        OutboundCall::FetchSnapshot(snapshot_request())
    );
}

#[test]
fn responses_are_not_dispatched_on_their_own() {
    let vote = VoteResponse {
        cluster_id: "test-router".to_string(),
        leader_epoch: 1,
        term: Term(1),
        vote_granted: true,
        leader_hint: None,
    };
    let pre_vote = PreVoteResponse {
        cluster_id: "test-router".to_string(),
        leader_epoch: 1,
        term: Term(1),
        vote_granted: true,
        leader_hint: None,
    };
    assert_eq!(dispatch(OutboundMessage::VoteResponse(vote)), OutboundCall::Dropped);
    assert_eq!(dispatch(OutboundMessage::PreVoteResponse(pre_vote)), OutboundCall::Dropped);
    assert_eq!(
        dispatch(OutboundMessage::FetchResponse(fetch_response(3))),
        OutboundCall::Dropped
    );
}

#[test]
fn answered_calls_name_the_responder() {
    let vote = VoteResponse {
        cluster_id: "test-router".to_string(),
        leader_epoch: 4,
        term: Term(4),
        vote_granted: true,
        leader_hint: Some(NodeId(3)),
    };
    assert_eq!(
        vote_result(NodeId(2), Ok(vote.clone())),
        OutboundResult::Vote { peer: NodeId(2), response: vote }
    );
    let pre_vote = PreVoteResponse {
        cluster_id: "test-router".to_string(),
        leader_epoch: 4,
        term: Term(4),
        vote_granted: false,
        leader_hint: None,
    };
    assert_eq!(
        pre_vote_result(NodeId(2), Ok(pre_vote.clone())),
        OutboundResult::PreVote { peer: NodeId(2), response: pre_vote }
    );
    let (_, kind, _) = error_of(pre_vote_result(NodeId(2), Err("gone".to_string())));
    assert_eq!(kind, "pre_vote");
    assert_eq!(
        fetch_result(NodeId(2), Ok((NodeId(3), fetch_response(3)))),
        OutboundResult::Fetch { peer: NodeId(3), response: fetch_response(3) }
    );
}

#[test]
fn message_router_dispatches_complete_fetch_snapshot_stream() {
    let result = drain(
        MAX_SNAPSHOT_INSTALL_BYTES,
        vec![chunk(1, 0, vec![1, 2, 3, 4], true, Some(meta("snap-1", 10, 1, Some(4), None)))],
    );
    match result {
        OutboundResult::FetchSnapshot {
            peer,
            cluster_id,
            leader_epoch,
            chunk_count,
            completed,
            metadata,
            data,
        } => {
            assert_eq!(peer, NodeId(2));
            assert_eq!(cluster_id, "test-router");
            assert_eq!(leader_epoch, 1);
            assert_eq!(chunk_count, 1);
            assert!(completed);
            let m = metadata.expect("the first piece describes the snapshot");
            assert_eq!(m.last_included_index, LogIndex(10));
            assert_eq!(m.last_included_term, Term(1));
            assert_eq!(data, vec![1, 2, 3, 4]);
        }
        other => panic!("expected a transferred snapshot, got {other:?}"),
    }
}

#[test]
fn message_router_dispatches_incomplete_fetch_snapshot_stream() {
    let result = drain(
        MAX_SNAPSHOT_INSTALL_BYTES,
        vec![chunk(1, 0, vec![9; 8], false, Some(meta("snap-1", 10, 1, Some(16), None)))],
    );
    let (peer, kind, err) = error_of(result);
    assert_eq!(peer, NodeId(2));
    assert_eq!(kind, "fetch_snapshot");
    assert_eq!(err, "FetchSnapshot stream ended after 1 chunks without done=true");
}

#[test]
fn message_router_fetch_snapshot_drain_surfaces_deadline_timeout() {
    let (peer, kind, err) = error_of(fetch_snapshot_timed_out(NodeId(2), 50));
    assert_eq!(peer, NodeId(2));
    assert_eq!(kind, "fetch_snapshot");
    assert_eq!(err, "FetchSnapshot stream drain exceeded deadline of 50ms");
}

#[test]
fn message_router_reassembles_multi_chunk_fetch_snapshot_stream() {
    let described = meta("snap-multi", 42, 7, Some(9), None);
    let result = drain(
        MAX_SNAPSHOT_INSTALL_BYTES,
        vec![
            chunk(7, 0, vec![1, 2, 3], false, Some(described.clone())),
            chunk(7, 1, vec![4, 5, 6], false, None),
            chunk(7, 2, vec![7, 8, 9], true, None),
        ],
    );
    assert_eq!(
        result,
        OutboundResult::FetchSnapshot {
            peer: NodeId(2),
            cluster_id: "test-router".to_string(),
            leader_epoch: 7,
            chunk_count: 3,
            completed: true,
            metadata: Some(described),
            data: vec![1, 2, 3, 4, 5, 6, 7, 8, 9],
        }
    );
}

#[test]
fn message_router_first_chunk_without_metadata_surfaces_error() {
    let result =
        drain(MAX_SNAPSHOT_INSTALL_BYTES, vec![chunk(1, 0, vec![1, 2, 3, 4], true, None)]);
    let (peer, kind, err) = error_of(result);
    assert_eq!(peer, NodeId(2));
    assert_eq!(kind, "fetch_snapshot");
    assert_eq!(err, "FetchSnapshot first chunk missing required SnapshotMeta");
}

#[test]
fn message_router_out_of_order_chunk_index_surfaces_error() {
    let result = drain(
        MAX_SNAPSHOT_INSTALL_BYTES,
        vec![
            chunk(1, 0, vec![1, 2, 3], false, Some(meta("snap-ooo", 1, 1, Some(6), None))),
            chunk(1, 5, vec![4, 5, 6], true, None),
        ],
    );
    let (peer, kind, err) = error_of(result);
    assert_eq!(peer, NodeId(2));
    assert_eq!(kind, "fetch_snapshot");
    assert_eq!(err, "FetchSnapshot chunk_index out of order: expected 1, got 5");
}

#[test]
fn changed_cluster_breaks_the_transfer_off() {
    let mut second = chunk(1, 1, vec![4], true, None);
    second.cluster_id = "elsewhere".to_string();
    let result = drain(
        MAX_SNAPSHOT_INSTALL_BYTES,
        vec![chunk(1, 0, vec![1], false, Some(meta("s", 1, 1, None, None))), second],
    );
    assert_eq!(
        error_of(result).2,
        "FetchSnapshot stream cluster_id mutated mid-stream: test-router -> elsewhere"
    );
}

#[test]
fn changed_epoch_breaks_the_transfer_off() {
    let result = drain(
        MAX_SNAPSHOT_INSTALL_BYTES,
        vec![
            chunk(1, 0, vec![1], false, Some(meta("s", 1, 1, None, None))),
            chunk(2, 1, vec![4], true, None),
        ],
    );
    assert_eq!(
        error_of(result).2,
        "FetchSnapshot stream leader_epoch mutated mid-stream: 1 -> 2"
    );
}

#[test]
fn too_many_bytes_break_the_transfer_off() {
    let result = drain(
        5,
        vec![
            chunk(1, 0, vec![1, 2, 3], false, Some(meta("s", 1, 1, None, None))),
            chunk(1, 1, vec![4, 5, 6], true, None),
        ],
    );
    assert_eq!(
        error_of(result).2,
        "FetchSnapshot reassembled data exceeded cap of 5 bytes (got 3 + 3)"
    );
}

#[test]
fn limit_itself_is_within_the_limit() {
    let result =
        drain(3, vec![chunk(1, 0, vec![1, 2, 3], true, Some(meta("s", 1, 1, None, None)))]);
    assert!(matches!(result, OutboundResult::FetchSnapshot { .. }));
}

#[test]
fn wrong_size_fails_the_integrity_check() {
    let result = drain(
        MAX_SNAPSHOT_INSTALL_BYTES,
        vec![chunk(1, 0, vec![1, 2, 3], true, Some(meta("s", 1, 1, Some(4), None)))],
    );
    assert_eq!(
        error_of(result).2,
        "FetchSnapshot integrity check failed: declared size 4 bytes != reassembled 3 bytes (chunk_count=1)"
    );
}

#[test]
fn checksum_of_known_bytes_is_accepted() {
    // The check value of CRC-32 (ISO-HDLC) for the digits one to nine.
    let result = drain(
        MAX_SNAPSHOT_INSTALL_BYTES,
        vec![chunk(
            1,
            0,
            b"123456789".to_vec(),
            true,
            Some(meta("s", 1, 1, Some(9), Some(0xCBF4_3926))),
        )],
    );
    assert!(matches!(result, OutboundResult::FetchSnapshot { .. }));
}

#[test]
fn wrong_checksum_fails_the_integrity_check() {
    let result = drain(
        MAX_SNAPSHOT_INSTALL_BYTES,
        vec![chunk(1, 0, b"123456789".to_vec(), true, Some(meta("s", 1, 1, None, Some(0xAB))))],
    );
    assert_eq!(
        error_of(result).2,
        "FetchSnapshot integrity check failed: declared crc32 0x000000AB != computed 0xCBF43926 (9 bytes, chunk_count=1)"
    );
}

#[test]
fn given_checksum_decides_a_complete_transfer() {
    let make = || {
        let mut a = SnapshotAssembly::new(100);
        a.accept(chunk(1, 0, vec![1, 2], true, Some(meta("s", 1, 1, None, Some(17)))));
        a
    };
    assert!(matches!(
        make().conclude_with_crc(NodeId(2), 17),
        OutboundResult::FetchSnapshot { .. }
    ));
    assert!(matches!(make().conclude_with_crc(NodeId(2), 18), OutboundResult::Error { .. }));
}

#[test]
fn broken_stream_reports_its_error() {
    let mut a = SnapshotAssembly::new(100);
    a.accept(chunk(1, 0, vec![1], false, Some(meta("s", 1, 1, None, None))));
    a.fail("connection reset".to_string());
    assert_eq!(
        a.conclude(NodeId(2)),
        fetch_snapshot_failed(NodeId(2), "connection reset".to_string())
    );
}

#[test]
fn progress_is_reported_once_in_each_quarter() {
    let mut a = SnapshotAssembly::new(1000);
    let described = meta("s", 1, 1, Some(100), None);
    assert_eq!(a.accept(chunk(1, 0, vec![0; 10], false, Some(described))), None);
    assert_eq!(a.accept(chunk(1, 1, vec![0; 15], false, None)), Some(25));
    assert_eq!(a.accept(chunk(1, 2, vec![0; 10], false, None)), None);
    assert_eq!(a.accept(chunk(1, 3, vec![0; 30], false, None)), Some(65));
    assert_eq!(a.accept(chunk(1, 4, vec![0; 30], false, None)), Some(95));
    assert_eq!(a.accept(chunk(1, 5, vec![0; 5], true, None)), None);
}
