use xraft_server::admin::{
    bad_listen_addr, bind_failed, join_result, local_addr_failed, membership_reply,
    trigger_snapshot_reply, unsupported_membership, AdminBody, AdminConfig, AdminStatusResponse,
    ClusterInfo, HealthResponse, MembershipChange, ServeEnd,
};
use xraft_server::config::TriggeredSnapshotInfo;
use xraft_server::error::XRaftError;
use xraft_server::handle::{client_result, inbound_result, served_result, Delivery};
use xraft_server::status::{NodeStatus, StatusPublisher};
use xraft_server::types::{NodeId, NodeRole};

fn leader_status() -> NodeStatus {
    let mut s = NodeStatus::placeholder(NodeId(2));
    s.role = NodeRole::Leader;
    s.term = 5;
    s.commit_index = 42;
    s.leader_id = Some(2);
    s.last_applied = 41;
    s.last_log_index = 50;
    s
}

fn test_cluster_info() -> ClusterInfo {
    ClusterInfo { cluster_id: "test-cluster".to_string(), voters: vec![1, 2, 3] }
}

#[test]
fn health_endpoint_returns_node_status_json() {
    let mut publisher = StatusPublisher::from_status(NodeStatus::placeholder(NodeId(2)));
    publisher.publish(leader_status());
    let v = HealthResponse::from_parts(&publisher.current(), publisher.config_revision());
    assert_eq!(v.node_id, 2);
    assert_eq!(v.role, "leader");
    assert_eq!(v.term, 5);
    assert_eq!(v.commit_index, 42);
    assert_eq!(v.leader_id, Some(2));
    assert_eq!(v.last_applied, 41);
    assert_eq!(v.last_log_index, 50);
    assert_eq!(v.config_revision, 0);
}

#[test]
fn health_endpoint_surfaces_bumped_config_revision() {
    let mut publisher = StatusPublisher::from_status(NodeStatus::placeholder(NodeId(4)));
    assert_eq!(publisher.bump_config_revision(), 1);
    assert_eq!(publisher.bump_config_revision(), 2);
    let v = HealthResponse::from_parts(&publisher.current(), publisher.config_revision());
    assert_eq!(v.config_revision, 2);
}

#[test]
fn admin_status_endpoint_returns_cluster_metadata_plus_status() {
    let cluster = test_cluster_info();
    let v = AdminStatusResponse::from_parts(&leader_status(), &cluster);
    assert_eq!(v.cluster_id, "test-cluster");
    assert_eq!(v.voters, &[1, 2, 3]);
    assert_eq!(v.node_id, 2);
    assert_eq!(v.role, "leader");
    assert_eq!(v.term, 5);
    assert_eq!(v.leader_id, Some(2));
}

#[test]
fn cluster_info_keeps_the_roster_order() {
    let info = ClusterInfo::from_cluster_config(
        &"c".to_string(),
        &vec![NodeId(3), NodeId(1), NodeId(2)],
    );
    assert_eq!(info.cluster_id, "c");
    assert_eq!(info.voters, vec![3, 1, 2]);
}

#[test]
fn admin_config_takes_any_string() {
    assert_eq!(AdminConfig::new("127.0.0.1:0").listen_addr, "127.0.0.1:0");
    assert_eq!(AdminConfig::new("[::1]:80".to_string()).listen_addr, "[::1]:80");
}

#[test]
fn trigger_snapshot_without_driver_returns_service_unavailable() {
    let r = trigger_snapshot_reply(None);
    assert_eq!(r.status, 503);
    assert_eq!(
        r.body,
        AdminBody::Error {
            error: "admin server built without a driver handle; trigger-snapshot unavailable"
                .to_string(),
        }
    );
}

#[test]
fn snapshot_outcomes_have_their_status_codes() {
    let info =
        TriggeredSnapshotInfo { last_included_index: 4, last_included_term: 2, size_bytes: 9 };
    let r = trigger_snapshot_reply(Some(Ok(info)));
    assert_eq!((r.status, r.body), (200, AdminBody::Taken(info)));

    let r = trigger_snapshot_reply(Some(Err(XRaftError::NotLeader {
        leader_hint: Some(NodeId(3)),
    })));
    assert_eq!(r.status, 409);
    assert_eq!(
        r.body,
        AdminBody::Elsewhere {
            error: "not leader; retry against the cluster leader".to_string(),
            leader_hint: Some(3),
        }
    );

    let cases = vec![
        (XRaftError::Config("busy".to_string()), 409, "busy"),
        (XRaftError::Shutdown, 503, "driver is shutting down; retry against another node"),
        (XRaftError::Transport("gone".to_string()), 503, "driver transport error: gone"),
        (XRaftError::Storage("disk".to_string()), 500, "storage error: disk"),
        (XRaftError::ElectionTimeout, 500, "election timeout"),
    ];
    for (e, status, text) in cases {
        let r = trigger_snapshot_reply(Some(Err(e)));
        assert_eq!(r.status, status);
        assert_eq!(r.body, AdminBody::Error { error: text.to_string() });
    }
}

fn rejection(change: MembershipChange) -> String {
    match unsupported_membership(change) {
        XRaftError::Unsupported(msg) => msg,
        other => panic!("expected Unsupported, got {other:?}"),
    }
}

#[test]
fn add_voter_endpoint_returns_501_with_unsupported_body() {
    let r = membership_reply(MembershipChange::AddVoter);
    assert_eq!(r.status, 501);
    match r.body {
        AdminBody::Unsupported { error, code } => {
            assert_eq!(code, "UNSUPPORTED");
            assert!(error.contains("out of scope for v1"));
            assert!(error.contains("AddVoter"));
        }
        other => panic!("unexpected {other:?}"),
    }
}

#[test]
fn remove_voter_endpoint_returns_501_with_unsupported_body() {
    let r = membership_reply(MembershipChange::RemoveVoter);
    assert_eq!(r.status, 501);
    match r.body {
        AdminBody::Unsupported { error, code } => {
            assert_eq!(code, "UNSUPPORTED");
            assert!(error.contains("RemoveVoter"));
        }
        other => panic!("unexpected {other:?}"),
    }
}

#[test]
fn driver_handle_add_voter_returns_unsupported() {
    let msg = rejection(MembershipChange::AddVoter);
    assert!(msg.contains("AddVoter"));
    assert!(msg.contains("out of scope for v1"));
}

#[test]
fn driver_handle_remove_voter_returns_unsupported() {
    assert!(rejection(MembershipChange::RemoveVoter).contains("RemoveVoter"));
}

#[test]
fn driver_handle_add_voter_rejects_even_after_shutdown() {
    assert_eq!(served_result::<()>(Delivery::Closed), Err(XRaftError::Shutdown));
    assert!(matches!(
        unsupported_membership(MembershipChange::AddVoter),
        XRaftError::Unsupported(_)
    ));
}

#[test]
fn bind_errors_name_the_address() {
    assert_eq!(
        bad_listen_addr("nowhere", "invalid socket address syntax"),
        XRaftError::Config(
            "admin listen_addr 'nowhere' must parse as host:port: invalid socket address syntax"
                .to_string()
        )
    );
    assert_eq!(
        bind_failed("127.0.0.1:80", "in use"),
        XRaftError::Config("admin listener bind '127.0.0.1:80' failed: in use".to_string())
    );
    assert_eq!(
        local_addr_failed("x"),
        XRaftError::Config("admin listener local_addr query failed: x".to_string())
    );
}

#[test]
fn listener_ends_are_told_apart() {
    assert_eq!(join_result(ServeEnd::Stopped), Ok(()));
    assert_eq!(
        join_result(ServeEnd::Failed("a".to_string())),
        Err(XRaftError::Transport("admin serve error: a".to_string()))
    );
    assert_eq!(
        join_result(ServeEnd::Lost("b".to_string())),
        Err(XRaftError::Transport("admin serve task join error: b".to_string()))
    );
}

#[test]
fn unreachable_driver_is_reported() {
    let closed = || XRaftError::Transport("driver event channel closed".to_string());
    assert_eq!(client_result::<u8>(Delivery::Closed), Err(closed()));
    assert_eq!(client_result::<u8>(Delivery::Dropped), Err(XRaftError::Shutdown));
    assert_eq!(client_result(Delivery::Answered(Ok(3u8))), Ok(3));
    assert_eq!(served_result::<u8>(Delivery::Closed), Err(XRaftError::Shutdown));
    assert_eq!(served_result::<u8>(Delivery::Dropped), Err(XRaftError::Shutdown));
    assert_eq!(served_result(Delivery::Answered(Ok(3u8))), Ok(3));
    assert_eq!(inbound_result::<u8>(Delivery::Closed), Err(closed()));
    assert_eq!(
        inbound_result::<u8>(Delivery::Dropped),
        Err(XRaftError::Transport("driver dropped reply".to_string()))
    );
    assert_eq!(inbound_result(Delivery::Answered(Ok(3u8))), Ok(3));
}

#[test]
fn every_error_has_its_text() {
    let s = |x: &str| x.to_string();
    let cases = vec![
        (XRaftError::Storage(s("a")), "storage error: a"),
        (XRaftError::Transport(s("a")), "transport error: a"),
        (
            XRaftError::NotLeader { leader_hint: Some(NodeId(4)) },
            "not leader; leader hint: NodeId(4)",
        ),
        (XRaftError::NotLeader { leader_hint: None }, "not leader; leader unknown"),
        (XRaftError::ElectionTimeout, "election timeout"),
        (XRaftError::InvalidTerm(s("a")), "invalid term: a"),
        (XRaftError::LogInconsistency(s("a")), "log inconsistency: a"),
        (XRaftError::Shutdown, "shutting down"),
        (XRaftError::Config(s("a")), "configuration error: a"),
        (XRaftError::CorruptSnapshot(s("a")), "corrupt snapshot: a"),
        (XRaftError::SnapshotNotFound(s("a")), "snapshot not found: a"),
        (XRaftError::Unsupported(s("a")), "unsupported: a"),
    ];
    for (e, text) in cases {
        assert_eq!(e.text(), text);
        assert_eq!(e.duplicate(), e);
    }
}
