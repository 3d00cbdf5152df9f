use std::collections::BTreeMap;

use xraft_server::config::FetchDirection;
use xraft_server::host::Observation;
use xraft_server::metrics::{
    all_metrics, direction_label, replica_label, updates_for, Metric, MetricKind, MetricUpdate,
};
use xraft_server::status::{role_to_gauge, role_to_str, NodeStatus, StatusPublisher};
use xraft_server::types::{NodeId, NodeRole};

fn sample_status() -> NodeStatus {
    let mut s = NodeStatus::placeholder(NodeId(7));
    s.role = NodeRole::Leader;
    s.term = 11;
    s.commit_index = 99;
    s.leader_id = Some(7);
    s.last_log_index = 100;
    s
}

/// What has been recorded, by the name under which it is exposed.
#[derive(Default)]
struct Board {
    values: BTreeMap<String, i64>,
}

impl Board {
    fn add(&mut self, name: String, by: i64) {
        *self.values.entry(name).or_insert(0) += by;
    }

    fn record(&mut self, observation: Observation) {
        for update in updates_for(observation) {
            match update {
                MetricUpdate::SetGauge { metric, value } => {
                    self.values.insert(metric.name().to_string(), value);
                }
                MetricUpdate::Increase { metric, by } => {
                    self.add(format!("{}_total", metric.name()), by as i64);
                }
                MetricUpdate::CountFetch { direction } => {
                    let label = direction_label(direction);
                    let name = Metric::FetchRequests.name();
                    self.add(format!("{name}_total{{direction=\"{label}\"}}"), 1);
                }
                MetricUpdate::SetLag { replica, value } => {
                    let label = replica_label(replica);
                    let name = Metric::ReplicationLag.name();
                    self.values.insert(format!("{name}{{replica=\"{label}\"}}"), value);
                }
                MetricUpdate::ClearLag => {
                    let prefix = format!("{}{{", Metric::ReplicationLag.name());
                    self.values.retain(|name, _| !name.starts_with(&prefix));
                }
                MetricUpdate::SampleNanos { metric, nanos } => {
                    self.add(format!("{}_count", metric.name()), 1);
                    self.add(format!("{}_sum", metric.name()), nanos as i64);
                }
                MetricUpdate::SampleBytes { metric, bytes } => {
                    self.add(format!("{}_count", metric.name()), 1);
                    self.add(format!("{}_sum", metric.name()), bytes as i64);
                }
            }
        }
    }

    fn get(&self, name: &str) -> Option<i64> {
        self.values.get(name).copied()
    }
}

fn gauge(status: NodeStatus, wanted: Metric) -> i64 {
    updates_for(Observation::Status(status))
        .into_iter()
        .find_map(|u| match u {
            MetricUpdate::SetGauge { metric, value } if metric == wanted => Some(value),
            _ => None,
        })
        .expect("the gauge is set")
}

#[test]
fn publish_state_updates_all_gauges_and_publisher() {
    let s = sample_status();
    let mut board = Board::default();
    board.record(Observation::Status(s));
    assert_eq!(board.get("xraft_current_term"), Some(11));
    assert_eq!(board.get("xraft_commit_index"), Some(99));
    assert_eq!(board.get("xraft_current_leader"), Some(7));
    assert_eq!(board.get("xraft_role"), Some(3));
    let mut publisher = StatusPublisher::from_status(NodeStatus::placeholder(NodeId(7)));
    publisher.publish(s);
    assert_eq!(publisher.current().term, 11);
    assert_eq!(publisher.current().commit_index, 99);
    assert_eq!(publisher.current().leader_id, Some(7));
}

#[test]
fn current_leader_is_neg_one_when_unknown() {
    let mut s = NodeStatus::placeholder(NodeId(1));
    s.leader_id = None;
    let mut board = Board::default();
    board.record(Observation::Status(s));
    assert_eq!(board.get("xraft_current_leader"), Some(-1));
}

#[test]
fn record_appends_increments_counter() {
    let mut board = Board::default();
    board.record(Observation::Append(3));
    board.record(Observation::Append(2));
    assert_eq!(board.get("xraft_append_records_total"), Some(5));
    let mut publisher = StatusPublisher::from_status(NodeStatus::placeholder(NodeId(1)));
    publisher.record_appends(3);
    publisher.record_appends(2);
    assert_eq!(publisher.appended, 5);
}

#[test]
fn observe_election_latency_records_in_histogram() {
    let mut board = Board::default();
    board.record(Observation::ElectionWon(30_000_000));
    board.record(Observation::ElectionWon(150_000_000));
    assert_eq!(board.get("xraft_election_latency_seconds_count"), Some(2));
    assert_eq!(board.get("xraft_election_latency_seconds_sum"), Some(180_000_000));
}

#[test]
fn role_gauge_tracks_role_transitions() {
    let mut board = Board::default();
    let mut s = NodeStatus::placeholder(NodeId(1));
    s.role = NodeRole::Candidate;
    board.record(Observation::Status(s));
    assert_eq!(board.get("xraft_role"), Some(1));
    s.role = NodeRole::Leader;
    board.record(Observation::Status(s));
    assert_eq!(board.get("xraft_role"), Some(3));
}

#[test]
fn roles_have_names_and_numbers() {
    let all = [
        (NodeRole::Follower, "follower", 0),
        (NodeRole::Candidate, "candidate", 1),
        (NodeRole::PreCandidate, "pre_candidate", 2),
        (NodeRole::Leader, "leader", 3),
        (NodeRole::Observer, "observer", 4),
    ];
    for (role, name, code) in all {
        assert_eq!(role_to_str(role), name);
        assert_eq!(role_to_gauge(role), code);
    }
}

#[test]
fn replication_lag_gauge_is_per_replica() {
    let mut board = Board::default();
    board.record(Observation::ReplicationLag { replica: NodeId(2), lag: 17 });
    board.record(Observation::ReplicationLag { replica: NodeId(3), lag: 0 });
    assert_eq!(board.get("xraft_replication_lag{replica=\"2\"}"), Some(17));
    assert_eq!(board.get("xraft_replication_lag{replica=\"3\"}"), Some(0));
    assert_eq!(replica_label(NodeId(u64::MAX)), "18446744073709551615");
}

#[test]
fn clear_replication_lag_drops_all_labels() {
    let mut board = Board::default();
    board.record(Observation::ReplicationLag { replica: NodeId(2), lag: 17 });
    board.record(Observation::ReplicationLag { replica: NodeId(3), lag: 9 });
    board.record(Observation::LeaderStepDown);
    assert!(!board.values.keys().any(|name| name.contains("replica=")));
    assert_eq!(updates_for(Observation::LeaderStepDown), vec![MetricUpdate::ClearLag]);
}

#[test]
fn observe_commit_latency_records_in_histogram() {
    let mut board = Board::default();
    board.record(Observation::CommitLatency(12_000_000));
    board.record(Observation::CommitLatency(80_000_000));
    assert_eq!(board.get("xraft_commit_latency_seconds_count"), Some(2));
    assert_eq!(board.get("xraft_commit_latency_seconds_sum"), Some(92_000_000));
}

#[test]
fn fetch_requests_counter_is_per_direction() {
    let mut board = Board::default();
    board.record(Observation::FetchRequest(FetchDirection::Sent));
    board.record(Observation::FetchRequest(FetchDirection::Sent));
    board.record(Observation::FetchRequest(FetchDirection::Received));
    assert_eq!(board.get("xraft_fetch_requests_total{direction=\"sent\"}"), Some(2));
    assert_eq!(board.get("xraft_fetch_requests_total{direction=\"received\"}"), Some(1));
}

#[test]
fn publish_state_sets_log_end_offset_gauge() {
    let mut s = sample_status();
    s.last_log_index = 4321;
    let mut board = Board::default();
    board.record(Observation::Status(s));
    assert_eq!(board.get("xraft_log_end_offset"), Some(4321));
}

#[test]
fn numbers_past_the_gauge_wrap_around() {
    let mut s = sample_status();
    s.term = u64::MAX;
    assert_eq!(gauge(s, Metric::CurrentTerm), -1);
}

#[test]
fn snapshot_install_counter_increments_on_observer_hook() {
    let mut board = Board::default();
    board.record(Observation::SnapshotInstalled);
    board.record(Observation::SnapshotInstalled);
    assert_eq!(board.get("xraft_snapshot_installs_total"), Some(2));
}

#[test]
fn log_compaction_counter_increments_on_observer_hook() {
    let mut board = Board::default();
    for removed in [50, 25, 10] {
        board.record(Observation::LogCompacted(removed));
    }
    assert_eq!(board.get("xraft_log_compaction_events_total"), Some(3));
}

#[test]
fn snapshot_taken_observer_feeds_duration_and_size_histograms() {
    let mut board = Board::default();
    board.record(Observation::SnapshotTaken { bytes: 4096, elapsed: 75_000_000 });
    board.record(Observation::SnapshotTaken { bytes: 16_384, elapsed: 150_000_000 });
    assert_eq!(board.get("xraft_snapshot_duration_seconds_count"), Some(2));
    assert_eq!(board.get("xraft_snapshot_duration_seconds_sum"), Some(225_000_000));
    assert_eq!(board.get("xraft_snapshot_size_bytes_count"), Some(2));
    assert_eq!(board.get("xraft_snapshot_size_bytes_sum"), Some(20_480));
}

#[test]
fn registered_names_render_to_the_known_ones() {
    let exposed: Vec<String> = all_metrics()
        .into_iter()
        .map(|m| match m.kind() {
            MetricKind::Counter => format!("{}_total", m.name()),
            _ => m.name().to_string(),
        })
        .collect();
    assert_eq!(
        exposed,
        vec![
            "xraft_current_term",
            "xraft_commit_index",
            "xraft_current_leader",
            "xraft_role",
            "xraft_election_latency_seconds",
            "xraft_append_records_total",
            "xraft_replication_lag",
            "xraft_commit_latency_seconds",
            "xraft_fetch_requests_total",
            "xraft_snapshot_installs_total",
            "xraft_log_end_offset",
            "xraft_snapshot_duration_seconds",
            "xraft_snapshot_size_bytes",
            "xraft_log_compaction_events_total",
        ]
    );
    for m in all_metrics() {
        assert!(m.help().ends_with('.'));
    }
}

#[test]
fn fetch_counter_explains_its_directions() {
    assert_eq!(
        Metric::FetchRequests.help(),
        "Total Fetch RPCs counted by this node, labelled by direction: \
         `sent` for follower/observer→leader RPC dispatch, `received` for \
         inbound Fetches accepted while leader for this cluster \
         (wrong-cluster and non-leader receipts are filtered out per \
         `architecture.md` §7)."
    );
}
