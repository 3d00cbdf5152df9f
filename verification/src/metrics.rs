//! Which metrics there are, and what an observation does to them.
use vstd::prelude::*;

use crate::config::FetchDirection;
use crate::host::Observation;
use crate::status::{role_code, role_to_gauge, NodeStatus};
use crate::text::{decimal, lemma_numeral_reads_back, push_decimal};
use crate::types::{NodeId, NodeRole};

verus! {

/// A metric of a node.
#[derive(Clone, Copy, Debug, PartialEq, Eq, Structural)]
pub enum Metric {
    CurrentTerm,
    CommitIndex,
    CurrentLeader,
    Role,
    ElectionLatencySeconds,
    AppendRecords,
    ReplicationLag,
    CommitLatencySeconds,
    FetchRequests,
    SnapshotInstalls,
    LogEndOffset,
    SnapshotDurationSeconds,
    SnapshotSizeBytes,
    LogCompactionEvents,
}

/// How a metric behaves.
#[derive(Clone, Copy, Debug, PartialEq, Eq, Structural)]
pub enum MetricKind {
    /// It is set.
    Gauge,
    /// It only grows.
    Counter,
    /// It collects samples.
    Histogram,
}

/// How a metric behaves.
pub open spec fn kind(m: Metric) -> MetricKind {
    match m {
        Metric::CurrentTerm | Metric::CommitIndex | Metric::CurrentLeader | Metric::Role
        | Metric::ReplicationLag | Metric::LogEndOffset => MetricKind::Gauge,
        Metric::AppendRecords | Metric::FetchRequests | Metric::SnapshotInstalls
        | Metric::LogCompactionEvents => MetricKind::Counter,
        Metric::ElectionLatencySeconds | Metric::CommitLatencySeconds
        | Metric::SnapshotDurationSeconds | Metric::SnapshotSizeBytes => MetricKind::Histogram,
    }
}

/// The name under which a metric is registered. A counter is registered without
/// the suffix `_total`, which the text format adds.
pub open spec fn registered_name(m: Metric) -> Seq<char> {
    match m {
        Metric::CurrentTerm => "xraft_current_term"@,
        Metric::CommitIndex => "xraft_commit_index"@,
        Metric::CurrentLeader => "xraft_current_leader"@,
        Metric::Role => "xraft_role"@,
        Metric::ElectionLatencySeconds => "xraft_election_latency_seconds"@,
        Metric::AppendRecords => "xraft_append_records"@,
        Metric::ReplicationLag => "xraft_replication_lag"@,
        Metric::CommitLatencySeconds => "xraft_commit_latency_seconds"@,
        Metric::FetchRequests => "xraft_fetch_requests"@,
        Metric::SnapshotInstalls => "xraft_snapshot_installs"@,
        Metric::LogEndOffset => "xraft_log_end_offset"@,
        Metric::SnapshotDurationSeconds => "xraft_snapshot_duration_seconds"@,
        Metric::SnapshotSizeBytes => "xraft_snapshot_size_bytes"@,
        Metric::LogCompactionEvents => "xraft_log_compaction_events"@,
    }
}

/// What operators are told that a metric means.
pub open spec fn help_text(m: Metric) -> Seq<char> {
    match m {
        Metric::CurrentTerm => "Current persisted Raft term (HardState.current_term)."@,
        Metric::CommitIndex => "Volatile commit_index of this node's log."@,
        Metric::CurrentLeader =>
            "NodeId of the leader recognised by this node; -1 when unknown."@,
        Metric::Role =>
            "Numeric encoding of NodeRole: 0=Follower 1=Candidate 2=PreCandidate 3=Leader 4=Observer."@,
        Metric::ElectionLatencySeconds =>
            "Seconds from become_candidate to become_leader for this node."@,
        Metric::AppendRecords =>
            "Total log entries appended to this node's local log store."@,
        Metric::ReplicationLag =>
            "Entries this peer is behind the leader, computed leader-side as (leader_last_log_index - peer.last_fetch_offset). Reset on leader step-down."@,
        Metric::CommitLatencySeconds =>
            "Seconds from proposal accepted by the driver to commit_index advancing past it."@,
        Metric::FetchRequests =>
            "Total Fetch RPCs counted by this node, labelled by direction: `sent` for follower/observer→leader RPC dispatch, `received` for inbound Fetches accepted while leader for this cluster (wrong-cluster and non-leader receipts are filtered out per `architecture.md` §7)."@,
        Metric::SnapshotInstalls =>
            "Total InstallSnapshot operations completed on this node. Bumped on every successful follower-side snapshot install."@,
        Metric::LogEndOffset =>
            "Last log index present in this node's local log store; mirrored from NodeStatus.last_log_index on every publish."@,
        Metric::SnapshotDurationSeconds =>
            "End-to-end wall-clock duration of each snapshot finalisation. Observed once per Action::TakeSnapshot completion."@,
        Metric::SnapshotSizeBytes =>
            "Bytes written for each finalised snapshot. Observed once per Action::TakeSnapshot completion."@,
        Metric::LogCompactionEvents =>
            "Total log-compaction events on this node. Bumped once per driver compaction run after a snapshot finalises."@,
    }
}

/// All metrics, in the order in which they are registered.
pub open spec fn registration_order() -> Seq<Metric> {
    seq![
        Metric::CurrentTerm,
        Metric::CommitIndex,
        Metric::CurrentLeader,
        Metric::Role,
        Metric::ElectionLatencySeconds,
        Metric::AppendRecords,
        Metric::ReplicationLag,
        Metric::CommitLatencySeconds,
        Metric::FetchRequests,
        Metric::SnapshotInstalls,
        Metric::LogEndOffset,
        Metric::SnapshotDurationSeconds,
        Metric::SnapshotSizeBytes,
        Metric::LogCompactionEvents,
    ]
}

/// All metrics, in the order in which they are registered.
pub fn all_metrics() -> (r: Vec<Metric>)
    ensures
        r@ == registration_order(),
{
    let r: Vec<Metric> = vec![
        Metric::CurrentTerm,
        Metric::CommitIndex,
        Metric::CurrentLeader,
        Metric::Role,
        Metric::ElectionLatencySeconds,
        Metric::AppendRecords,
        Metric::ReplicationLag,
        Metric::CommitLatencySeconds,
        Metric::FetchRequests,
        Metric::SnapshotInstalls,
        Metric::LogEndOffset,
        Metric::SnapshotDurationSeconds,
        Metric::SnapshotSizeBytes,
        Metric::LogCompactionEvents,
    ];
    assert(r@ =~= registration_order());
    r
}

impl Metric {
    /// How the metric behaves.
    pub fn kind(self) -> (r: MetricKind)
        ensures
            r == kind(self),
    {
        match self {
            Metric::CurrentTerm | Metric::CommitIndex | Metric::CurrentLeader | Metric::Role
            | Metric::ReplicationLag | Metric::LogEndOffset => MetricKind::Gauge,
            Metric::AppendRecords | Metric::FetchRequests | Metric::SnapshotInstalls
            | Metric::LogCompactionEvents => MetricKind::Counter,
            Metric::ElectionLatencySeconds | Metric::CommitLatencySeconds
            | Metric::SnapshotDurationSeconds | Metric::SnapshotSizeBytes => MetricKind::Histogram,
        }
    }

    /// The name under which the metric is registered.
    pub fn name(self) -> (r: &'static str)
        ensures
            r@ == registered_name(self),
    {
        match self {
            Metric::CurrentTerm => "xraft_current_term",
            Metric::CommitIndex => "xraft_commit_index",
            Metric::CurrentLeader => "xraft_current_leader",
            Metric::Role => "xraft_role",
            Metric::ElectionLatencySeconds => "xraft_election_latency_seconds",
            Metric::AppendRecords => "xraft_append_records",
            Metric::ReplicationLag => "xraft_replication_lag",
            Metric::CommitLatencySeconds => "xraft_commit_latency_seconds",
            Metric::FetchRequests => "xraft_fetch_requests",
            Metric::SnapshotInstalls => "xraft_snapshot_installs",
            Metric::LogEndOffset => "xraft_log_end_offset",
            Metric::SnapshotDurationSeconds => "xraft_snapshot_duration_seconds",
            Metric::SnapshotSizeBytes => "xraft_snapshot_size_bytes",
            Metric::LogCompactionEvents => "xraft_log_compaction_events",
        }
    }

    /// What operators are told that the metric means.
    pub fn help(self) -> (r: &'static str)
        ensures
            r@ == help_text(self),
    {
        match self {
            Metric::CurrentTerm => "Current persisted Raft term (HardState.current_term).",
            Metric::CommitIndex => "Volatile commit_index of this node's log.",
            Metric::CurrentLeader =>
                "NodeId of the leader recognised by this node; -1 when unknown.",
            Metric::Role =>
                "Numeric encoding of NodeRole: 0=Follower 1=Candidate 2=PreCandidate 3=Leader 4=Observer.",
            Metric::ElectionLatencySeconds =>
                "Seconds from become_candidate to become_leader for this node.",
            Metric::AppendRecords =>
                "Total log entries appended to this node's local log store.",
            Metric::ReplicationLag =>
                "Entries this peer is behind the leader, computed leader-side as (leader_last_log_index - peer.last_fetch_offset). Reset on leader step-down.",
            Metric::CommitLatencySeconds =>
                "Seconds from proposal accepted by the driver to commit_index advancing past it.",
            Metric::FetchRequests =>
                "Total Fetch RPCs counted by this node, labelled by direction: `sent` for follower/observer→leader RPC dispatch, `received` for inbound Fetches accepted while leader for this cluster (wrong-cluster and non-leader receipts are filtered out per `architecture.md` §7).",
            Metric::SnapshotInstalls =>
                "Total InstallSnapshot operations completed on this node. Bumped on every successful follower-side snapshot install.",
            Metric::LogEndOffset =>
                "Last log index present in this node's local log store; mirrored from NodeStatus.last_log_index on every publish.",
            Metric::SnapshotDurationSeconds =>
                "End-to-end wall-clock duration of each snapshot finalisation. Observed once per Action::TakeSnapshot completion.",
            Metric::SnapshotSizeBytes =>
                "Bytes written for each finalised snapshot. Observed once per Action::TakeSnapshot completion.",
            Metric::LogCompactionEvents =>
                "Total log-compaction events on this node. Bumped once per driver compaction run after a snapshot finalises.",
        }
    }
}

/// The label of a replica: its id, in decimal.
pub fn replica_label(replica: NodeId) -> (r: String)
    ensures
        r@ == decimal(replica.0 as nat),
{
    let mut r = String::new();
    push_decimal(&mut r, replica.0);
    assert(r@ =~= decimal(replica.0 as nat));
    r
}

/// The label of a direction.
pub open spec fn direction_text(direction: FetchDirection) -> Seq<char> {
    match direction {
        FetchDirection::Sent => "sent"@,
        FetchDirection::Received => "received"@,
    }
}

/// The label of a direction.
pub fn direction_label(direction: FetchDirection) -> (r: &'static str)
    ensures
        r@ == direction_text(direction),
{
    match direction {
        FetchDirection::Sent => "sent",
        FetchDirection::Received => "received",
    }
}

/// A change of one metric.
#[derive(Clone, Copy, Debug, PartialEq, Eq, Structural)]
pub enum MetricUpdate {
    /// A gauge without labels is set.
    SetGauge { metric: Metric, value: i64 },
    /// A counter without labels grows.
    Increase { metric: Metric, by: u64 },
    /// A fetch is counted under its direction.
    CountFetch { direction: FetchDirection },
    /// The lag of one replica is set.
    SetLag { replica: NodeId, value: i64 },
    /// The lags of all replicas are dropped.
    ClearLag,
    /// A duration, in nanoseconds, is sampled.
    SampleNanos { metric: Metric, nanos: u64 },
    /// A number of bytes is sampled.
    SampleBytes { metric: Metric, bytes: u64 },
}

/// A number as a gauge shows it. Numbers past the gauge's range wrap around.
pub open spec fn gauge_value(n: u64) -> i64 {
    n as i64
}

/// The leader as its gauge shows it: `-1` if it is not known.
pub open spec fn leader_gauge(leader: Option<u64>) -> i64 {
    match leader {
        Some(id) => gauge_value(id),
        None => (-1) as i64,
    }
}

/// A number as a gauge shows it.
fn to_gauge(n: u64) -> (r: i64)
    ensures
        r == gauge_value(n),
{
    #[verifier::truncate]
    (n as i64)
}

/// What a published status does to the gauges.
pub open spec fn published(status: NodeStatus) -> Seq<MetricUpdate> {
    seq![
        MetricUpdate::SetGauge { metric: Metric::CurrentTerm, value: gauge_value(status.term) },
        MetricUpdate::SetGauge { metric: Metric::CommitIndex, value: gauge_value(status.commit_index) },
        MetricUpdate::SetGauge { metric: Metric::CurrentLeader, value: leader_gauge(status.leader_id) },
        MetricUpdate::SetGauge { metric: Metric::Role, value: role_code(status.role) },
        MetricUpdate::SetGauge {
            metric: Metric::LogEndOffset,
            value: gauge_value(status.last_log_index),
        },
    ]
}

/// What an observation does to the metrics.
pub open spec fn updates(o: Observation) -> Seq<MetricUpdate> {
    match o {
        Observation::Status(status) => published(status),
        Observation::Append(n) => seq![
            MetricUpdate::Increase { metric: Metric::AppendRecords, by: n },
        ],
        Observation::ElectionWon(nanos) => seq![
            MetricUpdate::SampleNanos { metric: Metric::ElectionLatencySeconds, nanos },
        ],
        Observation::FetchRequest(direction) => seq![MetricUpdate::CountFetch { direction }],
        Observation::ReplicationLag { replica, lag } => seq![
            MetricUpdate::SetLag { replica, value: gauge_value(lag) },
        ],
        Observation::CommitLatency(nanos) => seq![
            MetricUpdate::SampleNanos { metric: Metric::CommitLatencySeconds, nanos },
        ],
        Observation::LeaderStepDown => seq![MetricUpdate::ClearLag],
        Observation::SnapshotTaken { bytes, elapsed } => seq![
            MetricUpdate::SampleNanos { metric: Metric::SnapshotDurationSeconds, nanos: elapsed },
            MetricUpdate::SampleBytes { metric: Metric::SnapshotSizeBytes, bytes },
        ],
        Observation::SnapshotInstalled => seq![
            MetricUpdate::Increase { metric: Metric::SnapshotInstalls, by: 1 },
        ],
        Observation::LogCompacted(removed) => seq![
            MetricUpdate::Increase { metric: Metric::LogCompactionEvents, by: 1 },
        ],
    }
}

/// What an observation does to the metrics.
pub fn updates_for(o: Observation) -> (r: Vec<MetricUpdate>)
    ensures
        r@ == updates(o),
{
    let r: Vec<MetricUpdate> = match o {
        Observation::Status(status) => vec![
            MetricUpdate::SetGauge { metric: Metric::CurrentTerm, value: to_gauge(status.term) },
            MetricUpdate::SetGauge { metric: Metric::CommitIndex, value: to_gauge(status.commit_index) },
            MetricUpdate::SetGauge {
                metric: Metric::CurrentLeader,
                value: match status.leader_id {
                    Some(id) => to_gauge(id),
                    None => -1,
                },
            },
            MetricUpdate::SetGauge { metric: Metric::Role, value: role_to_gauge(status.role) },
            MetricUpdate::SetGauge {
                metric: Metric::LogEndOffset,
                value: to_gauge(status.last_log_index),
            },
        ],
        Observation::Append(n) => vec![
            MetricUpdate::Increase { metric: Metric::AppendRecords, by: n },
        ],
        Observation::ElectionWon(nanos) => vec![
            MetricUpdate::SampleNanos { metric: Metric::ElectionLatencySeconds, nanos },
        ],
        Observation::FetchRequest(direction) => vec![MetricUpdate::CountFetch { direction }],
        Observation::ReplicationLag { replica, lag } => vec![
            MetricUpdate::SetLag { replica, value: to_gauge(lag) },
        ],
        Observation::CommitLatency(nanos) => vec![
            MetricUpdate::SampleNanos { metric: Metric::CommitLatencySeconds, nanos },
        ],
        Observation::LeaderStepDown => vec![MetricUpdate::ClearLag],
        Observation::SnapshotTaken { bytes, elapsed } => vec![
            MetricUpdate::SampleNanos { metric: Metric::SnapshotDurationSeconds, nanos: elapsed },
            MetricUpdate::SampleBytes { metric: Metric::SnapshotSizeBytes, bytes },
        ],
        Observation::SnapshotInstalled => vec![
            MetricUpdate::Increase { metric: Metric::SnapshotInstalls, by: 1 },
        ],
        Observation::LogCompacted(_) => vec![
            MetricUpdate::Increase { metric: Metric::LogCompactionEvents, by: 1 },
        ],
    };
    assert(r@ =~= updates(o));
    r
}

/// The length of a metric's name and two of its characters, which tell it from
/// every other name.
spec fn name_shape(m: Metric) -> (nat, char, char) {
    match m {
        Metric::CurrentTerm => (18, 'c', 'u'),
        Metric::CommitIndex => (18, 'c', 'o'),
        Metric::CurrentLeader => (20, 'c', 'u'),
        Metric::Role => (10, 'r', 'o'),
        Metric::ElectionLatencySeconds => (30, 'e', 'l'),
        Metric::AppendRecords => (20, 'a', 'p'),
        Metric::ReplicationLag => (21, 'r', 'e'),
        Metric::CommitLatencySeconds => (28, 'c', 'o'),
        Metric::FetchRequests => (20, 'f', 'e'),
        Metric::SnapshotInstalls => (23, 's', 'n'),
        Metric::LogEndOffset => (20, 'l', 'o'),
        Metric::SnapshotDurationSeconds => (31, 's', 'n'),
        Metric::SnapshotSizeBytes => (25, 's', 'n'),
        Metric::LogCompactionEvents => (27, 'l', 'o'),
    }
}

proof fn lemma_name_has_its_shape(m: Metric)
    ensures
        registered_name(m).len() == name_shape(m).0,
        registered_name(m)[6] == name_shape(m).1,
        registered_name(m)[7] == name_shape(m).2,
{
    reveal_strlit("xraft_current_term");
    reveal_strlit("xraft_commit_index");
    reveal_strlit("xraft_current_leader");
    reveal_strlit("xraft_role");
    reveal_strlit("xraft_election_latency_seconds");
    reveal_strlit("xraft_append_records");
    reveal_strlit("xraft_replication_lag");
    reveal_strlit("xraft_commit_latency_seconds");
    reveal_strlit("xraft_fetch_requests");
    reveal_strlit("xraft_snapshot_installs");
    reveal_strlit("xraft_log_end_offset");
    reveal_strlit("xraft_snapshot_duration_seconds");
    reveal_strlit("xraft_snapshot_size_bytes");
    reveal_strlit("xraft_log_compaction_events");
}

/// No two metrics share a name.
pub proof fn law_metric_names_are_distinct(a: Metric, b: Metric)
    requires
        registered_name(a) == registered_name(b),
    ensures
        a == b,
{
    lemma_name_has_its_shape(a);
    lemma_name_has_its_shape(b);
}

/// No counter is registered with the suffix that the text format adds.
pub proof fn law_counters_carry_no_suffix(m: Metric, stem: Seq<char>)
    requires
        kind(m) == MetricKind::Counter,
    ensures
        registered_name(m) != stem + "_total"@,
{
    reveal_strlit("xraft_append_records");
    reveal_strlit("xraft_fetch_requests");
    reveal_strlit("xraft_snapshot_installs");
    reveal_strlit("xraft_log_compaction_events");
    reveal_strlit("_total");
    if registered_name(m) == stem + "_total"@ {
        assert((stem + "_total"@).last() == "_total"@.last());
        assert("_total"@[5] == 'l');
        assert(registered_name(m).last() == 's');
    }
}

/// Every metric is registered, and none twice.
pub proof fn law_every_metric_is_registered_once(m: Metric)
    ensures
        registration_order().contains(m),
        registration_order().no_duplicates(),
{
    let order = registration_order();
    let at: int = match m {
        Metric::CurrentTerm => 0,
        Metric::CommitIndex => 1,
        Metric::CurrentLeader => 2,
        Metric::Role => 3,
        Metric::ElectionLatencySeconds => 4,
        Metric::AppendRecords => 5,
        Metric::ReplicationLag => 6,
        Metric::CommitLatencySeconds => 7,
        Metric::FetchRequests => 8,
        Metric::SnapshotInstalls => 9,
        Metric::LogEndOffset => 10,
        Metric::SnapshotDurationSeconds => 11,
        Metric::SnapshotSizeBytes => 12,
        Metric::LogCompactionEvents => 13,
    };
    assert(order[at] == m);
}

/// No two replicas share a label.
pub proof fn law_replica_labels_are_distinct(a: NodeId, b: NodeId)
    requires
        decimal(a.0 as nat) == decimal(b.0 as nat),
    ensures
        a == b,
{
    lemma_numeral_reads_back(a.0 as nat, 10);
    lemma_numeral_reads_back(b.0 as nat, 10);
}

/// A gauge shows every number within its range as it is, and an unknown leader
/// as no leader's id.
pub proof fn law_gauges_are_faithful(n: u64, leader: Option<u64>)
    requires
        leader matches Some(id) ==> id <= i64::MAX,
    ensures
        n <= i64::MAX ==> gauge_value(n) == n,
        leader_gauge(leader) == -1 <==> leader is None,
{
}

/// An observation only sets gauges, increases counters and samples histograms.
pub proof fn law_updates_suit_their_metrics(o: Observation, k: int)
    requires
        0 <= k < updates(o).len(),
    ensures
        match updates(o)[k] {
            MetricUpdate::SetGauge { metric, value } => kind(metric) == MetricKind::Gauge,
            MetricUpdate::Increase { metric, by } => kind(metric) == MetricKind::Counter,
            MetricUpdate::SampleNanos { metric, nanos } => kind(metric) == MetricKind::Histogram,
            MetricUpdate::SampleBytes { metric, bytes } => kind(metric) == MetricKind::Histogram,
            _ => true,
        },
{
}

/// An observation moves the metrics that it is about, and no others: entries are counted
/// one for one, a fetch under its direction, a lag under its replica, a duration as it was
/// measured, a snapshot by its time and its size, and an installation or a compaction as
/// one event. A node that stops leading has no lags to show.
pub proof fn law_observations_move_their_own_metrics(
    n: u64,
    direction: FetchDirection,
    replica: NodeId,
    bytes: u64,
)
    ensures
        updates(Observation::Append(n)) == seq![
            MetricUpdate::Increase { metric: Metric::AppendRecords, by: n },
        ],
        updates(Observation::ElectionWon(n)) == seq![
            MetricUpdate::SampleNanos { metric: Metric::ElectionLatencySeconds, nanos: n },
        ],
        updates(Observation::CommitLatency(n)) == seq![
            MetricUpdate::SampleNanos { metric: Metric::CommitLatencySeconds, nanos: n },
        ],
        updates(Observation::FetchRequest(direction)) == seq![
            MetricUpdate::CountFetch { direction },
        ],
        n <= i64::MAX ==> updates(Observation::ReplicationLag { replica, lag: n }) == seq![
            MetricUpdate::SetLag { replica, value: n as i64 },
        ],
        updates(Observation::LeaderStepDown) == seq![MetricUpdate::ClearLag],
        updates(Observation::SnapshotTaken { bytes, elapsed: n }) == seq![
            MetricUpdate::SampleNanos { metric: Metric::SnapshotDurationSeconds, nanos: n },
            MetricUpdate::SampleBytes { metric: Metric::SnapshotSizeBytes, bytes },
        ],
        updates(Observation::SnapshotInstalled) == seq![
            MetricUpdate::Increase { metric: Metric::SnapshotInstalls, by: 1 },
        ],
        updates(Observation::LogCompacted(n)) == seq![
            MetricUpdate::Increase { metric: Metric::LogCompactionEvents, by: 1 },
        ],
{
}

/// A published status sets each of the five gauges that show it, to the part of the status
/// that the gauge is named after.
pub proof fn law_published_status_sets_its_gauges(status: NodeStatus)
    requires
        status.term <= i64::MAX,
        status.commit_index <= i64::MAX,
        status.last_log_index <= i64::MAX,
        status.leader_id matches Some(id) ==> id <= i64::MAX,
    ensures
        ({
            let set = updates(Observation::Status(status));
            let leader = match status.leader_id {
                Some(id) => id as int,
                None => -1,
            };
            &&& set.len() == 5
            &&& set[0] matches MetricUpdate::SetGauge { metric, value } && metric
                == Metric::CurrentTerm && value == status.term
            &&& set[1] matches MetricUpdate::SetGauge { metric, value } && metric
                == Metric::CommitIndex && value == status.commit_index
            &&& set[2] matches MetricUpdate::SetGauge { metric, value } && metric
                == Metric::CurrentLeader && value == leader
            &&& set[3] matches MetricUpdate::SetGauge { metric, value } && metric == Metric::Role
                && value == match status.role {
                NodeRole::Follower => 0int,
                NodeRole::Candidate => 1,
                NodeRole::PreCandidate => 2,
                NodeRole::Leader => 3,
                NodeRole::Observer => 4,
            }
            &&& set[4] matches MetricUpdate::SetGauge { metric, value } && metric
                == Metric::LogEndOffset && value == status.last_log_index
        }),
{
}

/// What shows a state is a gauge, what counts events is a counter, and what collects
/// durations or sizes is a histogram.
pub proof fn law_metrics_are_of_their_kind(m: Metric)
    ensures
        kind(m) == MetricKind::Gauge <==> m is CurrentTerm || m is CommitIndex || m is CurrentLeader
            || m is Role || m is ReplicationLag || m is LogEndOffset,
        kind(m) == MetricKind::Counter <==> m is AppendRecords || m is FetchRequests || m
            is SnapshotInstalls || m is LogCompactionEvents,
        kind(m) == MetricKind::Histogram <==> m is ElectionLatencySeconds || m
            is CommitLatencySeconds || m is SnapshotDurationSeconds || m is SnapshotSizeBytes,
{
}

} // verus!
