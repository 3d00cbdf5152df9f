//! Decisions of the operator-facing HTTP endpoint.
use vstd::prelude::*;
use vstd::string::*;

use crate::config::TriggeredSnapshotInfo;
use crate::error::{error_text, ErrorView, XRaftError};
use crate::status::{role_name, role_to_str, NodeStatus};
use crate::text::prefixed;
use crate::types::NodeId;

verus! {

/// Cluster-level metadata shown to operators.
#[derive(Clone, Debug)]
pub struct ClusterInfo {
    /// Operator-assigned cluster identifier.
    pub cluster_id: String,
    /// Voter ids in roster order.
    pub voters: Vec<u64>,
}

impl ClusterInfo {
    /// Metadata of a cluster with the given id and voter roster.
    pub fn from_cluster_config(cluster_id: &String, voters: &Vec<NodeId>) -> (r: ClusterInfo)
        ensures
            r.cluster_id@ == cluster_id@,
            r.voters@ == voters@.map_values(|v: NodeId| v.0),
    {
        let mut ids: Vec<u64> = Vec::new();
        let mut i: usize = 0;
        while i < voters.len()
            invariant
                i <= voters.len(),
                ids@ == voters@.take(i as int).map_values(|v: NodeId| v.0),
            decreases voters.len() - i,
        {
            ids.push(voters[i].0);
            i = i + 1;
            assert(ids@ =~= voters@.take(i as int).map_values(|v: NodeId| v.0));
        }
        assert(voters@.take(i as int) =~= voters@);
        ClusterInfo { cluster_id: cluster_id.clone(), voters: ids }
    }
}

/// Answer to a status request: the node's state, then the cluster's metadata.
#[derive(Debug)]
pub struct AdminStatusResponse<'a> {
    pub node_id: u64,
    pub role: &'static str,
    pub term: u64,
    pub commit_index: u64,
    pub last_applied: u64,
    pub leader_id: Option<u64>,
    pub last_log_index: u64,
    pub cluster_id: &'a str,
    pub voters: &'a [u64],
}

impl<'a> AdminStatusResponse<'a> {
    /// Combines a node's state with the cluster's metadata.
    pub fn from_parts(status: &NodeStatus, cluster: &'a ClusterInfo) -> (r: Self)
        ensures
            r.node_id == status.node_id,
            r.role@ == role_name(status.role),
            r.term == status.term,
            r.commit_index == status.commit_index,
            r.last_applied == status.last_applied,
            r.leader_id == status.leader_id,
            r.last_log_index == status.last_log_index,
            r.cluster_id@ == cluster.cluster_id@,
            r.voters@ == cluster.voters@,
    {
        AdminStatusResponse {
            node_id: status.node_id,
            role: role_to_str(status.role),
            term: status.term,
            commit_index: status.commit_index,
            last_applied: status.last_applied,
            leader_id: status.leader_id,
            last_log_index: status.last_log_index,
            cluster_id: cluster.cluster_id.as_str(),
            voters: cluster.voters.as_slice(),
        }
    }
}

/// Configuration of the admin listener.
#[derive(Clone, Debug)]
pub struct AdminConfig {
    /// `host:port` to bind.
    pub listen_addr: String,
}

impl AdminConfig {
    /// Configuration that listens on `listen_addr`.
    pub fn new<S: Into<String>>(listen_addr: S) -> (r: AdminConfig)
        ensures
            call_ensures(S::into, (listen_addr,), r.listen_addr),
    {
        AdminConfig { listen_addr: listen_addr.into() }
    }
}

/// Answer to a health request: the node's state and how often its configuration
/// has been reloaded.
#[derive(Clone, Copy, Debug)]
pub struct HealthResponse {
    pub node_id: u64,
    pub role: &'static str,
    pub term: u64,
    pub commit_index: u64,
    pub last_applied: u64,
    pub leader_id: Option<u64>,
    pub last_log_index: u64,
    pub config_revision: u64,
}

impl HealthResponse {
    /// Combines a node's state with its configuration's revision.
    pub fn from_parts(status: &NodeStatus, config_revision: u64) -> (r: HealthResponse)
        ensures
            r.node_id == status.node_id,
            r.role@ == role_name(status.role),
            r.term == status.term,
            r.commit_index == status.commit_index,
            r.last_applied == status.last_applied,
            r.leader_id == status.leader_id,
            r.last_log_index == status.last_log_index,
            r.config_revision == config_revision,
    {
        HealthResponse {
            node_id: status.node_id,
            role: role_to_str(status.role),
            term: status.term,
            commit_index: status.commit_index,
            last_applied: status.last_applied,
            leader_id: status.leader_id,
            last_log_index: status.last_log_index,
            config_revision,
        }
    }
}

/// What a mutating request is answered with.
#[derive(Debug, PartialEq, Eq)]
pub enum AdminBody {
    /// The snapshot was taken.
    Taken(TriggeredSnapshotInfo),
    /// The request failed.
    Error { error: String },
    /// The request must go to another node.
    Elsewhere { error: String, leader_hint: Option<u64> },
    /// The request is never served.
    Unsupported { error: String, code: &'static str },
}

/// What an [`AdminBody`] says.
#[verifier::ext_equal]
pub enum AdminBodyView {
    Taken(TriggeredSnapshotInfo),
    Error { error: Seq<char> },
    Elsewhere { error: Seq<char>, leader_hint: Option<u64> },
    Unsupported { error: Seq<char>, code: Seq<char> },
}

impl View for AdminBody {
    type V = AdminBodyView;

    open spec fn view(&self) -> AdminBodyView {
        match self {
            AdminBody::Taken(info) => AdminBodyView::Taken(*info),
            AdminBody::Error { error } => AdminBodyView::Error { error: error@ },
            AdminBody::Elsewhere { error, leader_hint } => AdminBodyView::Elsewhere {
                error: error@,
                leader_hint: *leader_hint,
            },
            AdminBody::Unsupported { error, code } => AdminBodyView::Unsupported {
                error: error@,
                code: code@,
            },
        }
    }
}

/// An HTTP status and a body.
#[derive(Debug, PartialEq, Eq)]
pub struct AdminReply {
    pub status: u16,
    pub body: AdminBody,
}

/// What an [`AdminReply`] says.
#[verifier::ext_equal]
pub struct AdminReplyView {
    pub status: u16,
    pub body: AdminBodyView,
}

impl View for AdminReply {
    type V = AdminReplyView;

    open spec fn view(&self) -> AdminReplyView {
        AdminReplyView { status: self.status, body: self.body@ }
    }
}

/// A reply that reports a failure.
pub open spec fn failing(status: u16, error: Seq<char>) -> AdminReplyView {
    AdminReplyView { status, body: AdminBodyView::Error { error } }
}

/// The reply to a request for a snapshot, from what the driver made of it. Without
/// a driver there is nothing to be made of it.
pub open spec fn snapshot_reply(
    outcome: Option<Result<TriggeredSnapshotInfo, ErrorView>>,
) -> AdminReplyView {
    match outcome {
        None => failing(
            503,
            "admin server built without a driver handle; trigger-snapshot unavailable"@,
        ),
        Some(Ok(info)) => AdminReplyView { status: 200, body: AdminBodyView::Taken(info) },
        Some(Err(ErrorView::NotLeader(hint))) => AdminReplyView {
            status: 409,
            body: AdminBodyView::Elsewhere {
                error: "not leader; retry against the cluster leader"@,
                leader_hint: match hint {
                    Some(id) => Some(id.0),
                    None => None,
                },
            },
        },
        Some(Err(ErrorView::Config(msg))) => failing(409, msg),
        Some(Err(ErrorView::Shutdown)) => failing(
            503,
            "driver is shutting down; retry against another node"@,
        ),
        Some(Err(ErrorView::Transport(msg))) => failing(503, "driver transport error: "@ + msg),
        Some(Err(e)) => failing(500, error_text(e)),
    }
}

/// What a request for a snapshot came to.
pub open spec fn outcome_view(
    outcome: Option<Result<TriggeredSnapshotInfo, XRaftError>>,
) -> Option<Result<TriggeredSnapshotInfo, ErrorView>> {
    match outcome {
        None => None,
        Some(Ok(info)) => Some(Ok(info)),
        Some(Err(e)) => Some(Err(e@)),
    }
}

/// Replies to a request for a snapshot.
pub fn trigger_snapshot_reply(
    outcome: Option<Result<TriggeredSnapshotInfo, XRaftError>>,
) -> (r: AdminReply)
    ensures
        r@ == snapshot_reply(outcome_view(outcome)),
{
    match outcome {
        None => AdminReply {
            status: 503,
            body: AdminBody::Error {
                error:
                    "admin server built without a driver handle; trigger-snapshot unavailable".to_owned(),
            },
        },
        Some(Ok(info)) => AdminReply { status: 200, body: AdminBody::Taken(info) },
        Some(Err(e)) => match e {
            XRaftError::NotLeader { leader_hint } => AdminReply {
                status: 409,
                body: AdminBody::Elsewhere {
                    error: "not leader; retry against the cluster leader".to_owned(),
                    leader_hint: match leader_hint {
                        Some(id) => Some(id.0),
                        None => None,
                    },
                },
            },
            XRaftError::Config(msg) => AdminReply {
                status: 409,
                body: AdminBody::Error { error: msg },
            },
            XRaftError::Shutdown => AdminReply {
                status: 503,
                body: AdminBody::Error {
                    error: "driver is shutting down; retry against another node".to_owned(),
                },
            },
            XRaftError::Transport(msg) => AdminReply {
                status: 503,
                body: AdminBody::Error {
                    error: prefixed("driver transport error: ", msg.as_str()),
                },
            },
            other => AdminReply { status: 500, body: AdminBody::Error { error: other.text() } },
        },
    }
}

/// A change of the cluster's membership.
#[derive(Clone, Copy, Debug, PartialEq, Eq, Structural)]
pub enum MembershipChange {
    AddVoter,
    RemoveVoter,
}

/// Why a change of the membership is never made.
pub open spec fn membership_text(change: MembershipChange) -> Seq<char> {
    (match change {
        MembershipChange::AddVoter => "AddVoter"@,
        MembershipChange::RemoveVoter => "RemoveVoter"@,
    })
        + " is out of scope for v1 — dynamic cluster membership is deferred to a future story entirely. The voter set is static after first boot; restart the cluster with a different configuration to change membership."@
}

/// Why a change of the membership is never made.
fn membership_refusal(change: MembershipChange) -> (r: String)
    ensures
        r@ == membership_text(change),
{
    let name: &str = match change {
        MembershipChange::AddVoter => "AddVoter",
        MembershipChange::RemoveVoter => "RemoveVoter",
    };
    prefixed(
        name,
        " is out of scope for v1 — dynamic cluster membership is deferred to a future story entirely. The voter set is static after first boot; restart the cluster with a different configuration to change membership.",
    )
}

/// The error with which a change of the membership is refused.
pub fn unsupported_membership(change: MembershipChange) -> (r: XRaftError)
    ensures
        r@ == ErrorView::Unsupported(membership_text(change)),
{
    XRaftError::Unsupported(membership_refusal(change))
}

/// Replies to a request to change the membership, whatever the state of the
/// node.
pub fn membership_reply(change: MembershipChange) -> (r: AdminReply)
    ensures
        r@ == (AdminReplyView {
            status: 501,
            body: AdminBodyView::Unsupported {
                error: membership_text(change),
                code: "UNSUPPORTED"@,
            },
        }),
{
    AdminReply {
        status: 501,
        body: AdminBody::Unsupported { error: membership_refusal(change), code: "UNSUPPORTED" },
    }
}

/// The error for a listen address that is none.
pub fn bad_listen_addr(listen_addr: &str, detail: &str) -> (r: XRaftError)
    ensures
        r@ == ErrorView::Config(
            "admin listen_addr '"@ + listen_addr@ + "' must parse as host:port: "@ + detail@,
        ),
{
    let mut msg = prefixed("admin listen_addr '", listen_addr);
    msg.append("' must parse as host:port: ");
    msg.append(detail);
    XRaftError::Config(msg)
}

/// The error for a listen address that cannot be had.
pub fn bind_failed(listen_addr: &str, detail: &str) -> (r: XRaftError)
    ensures
        r@ == ErrorView::Config(
            "admin listener bind '"@ + listen_addr@ + "' failed: "@ + detail@,
        ),
{
    let mut msg = prefixed("admin listener bind '", listen_addr);
    msg.append("' failed: ");
    msg.append(detail);
    XRaftError::Config(msg)
}

/// The error for a listener that does not know its own address.
pub fn local_addr_failed(detail: &str) -> (r: XRaftError)
    ensures
        r@ == ErrorView::Config("admin listener local_addr query failed: "@ + detail@),
{
    XRaftError::Config(prefixed("admin listener local_addr query failed: ", detail))
}

/// How the listener's task has ended.
#[derive(Clone, Debug)]
pub enum ServeEnd {
    /// It was asked to stop.
    Stopped,
    /// It could not go on serving.
    Failed(String),
    /// It was aborted, or it panicked.
    Lost(String),
}

/// What the end of the listener's task means for those who wait for it.
pub fn join_result(end: ServeEnd) -> (r: Result<(), XRaftError>)
    ensures
        match end {
            ServeEnd::Stopped => r is Ok,
            ServeEnd::Failed(e) => r matches Err(x) && x@ == ErrorView::Transport(
                "admin serve error: "@ + e@,
            ),
            ServeEnd::Lost(e) => r matches Err(x) && x@ == ErrorView::Transport(
                "admin serve task join error: "@ + e@,
            ),
        },
{
    match end {
        ServeEnd::Stopped => Ok(()),
        ServeEnd::Failed(e) => Err(
            XRaftError::Transport(prefixed("admin serve error: ", e.as_str())),
        ),
        ServeEnd::Lost(e) => Err(
            XRaftError::Transport(prefixed("admin serve task join error: ", e.as_str())),
        ),
    }
}

/// The status tells an operator what to do: `200` if the snapshot was taken, `409`
/// to go elsewhere or come back later, `503` if the node cannot be asked, and
/// `500` if the snapshot failed.
pub proof fn law_snapshot_status_tells_what_happened(
    outcome: Option<Result<TriggeredSnapshotInfo, ErrorView>>,
)
    ensures
        snapshot_reply(outcome).status == 200 <==> outcome matches Some(Ok(_)),
        snapshot_reply(outcome).status == 409 <==> (outcome matches Some(Err(e)) && (e is NotLeader
            || e is Config)),
        snapshot_reply(outcome).status == 503 <==> (outcome is None || (outcome matches Some(Err(e))
            && (e is Shutdown || e is Transport))),
        snapshot_reply(outcome).status == 200 || snapshot_reply(outcome).status == 409
            || snapshot_reply(outcome).status == 503 || snapshot_reply(outcome).status == 500,
{
}

/// An operator is told of the very snapshot that was taken, is sent to the very node that is
/// known to lead, and reads the very text of any other error.
pub proof fn law_snapshot_reply_passes_on_what_happened(
    info: TriggeredSnapshotInfo,
    hint: Option<NodeId>,
    e: ErrorView,
)
    ensures
        snapshot_reply(Some(Ok(info))).body == AdminBodyView::Taken(info),
        snapshot_reply(Some(Err(ErrorView::NotLeader(hint)))).body
            matches AdminBodyView::Elsewhere { error, leader_hint } && (leader_hint is None
            <==> hint is None) && (hint matches Some(id) ==> leader_hint == Some(id.0)),
        e matches ErrorView::Config(msg) ==> snapshot_reply(Some(Err(e))).body
            == (AdminBodyView::Error { error: msg }),
        !(e is NotLeader) && !(e is Config) && !(e is Shutdown) && !(e is Transport)
            ==> snapshot_reply(Some(Err(e))) == (AdminReplyView {
            status: 500,
            body: AdminBodyView::Error { error: error_text(e) },
        }),
{
}

/// A node that cannot be asked says so: without a driver, while it shuts down, and where the
/// transport failed with that failure's own text.
pub proof fn law_unreachable_driver_is_worded(msg: Seq<char>)
    ensures
        snapshot_reply(None) == (AdminReplyView {
            status: 503,
            body: AdminBodyView::Error {
                error: "admin server built without a driver handle; trigger-snapshot unavailable"@,
            },
        }),
        snapshot_reply(Some(Err(ErrorView::Shutdown))) == (AdminReplyView {
            status: 503,
            body: AdminBodyView::Error {
                error: "driver is shutting down; retry against another node"@,
            },
        }),
        snapshot_reply(Some(Err(ErrorView::Transport(msg)))) == (AdminReplyView {
            status: 503,
            body: AdminBodyView::Error { error: "driver transport error: "@ + msg },
        }),
{
}

/// A refused change of the membership names the change.
pub proof fn law_refused_change_is_named(change: MembershipChange)
    ensures
        change is AddVoter ==> "AddVoter"@.is_prefix_of(membership_text(change)),
        change is RemoveVoter ==> "RemoveVoter"@.is_prefix_of(membership_text(change)),
{
}

} // verus!
