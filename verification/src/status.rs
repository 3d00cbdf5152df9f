//! Snapshot of a node's observable state, as health endpoints and gauges show
//! it.
use vstd::prelude::*;

use crate::types::{NodeId, NodeRole, NodeView};

verus! {

/// Observable state of a node at one moment.
#[derive(Clone, Copy, Debug, PartialEq, Eq, Structural)]
pub struct NodeStatus {
    pub node_id: u64,
    pub role: NodeRole,
    pub term: u64,
    pub commit_index: u64,
    pub last_applied: u64,
    pub leader_id: Option<u64>,
    pub last_log_index: u64,
}

/// The status that an engine's state amounts to.
pub open spec fn status_of(node: &NodeView) -> NodeStatus {
    NodeStatus {
        node_id: node.id.0,
        role: node.role,
        term: node.current_term.0,
        commit_index: node.commit_index.0,
        last_applied: node.last_applied.0,
        leader_id: match node.leader_id {
            Some(id) => Some(id.0),
            None => None,
        },
        last_log_index: node.last_log_index.0,
    }
}

impl NodeStatus {
    /// Status of a node before its engine has reported anything.
    pub fn placeholder(node_id: NodeId) -> (r: NodeStatus)
        ensures
            r == (NodeStatus {
                node_id: node_id.0,
                role: NodeRole::Follower,
                term: 0,
                commit_index: 0,
                last_applied: 0,
                leader_id: None,
                last_log_index: 0,
            }),
    {
        NodeStatus {
            node_id: node_id.0,
            role: NodeRole::Follower,
            term: 0,
            commit_index: 0,
            last_applied: 0,
            leader_id: None,
            last_log_index: 0,
        }
    }

    /// Status of an engine.
    pub fn from_engine(node: &NodeView) -> (r: NodeStatus)
        ensures
            r == status_of(node),
    {
        NodeStatus {
            node_id: node.id.0,
            role: node.role,
            term: node.current_term.0,
            commit_index: node.commit_index.0,
            last_applied: node.last_applied.0,
            leader_id: match node.leader_id {
                Some(id) => Some(id.0),
                None => None,
            },
            last_log_index: node.last_log_index.0,
        }
    }
}

/// Name of a role on the wire.
pub open spec fn role_name(role: NodeRole) -> Seq<char> {
    match role {
        NodeRole::Follower => "follower"@,
        NodeRole::PreCandidate => "pre_candidate"@,
        NodeRole::Candidate => "candidate"@,
        NodeRole::Leader => "leader"@,
        NodeRole::Observer => "observer"@,
    }
}

/// Name of a role on the wire.
pub fn role_to_str(role: NodeRole) -> (r: &'static str)
    ensures
        r@ == role_name(role),
{
    match role {
        NodeRole::Follower => "follower",
        NodeRole::PreCandidate => "pre_candidate",
        NodeRole::Candidate => "candidate",
        NodeRole::Leader => "leader",
        NodeRole::Observer => "observer",
    }
}

/// Number that stands for a role in the role gauge.
pub open spec fn role_code(role: NodeRole) -> i64 {
    match role {
        NodeRole::Follower => 0,
        NodeRole::Candidate => 1,
        NodeRole::PreCandidate => 2,
        NodeRole::Leader => 3,
        NodeRole::Observer => 4,
    }
}

/// Number that stands for a role in the role gauge.
pub fn role_to_gauge(role: NodeRole) -> (r: i64)
    ensures
        r == role_code(role),
{
    match role {
        NodeRole::Follower => 0,
        NodeRole::Candidate => 1,
        NodeRole::PreCandidate => 2,
        NodeRole::Leader => 3,
        NodeRole::Observer => 4,
    }
}

/// Distinct roles have distinct gauge numbers.
pub proof fn law_role_codes_are_distinct(a: NodeRole, b: NodeRole)
    requires
        role_code(a) == role_code(b),
    ensures
        a == b,
{
}

/// Where the latest status can be read, with two counters: how often the
/// configuration has been reloaded, and how many entries have been appended.
#[derive(Clone, Copy, Debug, PartialEq, Eq, Structural)]
pub struct StatusPublisher {
    pub status: NodeStatus,
    pub config_revision: u64,
    pub appended: u64,
}

impl StatusPublisher {
    /// A publisher that shows `initial`.
    pub fn from_status(initial: NodeStatus) -> (r: StatusPublisher)
        ensures
            r == (StatusPublisher { status: initial, config_revision: 0, appended: 0 }),
    {
        StatusPublisher { status: initial, config_revision: 0, appended: 0 }
    }

    /// Shows another status.
    pub fn publish(&mut self, status: NodeStatus)
        ensures
            *final(self) == (StatusPublisher { status, ..*old(self) }),
    {
        self.status = status;
    }

    /// The latest status.
    pub fn current(&self) -> (r: NodeStatus)
        ensures
            r == self.status,
    {
        self.status
    }

    /// How often the configuration has been reloaded.
    pub fn config_revision(&self) -> (r: u64)
        ensures
            r == self.config_revision,
    {
        self.config_revision
    }

    /// Counts a reload, and returns the new count.
    pub fn bump_config_revision(&mut self) -> (r: u64)
        ensures
            *final(self) == (StatusPublisher { config_revision: r, ..*old(self) }),
            r == next_revision(old(self).config_revision),
    {
        self.config_revision = self.config_revision.wrapping_add(1);
        self.config_revision
    }

    /// Counts appended entries.
    pub fn record_appends(&mut self, n: u64)
        ensures
            *final(self) == (StatusPublisher {
                appended: old(self).appended.wrapping_add(n),
                ..*old(self)
            }),
    {
        self.appended = self.appended.wrapping_add(n);
    }
}

/// The count after one more reload. Past the largest number it starts over.
pub open spec fn next_revision(revision: u64) -> u64 {
    if revision == u64::MAX {
        0
    } else {
        (revision + 1) as u64
    }
}

/// A status shows each part of the engine's state under its own name.
pub proof fn law_status_shows_the_node(node: &NodeView)
    ensures
        status_of(node).node_id == node.id.0,
        status_of(node).role == node.role,
        status_of(node).term == node.current_term.0,
        status_of(node).commit_index == node.commit_index.0,
        status_of(node).last_applied == node.last_applied.0,
        status_of(node).last_log_index == node.last_log_index.0,
        status_of(node).leader_id is None <==> node.leader_id is None,
        node.leader_id matches Some(id) ==> status_of(node).leader_id == Some(id.0),
{
}

/// The first character of a role's name, and its length.
spec fn role_shape(role: NodeRole) -> (char, nat) {
    match role {
        NodeRole::Follower => ('f', 8),
        NodeRole::PreCandidate => ('p', 13),
        NodeRole::Candidate => ('c', 9),
        NodeRole::Leader => ('l', 6),
        NodeRole::Observer => ('o', 8),
    }
}

/// Distinct roles have distinct names.
pub proof fn law_role_names_are_distinct(a: NodeRole, b: NodeRole)
    requires
        role_name(a) == role_name(b),
    ensures
        a == b,
{
    reveal_strlit("follower");
    reveal_strlit("pre_candidate");
    reveal_strlit("candidate");
    reveal_strlit("leader");
    reveal_strlit("observer");
    assert(role_name(a)[0] == role_shape(a).0 && role_name(a).len() == role_shape(a).1);
    assert(role_name(b)[0] == role_shape(b).0 && role_name(b).len() == role_shape(b).1);
}

} // verus!
