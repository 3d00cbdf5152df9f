//! What is recorded of the node's role, its standing, and its replicas.
use vstd::prelude::*;

use crate::host::{EffectView, Observation, Outbox};
use crate::status::{status_of, NodeStatus};
use crate::types::{NodeRole, NodeView, PeerProgress};
use crate::waiters::elapsed;

verus! {

/// The role at the latest look, and when the node entered the candidate role, by
/// the host's clock in nanoseconds. There is no such time in any other role, nor
/// for a node that was a candidate before it was first looked at.
#[derive(Clone, Copy, Debug, PartialEq, Eq, Structural)]
pub struct RoleTracker {
    pub prev_role: NodeRole,
    pub candidate_entered_at: Option<u64>,
}

/// When the node entered the candidate role, where it is in that role: now, if it
/// was in another role at the latest look.
pub open spec fn candidate_since(t: RoleTracker, role: NodeRole, now: u64) -> Option<u64> {
    if !(role is Candidate) {
        None
    } else if t.prev_role is Candidate {
        t.candidate_entered_at
    } else {
        Some(now)
    }
}

/// Whether the node has come to lead since the latest look.
pub open spec fn has_won(t: RoleTracker, role: NodeRole) -> bool {
    role is Leader && !(t.prev_role is Leader)
}

/// The tracker after a look at the node.
pub open spec fn seen_as(t: RoleTracker, role: NodeRole, now: u64) -> RoleTracker {
    RoleTracker { prev_role: role, candidate_entered_at: candidate_since(t, role, now) }
}

/// How long a won election took: the time since the node entered the candidate
/// role, and nothing if it went through that role between two looks.
pub open spec fn election_time(t: RoleTracker, now: u64) -> u64 {
    match t.candidate_entered_at {
        Some(since) => elapsed(since, now),
        None => 0,
    }
}

/// How far a replica is behind the end of the leader's log.
pub open spec fn lag_of(node: &NodeView, peer: PeerProgress) -> u64 {
    if node.last_log_index.0 >= peer.last_fetch_offset.0 {
        (node.last_log_index.0 - peer.last_fetch_offset.0) as u64
    } else {
        0
    }
}

/// One observation for each replica of a leader.
pub open spec fn lags(node: &NodeView) -> Seq<EffectView> {
    node.peers@.map_values(
        |p: PeerProgress|
            EffectView::Observe(
                Observation::ReplicationLag { replica: p.id, lag: lag_of(node, p) },
            ),
    )
}

/// What is recorded at a look at the node: a won election with how long it took,
/// then the node's status, then the lag of its replicas if it leads.
pub open spec fn recorded(t: RoleTracker, node: &NodeView, now: u64) -> Seq<EffectView> {
    (if has_won(t, node.role) {
        seq![
            EffectView::Observe(Observation::ElectionWon(election_time(t, now))),
        ]
    } else {
        seq![]
    }) + seq![EffectView::Observe(Observation::Status(status_of(node)))] + (if node.leads() {
        lags(node)
    } else {
        seq![]
    })
}

impl RoleTracker {
    /// The tracker of a driver that has just been built around an engine.
    pub fn new(node: &NodeView) -> (r: RoleTracker)
        ensures
            r == (RoleTracker { prev_role: node.role, candidate_entered_at: None }),
    {
        RoleTracker { prev_role: node.role, candidate_entered_at: None }
    }

    /// Looks at the node and records what there is to record.
    pub fn record_role_transition_observations(
        &mut self,
        node: &NodeView,
        now: u64,
        outbox: &mut Outbox,
    )
        ensures
            *final(self) == seen_as(*old(self), node.role, now),
            final(outbox)@ == old(outbox)@ + recorded(*old(self), node, now),
    {
        let ghost start = outbox@;
        let ghost before = *self;
        let role: NodeRole = node.role;
        if role == NodeRole::Leader && self.prev_role != NodeRole::Leader {
            let took: u64 = match self.candidate_entered_at {
                Some(since) => if now >= since {
                    now - since
                } else {
                    0
                },
                None => 0,
            };
            outbox.observe(Observation::ElectionWon(took));
        }
        if role != NodeRole::Candidate {
            self.candidate_entered_at = None;
        } else if self.prev_role != NodeRole::Candidate {
            self.candidate_entered_at = Some(now);
        }
        self.prev_role = role;
        outbox.observe(Observation::Status(NodeStatus::from_engine(node)));
        let ghost head = outbox@;
        if node.is_leader() {
            let mut i: usize = 0;
            assert(head =~= head + lags(node).take(0));
            while i < node.peers.len()
                invariant
                    i <= node.peers.len(),
                    outbox@ == head + lags(node).take(i as int),
                decreases node.peers.len() - i,
            {
                let peer: PeerProgress = node.peers[i];
                let lag: u64 = node.last_log_index.0.saturating_sub(peer.last_fetch_offset.0);
                outbox.observe(Observation::ReplicationLag { replica: peer.id, lag });
                assert(outbox@ =~= head + lags(node).take(i + 1));
                i = i + 1;
            }
            assert(lags(node).take(i as int) =~= lags(node));
        }
        assert(outbox@ =~= start + recorded(before, node, now));
    }
}

/// A won election is recorded once: at the next look at a node that still leads
/// it is not recorded again.
pub proof fn law_election_is_recorded_once(t: RoleTracker, role: NodeRole, now: u64)
    ensures
        !has_won(seen_as(t, role, now), role),
{
}

/// Only a candidate has a time at which it became one, so that no later election
/// is measured from an old candidacy.
pub proof fn law_no_stale_candidacy(t: RoleTracker, role: NodeRole, now: u64)
    ensures
        !(role is Candidate) ==> seen_as(t, role, now).candidate_entered_at is None,
{
}

/// The looks at a node that stays in the candidate role, at the given times.
pub open spec fn seen_as_candidate(t: RoleTracker, times: Seq<u64>) -> RoleTracker
    decreases times.len(),
{
    if times.len() == 0 {
        t
    } else {
        seen_as(seen_as_candidate(t, times.drop_last()), NodeRole::Candidate, times.last())
    }
}

/// A won election is measured from the look at which the node was first seen as a
/// candidate, however often it was looked at in between, and whatever role it had
/// before: what a trial vote takes is not part of it.
pub proof fn law_election_is_measured_from_candidacy(
    t: RoleTracker,
    entered: u64,
    between: Seq<u64>,
    node: &NodeView,
    won: u64,
)
    requires
        !(t.prev_role is Candidate),
        node.role is Leader,
    ensures
        recorded(
            seen_as_candidate(seen_as(t, NodeRole::Candidate, entered), between),
            node,
            won,
        )[0] == EffectView::Observe(Observation::ElectionWon(elapsed(entered, won))),
{
    lemma_candidacy_goes_on(seen_as(t, NodeRole::Candidate, entered), between);
}

/// A node that stays in the candidate role keeps the time at which it entered it.
proof fn lemma_candidacy_goes_on(t: RoleTracker, times: Seq<u64>)
    requires
        t.prev_role is Candidate,
    ensures
        seen_as_candidate(t, times) == t,
    decreases times.len(),
{
    if times.len() > 0 {
        lemma_candidacy_goes_on(t, times.drop_last());
    }
}

/// An election that is won between two looks, with no candidacy seen, is recorded
/// with no time.
pub proof fn law_unseen_candidacy_takes_no_time(
    t: RoleTracker,
    before: NodeRole,
    seen: u64,
    node: &NodeView,
    won: u64,
)
    requires
        !(before is Candidate),
        !(before is Leader),
        node.role is Leader,
    ensures
        recorded(seen_as(t, before, seen), node, won)[0] == EffectView::Observe(
            Observation::ElectionWon(0),
        ),
{
}

/// Only a leader records how far its replicas are behind, once for each of them,
/// and never less than nothing.
pub proof fn law_only_leaders_record_lag(t: RoleTracker, node: &NodeView, now: u64, k: int)
    requires
        0 <= k < recorded(t, node, now).len(),
        recorded(t, node, now)[k] matches EffectView::Observe(Observation::ReplicationLag { .. }),
    ensures
        node.leads(),
        exists|i: int|
            0 <= i < node.peers@.len() && recorded(t, node, now)[k] == EffectView::Observe(
                Observation::ReplicationLag {
                    replica: (#[trigger] node.peers@[i]).id,
                    lag: lag_of(node, node.peers@[i]),
                },
            ),
{
    let head: int = if has_won(t, node.role) {
        2
    } else {
        1
    };
    if k >= head {
        assert(recorded(t, node, now)[k] == lags(node)[k - head]);
        assert(node.peers@[k - head].id == node.peers@[k - head].id);
    }
}

/// A won election is recorded exactly when the node leads and did not lead at the look
/// before, and nothing is recorded before it.
pub proof fn law_election_is_recorded_when_won(t: RoleTracker, node: &NodeView, now: u64)
    ensures
        ({
            let told = recorded(t, node, now);
            let won = node.role is Leader && !(t.prev_role is Leader);
            &&& won <==> (told[0] matches EffectView::Observe(Observation::ElectionWon(_)))
            &&& told[if won {
                1int
            } else {
                0
            }] == EffectView::Observe(
                Observation::Status(
                    NodeStatus {
                        node_id: node.id.0,
                        role: node.role,
                        term: node.current_term.0,
                        commit_index: node.commit_index.0,
                        last_applied: node.last_applied.0,
                        leader_id: match node.leader_id {
                            Some(id) => Some(id.0),
                            None => None,
                        },
                        last_log_index: node.last_log_index.0,
                    },
                ),
            )
            &&& told.len() == (if won {
                2int
            } else {
                1
            }) + (if node.role is Leader {
                node.peers@.len() as int
            } else {
                0
            })
        }),
{
}

/// The lag that a leader records for a replica is the number of entries between the
/// replica's latest offset and the end of the leader's log, and zero if the replica is
/// ahead; the replicas come in the order of the node's rows.
pub proof fn law_lag_is_counted_from_the_end_of_the_log(
    t: RoleTracker,
    node: &NodeView,
    now: u64,
    i: int,
)
    requires
        node.role is Leader,
        0 <= i < node.peers@.len(),
    ensures
        ({
            let told = recorded(t, node, now);
            let p = node.peers@[i];
            told[told.len() - node.peers@.len() + i] matches EffectView::Observe(
                Observation::ReplicationLag { replica, lag },
            ) && replica == p.id && (node.last_log_index.0 >= p.last_fetch_offset.0 ==> lag
                + p.last_fetch_offset.0 == node.last_log_index.0) && (node.last_log_index.0
                < p.last_fetch_offset.0 ==> lag == 0)
        }),
{
}

/// The tracker remembers the role that it has seen. A candidate that was none before
/// entered its candidacy now; one that was a candidate already keeps its time.
pub proof fn law_tracker_remembers_the_role(t: RoleTracker, role: NodeRole, now: u64)
    ensures
        seen_as(t, role, now).prev_role == role,
        role is Candidate && !(t.prev_role is Candidate) ==> seen_as(
            t,
            role,
            now,
        ).candidate_entered_at == Some(now),
        role is Candidate && t.prev_role is Candidate ==> seen_as(t, role, now).candidate_entered_at
            == t.candidate_entered_at,
{
}

/// The time of an election is what the clock has counted since the candidacy began, and
/// nothing if the clock ran backwards.
pub proof fn law_election_time_is_the_time_since_candidacy(
    t: RoleTracker,
    node: &NodeView,
    since: u64,
    now: u64,
)
    requires
        node.role is Leader,
        t == (RoleTracker { prev_role: NodeRole::Candidate, candidate_entered_at: Some(since) }),
    ensures
        recorded(t, node, now)[0] matches EffectView::Observe(Observation::ElectionWon(took)) && (
        now >= since ==> took == now - since) && (now < since ==> took == 0),
{
}

} // verus!
