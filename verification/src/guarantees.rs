//! What callers of the driver can rely on.
use vstd::prelude::*;

use crate::actions::{run_resumed, StepView};
use crate::captured::CapturedView;
use crate::config::FetchDirection;
use crate::driver::{
    event_begun, over, proposed, stepping, taken_up, task_expects, task_resumed, told_then,
    EventView, TaskView, Then,
};
use crate::error::{ErrorView, XRaftError};
use crate::host::{
    is_failure, EffectView, Observation, Outcome, ReplyId, RequestView, StoredChunk,
};
use crate::inbound::{
    good_pieces, handed_out, law_stored_snapshot_is_handed_out_whole, well_stored,
};
use crate::message::{Action, FetchRequest, InputView};
use crate::router::{
    concluded, crc32_of, drained, joined, law_assembly_is_concatenation, law_transfer_round_trip,
    law_transferred_snapshot_is_intact, transfer, OutboundResultView,
};
use crate::safety::{law_failed_call_stops_everything, law_told_only_grows};
use crate::snapshot::take_continue;
use crate::state::StateView;
use crate::types::{voters_view, LogIndex, NodeView, SnapshotMetaView, Term};

verus! {

/// Whether an effect is an answer that reports an error.
pub open spec fn is_error_answer(effect: EffectView) -> bool {
    match effect {
        EffectView::AnswerPropose { reply, result } => result is Err,
        EffectView::RefuseQuery { reply, error } => true,
        EffectView::AnswerSnapshot { reply, result } => result is Err,
        EffectView::AnswerVote { reply, result } => result is Err,
        EffectView::AnswerPreVote { reply, result } => result is Err,
        EffectView::AnswerFetch { reply, result } => result is Err,
        EffectView::AnswerFetchSnapshot { reply, result } => result is Err,
        _ => false,
    }
}

/// A captured error takes the place of any captured answer, and a fetch that
/// ends in one is not counted.
pub proof fn law_error_takes_precedence(node: &NodeView, then: Then, captured: CapturedView)
    requires
        captured.error is Some,
        !(then is Nothing),
    ensures
        told_then(node, then, captured).len() == 1,
        is_error_answer(told_then(node, then, captured)[0]),
{
}

/// A call that fails while another node waits for a vote, or for entries, leaves
/// that node with the error: whatever the engine had granted before is not
/// released.
pub proof fn law_failed_call_is_the_answer(
    state: StateView,
    task: TaskView,
    outcome: Outcome,
    now: u64,
)
    requires
        task_expects(task, outcome),
        is_failure(outcome),
        task matches TaskView::Run { run, then } && !(run.stage is Fetch) && !(then is Nothing),
    ensures
        ({
            let change = task_resumed(state, task, outcome, now);
            &&& change.step is Finished
            &&& change.state.halt is Some
            &&& change.state.told.len() > state.told.len()
            &&& is_error_answer(change.state.told.last())
        }),
{
    if let TaskView::Run { run, then } = task {
        law_failed_call_stops_everything(state, run, outcome, now);
        law_told_only_grows(state, run, outcome, now);
        let done = run_resumed(state, run, outcome, now);
        law_error_takes_precedence(&done.state.node, then, done.run.captured);
    }
}

/// A fetch is counted as received exactly when it came from the leader's own
/// cluster while this node led it, and was answered without an error.
pub proof fn law_counted_fetches_reached_the_leader(
    state: StateView,
    request: FetchRequest,
    reply: ReplyId,
    now: u64,
    later: &NodeView,
    captured: CapturedView,
)
    ensures
        event_begun(state, EventView::Fetch { request, reply }, now).task
            matches TaskView::Engine { origin, then } && (told_then(later, then, captured).contains(
            EffectView::Observe(Observation::FetchRequest(FetchDirection::Received)),
        ) <==> request.cluster_id@ == state.node.cluster_id@ && state.node.leads()
            && captured.error is None),
{
    let counted = request.cluster_id@ == state.node.cluster_id@ && state.node.leads();
    let told = told_then(later, Then::Fetch { reply, counted }, captured);
    if counted && captured.error is None {
        assert(told[0] == EffectView::Observe(
            Observation::FetchRequest(FetchDirection::Received),
        ));
    } else {
        assert(told.len() == 1);
        assert(told[0] is AnswerFetch);
    }
}

/// A transferred snapshot of a higher term makes the node a follower of that
/// term, whoever sent it.
pub proof fn law_higher_term_deposes(state: StateView, result: OutboundResultView, now: u64)
    requires
        result matches OutboundResultView::FetchSnapshot { cluster_id, leader_epoch, .. }
            && cluster_id == state.node.cluster_id@ && leader_epoch > state.node.current_term.0,
    ensures
        event_begun(state, EventView::Outbound(result), now).step == StepView::Ask(
            RequestView::BecomeFollower(Term(result->FetchSnapshot_leader_epoch)),
        ),
        event_begun(state, EventView::Outbound(result), now).state == state,
{
}

/// A transferred snapshot reaches the engine exactly when it is described, of
/// the node's own cluster and term, and from the leader that the node
/// recognises.
pub proof fn law_snapshots_come_from_the_leader(
    state: StateView,
    result: OutboundResultView,
    now: u64,
)
    requires
        result is FetchSnapshot,
    ensures
        (event_begun(state, EventView::Outbound(result), now).step
            matches StepView::Ask(RequestView::StepEngine(_))) <==> (result
            matches OutboundResultView::FetchSnapshot {
            peer,
            cluster_id,
            leader_epoch,
            chunk_count,
            completed,
            metadata,
            data,
        } && cluster_id == state.node.cluster_id@ && leader_epoch == state.node.current_term.0
            && state.node.leader_id == Some(peer) && metadata is Some),
{
}

/// A transferred snapshot of another cluster or of an earlier term, and a failed
/// call, change nothing.
pub proof fn law_stale_transfers_change_nothing(
    state: StateView,
    result: OutboundResultView,
    now: u64,
)
    requires
        result is Error || (result matches OutboundResultView::FetchSnapshot {
            cluster_id,
            leader_epoch,
            ..
        } && (cluster_id != state.node.cluster_id@ || leader_epoch < state.node.current_term.0)),
    ensures
        event_begun(state, EventView::Outbound(result), now) == over(state),
{
}

/// A node that does not lead takes no proposal: the client is told who leads,
/// and the engine hears nothing of it.
pub proof fn law_only_leaders_take_proposals(
    state: StateView,
    command: Seq<u8>,
    reply: ReplyId,
    now: u64,
)
    requires
        !state.node.leads(),
    ensures
        event_begun(state, EventView::Propose { command, reply }, now) == over(
            state.telling(
                seq![
                    EffectView::AnswerPropose {
                        reply,
                        result: Err(ErrorView::NotLeader(state.node.leader_id)),
                    },
                ],
            ),
        ),
{
}

/// A client whose proposal the engine has not taken up is told so at once; it
/// does not wait. One whose proposal was taken up is told nothing yet.
pub proof fn law_only_taken_up_proposals_wait(
    state: StateView,
    before: LogIndex,
    reply: ReplyId,
    actions: Seq<Action>,
    now: u64,
)
    ensures
        !taken_up(before, &state.node, actions) ==> proposed(
            state,
            before,
            reply,
            actions,
            now,
        ).rows == state.rows && proposed(state, before, reply, actions, now).told.last()
            == (EffectView::AnswerPropose {
            reply,
            result: Err(ErrorView::NotLeader(state.node.leader_id)),
        }),
        taken_up(before, &state.node, actions) ==> proposed(
            state,
            before,
            reply,
            actions,
            now,
        ).told == state.told,
{
}

/// An operator's snapshot is refused by a node that does not lead or is taking
/// one; otherwise it is taken of exactly what is committed.
pub proof fn law_operator_snapshots_cover_what_is_committed(
    state: StateView,
    reply: ReplyId,
    now: u64,
)
    ensures
        ({
            let change = event_begun(state, EventView::TriggerSnapshot { reply }, now);
            &&& change.step is Finished <==> !state.node.leads() || state.node.snapshot_in_flight
            &&& change.step is Finished ==> is_error_answer(change.state.told.last())
            &&& !(change.step is Finished) ==> change.step == StepView::Ask(
                RequestView::ReadTerm(state.node.commit_index),
            )
        }),
{
}

/// An operator's snapshot that cannot be taken stops the driver, and the
/// operator is told.
pub proof fn law_failed_operator_snapshot_stops_the_driver(
    state: StateView,
    task: TaskView,
    outcome: Outcome,
    now: u64,
)
    requires
        task_expects(task, outcome),
        task matches TaskView::Take { stage, reply } && take_continue(
            voters_view(state.node.voter_set),
            stage,
            outcome,
        ) is Failed,
    ensures
        ({
            let change = task_resumed(state, task, outcome, now);
            &&& change.step is Finished
            &&& change.state.halt is Some
            &&& is_error_answer(change.state.told.last())
        }),
{
}

/// A snapshot that a leader has stored reaches the engine of its follower byte
/// for byte: read in parts, handed out, put together again, and handed on with
/// the description that it was stored with.
pub proof fn law_snapshots_travel_whole(
    leader: &NodeView,
    pieces: Seq<Result<StoredChunk, XRaftError>>,
    meta: SnapshotMetaView,
    parts: Seq<Seq<u8>>,
    max_bytes: nat,
    follower: StateView,
    now: u64,
)
    requires
        well_stored(pieces, meta, parts),
        0 < parts.len() < u64::MAX,
        joined(parts).len() <= max_bytes,
        meta.size_bytes matches Some(n) ==> n == joined(parts).len(),
        meta.checksum matches Some(c) ==> c == crc32_of(joined(parts)),
        follower.node.cluster_id@ == leader.cluster_id@,
        follower.node.current_term == leader.current_term,
        follower.node.leader_id == Some(leader.id),
    ensures
        ({
            let arrived = drained(max_bytes, good_pieces(handed_out(leader, pieces)));
            let result = concluded(arrived, leader.id, crc32_of(arrived.data));
            event_begun(follower, EventView::Outbound(result), now) == stepping(
                follower,
                InputView::FetchSnapshotReceived { metadata: meta, data: joined(parts) },
                None,
                Then::Nothing,
            )
        }),
{
    let sent = transfer(meta, parts, leader.cluster_id@, leader.current_term.0);
    let crc = crc32_of(joined(parts));
    law_stored_snapshot_is_handed_out_whole(leader, pieces, meta, parts);
    law_transfer_round_trip(
        max_bytes,
        meta,
        parts,
        leader.cluster_id@,
        leader.current_term.0,
        leader.id,
        crc,
    );
    law_assembly_is_concatenation(max_bytes, sent);
    law_transferred_snapshot_is_intact(max_bytes, sent, leader.id, crc);
    assert(drained(max_bytes, sent).data == joined(parts));
}

} // verus!
