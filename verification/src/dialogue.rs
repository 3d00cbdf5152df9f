//! Who hears what: how calls, answers and clients' wishes reach the engine, and how
//! what the engine says reaches those who wait for it.
use vstd::prelude::*;

use crate::actions::{
    action_started, halted, list_done, message_out, run_expects, run_resumed, run_step, unwound,
    FrameView, RunView, StageView, StepView,
};
use crate::apply::{apply_continue, ApplyNextView};
use crate::captured::{merged, nothing_captured, CapturedView};
use crate::config::{FetchDirection, TriggeredSnapshotInfo};
use crate::driver::{
    event_begun, task_resumed, told_then, EventView, TaskChange, TaskView, Then,
};
use crate::error::{error_text, ErrorView, XRaftError};
use crate::host::{EffectView, Observation, Outcome, ReplyId, RequestView, StoredChunk};
use crate::inbound::{handed_out, member, snapshot_verdict, SnapshotVerdictView};
use crate::journey::{
    after_outcome, after_step, event_run, lemma_asked, lemma_ended, lemma_stepped,
};
use crate::message::{
    Action, FetchRequest, FetchResponse, FetchResponseView, FetchSnapshotRequest, InputView,
    OutboundMessage, OutboundMessageView, PreVoteRequest, PreVoteResponse, SnapshotRedirectView,
    VoteRequest, VoteResponse,
};
use crate::reads::ReadAdmission;
use crate::router::{fetch_ended, pre_vote_ended, vote_ended, OutboundResultView};
use crate::snapshot::{
    install_continue, take_continue, InstallNextView, TakeNextView, TakeStageView,
};
use crate::state::StateView;
use crate::stored::known_voters;
use crate::types::{
    canonical_id, index_text, Entry, LogIndex, NodeId, NodeView, SnapshotMeta, SnapshotMetaView,
    Term,
};
use crate::waiters::{
    law_first_waiter_gets_a_row, law_given_up_entries_are_by_index, reply_ids, reply_ids_at_all,
    rows_wf, with_waiter, RowView,
};

verus! {

/// The engine is handed an input, and nothing else happens yet. Its actions will be
/// done for the given caller, if any.
pub open spec fn handed_over(
    state: StateView,
    input: InputView,
    origin: Option<NodeId>,
    then: Then,
) -> TaskChange {
    TaskChange {
        state,
        task: TaskView::Engine { origin, then },
        step: StepView::Ask(RequestView::StepEngine(input)),
    }
}

/// Whatever another node answers to a vote, a trial vote or a fetch reaches the
/// engine, unchanged and under the name of the node that answered, in every state of
/// the driver.
pub proof fn law_answers_of_other_nodes_reach_the_engine(
    state: StateView,
    peer: NodeId,
    vote: VoteResponse,
    pre_vote: PreVoteResponse,
    fetch: FetchResponseView,
    now: u64,
)
    ensures
        event_begun(
            state,
            EventView::Outbound(OutboundResultView::Vote { peer, response: vote }),
            now,
        ) == handed_over(
            state,
            InputView::VoteResponse { from: peer, response: vote },
            None,
            Then::Nothing,
        ),
        event_begun(
            state,
            EventView::Outbound(OutboundResultView::PreVote { peer, response: pre_vote }),
            now,
        ) == handed_over(
            state,
            InputView::PreVoteResponse { from: peer, response: pre_vote },
            None,
            Then::Nothing,
        ),
        event_begun(
            state,
            EventView::Outbound(OutboundResultView::Fetch { peer, response: fetch }),
            now,
        ) == handed_over(state, InputView::FetchResponse(fetch), None, Then::Nothing),
{
}

/// A transferred snapshot that the node takes up reaches the engine as it was
/// transferred.
pub proof fn law_transferred_snapshot_reaches_the_engine(
    state: StateView,
    peer: NodeId,
    chunk_count: u64,
    completed: bool,
    metadata: SnapshotMetaView,
    data: Seq<u8>,
    now: u64,
)
    requires
        state.node.leader_id == Some(peer),
    ensures
        event_begun(
            state,
            EventView::Outbound(
                OutboundResultView::FetchSnapshot {
                    peer,
                    cluster_id: state.node.cluster_id@,
                    leader_epoch: state.node.current_term.0,
                    chunk_count,
                    completed,
                    metadata: Some(metadata),
                    data,
                },
            ),
            now,
        ) == handed_over(
            state,
            InputView::FetchSnapshotReceived { metadata, data },
            None,
            Then::Nothing,
        ),
{
}

/// A transferred snapshot of the node's own cluster and of a higher term is not taken up: the
/// engine is made a follower of that term, what it asks for then is done, and nobody waits for
/// it.
pub proof fn law_transfer_of_a_higher_term_deposes(
    state: StateView,
    peer: NodeId,
    leader_epoch: u64,
    chunk_count: u64,
    completed: bool,
    metadata: Option<SnapshotMetaView>,
    data: Seq<u8>,
    now: u64,
)
    requires
        leader_epoch > state.node.current_term.0,
    ensures
        event_begun(
            state,
            EventView::Outbound(
                OutboundResultView::FetchSnapshot {
                    peer,
                    cluster_id: state.node.cluster_id@,
                    leader_epoch,
                    chunk_count,
                    completed,
                    metadata,
                    data,
                },
            ),
            now,
        ) == (TaskChange {
            state,
            task: TaskView::Engine { origin: None, then: Then::Nothing },
            step: StepView::Ask(RequestView::BecomeFollower(Term(leader_epoch))),
        }),
{
}

/// Whatever another node asks for in a vote, a trial vote or a fetch reaches the
/// engine unchanged, in every state of the driver, and the node that asks is the one
/// whose answer is looked out for.
pub proof fn law_calls_of_other_nodes_reach_the_engine(
    state: StateView,
    vote: VoteRequest,
    pre_vote: PreVoteRequest,
    fetch: FetchRequest,
    reply: ReplyId,
    now: u64,
)
    ensures
        event_begun(state, EventView::Vote { request: vote, reply }, now) == handed_over(
            state,
            InputView::VoteRequest(vote),
            Some(vote.candidate_id),
            Then::Vote { reply },
        ),
        event_begun(state, EventView::PreVote { request: pre_vote, reply }, now) == handed_over(
            state,
            InputView::PreVoteRequest(pre_vote),
            Some(pre_vote.candidate_id),
            Then::PreVote { reply },
        ),
        event_begun(state, EventView::Fetch { request: fetch, reply }, now) == handed_over(
            state,
            InputView::FetchRequest(fetch),
            Some(fetch.replica_id),
            Then::Fetch {
                reply,
                counted: fetch.cluster_id@ == state.node.cluster_id@ && state.node.role is Leader,
            },
        ),
{
}

/// The passing of time reaches the engine, and at the start the engine is asked for
/// what is committed and not applied yet.
pub proof fn law_time_and_start_reach_the_engine(state: StateView, now: u64)
    ensures
        event_begun(state, EventView::Tick, now) == handed_over(
            state,
            InputView::Tick,
            None,
            Then::Nothing,
        ),
        event_begun(state, EventView::Startup, now) == (TaskChange {
            state,
            task: TaskView::Engine { origin: None, then: Then::Nothing },
            step: StepView::Ask(RequestView::ApplyCommitted),
        }),
{
}

/// Everything that the engine asks for after an input is taken up, in the engine's
/// order and for the caller that the input came from; the engine's node is taken
/// over.
pub proof fn law_engine_is_obeyed(
    state: StateView,
    origin: Option<NodeId>,
    then: Then,
    node: NodeView,
    actions: Vec<Action>,
    now: u64,
)
    ensures
        task_resumed(
            state,
            TaskView::Engine { origin, then },
            Outcome::Engine { node, actions },
            now,
        ) == (TaskChange {
            state: StateView { node, ..state },
            task: TaskView::Run {
                run: RunView {
                    parents: seq![],
                    queue: actions@,
                    captured: CapturedView {
                        vote: None,
                        pre_vote: None,
                        fetch: None,
                        error: None,
                    },
                    origin,
                    stage: StageView::Ready,
                },
                then,
            },
            step: StepView::Continue,
        }),
{
}

/// What is said for a caller in the end, if nothing more is captured: what the lists
/// have captured, the outermost first.
pub open spec fn answer_so_far(run: RunView) -> CapturedView {
    unwound(run.parents, run.captured)
}

/// A vote, a trial vote or a batch of entries that the engine addresses to the
/// waiting caller is kept for it as it is, if it is the first of its kind, and is
/// not sent out as well.
pub proof fn law_answer_to_the_caller_is_kept(
    state: StateView,
    run: RunView,
    to: NodeId,
    vote: VoteResponse,
    pre_vote: PreVoteResponse,
    fetch: FetchResponseView,
)
    requires
        run.origin == Some(to),
    ensures
        run.captured.vote is None ==> ({
            let c = message_out(state, run, to, OutboundMessageView::VoteResponse(vote));
            &&& c.state == state
            &&& c.step is Continue
            &&& c.run == RunView {
                captured: CapturedView { vote: Some(vote), ..run.captured },
                stage: StageView::Ready,
                ..run
            }
        }),
        run.captured.pre_vote is None ==> ({
            let c = message_out(state, run, to, OutboundMessageView::PreVoteResponse(pre_vote));
            &&& c.state == state
            &&& c.step is Continue
            &&& c.run == RunView {
                captured: CapturedView { pre_vote: Some(pre_vote), ..run.captured },
                stage: StageView::Ready,
                ..run
            }
        }),
        run.captured.fetch is None ==> ({
            let c = message_out(state, run, to, OutboundMessageView::FetchResponse(fetch));
            &&& c.state == state
            &&& c.step is Continue
            &&& c.run == RunView {
                captured: CapturedView { fetch: Some(fetch), ..run.captured },
                stage: StageView::Ready,
                ..run
            }
        }),
{
}

/// Whether a message answers a call.
pub open spec fn is_answer(message: OutboundMessageView) -> bool {
    message is VoteResponse || message is PreVoteResponse || message is FetchResponse
}

/// A message that answers no call, or that is for another node than the waiting
/// caller, goes out as it is to the node that it is for, and nothing is captured. A
/// fetch that goes out is counted as sent, before it goes.
pub proof fn law_other_messages_go_out(
    state: StateView,
    run: RunView,
    to: NodeId,
    message: OutboundMessage,
    now: u64,
)
    requires
        run.origin != Some(to) || !is_answer(message@),
    ensures
        ({
            let c = action_started(state, run, Action::SendMessage { to, message }, now);
            let out = EffectView::Dispatch { to, message: message@ };
            let sent = EffectView::Observe(Observation::FetchRequest(FetchDirection::Sent));
            &&& c.step is Continue
            &&& c.run == run.at(StageView::Ready)
            &&& message@ is FetchRequest ==> c.state.told == state.told.push(sent).push(out)
            &&& !(message@ is FetchRequest) ==> c.state.told == state.told.push(out)
            &&& c.state == StateView { told: c.state.told, ..state }
        }),
{
    let c = action_started(state, run, Action::SendMessage { to, message }, now);
    let out = EffectView::Dispatch { to, message: message@ };
    let sent = EffectView::Observe(Observation::FetchRequest(FetchDirection::Sent));
    if message@ is FetchRequest {
        assert(c.state.told =~= state.told.push(sent).push(out));
    } else {
        assert(c.state.told =~= state.told.push(out));
    }
}

/// A vote that the engine sends as an action to the waiting caller is handled as any
/// other message: it is kept for the caller.
pub proof fn law_sent_answer_is_kept(
    state: StateView,
    run: RunView,
    to: NodeId,
    message: OutboundMessage,
    now: u64,
)
    requires
        is_answer(message@),
    ensures
        action_started(state, run, Action::SendMessage { to, message }, now) == message_out(
            state,
            run,
            to,
            message@,
        ),
{
    assert(state.telling(seq![]) =~= state);
}

/// A replica that the engine directs to a snapshot is directed to that snapshot, in
/// the name that the engine gives, and gets no entries.
pub proof fn law_engine_redirects_to_its_snapshot(
    state: StateView,
    run: RunView,
    action: Action,
    now: u64,
)
    requires
        action is RedirectToSnapshot,
    ensures
        action matches Action::RedirectToSnapshot {
            to,
            cluster_id,
            leader_epoch,
            leader_id,
            high_watermark,
            snapshot_metadata,
        } && action_started(state, run, action, now) == message_out(
            state,
            run,
            to,
            OutboundMessageView::FetchResponse(
                FetchResponseView {
                    cluster_id: cluster_id@,
                    leader_epoch,
                    leader_id,
                    high_watermark,
                    entries: seq![],
                    diverging_epoch: None,
                    snapshot_redirect: Some(
                        SnapshotRedirectView {
                            snapshot_id: snapshot_metadata.id@,
                            last_included_index: snapshot_metadata.last_included_index,
                            last_included_term: snapshot_metadata.last_included_term,
                        },
                    ),
                    is_leader: true,
                },
            ),
        ),
{
}

/// If nothing failed and the engine gave the waiting caller an answer, the caller
/// gets exactly that answer.
pub proof fn law_engine_answer_is_the_callers(
    node: &NodeView,
    reply: ReplyId,
    counted: bool,
    captured: CapturedView,
)
    requires
        captured.error is None,
    ensures
        captured.vote matches Some(v) ==> told_then(node, Then::Vote { reply }, captured) == seq![
            EffectView::AnswerVote { reply, result: Ok(v) },
        ],
        captured.pre_vote matches Some(v) ==> told_then(node, Then::PreVote { reply }, captured)
            == seq![EffectView::AnswerPreVote { reply, result: Ok(v) }],
        captured.fetch matches Some(v) ==> told_then(
            node,
            Then::Fetch { reply, counted },
            captured,
        ).last() == (EffectView::AnswerFetch { reply, result: Ok(v) }),
        told_then(node, Then::Fetch { reply, counted }, captured).len() == if counted {
            2int
        } else {
            1
        },
        counted ==> told_then(node, Then::Fetch { reply, counted }, captured)[0]
            == EffectView::Observe(Observation::FetchRequest(FetchDirection::Received)),
{
}

/// Only where the engine gave the caller no answer and nothing failed is it denied: a
/// vote is not granted, and a fetch brings no entries. The denial names the node's own
/// cluster and term and the leader that it knows of.
pub proof fn law_only_silence_is_a_denial(
    node: &NodeView,
    reply: ReplyId,
    counted: bool,
    captured: CapturedView,
)
    requires
        captured.error is None,
    ensures
        captured.vote is None ==> told_then(node, Then::Vote { reply }, captured) == seq![
            EffectView::AnswerVote {
                reply,
                result: Ok(
                    VoteResponse {
                        cluster_id: node.cluster_id,
                        leader_epoch: node.current_term.0,
                        term: node.current_term,
                        vote_granted: false,
                        leader_hint: node.leader_id,
                    },
                ),
            },
        ],
        captured.pre_vote is None ==> told_then(node, Then::PreVote { reply }, captured) == seq![
            EffectView::AnswerPreVote {
                reply,
                result: Ok(
                    PreVoteResponse {
                        cluster_id: node.cluster_id,
                        leader_epoch: node.current_term.0,
                        term: node.current_term,
                        vote_granted: false,
                        leader_hint: node.leader_id,
                    },
                ),
            },
        ],
        captured.fetch is None ==> told_then(
            node,
            Then::Fetch { reply, counted },
            captured,
        ).last() == (EffectView::AnswerFetch {
            reply,
            result: Ok(
                FetchResponseView {
                    cluster_id: node.cluster_id@,
                    leader_epoch: node.current_term.0,
                    leader_id: match node.leader_id {
                        Some(id) => id,
                        None => node.id,
                    },
                    high_watermark: node.commit_index,
                    entries: seq![],
                    diverging_epoch: None,
                    snapshot_redirect: None,
                    is_leader: false,
                },
            ),
        }),
{
}

/// A failure that was captured is the answer, whatever else was: the caller gets
/// exactly that error.
pub proof fn law_captured_error_is_the_answer(
    node: &NodeView,
    reply: ReplyId,
    counted: bool,
    info: TriggeredSnapshotInfo,
    captured: CapturedView,
)
    requires
        captured.error is Some,
    ensures
        ({
            let e = captured.error->0;
            &&& told_then(node, Then::Vote { reply }, captured) == seq![
                EffectView::AnswerVote { reply, result: Err(e) },
            ]
            &&& told_then(node, Then::PreVote { reply }, captured) == seq![
                EffectView::AnswerPreVote { reply, result: Err(e) },
            ]
            &&& told_then(node, Then::Fetch { reply, counted }, captured) == seq![
                EffectView::AnswerFetch { reply, result: Err(e) },
            ]
            &&& told_then(node, Then::Snapshot { reply, info }, captured) == seq![
                EffectView::AnswerSnapshot { reply, result: Err(e) },
            ]
            &&& told_then(node, Then::SteppedDown { reply }, captured) == seq![
                EffectView::AnswerFetchSnapshot { reply, result: Err(e) },
            ]
        }),
{
    assert(told_then(node, Then::Fetch { reply, counted }, captured) =~= seq![
        EffectView::AnswerFetch { reply, result: Err(captured.error->0) },
    ]);
}

/// An operator whose snapshot is stored is told of that snapshot, and a node that
/// asked for one in a higher term is sent to the leader that this node knows of by
/// then.
pub proof fn law_operators_and_deposers_are_told(
    node: &NodeView,
    reply: ReplyId,
    info: TriggeredSnapshotInfo,
    captured: CapturedView,
)
    requires
        captured.error is None,
    ensures
        told_then(node, Then::Snapshot { reply, info }, captured) == seq![
            EffectView::AnswerSnapshot { reply, result: Ok(info) },
        ],
        told_then(node, Then::SteppedDown { reply }, captured) == seq![
            EffectView::AnswerFetchSnapshot {
                reply,
                result: Err(ErrorView::NotLeader(node.leader_id)),
            },
        ],
        told_then(node, Then::Nothing, captured).len() == 0,
{
}

/// Once a list of actions is done the list that it interrupted goes on where it was
/// interrupted, with the answers of both, the interrupted list's first; if the driver
/// must stop, nothing goes on.
pub proof fn law_interrupted_list_goes_on(state: StateView, run: RunView, now: u64)
    requires
        run.stage is Ready,
        run.queue.len() == 0,
        run.parents.len() > 0,
    ensures
        ({
            let c = run_step(state, run, now);
            let outer = run.parents.last();
            &&& c.state == state
            &&& state.halt is None ==> {
                &&& c.step is Continue
                &&& c.run.queue == outer.queue
                &&& c.run.parents == run.parents.drop_last()
                &&& c.run.origin == run.origin
                &&& c.run.stage is Ready
                &&& outer.captured.vote is Some ==> c.run.captured.vote == outer.captured.vote
                &&& outer.captured.vote is None ==> c.run.captured.vote == run.captured.vote
                &&& outer.captured.pre_vote is Some ==> c.run.captured.pre_vote
                    == outer.captured.pre_vote
                &&& outer.captured.pre_vote is None ==> c.run.captured.pre_vote
                    == run.captured.pre_vote
                &&& outer.captured.fetch is Some ==> c.run.captured.fetch == outer.captured.fetch
                &&& outer.captured.fetch is None ==> c.run.captured.fetch == run.captured.fetch
                &&& outer.captured.error is Some ==> c.run.captured.error == outer.captured.error
                &&& outer.captured.error is None ==> c.run.captured.error == run.captured.error
            }
            &&& state.halt is Some ==> c.step is Finished
        }),
{
}

/// What the engine asks for when it learns of an acknowledgement is done before the
/// rest of the list that it interrupts.
pub proof fn law_acknowledgement_interrupts(
    state: StateView,
    run: RunView,
    node: NodeView,
    actions: Vec<Action>,
    now: u64,
)
    requires
        run.stage is Ack,
    ensures
        ({
            let c = run_resumed(state, run, Outcome::Engine { node, actions }, now);
            &&& c.state == StateView { node, ..state }
            &&& c.step is Continue
            &&& c.run.queue == actions@
            &&& c.run.stage is Ready
            &&& c.run.origin == run.origin
            &&& c.run.parents.len() == run.parents.len() + 1
            &&& c.run.parents.drop_last() == run.parents
            &&& c.run.parents.last() == (FrameView { queue: run.queue, captured: run.captured })
            &&& c.run.captured.vote is None
            &&& c.run.captured.pre_vote is None
            &&& c.run.captured.fetch is None
            &&& c.run.captured.error is None
        }),
{
    let c = run_resumed(state, run, Outcome::Engine { node, actions }, now);
    assert(c.run.parents.drop_last() =~= run.parents);
}

/// A node that stops leading tells everyone who waits for its leadership who leads
/// now: the clients first, then the reads. Nobody waits any more, and that it stopped
/// leading is recorded.
pub proof fn law_stepping_down_releases_everyone(
    state: StateView,
    run: RunView,
    now: u64,
    i: int,
)
    ensures
        ({
            let c = action_started(state, run, Action::StepDown, now);
            let hint = state.node.leader_id;
            let clients = reply_ids(state.rows);
            let told = c.state.told.skip(state.told.len() as int);
            &&& c.step is Continue
            &&& c.run == run.at(StageView::Ready)
            &&& c.state == StateView { rows: seq![], reads: seq![], told: c.state.told, ..state }
            &&& state.told.is_prefix_of(c.state.told)
            &&& told.len() == clients.len() + state.reads.len() + 1
            &&& 0 <= i < clients.len() ==> told[i] == (EffectView::AnswerPropose {
                reply: clients[i],
                result: Err(ErrorView::NotLeader(hint)),
            })
            &&& 0 <= i < state.reads.len() ==> told[clients.len() + i]
                == (EffectView::RefuseQuery {
                reply: state.reads[i].reply,
                error: ErrorView::NotLeader(hint),
            })
            &&& told.last() == EffectView::Observe(Observation::LeaderStepDown)
        }),
{
}

/// A node that comes to lead does nothing more about it.
pub proof fn law_coming_to_lead_needs_no_call(state: StateView, run: RunView, now: u64)
    ensures
        ({
            let c = action_started(state, run, Action::BecomeLeader, now);
            c.step is Continue && c.state == state && c.run == run.at(StageView::Ready)
        }),
{
}

/// A client's command reaches the engine of a leader as it is; until the engine has
/// said what it makes of it, nobody is told anything and nobody new waits.
pub proof fn law_commands_reach_the_engine(
    state: StateView,
    command: Seq<u8>,
    reply: ReplyId,
    now: u64,
)
    requires
        state.node.role is Leader,
    ensures
        event_begun(state, EventView::Propose { command, reply }, now) == (TaskChange {
            state,
            task: TaskView::Propose { before: state.node.last_log_index, reply },
            step: StepView::Ask(RequestView::StepEngine(InputView::ClientPropose(command))),
        }),
{
}

/// Whether some actions append an entry at `index`.
pub open spec fn some_append_at(actions: Seq<Action>, index: LogIndex) -> bool {
    exists|i: int, j: int|
        #![trigger entry_of(actions[i], j)]
        0 <= i < actions.len() && (entry_of(actions[i], j) matches Some(e) && e.index == index)
}

/// The entry that an action appends at the given place of its list.
pub open spec fn entry_of(action: Action, j: int) -> Option<Entry> {
    match action {
        Action::AppendEntries(entries) => if 0 <= j < entries@.len() {
            Some(entries@[j])
        } else {
            None
        },
        _ => None,
    }
}

/// A client waits exactly for the entry that the engine made of its command: the one
/// by which the log grew, which the engine asks to be appended. Nobody else's wait
/// changes. Without such an entry the client is told who leads.
pub proof fn law_client_waits_for_its_own_entry(
    state: StateView,
    before: LogIndex,
    reply: ReplyId,
    node: NodeView,
    actions: Vec<Action>,
    now: u64,
)
    ensures
        ({
            let c = task_resumed(
                state,
                TaskView::Propose { before, reply },
                Outcome::Engine { node, actions },
                now,
            );
            let grown = node.last_log_index.0 == before.0 + 1 && some_append_at(
                actions@,
                node.last_log_index,
            );
            &&& c.step is Continue
            &&& c.task == (TaskView::Run {
                run: RunView {
                    parents: seq![],
                    queue: actions@,
                    captured: CapturedView {
                        vote: None,
                        pre_vote: None,
                        fetch: None,
                        error: None,
                    },
                    origin: None,
                    stage: StageView::Ready,
                },
                then: Then::Nothing,
            })
            &&& grown ==> c.state == (StateView {
                node,
                rows: with_waiter(state.rows, node.last_log_index, reply, now),
                ..state
            })
            &&& !grown ==> c.state == (StateView {
                node,
                told: state.told.push(
                    EffectView::AnswerPropose {
                        reply,
                        result: Err(ErrorView::NotLeader(node.leader_id)),
                    },
                ),
                ..state
            })
        }),
{
    let index = node.last_log_index;
    let c = task_resumed(
        state,
        TaskView::Propose { before, reply },
        Outcome::Engine { node, actions },
        now,
    );
    if crate::driver::appends_at(actions@, index) {
        let (i, j) = choose|i: int, j: int|
            #![trigger actions@[i], crate::driver::holds_at(actions@[i], j, index)]
            0 <= i < actions@.len() && crate::driver::holds_at(actions@[i], j, index);
        assert(entry_of(actions@[i], j) matches Some(e) && e.index == index);
    }
    if some_append_at(actions@, index) {
        let (i, j) = choose|i: int, j: int|
            #![trigger entry_of(actions@[i], j)]
            0 <= i < actions@.len() && (entry_of(actions@[i], j) matches Some(e) && e.index == index);
        assert(crate::driver::holds_at(actions@[i], j, index));
    }
    if !(node.last_log_index.0 == before.0 + 1 && some_append_at(actions@, index)) {
        assert(c.state.told =~= state.told.push(
            EffectView::AnswerPropose {
                reply,
                result: Err(ErrorView::NotLeader(node.leader_id)),
            },
        ));
    }
}

/// The client's wait is for exactly that entry: if nobody waited for it before, the
/// waiting clients are those from before and this one, from now on.
pub proof fn law_new_wait_is_the_only_one(
    state: StateView,
    before: LogIndex,
    reply: ReplyId,
    node: NodeView,
    actions: Vec<Action>,
    now: u64,
    row: RowView,
)
    requires
        rows_wf(state.rows),
        node.last_log_index.0 == before.0 + 1,
        some_append_at(actions@, node.last_log_index),
        forall|i: int|
            0 <= i < state.rows.len() ==> (#[trigger] state.rows[i]).index != node.last_log_index,
    ensures
        task_resumed(
            state,
            TaskView::Propose { before, reply },
            Outcome::Engine { node, actions },
            now,
        ).state.rows.contains(row) <==> state.rows.contains(row) || row == (RowView {
            index: node.last_log_index,
            replies: seq![reply],
            proposed_at: now,
        }),
{
    law_client_waits_for_its_own_entry(state, before, reply, node, actions, now);
    law_first_waiter_gets_a_row(state.rows, node.last_log_index, reply, now, row);
}

/// A read that comes is either answered at once, and then nothing else changes, or it
/// waits behind those that wait already, and nobody is told anything.
pub proof fn law_read_is_answered_or_waits(
    state: StateView,
    query: Seq<u8>,
    reply: ReplyId,
    now: u64,
)
    ensures
        ({
            let c = event_begun(state, EventView::Query { query, reply }, now);
            &&& c.step is Finished
            &&& c.task is Done
            &&& match crate::reads::admission(&state.node, state.reads.len(), query, reply) {
                ReadAdmission::Told(effect) => c.state == (StateView {
                    told: state.told.push(effect),
                    ..state
                }),
                ReadAdmission::Queued(read) => c.state == (StateView {
                    reads: state.reads.push(read),
                    ..state
                }),
            }
        }),
{
    let c = event_begun(state, EventView::Query { query, reply }, now);
    if let ReadAdmission::Told(effect) = crate::reads::admission(
        &state.node,
        state.reads.len(),
        query,
        reply,
    ) {
        assert(c.state.told =~= state.told.push(effect));
    }
}

/// Whether whatever answer the first one has, the second one has too.
pub open spec fn keeps_answers(a: CapturedView, b: CapturedView) -> bool {
    &&& a.vote is Some ==> b.vote == a.vote
    &&& a.pre_vote is Some ==> b.pre_vote == a.pre_vote
    &&& a.fetch is Some ==> b.fetch == a.fetch
}

proof fn lemma_unwound_keeps(parents: Seq<FrameView>, a: CapturedView, b: CapturedView)
    requires
        keeps_answers(a, b),
    ensures
        keeps_answers(unwound(parents, a), unwound(parents, b)),
    decreases parents.len(),
{
    if parents.len() > 0 {
        let outer = parents.last().captured;
        lemma_unwound_keeps(parents.drop_last(), merged(outer, a), merged(outer, b));
    }
}

proof fn lemma_halted_keeps(state: StateView, run: RunView, msg: Seq<char>)
    ensures
        keeps_answers(answer_so_far(run), answer_so_far(halted(state, run, msg).run)),
{
    let failed = CapturedView { error: Some(ErrorView::Storage(msg)), ..run.captured };
    lemma_unwound_keeps(run.parents, run.captured, failed);
}

proof fn lemma_list_done_keeps(state: StateView, run: RunView)
    ensures
        keeps_answers(answer_so_far(run), answer_so_far(list_done(state, run).run)),
{
}

#[verifier::rlimit(40)]
proof fn lemma_step_keeps_answers(state: StateView, run: RunView, now: u64)
    requires
        run.can_step(),
    ensures
        keeps_answers(answer_so_far(run), answer_so_far(run_step(state, run, now).run)),
{
    let change = run_step(state, run, now);
    if run.stage is Ready && run.queue.len() == 0 {
        lemma_list_done_keeps(state, run);
    } else if change.step is Finished {
        assert forall|s: StateView, r: RunView, m: Seq<char>| keeps_answers(
            answer_so_far(r),
            answer_so_far((#[trigger] halted(s, r, m)).run),
        ) by {
            lemma_halted_keeps(s, r, m);
        }
    } else {
        assert(change.run.parents == run.parents);
        assert(keeps_answers(run.captured, change.run.captured));
        lemma_unwound_keeps(run.parents, run.captured, change.run.captured);
    }
}

#[verifier::rlimit(40)]
proof fn lemma_resume_keeps_answers(state: StateView, run: RunView, outcome: Outcome, now: u64)
    requires
        run_expects(run.stage, outcome),
    ensures
        keeps_answers(
            answer_so_far(run),
            answer_so_far(run_resumed(state, run, outcome, now).run),
        ),
{
    let change = run_resumed(state, run, outcome, now);
    if change.step is Finished {
        assert forall|s: StateView, r: RunView, m: Seq<char>| keeps_answers(
            answer_so_far(r),
            answer_so_far((#[trigger] halted(s, r, m)).run),
        ) by {
            lemma_halted_keeps(s, r, m);
        }
    } else if run.stage is Ack {
        assert(change.run.parents.drop_last() =~= run.parents);
        assert(merged(run.captured, nothing_captured()) == run.captured);
    } else {
        assert(change.run.parents == run.parents);
        assert(keeps_answers(run.captured, change.run.captured));
        lemma_unwound_keeps(run.parents, run.captured, change.run.captured);
    }
}

/// Once an answer is kept for the caller it stays the caller's answer, whatever the
/// run does next and however deep the list was nested that gave it; when the run is
/// over it is what the run has captured.
pub proof fn law_kept_answer_stays(state: StateView, run: RunView, outcome: Outcome, now: u64)
    ensures
        run.can_step() ==> {
            let c = run_step(state, run, now);
            &&& keeps_answers(answer_so_far(run), answer_so_far(c.run))
            &&& c.step is Finished ==> answer_so_far(c.run) == c.run.captured
        },
        run_expects(run.stage, outcome) ==> {
            let c = run_resumed(state, run, outcome, now);
            &&& keeps_answers(answer_so_far(run), answer_so_far(c.run))
            &&& c.step is Finished ==> answer_so_far(c.run) == c.run.captured
        },
{
    if run.can_step() {
        lemma_step_keeps_answers(state, run, now);
        lemma_finished_step(state, run, now);
    }
    if run_expects(run.stage, outcome) {
        lemma_resume_keeps_answers(state, run, outcome, now);
        lemma_finished_resume(state, run, outcome, now);
    }
}

#[verifier::rlimit(40)]
proof fn lemma_finished_step(state: StateView, run: RunView, now: u64)
    requires
        run.can_step(),
    ensures
        run_step(state, run, now).step is Finished ==> run_step(state, run, now).run.parents.len()
            == 0,
{
}

#[verifier::rlimit(40)]
proof fn lemma_finished_resume(state: StateView, run: RunView, outcome: Outcome, now: u64)
    requires
        run_expects(run.stage, outcome),
    ensures
        run_resumed(state, run, outcome, now).step is Finished ==> run_resumed(
            state,
            run,
            outcome,
            now,
        ).run.parents.len() == 0,
{
}

/// When the run of a caller's actions is over, what the run has captured is what the
/// caller is told, and nothing else is done.
pub proof fn law_end_of_a_run_answers_the_caller(
    state: StateView,
    run: RunView,
    then: Then,
    outcome: Outcome,
    now: u64,
)
    ensures
        run.can_step() && run_step(state, run, now).step is Finished ==> {
            let c = run_step(state, run, now);
            crate::driver::task_step(state, TaskView::Run { run, then }, now) == (TaskChange {
                state: StateView {
                    told: c.state.told + told_then(&c.state.node, then, c.run.captured),
                    ..c.state
                },
                task: TaskView::Done,
                step: StepView::Finished,
            })
        },
        run_expects(run.stage, outcome) && run_resumed(state, run, outcome, now).step is Finished
            ==> {
            let c = run_resumed(state, run, outcome, now);
            task_resumed(state, TaskView::Run { run, then }, outcome, now) == (TaskChange {
                state: StateView {
                    told: c.state.told + told_then(&c.state.node, then, c.run.captured),
                    ..c.state
                },
                task: TaskView::Done,
                step: StepView::Finished,
            })
        },
{
}

/// While the run of a caller's actions goes on, the caller goes on waiting for it.
pub proof fn law_unfinished_run_goes_on(
    state: StateView,
    run: RunView,
    then: Then,
    outcome: Outcome,
    now: u64,
)
    ensures
        run.can_step() && !(run_step(state, run, now).step is Finished) ==> {
            let c = run_step(state, run, now);
            crate::driver::task_step(state, TaskView::Run { run, then }, now) == (TaskChange {
                state: c.state,
                task: TaskView::Run { run: c.run, then },
                step: c.step,
            })
        },
        run_expects(run.stage, outcome) && !(run_resumed(state, run, outcome, now).step is Finished)
            ==> {
            let c = run_resumed(state, run, outcome, now);
            task_resumed(state, TaskView::Run { run, then }, outcome, now) == (TaskChange {
                state: c.state,
                task: TaskView::Run { run: c.run, then },
                step: c.step,
            })
        },
{
}

/// A change after which nothing is left to be done but to tell one thing.
pub open spec fn told_and_done(state: StateView, effect: EffectView) -> TaskChange {
    TaskChange {
        state: StateView { told: state.told.push(effect), ..state },
        task: TaskView::Done,
        step: StepView::Finished,
    }
}

/// A member of the cluster that asks a leader in the leader's own term for a snapshot has
/// it looked up under the very id that it asked for. One that is in a higher term makes the
/// leader a follower of that term instead. Nothing else happens at first.
pub proof fn law_wanted_snapshot_is_looked_up(
    state: StateView,
    request: FetchSnapshotRequest,
    reply: ReplyId,
    now: u64,
)
    requires
        request.cluster_id@ == state.node.cluster_id@,
        request.replica_id != state.node.id,
        state.node.role is Leader,
        member(&state.node, request.replica_id),
    ensures
        ({
            let c = event_begun(state, EventView::FetchSnapshot { request, reply }, now);
            &&& request.leader_epoch == state.node.current_term.0 ==> c == (TaskChange {
                state,
                task: TaskView::Find { request, reply },
                step: StepView::Ask(RequestView::FindSnapshot(request.snapshot_id@)),
            })
            &&& request.leader_epoch > state.node.current_term.0 ==> c == (TaskChange {
                state,
                task: TaskView::Engine { origin: None, then: Then::SteppedDown { reply } },
                step: StepView::Ask(RequestView::BecomeFollower(Term(request.leader_epoch))),
            })
        }),
{
}

/// A request for a snapshot that is refused is answered with the refusal, and nothing else
/// is done about it.
pub proof fn law_refused_snapshot_request_is_answered(
    state: StateView,
    request: FetchSnapshotRequest,
    reply: ReplyId,
    now: u64,
    error: ErrorView,
)
    requires
        snapshot_verdict(&state.node, &request) == SnapshotVerdictView::Refuse(error),
    ensures
        event_begun(state, EventView::FetchSnapshot { request, reply }, now) == told_and_done(
            state,
            EffectView::AnswerFetchSnapshot { reply, result: Err(error) },
        ),
{
    assert(event_begun(
        state,
        EventView::FetchSnapshot { request, reply },
        now,
    ).state.told =~= state.told.push(
        EffectView::AnswerFetchSnapshot { reply, result: Err(error) },
    ));
}

/// A snapshot that is found is read as it was asked for: that snapshot, from the offset of
/// the request, in pieces and up to the number of bytes of the request, where zero sets no
/// limit. One that is not there is named in the answer, and a store that fails answers with
/// its own error.
pub proof fn law_found_snapshot_is_read_as_asked(
    state: StateView,
    request: FetchSnapshotRequest,
    reply: ReplyId,
    metadata: SnapshotMeta,
    e: XRaftError,
    now: u64,
)
    ensures
        ({
            let task = TaskView::Find { request, reply };
            let found = task_resumed(state, task, Outcome::Found(Ok(Some(metadata))), now);
            let missing = task_resumed(state, task, Outcome::Found(Ok(None)), now);
            let failed = task_resumed(state, task, Outcome::Found(Err(e)), now);
            &&& found.state == state
            &&& found.task == (TaskView::Read { reply })
            &&& found.step matches StepView::Ask(
                RequestView::ReadSnapshot { metadata: m, chunk_size, offset, max_bytes },
            ) && m == metadata@ && offset == request.offset && (request.max_bytes <= usize::MAX
                ==> chunk_size == request.max_bytes) && (request.max_bytes == 0 ==> max_bytes is None)
                && (request.max_bytes > 0 ==> max_bytes == Some(request.max_bytes))
            &&& missing == told_and_done(
                state,
                EffectView::AnswerFetchSnapshot {
                    reply,
                    result: Err(ErrorView::SnapshotNotFound(request.snapshot_id@)),
                },
            )
            &&& failed == told_and_done(
                state,
                EffectView::AnswerFetchSnapshot { reply, result: Err(e@) },
            )
        }),
{
    let task = TaskView::Find { request, reply };
    let missing = task_resumed(state, task, Outcome::Found(Ok(None)), now);
    let failed = task_resumed(state, task, Outcome::Found(Err(e)), now);
    assert(missing.state.told =~= state.told.push(
        EffectView::AnswerFetchSnapshot {
            reply,
            result: Err(ErrorView::SnapshotNotFound(request.snapshot_id@)),
        },
    ));
    assert(failed.state.told =~= state.told.push(
        EffectView::AnswerFetchSnapshot { reply, result: Err(e@) },
    ));
}

/// The pieces that were read are what the caller gets, addressed to it; a store that fails
/// answers with its own error.
pub proof fn law_read_pieces_are_the_answer(
    state: StateView,
    reply: ReplyId,
    pieces: Vec<Result<StoredChunk, XRaftError>>,
    e: XRaftError,
    now: u64,
)
    ensures
        task_resumed(state, TaskView::Read { reply }, Outcome::Chunks(Ok(pieces)), now)
            == told_and_done(
            state,
            EffectView::AnswerFetchSnapshot {
                reply,
                result: Ok(handed_out(&state.node, pieces@)),
            },
        ),
        task_resumed(state, TaskView::Read { reply }, Outcome::Chunks(Err(e)), now)
            == told_and_done(
            state,
            EffectView::AnswerFetchSnapshot { reply, result: Err(e@) },
        ),
{
    let read = task_resumed(state, TaskView::Read { reply }, Outcome::Chunks(Ok(pieces)), now);
    let failed = task_resumed(state, TaskView::Read { reply }, Outcome::Chunks(Err(e)), now);
    assert(read.state.told =~= state.told.push(
        EffectView::AnswerFetchSnapshot { reply, result: Ok(handed_out(&state.node, pieces@)) },
    ));
    assert(failed.state.told =~= state.told.push(
        EffectView::AnswerFetchSnapshot { reply, result: Err(e@) },
    ));
}

/// An operator's snapshot, call by call: the term of the log at the commit index is read,
/// then the state machine is asked for its state, then that is stored with where it is
/// anchored, then the engine learns of it under the id of its anchor, and then what the
/// engine asks for is done and the operator told of the snapshot's own index, term and size.
pub proof fn law_operator_snapshot_goes_its_way(
    state: StateView,
    reply: ReplyId,
    through: LogIndex,
    term: Term,
    payload: Vec<u8>,
    meta: SnapshotMetaView,
    bytes: u64,
    node: NodeView,
    actions: Vec<Action>,
    started_at: u64,
    now: u64,
)
    ensures
        state.node.role is Leader && !state.node.snapshot_in_flight ==> event_begun(
            state,
            EventView::TriggerSnapshot { reply },
            now,
        ) == (TaskChange {
            state,
            task: TaskView::Take {
                stage: TakeStageView::Term { through: state.node.commit_index, started_at: now },
                reply,
            },
            step: StepView::Ask(RequestView::ReadTerm(state.node.commit_index)),
        }),
        task_resumed(
            state,
            TaskView::Take { stage: TakeStageView::Term { through, started_at }, reply },
            Outcome::Term(Ok(Some(term))),
            now,
        ) == (TaskChange {
            state,
            task: TaskView::Take {
                stage: TakeStageView::Data { through, term, started_at },
                reply,
            },
            step: StepView::Ask(RequestView::SnapshotStateMachine),
        }),
        ({
            let described = SnapshotMetaView {
                id: Seq::empty(),
                last_included_index: through,
                last_included_term: term,
                voter_set: match state.node.voter_set {
                    Some(set) => Some(set@),
                    None => None,
                },
                size_bytes: Some(payload@.len() as u64),
                checksum: None,
            };
            task_resumed(
                state,
                TaskView::Take { stage: TakeStageView::Data { through, term, started_at }, reply },
                Outcome::Data(Ok(payload)),
                now,
            ) == (TaskChange {
                state,
                task: TaskView::Take {
                    stage: TakeStageView::Save {
                        metadata: described,
                        bytes: payload@.len() as u64,
                        started_at,
                    },
                    reply,
                },
                step: StepView::Ask(
                    RequestView::SaveSnapshot { metadata: described, data: payload@ },
                ),
            })
        }),
        ({
            let named = SnapshotMetaView {
                id: canonical_id(meta.last_included_term, meta.last_included_index),
                ..meta
            };
            task_resumed(
                state,
                TaskView::Take {
                    stage: TakeStageView::Save { metadata: meta, bytes, started_at },
                    reply,
                },
                Outcome::Done(Ok(())),
                now,
            ) == (TaskChange {
                state: StateView {
                    told: state.told.push(
                        EffectView::Observe(
                            Observation::SnapshotTaken {
                                bytes,
                                elapsed: if now >= started_at {
                                    (now - started_at) as u64
                                } else {
                                    0
                                },
                            },
                        ),
                    ),
                    ..state
                },
                task: TaskView::Take { stage: TakeStageView::Engine { metadata: named }, reply },
                step: StepView::Ask(
                    RequestView::StepEngine(InputView::SnapshotComplete { metadata: named }),
                ),
            })
        }),
        ({
            let c = task_resumed(
                state,
                TaskView::Take { stage: TakeStageView::Engine { metadata: meta }, reply },
                Outcome::Engine { node, actions },
                now,
            );
            &&& c.state == (StateView { node, ..state })
            &&& c.step is Continue
            &&& c.task matches TaskView::Run { run, then } && run.queue == actions@ && run.origin
                is None && run.parents.len() == 0 && run.stage is Ready && run.captured
                == nothing_captured() && then == (Then::Snapshot {
                reply,
                info: TriggeredSnapshotInfo {
                    last_included_index: meta.last_included_index.0,
                    last_included_term: meta.last_included_term.0,
                    size_bytes: match meta.size_bytes {
                        Some(n) => n,
                        None => 0,
                    },
                },
            })
        }),
{
    assert(state.telling(seq![]) =~= state);
    let saved = task_resumed(
        state,
        TaskView::Take {
            stage: TakeStageView::Save { metadata: meta, bytes, started_at },
            reply,
        },
        Outcome::Done(Ok(())),
        now,
    );
    assert(saved.state.told =~= state.told.push(
        EffectView::Observe(
            Observation::SnapshotTaken {
                bytes,
                elapsed: if now >= started_at {
                    (now - started_at) as u64
                } else {
                    0
                },
            },
        ),
    ));
}

/// An operator's wish that is not granted is answered at once: a node that does not lead
/// names the leader that it knows of, and one that is taking a snapshot asks to be asked
/// again later.
pub proof fn law_ungranted_wish_for_a_snapshot_is_answered(
    state: StateView,
    reply: ReplyId,
    now: u64,
)
    ensures
        ({
            let c = event_begun(state, EventView::TriggerSnapshot { reply }, now);
            &&& !(state.node.role is Leader) ==> c == told_and_done(
                state,
                EffectView::AnswerSnapshot {
                    reply,
                    result: Err(ErrorView::NotLeader(state.node.leader_id)),
                },
            )
            &&& state.node.role is Leader && state.node.snapshot_in_flight ==> (c.step is Finished
                && c.state.told.len() == state.told.len() + 1 && (c.state.told.last()
                matches EffectView::AnswerSnapshot { reply: r, result } && r == reply && (result
                matches Err(e) && e is Config)))
        }),
{
    let c = event_begun(state, EventView::TriggerSnapshot { reply }, now);
    if !(state.node.role is Leader) {
        assert(c.state.told =~= state.told.push(
            EffectView::AnswerSnapshot {
                reply,
                result: Err(ErrorView::NotLeader(state.node.leader_id)),
            },
        ));
    }
}

/// When entries cannot be appended or flushed, exactly the clients that wait for one of them
/// are told of it and wait no longer, nothing more is done, and the driver has a reason to
/// stop.
pub proof fn law_failed_append_fails_its_own_clients(
    state: StateView,
    run: RunView,
    indices: Seq<LogIndex>,
    e: XRaftError,
    now: u64,
    row: RowView,
    reply: ReplyId,
)
    requires
        run.stage == (StageView::Append { indices }) || run.stage == (StageView::AppendFlush {
            indices,
        }),
    ensures
        ({
            let c = run_resumed(state, run, Outcome::Done(Err(e)), now);
            let msg = (if run.stage is Append {
                "log append failed: "@
            } else {
                "log flush after append failed: "@
            }) + error_text(e@);
            let told = EffectView::AnswerPropose {
                reply,
                result: Err(ErrorView::Storage(msg)),
            };
            &&& c.step is Finished
            &&& c.state.halt is Some
            &&& state.halt is None ==> c.state.halt == Some(msg)
            &&& c.state.rows.contains(row) <==> state.rows.contains(row) && !indices.contains(
                row.index,
            )
            &&& state.rows.contains(row) && indices.contains(row.index) && row.replies.contains(
                reply,
            ) ==> c.state.told.contains(told)
            &&& c.run.captured.error is Some
        }),
{
    let c = run_resumed(state, run, Outcome::Done(Err(e)), now);
    let msg = (if run.stage is Append {
        "log append failed: "@
    } else {
        "log flush after append failed: "@
    }) + error_text(e@);
    law_given_up_entries_are_by_index(state.rows, indices, row, reply);
    crate::safety::law_failed_call_stops_everything(state, run, Outcome::Done(Err(e)), now);
    let ids = reply_ids_at_all(state.rows, indices);
    if ids.contains(reply) {
        let j = choose|j: int| 0 <= j < ids.len() && ids[j] == reply;
        assert(c.state.told[state.told.len() + j] == (EffectView::AnswerPropose {
            reply,
            result: Err(ErrorView::Storage(msg)),
        }));
    }
}

/// A run whose only list is done is over: it has captured what it had captured, and nothing
/// more happens.
pub proof fn law_empty_list_ends_the_run(state: StateView, run: RunView, now: u64)
    requires
        run.stage is Ready,
        run.queue.len() == 0,
        run.parents.len() == 0,
    ensures
        run_step(state, run, now).step is Finished,
        run_step(state, run, now).state == state,
        run_step(state, run, now).run.captured == run.captured,
{
}

/// What is said of a write of the hard state or of the log that failed, before the error's
/// own text.
pub open spec fn failed_write(stage: StageView) -> Option<Seq<char>> {
    match stage {
        StageView::Persist => Some("hard-state persist failed: "@),
        StageView::Truncate => Some("log truncate failed: "@),
        StageView::TruncateFlush => Some("log flush after truncate failed: "@),
        StageView::Compact { through, .. } => Some(
            "log purge_prefix("@ + index_text(through) + ") failed: "@,
        ),
        StageView::CompactFlush { through, .. } => Some(
            "log flush after purge_prefix("@ + index_text(through) + ") failed: "@,
        ),
        _ => None,
    }
}

/// A write that fails is named, with its error, both to the caller and in the reason to stop,
/// unless there is a reason already; nobody else is told anything.
pub proof fn law_failed_writes_are_named(
    state: StateView,
    run: RunView,
    e: XRaftError,
    now: u64,
)
    requires
        failed_write(run.stage) is Some,
        run.parents.len() == 0,
    ensures
        ({
            let c = run_resumed(state, run, Outcome::Done(Err(e)), now);
            let msg = failed_write(run.stage)->0 + error_text(e@);
            &&& c.step is Finished
            &&& c.run.captured == (CapturedView {
                error: Some(ErrorView::Storage(msg)),
                ..run.captured
            })
            &&& c.run.queue.len() == 0
            &&& c.state == (StateView {
                halt: match state.halt {
                    Some(first) => Some(first),
                    None => Some(msg),
                },
                ..state
            })
        }),
{
}

/// A vote that the engine grants reaches the candidate as it was granted, and only after the
/// hard state is persisted: the engine is stepped with the candidate's own request, the end of
/// the log is read, the hard state is persisted with the commit index or the end of the log,
/// whichever comes first, and then the candidate is told; nothing else is asked or told.
pub proof fn law_granted_vote_reaches_the_candidate(
    state: StateView,
    request: VoteRequest,
    reply: ReplyId,
    node: NodeView,
    actions: Vec<Action>,
    vote: VoteResponse,
    index: LogIndex,
    term: Term,
    now: u64,
)
    requires
        actions@ == seq![
            Action::PersistHardState,
            Action::SendMessage {
                to: request.candidate_id,
                message: OutboundMessage::VoteResponse(vote),
            },
        ],
    ensures
        ({
            let trace = event_run(
                event_begun(state, EventView::Vote { request, reply }, now),
                seq![
                    Outcome::Engine { node, actions },
                    Outcome::LogTip { index, term },
                    Outcome::Done(Ok(())),
                ],
                now,
                6,
            );
            &&& trace.asked == seq![
                RequestView::StepEngine(InputView::VoteRequest(request)),
                RequestView::ReadLogTip,
                RequestView::PersistHardState {
                    commit_index: if node.commit_index.0 <= index.0 {
                        node.commit_index
                    } else {
                        index
                    },
                },
            ]
            &&& trace.change.step is Finished
            &&& trace.change.state == (StateView {
                node,
                told: state.told.push(EffectView::AnswerVote { reply, result: Ok(vote) }),
                ..state
            })
        }),
{
    let to = request.candidate_id;
    let then = Then::Vote { reply };
    let s1 = StateView { node, ..state };
    let none = nothing_captured();
    let send = Action::SendMessage { to, message: OutboundMessage::VoteResponse(vote) };
    let base = RunView {
        parents: seq![],
        queue: actions@,
        captured: none,
        origin: Some(to),
        stage: StageView::Ready,
    };
    let left = RunView { queue: seq![send], ..base };
    let last = RunView {
        queue: seq![],
        captured: CapturedView { vote: Some(vote), ..none },
        ..base
    };
    let commit_index = if node.commit_index.0 <= index.0 {
        node.commit_index
    } else {
        index
    };
    let step0 = RequestView::StepEngine(InputView::VoteRequest(request));
    let persist = RequestView::PersistHardState { commit_index };
    let c0 = event_begun(state, EventView::Vote { request, reply }, now);
    let c1 = running(s1, base, then, StepView::Continue);
    let c2 = running(s1, left.at(StageView::PersistTip), then, StepView::Ask(RequestView::ReadLogTip));
    let c3 = running(s1, left.at(StageView::Persist), then, StepView::Ask(persist));
    let c4 = running(s1, left, then, StepView::Continue);
    let c5 = running(s1, last, then, StepView::Continue);
    let c6 = told_and_done(s1, EffectView::AnswerVote { reply, result: Ok(vote) });
    let o0 = Outcome::Engine { node, actions };
    let o1 = Outcome::LogTip { index, term };
    let o2 = Outcome::Done(Ok(()));
    lemma_vote_begins(state, request, reply, node, actions, now);
    lemma_vote_persists(s1, left, then, index, term, now);
    lemma_vote_is_sent(s1, base, actions@, to, vote, then, now);
    lemma_vote_is_told(s1, last, reply, vote, now);
    let t2 = seq![o2] + seq![];
    let t1 = seq![o1] + t2;
    let t0 = seq![o0] + t1;
    lemma_asked(c0, step0, o0, t1, c1, now, 6);
    lemma_stepped(c1, t1, c2, now, 5);
    lemma_asked(c2, RequestView::ReadLogTip, o1, t2, c3, now, 4);
    lemma_asked(c3, persist, o2, seq![], c4, now, 3);
    lemma_stepped(c4, seq![], c5, now, 2);
    lemma_stepped(c5, seq![], c6, now, 1);
    lemma_ended(c6, seq![], now);
    assert(t0 =~= seq![o0, o1, o2]);
    assert(event_run(c0, t0, now, 6).asked =~= seq![step0, RequestView::ReadLogTip, persist]);
}

/// A task that does the engine's actions.
pub open spec fn running(state: StateView, run: RunView, then: Then, step: StepView) -> TaskChange {
    TaskChange { state, task: TaskView::Run { run, then }, step }
}

#[verifier::spinoff_prover]
proof fn lemma_vote_begins(
    state: StateView,
    request: VoteRequest,
    reply: ReplyId,
    node: NodeView,
    actions: Vec<Action>,
    now: u64,
)
    ensures
        after_outcome(
            event_begun(state, EventView::Vote { request, reply }, now),
            Outcome::Engine { node, actions },
            now,
        ) == running(
            StateView { node, ..state },
            RunView {
                parents: seq![],
                queue: actions@,
                captured: nothing_captured(),
                origin: Some(request.candidate_id),
                stage: StageView::Ready,
            },
            Then::Vote { reply },
            StepView::Continue,
        ),
{
    reveal(after_outcome);
}

#[verifier::spinoff_prover]
proof fn lemma_vote_persists(
    state: StateView,
    run: RunView,
    then: Then,
    index: LogIndex,
    term: Term,
    now: u64,
)
    requires
        run.stage is Ready,
    ensures
        ({
            let commit_index = if state.node.commit_index.0 <= index.0 {
                state.node.commit_index
            } else {
                index
            };
            let persist = StepView::Ask(RequestView::PersistHardState { commit_index });
            let tip = StepView::Ask(RequestView::ReadLogTip);
            &&& after_outcome(
                running(state, run.at(StageView::PersistTip), then, tip),
                Outcome::LogTip { index, term },
                now,
            ) == running(state, run.at(StageView::Persist), then, persist)
            &&& after_outcome(
                running(state, run.at(StageView::Persist), then, persist),
                Outcome::Done(Ok(())),
                now,
            ) == running(state, run, then, StepView::Continue)
        }),
{
    reveal(after_outcome);
    assert(run.at(StageView::Ready) == run);
}

#[verifier::spinoff_prover]
proof fn lemma_vote_is_sent(
    state: StateView,
    base: RunView,
    actions: Seq<Action>,
    to: NodeId,
    vote: VoteResponse,
    then: Then,
    now: u64,
)
    requires
        actions == seq![
            Action::PersistHardState,
            Action::SendMessage { to, message: OutboundMessage::VoteResponse(vote) },
        ],
        base == (RunView {
            parents: seq![],
            queue: actions,
            captured: nothing_captured(),
            origin: Some(to),
            stage: StageView::Ready,
        }),
    ensures
        ({
            let left = RunView { queue: seq![actions[1]], ..base };
            let last = RunView {
                queue: seq![],
                captured: CapturedView { vote: Some(vote), ..nothing_captured() },
                ..base
            };
            &&& after_step(running(state, base, then, StepView::Continue), now) == running(
                state,
                left.at(StageView::PersistTip),
                then,
                StepView::Ask(RequestView::ReadLogTip),
            )
            &&& after_step(running(state, left, then, StepView::Continue), now) == running(
                state,
                last,
                then,
                StepView::Continue,
            )
        }),
{
    reveal(after_step);
    let left = RunView { queue: seq![actions[1]], ..base };
    assert(actions.drop_first() =~= left.queue);
    assert(left.queue.drop_first() =~= seq![]);
    assert(state.telling(seq![]) =~= state);
}

#[verifier::spinoff_prover]
proof fn lemma_vote_is_told(
    state: StateView,
    run: RunView,
    reply: ReplyId,
    vote: VoteResponse,
    now: u64,
)
    requires
        run.parents.len() == 0,
        run.queue.len() == 0,
        run.stage is Ready,
        run.captured == (CapturedView { vote: Some(vote), ..nothing_captured() }),
    ensures
        after_step(running(state, run, Then::Vote { reply }, StepView::Continue), now)
            == told_and_done(state, EffectView::AnswerVote { reply, result: Ok(vote) }),
{
    reveal(after_step);
    let c = after_step(running(state, run, Then::Vote { reply }, StepView::Continue), now);
    assert(c.state.told =~= state.told.push(EffectView::AnswerVote { reply, result: Ok(vote) }));
}

/// What another node answers reaches the engine from the call's end on: the answer to a vote
/// under the name of the node that was asked, and the answer to a fetch as it was given. A call
/// that failed changes nothing.
pub proof fn law_answered_calls_reach_the_engine(
    state: StateView,
    peer: NodeId,
    responder: NodeId,
    vote: VoteResponse,
    pre_vote: PreVoteResponse,
    fetch: FetchResponse,
    err: String,
    now: u64,
)
    ensures
        event_begun(state, EventView::Outbound(vote_ended(peer, Ok(vote))), now).step
            == StepView::Ask(
            RequestView::StepEngine(InputView::VoteResponse { from: peer, response: vote }),
        ),
        event_begun(state, EventView::Outbound(pre_vote_ended(peer, Ok(pre_vote))), now).step
            == StepView::Ask(
            RequestView::StepEngine(InputView::PreVoteResponse { from: peer, response: pre_vote }),
        ),
        event_begun(state, EventView::Outbound(fetch_ended(peer, Ok((responder, fetch)))), now).step
            == StepView::Ask(RequestView::StepEngine(InputView::FetchResponse(fetch@))),
        event_begun(state, EventView::Outbound(vote_ended(peer, Err(err))), now) == (TaskChange {
            state,
            task: TaskView::Done,
            step: StepView::Finished,
        }),
        event_begun(state, EventView::Outbound(pre_vote_ended(peer, Err(err))), now) == (
        TaskChange { state, task: TaskView::Done, step: StepView::Finished }),
        event_begun(state, EventView::Outbound(fetch_ended(peer, Err(err))), now) == (TaskChange {
            state,
            task: TaskView::Done,
            step: StepView::Finished,
        }),
{
}

/// A snapshot that cannot be taken or installed, and a committed range that cannot be applied,
/// stop the driver with a reason that names the action and its error; the caller gets that
/// reason.
pub proof fn law_failed_actions_are_named(
    state: StateView,
    run: RunView,
    outcome: Outcome,
    e: ErrorView,
    now: u64,
)
    requires
        run_expects(run.stage, outcome),
        run.parents.len() == 0,
        state.halt is None,
    ensures
        ({
            let c = run_resumed(state, run, outcome, now);
            let what = match run.stage {
                StageView::Take(s) => if take_continue(known_voters(state.node), s, outcome)
                    == TakeNextView::Failed(e) {
                    Some("snapshot save failed: "@)
                } else {
                    None
                },
                StageView::Install(s) => if install_continue(state.node, s, outcome)
                    == InstallNextView::Failed(e) {
                    Some("snapshot install failed: "@)
                } else {
                    None
                },
                StageView::Apply(s) => if apply_continue(s, outcome, state.rows, now).next
                    == ApplyNextView::Failed(e) {
                    Some("apply to state machine failed: "@)
                } else {
                    None
                },
                _ => None,
            };
            what matches Some(text) ==> c.step is Finished && c.state.halt == Some(
                text + error_text(e),
            ) && c.run.captured.error == Some(ErrorView::Storage(text + error_text(e)))
        }),
{
}

/// An answer to the waiting caller that is not the first of its kind goes out as any other
/// message does; the first one stays.
pub proof fn law_second_answer_goes_out(
    state: StateView,
    run: RunView,
    to: NodeId,
    message: OutboundMessageView,
)
    requires
        message is VoteResponse ==> run.captured.vote is Some,
        message is PreVoteResponse ==> run.captured.pre_vote is Some,
        message is FetchResponse ==> run.captured.fetch is Some,
    ensures
        ({
            let c = message_out(state, run, to, message);
            &&& c.step is Continue
            &&& c.run == run.at(StageView::Ready)
            &&& c.state == (StateView {
                told: state.told.push(EffectView::Dispatch { to, message }),
                ..state
            })
        }),
{
    let c = message_out(state, run, to, message);
    assert(c.state.told =~= state.told.push(EffectView::Dispatch { to, message }));
}

} // verus!
