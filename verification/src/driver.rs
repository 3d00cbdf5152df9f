//! What the driver does with each event: from the event to the calls it makes of
//! its host, and on to the answer that the caller gets.
use vstd::prelude::*;
use vstd::string::*;

use crate::actions::{
    run_expects, run_resumed, run_step, ActionRun, RunChange, RunView, StageView, Step, StepView,
};
use crate::captured::{nothing_captured, CapturedResponse, CapturedView};
use crate::config::{FetchDirection, TriggeredSnapshotInfo};
use crate::error::{error_text, ErrorView, XRaftError};
use crate::host::{
    answers, Effect, EffectView, Observation, Outcome, ReplyId, Request, RequestView,
};
use crate::inbound::{
    address_pieces, default_deny_fetch, default_deny_pre_vote, default_deny_vote, denied_fetch,
    denied_pre_vote, denied_vote, handed_out, judge_fetch_snapshot, snapshot_verdict,
    SnapshotVerdict, SnapshotVerdictView,
};
use crate::message::{
    all_in_range, Action, FetchRequest, FetchSnapshotRequest, Input, InputView, PreVoteRequest,
    VoteRequest,
};
use crate::reads::{admission, handle_client_query, ReadAdmission};
use crate::router::{OutboundResult, OutboundResultView};
use crate::snapshot::{
    begin_take, continue_take, node_after, take_continue, take_effects, take_expects, TakeNext,
    TakeNextView, TakeStage, TakeStageView,
};
use crate::state::{DriverState, StateView};
use crate::text::prefixed;
use crate::types::{voters_view, LogIndex, NodeId, NodeView, SnapshotMetaView, Term};
use crate::waiters::with_waiter;

verus! {

/// Something that the driver must deal with.
#[derive(Debug)]
pub enum Event {
    /// The driver starts.
    Startup,
    /// Time has passed.
    Tick,
    /// A call to another node has ended.
    Outbound(OutboundResult),
    /// A client proposes a command.
    Propose { command: Vec<u8>, reply: ReplyId },
    /// A client asks for a read.
    Query { query: Vec<u8>, reply: ReplyId },
    /// An operator asks for a snapshot.
    TriggerSnapshot { reply: ReplyId },
    /// Another node asks for a vote.
    Vote { request: VoteRequest, reply: ReplyId },
    /// Another node asks for a trial vote.
    PreVote { request: PreVoteRequest, reply: ReplyId },
    /// Another node asks for entries.
    Fetch { request: FetchRequest, reply: ReplyId },
    /// Another node asks for a snapshot.
    FetchSnapshot { request: FetchSnapshotRequest, reply: ReplyId },
}

/// What an [`Event`] says.
#[verifier::ext_equal]
pub enum EventView {
    Startup,
    Tick,
    Outbound(OutboundResultView),
    Propose { command: Seq<u8>, reply: ReplyId },
    Query { query: Seq<u8>, reply: ReplyId },
    TriggerSnapshot { reply: ReplyId },
    Vote { request: VoteRequest, reply: ReplyId },
    PreVote { request: PreVoteRequest, reply: ReplyId },
    Fetch { request: FetchRequest, reply: ReplyId },
    FetchSnapshot { request: FetchSnapshotRequest, reply: ReplyId },
}

impl View for Event {
    type V = EventView;

    open spec fn view(&self) -> EventView {
        match self {
            Event::Startup => EventView::Startup,
            Event::Tick => EventView::Tick,
            Event::Outbound(r) => EventView::Outbound(r@),
            Event::Propose { command, reply } => EventView::Propose {
                command: command@,
                reply: *reply,
            },
            Event::Query { query, reply } => EventView::Query { query: query@, reply: *reply },
            Event::TriggerSnapshot { reply } => EventView::TriggerSnapshot { reply: *reply },
            Event::Vote { request, reply } => EventView::Vote { request: *request, reply: *reply },
            Event::PreVote { request, reply } => EventView::PreVote {
                request: *request,
                reply: *reply,
            },
            Event::Fetch { request, reply } => EventView::Fetch {
                request: *request,
                reply: *reply,
            },
            Event::FetchSnapshot { request, reply } => EventView::FetchSnapshot {
                request: *request,
                reply: *reply,
            },
        }
    }
}

/// Who is answered once the engine's actions are done.
#[derive(Clone, Copy, Debug, PartialEq, Eq, Structural)]
pub enum Then {
    /// Nobody.
    Nothing,
    /// The caller that asked for a vote.
    Vote { reply: ReplyId },
    /// The caller that asked for a trial vote.
    PreVote { reply: ReplyId },
    /// The caller that asked for entries. The fetch is counted if this node led
    /// the caller's cluster when it came.
    Fetch { reply: ReplyId, counted: bool },
    /// The operator, whose snapshot is stored.
    Snapshot { reply: ReplyId, info: TriggeredSnapshotInfo },
    /// The caller that asked for a snapshot in a higher term.
    SteppedDown { reply: ReplyId },
}

/// An answer, or the error that stands in its way.
pub open spec fn or_error<A>(error: Option<ErrorView>, answer: A) -> Result<A, ErrorView> {
    match error {
        Some(e) => Err(e),
        None => Ok(answer),
    }
}

/// What is told once the engine's actions are done. An error takes precedence
/// over any answer.
pub open spec fn told_then(node: &NodeView, then: Then, captured: CapturedView) -> Seq<EffectView> {
    match then {
        Then::Nothing => seq![],
        Then::Vote { reply } => seq![
            EffectView::AnswerVote {
                reply,
                result: or_error(
                    captured.error,
                    match captured.vote {
                        Some(v) => v,
                        None => denied_vote(node),
                    },
                ),
            },
        ],
        Then::PreVote { reply } => seq![
            EffectView::AnswerPreVote {
                reply,
                result: or_error(
                    captured.error,
                    match captured.pre_vote {
                        Some(v) => v,
                        None => denied_pre_vote(node),
                    },
                ),
            },
        ],
        Then::Fetch { reply, counted } => (if counted && captured.error is None {
            seq![EffectView::Observe(Observation::FetchRequest(FetchDirection::Received))]
        } else {
            seq![]
        }) + seq![
            EffectView::AnswerFetch {
                reply,
                result: or_error(
                    captured.error,
                    match captured.fetch {
                        Some(v) => v,
                        None => denied_fetch(node),
                    },
                ),
            },
        ],
        Then::Snapshot { reply, info } => seq![
            EffectView::AnswerSnapshot { reply, result: or_error(captured.error, info) },
        ],
        Then::SteppedDown { reply } => seq![
            EffectView::AnswerFetchSnapshot {
                reply,
                result: Err(
                    match captured.error {
                        Some(e) => e,
                        None => ErrorView::NotLeader(node.leader_id),
                    },
                ),
            },
        ],
    }
}

/// Tells what is to be told once the engine's actions are done.
fn conclude(state: &mut DriverState, then: Then, captured: CapturedResponse)
    ensures
        final(state)@ == old(state)@.telling(told_then(&old(state)@.node, then, captured@)),
{
    let CapturedResponse { vote, pre_vote, fetch, error } = captured;
    match then {
        Then::Nothing => {
            assert(state@ =~= state@.telling(seq![]));
        },
        Then::Vote { reply } => {
            let result = match error {
                Some(e) => Err(e),
                None => Ok(
                    match vote {
                        Some(v) => v,
                        None => default_deny_vote(&state.node),
                    },
                ),
            };
            state.tell(Effect::AnswerVote { reply, result });
        },
        Then::PreVote { reply } => {
            let result = match error {
                Some(e) => Err(e),
                None => Ok(
                    match pre_vote {
                        Some(v) => v,
                        None => default_deny_pre_vote(&state.node),
                    },
                ),
            };
            state.tell(Effect::AnswerPreVote { reply, result });
        },
        Then::Fetch { reply, counted } => {
            if counted && error.is_none() {
                state.tell(Effect::Observe(Observation::FetchRequest(FetchDirection::Received)));
            }
            let result = match error {
                Some(e) => Err(e),
                None => Ok(
                    match fetch {
                        Some(v) => v,
                        None => default_deny_fetch(&state.node),
                    },
                ),
            };
            state.tell(Effect::AnswerFetch { reply, result });
            assert(state@ =~= old(state)@.telling(
                told_then(&old(state)@.node, then, captured@),
            ));
        },
        Then::Snapshot { reply, info } => {
            let result = match error {
                Some(e) => Err(e),
                None => Ok(info),
            };
            state.tell(Effect::AnswerSnapshot { reply, result });
        },
        Then::SteppedDown { reply } => {
            let e = match error {
                Some(e) => e,
                None => XRaftError::NotLeader { leader_hint: state.node.leader_id },
            };
            state.tell(Effect::AnswerFetchSnapshot { reply, result: Err(e) });
        },
    }
}

/// What an event in progress waits for.
#[derive(Debug)]
pub enum Task {
    /// The engine.
    Engine { origin: Option<NodeId>, then: Then },
    /// The engine, which is handed a proposal. Its log ended at `before`.
    Propose { before: LogIndex, reply: ReplyId },
    /// The engine's actions.
    Run { run: ActionRun, then: Then },
    /// The taking of a snapshot for an operator.
    Take { stage: TakeStage, reply: ReplyId },
    /// The lookup of a snapshot for another node.
    Find { request: FetchSnapshotRequest, reply: ReplyId },
    /// The pieces of that snapshot.
    Read { reply: ReplyId },
    /// Nothing.
    Done,
}

/// What a [`Task`] holds.
#[verifier::ext_equal]
pub enum TaskView {
    Engine { origin: Option<NodeId>, then: Then },
    Propose { before: LogIndex, reply: ReplyId },
    Run { run: RunView, then: Then },
    Take { stage: TakeStageView, reply: ReplyId },
    Find { request: FetchSnapshotRequest, reply: ReplyId },
    Read { reply: ReplyId },
    Done,
}

impl View for Task {
    type V = TaskView;

    open spec fn view(&self) -> TaskView {
        match self {
            Task::Engine { origin, then } => TaskView::Engine { origin: *origin, then: *then },
            Task::Propose { before, reply } => TaskView::Propose {
                before: *before,
                reply: *reply,
            },
            Task::Run { run, then } => TaskView::Run { run: run@, then: *then },
            Task::Take { stage, reply } => TaskView::Take { stage: stage@, reply: *reply },
            Task::Find { request, reply } => TaskView::Find { request: *request, reply: *reply },
            Task::Read { reply } => TaskView::Read { reply: *reply },
            Task::Done => TaskView::Done,
        }
    }
}

/// Whether an outcome is what a task waits for.
pub open spec fn task_expects(task: TaskView, outcome: Outcome) -> bool {
    match task {
        TaskView::Engine { .. } | TaskView::Propose { .. } => outcome is Engine,
        TaskView::Run { run, then } => run_expects(run.stage, outcome),
        TaskView::Take { stage, reply } => take_expects(stage, outcome),
        TaskView::Find { .. } => outcome is Found,
        TaskView::Read { .. } => outcome is Chunks,
        TaskView::Done => false,
    }
}

impl TaskView {
    /// Whether what is still to be done is in range.
    pub open spec fn wf(self) -> bool {
        self matches TaskView::Run { run, then } ==> run.wf()
    }

    /// Whether the task goes on without an outcome.
    pub open spec fn can_step(self) -> bool {
        self matches TaskView::Run { run, then } && run.can_step()
    }
}

/// What a task changes.
#[verifier::ext_equal]
pub struct TaskChange {
    pub state: StateView,
    pub task: TaskView,
    pub step: StepView,
}

/// Nothing is left to be done.
pub open spec fn over(state: StateView) -> TaskChange {
    TaskChange { state, task: TaskView::Done, step: StepView::Finished }
}

/// Nothing is left to be done but to tell one thing.
pub open spec fn telling_only(state: StateView, effect: EffectView) -> TaskChange {
    over(state.telling(seq![effect]))
}

/// The host is asked for something.
pub open spec fn calling(state: StateView, task: TaskView, request: RequestView) -> TaskChange {
    TaskChange { state, task, step: StepView::Ask(request) }
}

/// The engine is stepped.
pub open spec fn stepping(
    state: StateView,
    input: InputView,
    origin: Option<NodeId>,
    then: Then,
) -> TaskChange {
    calling(state, TaskView::Engine { origin, then }, RequestView::StepEngine(input))
}

/// A run of actions at its start.
pub open spec fn fresh_run(actions: Seq<Action>, origin: Option<NodeId>) -> RunView {
    RunView {
        parents: seq![],
        queue: actions,
        captured: nothing_captured(),
        origin,
        stage: StageView::Ready,
    }
}

/// The engine's actions are about to be done.
pub open spec fn acting(
    state: StateView,
    actions: Seq<Action>,
    origin: Option<NodeId>,
    then: Then,
) -> TaskChange {
    TaskChange {
        state,
        task: TaskView::Run { run: fresh_run(actions, origin), then },
        step: StepView::Continue,
    }
}

/// A change of the run of actions, as a change of the task. At the end of the
/// run the caller is answered.
pub open spec fn lifted(change: RunChange, then: Then) -> TaskChange {
    if change.step is Finished {
        over(
            change.state.telling(
                told_then(&change.state.node, then, change.run.captured),
            ),
        )
    } else {
        TaskChange {
            state: change.state,
            task: TaskView::Run { run: change.run, then },
            step: change.step,
        }
    }
}

/// What is made of the end of a call to another node. A vote or fetch that was
/// answered goes to the engine. A transferred snapshot does too, if it comes
/// from the recognised leader of the same cluster in this node's term; from a
/// higher term it makes the node a follower of that term. Anything else is
/// dropped.
pub open spec fn outbound_ended(state: StateView, result: OutboundResultView) -> TaskChange {
    match result {
        OutboundResultView::Vote { peer, response } => stepping(
            state,
            InputView::VoteResponse { from: peer, response },
            None,
            Then::Nothing,
        ),
        OutboundResultView::PreVote { peer, response } => stepping(
            state,
            InputView::PreVoteResponse { from: peer, response },
            None,
            Then::Nothing,
        ),
        OutboundResultView::Fetch { peer, response } => stepping(
            state,
            InputView::FetchResponse(response),
            None,
            Then::Nothing,
        ),
        OutboundResultView::FetchSnapshot {
            peer,
            cluster_id,
            leader_epoch,
            chunk_count,
            completed,
            metadata,
            data,
        } => if cluster_id != state.node.cluster_id@ {
            over(state)
        } else if leader_epoch > state.node.current_term.0 {
            calling(
                state,
                TaskView::Engine { origin: None, then: Then::Nothing },
                RequestView::BecomeFollower(Term(leader_epoch)),
            )
        } else if leader_epoch < state.node.current_term.0 || state.node.leader_id != Some(peer) {
            over(state)
        } else {
            match metadata {
                Some(metadata) => stepping(
                    state,
                    InputView::FetchSnapshotReceived { metadata, data },
                    None,
                    Then::Nothing,
                ),
                None => over(state),
            }
        },
        OutboundResultView::Error { peer, kind, err } => over(state),
    }
}

/// What is made of a read when it comes.
pub open spec fn query_begun(state: StateView, query: Seq<u8>, reply: ReplyId) -> TaskChange {
    match admission(&state.node, state.reads.len(), query, reply) {
        ReadAdmission::Told(effect) => telling_only(state, effect),
        ReadAdmission::Queued(read) => over(StateView { reads: state.reads.push(read), ..state }),
    }
}

/// What is made of an operator's request for a snapshot: a leader takes one of
/// what is committed, unless one is being taken.
pub open spec fn trigger_begun(state: StateView, reply: ReplyId, now: u64) -> TaskChange {
    if !state.node.leads() {
        telling_only(
            state,
            EffectView::AnswerSnapshot {
                reply,
                result: Err(ErrorView::NotLeader(state.node.leader_id)),
            },
        )
    } else if state.node.snapshot_in_flight {
        telling_only(
            state,
            EffectView::AnswerSnapshot {
                reply,
                result: Err(
                    ErrorView::Config(
                        "snapshot already in flight; retry after current snapshot completes"@,
                    ),
                ),
            },
        )
    } else {
        calling(
            state,
            TaskView::Take {
                stage: TakeStageView::Term { through: state.node.commit_index, started_at: now },
                reply,
            },
            RequestView::ReadTerm(state.node.commit_index),
        )
    }
}

/// What is made of another node's request for a snapshot.
pub open spec fn fetch_snapshot_begun(
    state: StateView,
    request: FetchSnapshotRequest,
    reply: ReplyId,
) -> TaskChange {
    match snapshot_verdict(&state.node, &request) {
        SnapshotVerdictView::Refuse(e) => telling_only(
            state,
            EffectView::AnswerFetchSnapshot { reply, result: Err(e) },
        ),
        SnapshotVerdictView::StepDown(term) => calling(
            state,
            TaskView::Engine { origin: None, then: Then::SteppedDown { reply } },
            RequestView::BecomeFollower(term),
        ),
        SnapshotVerdictView::Serve => calling(
            state,
            TaskView::Find { request, reply },
            RequestView::FindSnapshot(request.snapshot_id@),
        ),
    }
}

/// What is made of an event when it comes.
pub open spec fn event_begun(state: StateView, event: EventView, now: u64) -> TaskChange {
    match event {
        EventView::Startup => calling(
            state,
            TaskView::Engine { origin: None, then: Then::Nothing },
            RequestView::ApplyCommitted,
        ),
        EventView::Tick => stepping(state, InputView::Tick, None, Then::Nothing),
        EventView::Outbound(result) => outbound_ended(state, result),
        EventView::Propose { command, reply } => if state.node.leads() {
            calling(
                state,
                TaskView::Propose { before: state.node.last_log_index, reply },
                RequestView::StepEngine(InputView::ClientPropose(command)),
            )
        } else {
            telling_only(
                state,
                EffectView::AnswerPropose {
                    reply,
                    result: Err(ErrorView::NotLeader(state.node.leader_id)),
                },
            )
        },
        EventView::Query { query, reply } => query_begun(state, query, reply),
        EventView::TriggerSnapshot { reply } => trigger_begun(state, reply, now),
        EventView::Vote { request, reply } => stepping(
            state,
            InputView::VoteRequest(request),
            Some(request.candidate_id),
            Then::Vote { reply },
        ),
        EventView::PreVote { request, reply } => stepping(
            state,
            InputView::PreVoteRequest(request),
            Some(request.candidate_id),
            Then::PreVote { reply },
        ),
        EventView::Fetch { request, reply } => stepping(
            state,
            InputView::FetchRequest(request),
            Some(request.replica_id),
            Then::Fetch {
                reply,
                counted: request.cluster_id@ == state.node.cluster_id@ && state.node.leads(),
            },
        ),
        EventView::FetchSnapshot { request, reply } => fetch_snapshot_begun(state, request, reply),
    }
}

/// How a task goes on without an outcome.
pub open spec fn task_step(state: StateView, task: TaskView, now: u64) -> TaskChange {
    match task {
        TaskView::Run { run, then } => lifted(run_step(state, run, now), then),
        _ => arbitrary(),
    }
}

/// Whether one of the actions appends an entry at `index`.
pub open spec fn appends_at(actions: Seq<Action>, index: LogIndex) -> bool {
    exists|i: int, j: int|
        #![trigger actions[i], holds_at(actions[i], j, index)]
        0 <= i < actions.len() && holds_at(actions[i], j, index)
}

/// Whether an action appends entries of which the `j`th one is at `index`.
pub open spec fn holds_at(action: Action, j: int, index: LogIndex) -> bool {
    action matches Action::AppendEntries(entries) && 0 <= j < entries@.len() && entries@[j].index
        == index
}

/// Whether the engine has taken a proposal up: its log, which ended at `before`,
/// is one entry longer, and it asks for that entry to be appended.
pub open spec fn taken_up(before: LogIndex, node: &NodeView, actions: Seq<Action>) -> bool {
    node.last_log_index.0 == before.0 + 1 && appends_at(actions, node.last_log_index)
}

/// A proposal has been handed to the engine. The client waits for its entry if
/// the engine has taken it up; otherwise it is sent elsewhere.
pub open spec fn proposed(
    state: StateView,
    before: LogIndex,
    reply: ReplyId,
    actions: Seq<Action>,
    now: u64,
) -> StateView {
    if taken_up(before, &state.node, actions) {
        StateView {
            rows: with_waiter(state.rows, state.node.last_log_index, reply, now),
            ..state
        }
    } else {
        state.telling(
            seq![
                EffectView::AnswerPropose {
                    reply,
                    result: Err(ErrorView::NotLeader(state.node.leader_id)),
                },
            ],
        )
    }
}

/// What an operator is told of a snapshot.
pub open spec fn snapshot_info(metadata: SnapshotMetaView) -> TriggeredSnapshotInfo {
    TriggeredSnapshotInfo {
        last_included_index: metadata.last_included_index.0,
        last_included_term: metadata.last_included_term.0,
        size_bytes: match metadata.size_bytes {
            Some(n) => n,
            None => 0,
        },
    }
}

/// The taking of an operator's snapshot goes on. A failure stops the driver.
pub open spec fn take_lifted(state: StateView, next: TakeNextView, reply: ReplyId) -> TaskChange {
    match next {
        TakeNextView::Ask(stage, request) => calling(
            state,
            TaskView::Take { stage, reply },
            request,
        ),
        TakeNextView::Taken { metadata, actions } => acting(
            state,
            actions,
            None,
            Then::Snapshot { reply, info: snapshot_info(metadata) },
        ),
        TakeNextView::Failed(e) => {
            let msg = "operator-triggered snapshot failed: "@ + error_text(e);
            telling_only(
                state.halting(msg),
                EffectView::AnswerSnapshot { reply, result: Err(ErrorView::Storage(msg)) },
            )
        },
    }
}

/// A snapshot has been looked up for another node.
pub open spec fn snapshot_found(
    state: StateView,
    request: FetchSnapshotRequest,
    reply: ReplyId,
    found: Result<Option<SnapshotMetaView>, ErrorView>,
) -> TaskChange {
    match found {
        Ok(Some(metadata)) => calling(
            state,
            TaskView::Read { reply },
            RequestView::ReadSnapshot {
                metadata,
                chunk_size: request.max_bytes as usize,
                offset: request.offset,
                max_bytes: if request.max_bytes == 0 {
                    None
                } else {
                    Some(request.max_bytes)
                },
            },
        ),
        Ok(None) => telling_only(
            state,
            EffectView::AnswerFetchSnapshot {
                reply,
                result: Err(ErrorView::SnapshotNotFound(request.snapshot_id@)),
            },
        ),
        Err(e) => telling_only(
            state,
            EffectView::AnswerFetchSnapshot { reply, result: Err(e) },
        ),
    }
}

/// How a task goes on with an outcome.
pub open spec fn task_resumed(
    state: StateView,
    task: TaskView,
    outcome: Outcome,
    now: u64,
) -> TaskChange {
    match (task, outcome) {
        (TaskView::Engine { origin, then }, Outcome::Engine { node, actions }) => acting(
            StateView { node, ..state },
            actions@,
            origin,
            then,
        ),
        (TaskView::Propose { before, reply }, Outcome::Engine { node, actions }) => acting(
            proposed(StateView { node, ..state }, before, reply, actions@, now),
            actions@,
            None,
            Then::Nothing,
        ),
        (TaskView::Run { run, then }, _) => lifted(run_resumed(state, run, outcome, now), then),
        (TaskView::Take { stage, reply }, _) => take_lifted(
            StateView {
                node: node_after(state.node, outcome),
                ..state.telling(take_effects(stage, outcome, now))
            },
            take_continue(voters_view(state.node.voter_set), stage, outcome),
            reply,
        ),
        (TaskView::Find { request, reply }, Outcome::Found(found)) => snapshot_found(
            state,
            request,
            reply,
            match found {
                Ok(Some(m)) => Ok(Some(m@)),
                Ok(None) => Ok(None),
                Err(e) => Err(e@),
            },
        ),
        (TaskView::Read { reply }, Outcome::Chunks(Ok(pieces))) => telling_only(
            state,
            EffectView::AnswerFetchSnapshot {
                reply,
                result: Ok(handed_out(&state.node, pieces@)),
            },
        ),
        (TaskView::Read { reply }, Outcome::Chunks(Err(e))) => telling_only(
            state,
            EffectView::AnswerFetchSnapshot { reply, result: Err(e@) },
        ),
        _ => arbitrary(),
    }
}

/// Whether what was done is the given change, and whether it leaves the driver
/// in order.
pub open spec fn changed(
    change: TaskChange,
    state: StateView,
    task: TaskView,
    step: StepView,
) -> bool {
    &&& state == change.state
    &&& task == change.task
    &&& step == change.step
    &&& state.wf()
    &&& task.wf()
    &&& step is Continue ==> task.can_step()
    &&& step is Finished <==> task is Done
    &&& step matches StepView::Ask(request) ==> forall|o: Outcome|
        task_expects(task, o) == #[trigger] answers(request, o)
}

/// Steps the engine.
fn step_engine(input: Input, origin: Option<NodeId>, then: Then) -> (r: (Task, Step))
    ensures
        forall|s: StateView|
            #![trigger stepping(s, input@, origin, then)]
            s.wf() ==> changed(stepping(s, input@, origin, then), s, r.0@, r.1@),
{
    (Task::Engine { origin, then }, Step::Ask(Request::StepEngine(input)))
}

/// Steps the engine's clock.
pub fn handle_tick(state: &DriverState) -> (r: (Task, Step))
    requires
        state@.wf(),
    ensures
        changed(
            stepping(state@, InputView::Tick, None, Then::Nothing),
            state@,
            r.0@,
            r.1@,
        ),
{
    step_engine(Input::Tick, None, Then::Nothing)
}

/// Deals with the end of a call to another node.
pub fn handle_outbound_result(state: &mut DriverState, result: OutboundResult) -> (r: (Task, Step))
    requires
        old(state)@.wf(),
    ensures
        changed(outbound_ended(old(state)@, result@), final(state)@, r.0@, r.1@),
{
    match result {
        OutboundResult::Vote { peer, response } => step_engine(
            Input::VoteResponse { from: peer, response },
            None,
            Then::Nothing,
        ),
        OutboundResult::PreVote { peer, response } => step_engine(
            Input::PreVoteResponse { from: peer, response },
            None,
            Then::Nothing,
        ),
        OutboundResult::Fetch { peer: _, response } => step_engine(
            Input::FetchResponse(response),
            None,
            Then::Nothing,
        ),
        OutboundResult::FetchSnapshot {
            peer,
            cluster_id,
            leader_epoch,
            chunk_count: _,
            completed: _,
            metadata,
            data,
        } => {
            if cluster_id != state.node.cluster_id {
                return (Task::Done, Step::Finished);
            }
            if leader_epoch > state.node.current_term.0 {
                return (
                    Task::Engine { origin: None, then: Then::Nothing },
                    Step::Ask(Request::BecomeFollower(Term(leader_epoch))),
                );
            }
            let led_by_peer: bool = match state.node.leader_id {
                Some(id) => id == peer,
                None => false,
            };
            if leader_epoch < state.node.current_term.0 || !led_by_peer {
                return (Task::Done, Step::Finished);
            }
            match metadata {
                Some(metadata) => step_engine(
                    Input::FetchSnapshotReceived { metadata, data },
                    None,
                    Then::Nothing,
                ),
                None => (Task::Done, Step::Finished),
            }
        },
        OutboundResult::Error { peer: _, kind: _, err: _ } => (Task::Done, Step::Finished),
    }
}

/// Deals with a client's proposal.
pub fn handle_client_command(state: &mut DriverState, command: Vec<u8>, reply: ReplyId) -> (r: (
    Task,
    Step,
))
    requires
        old(state)@.wf(),
    ensures
        forall|now: u64|
            #![trigger event_begun(
                old(state)@,
                EventView::Propose { command: command@, reply },
                now,
            )]
            changed(
                event_begun(old(state)@, EventView::Propose { command: command@, reply }, now),
                final(state)@,
                r.0@,
                r.1@,
            ),
{
    if !state.node.is_leader() {
        state.tell(
            Effect::AnswerPropose {
                reply,
                result: Err(XRaftError::NotLeader { leader_hint: state.node.leader_id }),
            },
        );
        return (Task::Done, Step::Finished);
    }
    (
        Task::Propose { before: state.node.last_log_index, reply },
        Step::Ask(Request::StepEngine(Input::ClientPropose(command))),
    )
}

/// Deals with a client's read.
fn handle_query(state: &mut DriverState, query: Vec<u8>, reply: ReplyId) -> (r: (Task, Step))
    requires
        old(state)@.wf(),
    ensures
        changed(query_begun(old(state)@, query@, reply), final(state)@, r.0@, r.1@),
{
    handle_client_query(&state.node, &mut state.reads, &mut state.outbox, query, reply);
    proof {
        match admission(&old(state)@.node, old(state)@.reads.len(), query@, reply) {
            ReadAdmission::Told(effect) => {
                assert(state@.told =~= old(state)@.told + seq![effect]);
            },
            ReadAdmission::Queued(read) => {},
        }
    }
    (Task::Done, Step::Finished)
}

/// Deals with an operator's request for a snapshot.
pub fn handle_trigger_snapshot(state: &mut DriverState, reply: ReplyId, now: u64) -> (r: (
    Task,
    Step,
))
    requires
        old(state)@.wf(),
    ensures
        changed(trigger_begun(old(state)@, reply, now), final(state)@, r.0@, r.1@),
{
    if !state.node.is_leader() {
        state.tell(
            Effect::AnswerSnapshot {
                reply,
                result: Err(XRaftError::NotLeader { leader_hint: state.node.leader_id }),
            },
        );
        return (Task::Done, Step::Finished);
    }
    if state.node.snapshot_in_flight {
        state.tell(
            Effect::AnswerSnapshot {
                reply,
                result: Err(
                    XRaftError::Config(
                        "snapshot already in flight; retry after current snapshot completes".to_owned(),
                    ),
                ),
            },
        );
        return (Task::Done, Step::Finished);
    }
    let (stage, request) = begin_take(state.node.commit_index, now);
    (Task::Take { stage, reply }, Step::Ask(request))
}

/// Deals with another node's request for a vote.
pub fn handle_inbound_vote(state: &DriverState, request: VoteRequest, reply: ReplyId) -> (r: (
    Task,
    Step,
))
    requires
        state@.wf(),
    ensures
        changed(
            stepping(
                state@,
                InputView::VoteRequest(request),
                Some(request.candidate_id),
                Then::Vote { reply },
            ),
            state@,
            r.0@,
            r.1@,
        ),
{
    let candidate: NodeId = request.candidate_id;
    step_engine(Input::VoteRequest(request), Some(candidate), Then::Vote { reply })
}

/// Deals with another node's request for a trial vote.
pub fn handle_inbound_pre_vote(
    state: &DriverState,
    request: PreVoteRequest,
    reply: ReplyId,
) -> (r: (Task, Step))
    requires
        state@.wf(),
    ensures
        changed(
            stepping(
                state@,
                InputView::PreVoteRequest(request),
                Some(request.candidate_id),
                Then::PreVote { reply },
            ),
            state@,
            r.0@,
            r.1@,
        ),
{
    let candidate: NodeId = request.candidate_id;
    step_engine(Input::PreVoteRequest(request), Some(candidate), Then::PreVote { reply })
}

/// Deals with another node's request for entries.
pub fn handle_inbound_fetch(state: &DriverState, request: FetchRequest, reply: ReplyId) -> (r: (
    Task,
    Step,
))
    requires
        state@.wf(),
    ensures
        changed(
            stepping(
                state@,
                InputView::FetchRequest(request),
                Some(request.replica_id),
                Then::Fetch {
                    reply,
                    counted: request.cluster_id@ == state@.node.cluster_id@
                        && state@.node.leads(),
                },
            ),
            state@,
            r.0@,
            r.1@,
        ),
{
    let replica: NodeId = request.replica_id;
    let cluster_matches: bool = request.cluster_id == state.node.cluster_id;
    let counted: bool = cluster_matches && state.node.is_leader();
    step_engine(Input::FetchRequest(request), Some(replica), Then::Fetch { reply, counted })
}

/// Deals with another node's request for a snapshot.
pub fn handle_inbound_fetch_snapshot(
    state: &mut DriverState,
    request: FetchSnapshotRequest,
    reply: ReplyId,
) -> (r: (Task, Step))
    requires
        old(state)@.wf(),
    ensures
        changed(fetch_snapshot_begun(old(state)@, request, reply), final(state)@, r.0@, r.1@),
{
    match judge_fetch_snapshot(&state.node, &request) {
        SnapshotVerdict::Refuse(e) => {
            state.tell(Effect::AnswerFetchSnapshot { reply, result: Err(e) });
            (Task::Done, Step::Finished)
        },
        SnapshotVerdict::StepDown(term) => (
            Task::Engine { origin: None, then: Then::SteppedDown { reply } },
            Step::Ask(Request::BecomeFollower(term)),
        ),
        SnapshotVerdict::Serve => {
            let id = request.snapshot_id.clone();
            (Task::Find { request, reply }, Step::Ask(Request::FindSnapshot(id)))
        },
    }
}

/// Begins to deal with an event.
pub fn begin_event(state: &mut DriverState, event: Event, now: u64) -> (r: (Task, Step))
    requires
        old(state)@.wf(),
    ensures
        changed(event_begun(old(state)@, event@, now), final(state)@, r.0@, r.1@),
{
    match event {
        Event::Startup => (
            Task::Engine { origin: None, then: Then::Nothing },
            Step::Ask(Request::ApplyCommitted),
        ),
        Event::Tick => handle_tick(state),
        Event::Outbound(result) => handle_outbound_result(state, result),
        Event::Propose { command, reply } => {
            let ghost before = state@;
            let r = handle_client_command(state, command, reply);
            assert(changed(
                event_begun(before, EventView::Propose { command: command@, reply }, now),
                state@,
                r.0@,
                r.1@,
            ));
            r
        },
        Event::Query { query, reply } => handle_query(state, query, reply),
        Event::TriggerSnapshot { reply } => handle_trigger_snapshot(state, reply, now),
        Event::Vote { request, reply } => handle_inbound_vote(state, request, reply),
        Event::PreVote { request, reply } => handle_inbound_pre_vote(state, request, reply),
        Event::Fetch { request, reply } => handle_inbound_fetch(state, request, reply),
        Event::FetchSnapshot { request, reply } => handle_inbound_fetch_snapshot(
            state,
            request,
            reply,
        ),
    }
}

/// Whether one of the actions appends an entry at `index`.
fn any_append_at(actions: &Vec<Action>, index: LogIndex) -> (found: bool)
    ensures
        found == appends_at(actions@, index),
{
    let mut i: usize = 0;
    while i < actions.len()
        invariant
            i <= actions.len(),
            forall|k: int, j: int|
                #![trigger actions@[k], holds_at(actions@[k], j, index)]
                0 <= k < i ==> !holds_at(actions@[k], j, index),
        decreases actions.len() - i,
    {
        if let Action::AppendEntries(entries) = &actions[i] {
            let mut j: usize = 0;
            while j < entries.len()
                invariant
                    i < actions.len(),
                    actions@[i as int] == Action::AppendEntries(*entries),
                    j <= entries.len(),
                    forall|k: int|
                        0 <= k < j ==> !(#[trigger] holds_at(actions@[i as int], k, index)),
                decreases entries.len() - j,
            {
                if entries[j].index == index {
                    assert(holds_at(actions@[i as int], j as int, index));
                    return true;
                }
                assert(!holds_at(actions@[i as int], j as int, index));
                j = j + 1;
            }
        }
        assert forall|j: int| !(#[trigger] holds_at(actions@[i as int], j, index)) by {}
        i = i + 1;
    }
    false
}

/// Does the engine's actions.
fn act(actions: Vec<Action>, origin: Option<NodeId>, then: Then) -> (r: (Task, Step))
    requires
        all_in_range(actions@),
    ensures
        forall|s: StateView|
            #![trigger acting(s, actions@, origin, then)]
            s.wf() ==> changed(acting(s, actions@, origin, then), s, r.0@, r.1@),
{
    (Task::Run { run: ActionRun::new(actions, origin), then }, Step::Continue)
}

/// Goes on after a step of a run.
fn lift(state: &mut DriverState, run: ActionRun, step: Step, then: Then) -> (r: (Task, Step))
    requires
        old(state)@.wf(),
        run@.wf(),
        step@ is Continue ==> run@.can_step(),
        step@ matches StepView::Ask(request) ==> forall|o: Outcome|
            run_expects(run@.stage, o) == #[trigger] answers(request, o),
    ensures
        changed(
            lifted(RunChange { state: old(state)@, run: run@, step: step@ }, then),
            final(state)@,
            r.0@,
            r.1@,
        ),
{
    match step {
        Step::Finished => {
            let captured = run.into_captured();
            conclude(state, then, captured);
            (Task::Done, Step::Finished)
        },
        other => (Task::Run { run, then }, other),
    }
}

/// Goes on with the taking of an operator's snapshot.
fn lift_take(state: &mut DriverState, next: TakeNext, reply: ReplyId) -> (r: (Task, Step))
    requires
        old(state)@.wf(),
        next matches TakeNext::Ask(stage, request) ==> forall|o: Outcome|
            take_expects(stage@, o) == #[trigger] answers(request@, o),
        next matches TakeNext::Taken { metadata, actions } ==> all_in_range(actions@),
    ensures
        changed(take_lifted(old(state)@, next@, reply), final(state)@, r.0@, r.1@),
{
    match next {
        TakeNext::Ask(stage, request) => (Task::Take { stage, reply }, Step::Ask(request)),
        TakeNext::Taken { metadata, actions } => {
            let info = TriggeredSnapshotInfo {
                last_included_index: metadata.last_included_index.0,
                last_included_term: metadata.last_included_term.0,
                size_bytes: match metadata.size_bytes {
                    Some(n) => n,
                    None => 0,
                },
            };
            act(actions, None, Then::Snapshot { reply, info })
        },
        TakeNext::Failed(e) => {
            let msg = prefixed("operator-triggered snapshot failed: ", e.text().as_str());
            state.halt(msg.clone());
            state.tell(
                Effect::AnswerSnapshot { reply, result: Err(XRaftError::Storage(msg)) },
            );
            (Task::Done, Step::Finished)
        },
    }
}

impl Task {
    /// Goes on without an outcome.
    pub fn step(self, state: &mut DriverState, now: u64) -> (r: (Task, Step))
        requires
            old(state)@.wf(),
            self@.wf(),
            self@.can_step(),
        ensures
            changed(task_step(old(state)@, self@, now), final(state)@, r.0@, r.1@),
    {
        match self {
            Task::Run { run, then } => {
                let mut run = run;
                let step = run.step(state, now);
                lift(state, run, step, then)
            },
            other => {
                assert(false);
                (other, Step::Finished)
            },
        }
    }

    /// Goes on with an outcome.
    #[verifier::rlimit(40)]
    pub fn resume(self, state: &mut DriverState, outcome: Outcome, now: u64) -> (r: (Task, Step))
        requires
            old(state)@.wf(),
            self@.wf(),
            task_expects(self@, outcome),
            outcome.sound(),
        ensures
            changed(task_resumed(old(state)@, self@, outcome, now), final(state)@, r.0@, r.1@),
    {
        match self {
            Task::Run { run, then } => {
                let mut run = run;
                let step = run.resume(state, outcome, now);
                lift(state, run, step, then)
            },
            Task::Take { stage, reply } => {
                let next = continue_take(&mut state.node, stage, outcome, now, &mut state.outbox);
                lift_take(state, next, reply)
            },
            Task::Engine { origin, then } => match outcome {
                Outcome::Engine { node, actions } => {
                    state.node = node;
                    act(actions, origin, then)
                },
                _ => {
                    assert(false);
                    (Task::Done, Step::Finished)
                },
            },
            Task::Propose { before, reply } => match outcome {
                Outcome::Engine { node, actions } => {
                    state.node = node;
                    let last: LogIndex = state.node.last_log_index;
                    let longer: bool = last.0 > 0 && last.0 - 1 == before.0;
                    if longer && any_append_at(&actions, last) {
                        state.waiters.register(last, reply, now);
                    } else {
                        state.tell(
                            Effect::AnswerPropose {
                                reply,
                                result: Err(
                                    XRaftError::NotLeader { leader_hint: state.node.leader_id },
                                ),
                            },
                        );
                    }
                    act(actions, None, Then::Nothing)
                },
                _ => {
                    assert(false);
                    (Task::Done, Step::Finished)
                },
            },
            Task::Find { request, reply } => match outcome {
                Outcome::Found(Ok(Some(metadata))) => {
                    let max_bytes: Option<u64> = if request.max_bytes == 0 {
                        None
                    } else {
                        Some(request.max_bytes)
                    };
                    (
                        Task::Read { reply },
                        Step::Ask(
                            Request::ReadSnapshot {
                                metadata,
                                chunk_size: #[verifier::truncate]
                                (request.max_bytes as usize),
                                offset: request.offset,
                                max_bytes,
                            },
                        ),
                    )
                },
                Outcome::Found(Ok(None)) => {
                    state.tell(
                        Effect::AnswerFetchSnapshot {
                            reply,
                            result: Err(XRaftError::SnapshotNotFound(request.snapshot_id)),
                        },
                    );
                    (Task::Done, Step::Finished)
                },
                Outcome::Found(Err(e)) => {
                    state.tell(Effect::AnswerFetchSnapshot { reply, result: Err(e) });
                    (Task::Done, Step::Finished)
                },
                _ => {
                    assert(false);
                    (Task::Done, Step::Finished)
                },
            },
            Task::Read { reply } => match outcome {
                Outcome::Chunks(Ok(pieces)) => {
                    let sent = address_pieces(&state.node, pieces);
                    state.tell(Effect::AnswerFetchSnapshot { reply, result: Ok(sent) });
                    (Task::Done, Step::Finished)
                },
                Outcome::Chunks(Err(e)) => {
                    state.tell(Effect::AnswerFetchSnapshot { reply, result: Err(e) });
                    (Task::Done, Step::Finished)
                },
                _ => {
                    assert(false);
                    (Task::Done, Step::Finished)
                },
            },
            Task::Done => {
                assert(false);
                (Task::Done, Step::Finished)
            },
        }
    }
}

} // verus!
