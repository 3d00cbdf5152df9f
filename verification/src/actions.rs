//! Doing what the engine asks for, one action after the other.
//!
//! A failed durable write stops everything: the caller gets the error in place
//! of any answer, the remaining actions are dropped, and the driver has a reason
//! to stop.
use std::collections::VecDeque;

use vstd::prelude::*;
use vstd::string::*;

use crate::apply::{
    apply_continue, apply_expects, apply_step, begin_apply, continue_apply, step_apply,
    ApplyChange, ApplyNext, ApplyNextView, ApplyStage, ApplyStageView,
};
use crate::captured::{merged, nothing_captured, CapturedResponse, CapturedView};
use crate::config::FetchDirection;
use crate::error::{error_text, ErrorView, XRaftError};
use crate::fetch::{
    acked_offset, anchor_of, begin_fetch, continue_fetch, effective_log_tip, effective_tip,
    fetch_acks, fetch_begin, fetch_continue, fetch_expects, make_redirect, redirect_to, FetchNext,
    FetchNextView, FetchStage,
};
use crate::host::{
    answers, Effect, EffectView, Observation, Outcome, Request, RequestView,
};
use crate::message::{
    all_in_range, Action, FetchQuery, FetchResponse, FetchResponseView, Input, InputView,
    LogTruncation, OutboundMessage, OutboundMessageView,
};
use crate::queue::into_queue;
use crate::reads::refusals;
use crate::snapshot::{
    begin_install, begin_take, continue_install, continue_take, install_begin, install_continue,
    install_effects, install_expects, node_after, take_continue, take_effects, take_expects,
    InstallNext, InstallNextView, InstallStage, InstallStageView, TakeNext, TakeNextView,
    TakeStage, TakeStageView,
};
use crate::state::{DriverState, StateView};
use crate::text::prefixed;
use crate::types::{index_text, voters_view, Entry, LogIndex, NodeId, Term};
use crate::waiters::{propose_answers, reply_ids, reply_ids_at_all, rows_without_all};

verus! {

/// What the action at hand waits for.
#[derive(Debug)]
pub enum Stage {
    /// Nothing: the next action can be started.
    Ready,
    /// The end of the log, before the hard state is persisted.
    PersistTip,
    /// The hard state.
    Persist,
    /// The append of the entries at `indices`.
    Append { indices: Vec<LogIndex> },
    /// The flush after that.
    AppendFlush { indices: Vec<LogIndex> },
    /// The removal of a suffix of the log.
    Truncate,
    /// The flush after that.
    TruncateFlush,
    /// The end of the log after that.
    TruncateTip,
    /// The engine, which is told the end of the log.
    TruncateTail,
    /// The lowest index in the log, before a prefix is removed.
    CompactFirst { through: LogIndex },
    /// The removal of the prefix.
    Compact { through: LogIndex, first_valid: LogIndex },
    /// The flush after that.
    CompactFlush { through: LogIndex, first_valid: LogIndex },
    /// The application of a committed range.
    Apply(ApplyStage),
    /// The taking of a snapshot.
    Take(TakeStage),
    /// The installation of a snapshot.
    Install(InstallStage),
    /// The service of a fetch.
    Fetch { query: FetchQuery, stage: FetchStage },
    /// The engine, which learns what a replica has.
    Ack,
    /// Nothing: all actions are done, or dropped.
    Finished,
}

/// What a [`Stage`] holds.
#[verifier::ext_equal]
pub enum StageView {
    Ready,
    PersistTip,
    Persist,
    Append { indices: Seq<LogIndex> },
    AppendFlush { indices: Seq<LogIndex> },
    Truncate,
    TruncateFlush,
    TruncateTip,
    TruncateTail,
    CompactFirst { through: LogIndex },
    Compact { through: LogIndex, first_valid: LogIndex },
    CompactFlush { through: LogIndex, first_valid: LogIndex },
    Apply(ApplyStageView),
    Take(TakeStageView),
    Install(InstallStageView),
    Fetch { query: FetchQuery, stage: FetchStage },
    Ack,
    Finished,
}

impl View for Stage {
    type V = StageView;

    open spec fn view(&self) -> StageView {
        match self {
            Stage::Ready => StageView::Ready,
            Stage::PersistTip => StageView::PersistTip,
            Stage::Persist => StageView::Persist,
            Stage::Append { indices } => StageView::Append { indices: indices@ },
            Stage::AppendFlush { indices } => StageView::AppendFlush { indices: indices@ },
            Stage::Truncate => StageView::Truncate,
            Stage::TruncateFlush => StageView::TruncateFlush,
            Stage::TruncateTip => StageView::TruncateTip,
            Stage::TruncateTail => StageView::TruncateTail,
            Stage::CompactFirst { through } => StageView::CompactFirst { through: *through },
            Stage::Compact { through, first_valid } => StageView::Compact {
                through: *through,
                first_valid: *first_valid,
            },
            Stage::CompactFlush { through, first_valid } => StageView::CompactFlush {
                through: *through,
                first_valid: *first_valid,
            },
            Stage::Apply(s) => StageView::Apply(s@),
            Stage::Take(s) => StageView::Take(s@),
            Stage::Install(s) => StageView::Install(s@),
            Stage::Fetch { query, stage } => StageView::Fetch { query: *query, stage: *stage },
            Stage::Ack => StageView::Ack,
            Stage::Finished => StageView::Finished,
        }
    }
}

/// Whether an outcome is what a stage waits for.
pub open spec fn run_expects(stage: StageView, outcome: Outcome) -> bool {
    match stage {
        StageView::Ready | StageView::Finished => false,
        StageView::PersistTip | StageView::TruncateTip => outcome is LogTip,
        StageView::Persist | StageView::Append { .. } | StageView::AppendFlush { .. }
        | StageView::Truncate | StageView::TruncateFlush | StageView::Compact { .. }
        | StageView::CompactFlush { .. } => outcome is Done,
        StageView::TruncateTail => outcome is Node,
        StageView::CompactFirst { .. } => outcome is FirstValidIndex,
        StageView::Apply(s) => apply_expects(s, outcome),
        StageView::Take(s) => take_expects(s, outcome),
        StageView::Install(s) => install_expects(s, outcome),
        StageView::Fetch { query, stage } => fetch_expects(stage, outcome),
        StageView::Ack => outcome is Engine,
    }
}

/// Actions that are interrupted by others, and what they have captured.
#[derive(Debug)]
pub struct Frame {
    pub queue: VecDeque<Action>,
    pub captured: CapturedResponse,
}

/// What a [`Frame`] holds.
#[verifier::ext_equal]
pub struct FrameView {
    pub queue: Seq<Action>,
    pub captured: CapturedView,
}

impl View for Frame {
    type V = FrameView;

    open spec fn view(&self) -> FrameView {
        FrameView { queue: self.queue@, captured: self.captured@ }
    }
}

/// The actions that follow from one step of the engine.
#[derive(Debug)]
pub struct ActionRun {
    /// Interrupted actions, outermost first.
    parents: Vec<Frame>,
    /// Actions still to be done.
    queue: VecDeque<Action>,
    /// What the caller may be answered with.
    captured: CapturedResponse,
    /// The caller whose answer is captured, if one waits.
    origin: Option<NodeId>,
    stage: Stage,
}

/// What an [`ActionRun`] holds.
#[verifier::ext_equal]
pub struct RunView {
    pub parents: Seq<FrameView>,
    pub queue: Seq<Action>,
    pub captured: CapturedView,
    pub origin: Option<NodeId>,
    pub stage: StageView,
}

impl View for ActionRun {
    type V = RunView;

    closed spec fn view(&self) -> RunView {
        RunView {
            parents: self.parents@.map_values(|f: Frame| f@),
            queue: self.queue@,
            captured: self.captured@,
            origin: self.origin,
            stage: self.stage@,
        }
    }
}

/// What a stage holds is in range.
pub open spec fn stage_wf(stage: StageView) -> bool {
    match stage {
        StageView::CompactFirst { through } => through.0 < u64::MAX,
        StageView::Compact { through, .. } => through.0 < u64::MAX,
        StageView::CompactFlush { through, .. } => through.0 < u64::MAX,
        StageView::Apply(ApplyStageView::Range { from, to }) => to.0 < u64::MAX,
        StageView::Fetch { query, stage } => stage is Term ==> query.fetch_offset.0 > 1,
        StageView::Install(InstallStageView::Tip { actions }) => all_in_range(actions),
        StageView::Install(InstallStageView::Tail { actions }) => all_in_range(actions),
        _ => true,
    }
}

impl RunView {
    /// Everything that is still to be done is in range.
    pub open spec fn wf(self) -> bool {
        &&& all_in_range(self.queue)
        &&& forall|i: int| 0 <= i < self.parents.len() ==> all_in_range(
            (#[trigger] self.parents[i]).queue,
        )
        &&& stage_wf(self.stage)
    }

    /// Whether the run goes on without an outcome.
    pub open spec fn can_step(self) -> bool {
        self.stage is Ready || (self.stage matches StageView::Apply(s) && s is Entries)
    }

    /// The same run at another stage.
    pub open spec fn at(self, stage: StageView) -> RunView {
        RunView { stage, ..self }
    }
}

/// What comes next in a run.
#[derive(Debug)]
pub enum Step {
    /// The host is asked for something.
    Ask(Request),
    /// The run can go on.
    Continue,
    /// The run is over.
    Finished,
}

/// What a [`Step`] says.
#[verifier::ext_equal]
pub enum StepView {
    Ask(RequestView),
    Continue,
    Finished,
}

impl View for Step {
    type V = StepView;

    open spec fn view(&self) -> StepView {
        match self {
            Step::Ask(request) => StepView::Ask(request@),
            Step::Continue => StepView::Continue,
            Step::Finished => StepView::Finished,
        }
    }
}

/// What a step changes.
#[verifier::ext_equal]
pub struct RunChange {
    pub state: StateView,
    pub run: RunView,
    pub step: StepView,
}

/// A change that asks the host for something.
pub open spec fn asking(
    state: StateView,
    run: RunView,
    stage: StageView,
    request: RequestView,
) -> RunChange {
    RunChange { state, run: run.at(stage), step: StepView::Ask(request) }
}

/// A change after which the next action can be started.
pub open spec fn going_on(state: StateView, run: RunView) -> RunChange {
    RunChange { state, run: run.at(StageView::Ready), step: StepView::Continue }
}

/// What a run has captured once it ends, with all the runs that it interrupted.
pub open spec fn unwound(parents: Seq<FrameView>, captured: CapturedView) -> CapturedView
    decreases parents.len(),
{
    if parents.len() == 0 {
        captured
    } else {
        unwound(parents.drop_last(), merged(parents.last().captured, captured))
    }
}

/// A run that is over; what was still to be done is dropped.
pub open spec fn ended(state: StateView, run: RunView) -> RunChange {
    RunChange {
        state,
        run: RunView {
            parents: seq![],
            queue: seq![],
            captured: unwound(run.parents, run.captured),
            origin: run.origin,
            stage: StageView::Finished,
        },
        step: StepView::Finished,
    }
}

/// A run that ends because of a failed action: the caller gets the failure, and
/// the driver has a reason to stop.
pub open spec fn halted(state: StateView, run: RunView, msg: Seq<char>) -> RunChange {
    ended(
        state.halting(msg),
        RunView {
            captured: CapturedView { error: Some(ErrorView::Storage(msg)), ..run.captured },
            ..run
        },
    )
}

/// All actions of the innermost list are done: the interrupted ones go on,
/// unless the driver must stop.
pub open spec fn list_done(state: StateView, run: RunView) -> RunChange {
    if run.parents.len() == 0 {
        ended(state, run)
    } else {
        let parent = run.parents.last();
        let outer = RunView {
            parents: run.parents.drop_last(),
            queue: parent.queue,
            captured: merged(parent.captured, run.captured),
            origin: run.origin,
            stage: run.stage,
        };
        if state.halt is Some {
            ended(state, outer)
        } else {
            going_on(state, outer)
        }
    }
}

/// A message is an answer to the waiting caller if it goes to the caller and
/// the caller has none of its kind yet; then it is captured. Any other message
/// is sent.
pub open spec fn message_out(
    state: StateView,
    run: RunView,
    to: NodeId,
    message: OutboundMessageView,
) -> RunChange {
    let captured = if run.origin == Some(to) {
        match message {
            OutboundMessageView::VoteResponse(r) if run.captured.vote is None => Some(
                CapturedView { vote: Some(r), ..run.captured },
            ),
            OutboundMessageView::PreVoteResponse(r) if run.captured.pre_vote is None => Some(
                CapturedView { pre_vote: Some(r), ..run.captured },
            ),
            OutboundMessageView::FetchResponse(r) if run.captured.fetch is None => Some(
                CapturedView { fetch: Some(r), ..run.captured },
            ),
            _ => None,
        }
    } else {
        None
    };
    match captured {
        Some(captured) => going_on(state, RunView { captured, ..run }),
        None => going_on(state.telling(seq![EffectView::Dispatch { to, message }]), run),
    }
}

/// What is told when a message leaves the engine: a fetch is counted.
pub open spec fn counted(message: OutboundMessageView) -> Seq<EffectView> {
    match message {
        OutboundMessageView::FetchRequest(_) => seq![
            EffectView::Observe(Observation::FetchRequest(FetchDirection::Sent)),
        ],
        _ => seq![],
    }
}

/// The driver no longer leads: whoever waits for its leadership is told so.
pub open spec fn stepped_down(state: StateView) -> StateView {
    let hint = state.node.leader_id;
    StateView {
        rows: seq![],
        reads: seq![],
        told: state.told + propose_answers(reply_ids(state.rows), Err(ErrorView::NotLeader(hint)))
            + refusals(state.reads, ErrorView::NotLeader(hint)) + seq![
            EffectView::Observe(Observation::LeaderStepDown),
        ],
        ..state
    }
}

/// The log indices of entries.
pub open spec fn indices_of(entries: Seq<Entry>) -> Seq<LogIndex> {
    entries.map_values(|e: Entry| e.index)
}

/// The service of a fetch goes on. An answer is captured or sent, and the engine
/// learns what it acknowledges; a failure is captured unless there is one.
pub open spec fn fetch_goes_on(
    state: StateView,
    run: RunView,
    query: FetchQuery,
    next: FetchNextView,
) -> RunChange {
    match next {
        FetchNextView::Ask(stage, request) => asking(
            state,
            run,
            StageView::Fetch { query, stage },
            request,
        ),
        FetchNextView::Answer(Err(e)) => going_on(
            state,
            RunView {
                captured: CapturedView {
                    error: Some(
                        match run.captured.error {
                            Some(first) => first,
                            None => e,
                        },
                    ),
                    ..run.captured
                },
                ..run
            },
        ),
        FetchNextView::Answer(Ok(r)) => {
            let out = message_out(state, run, query.to, OutboundMessageView::FetchResponse(r));
            match acked_offset(r, query.fetch_offset) {
                Some(offset) => asking(
                    out.state,
                    out.run,
                    StageView::Ack,
                    RequestView::StepEngine(
                        InputView::FetchRequestAcked {
                            replica_id: query.to,
                            confirmed_offset: offset,
                        },
                    ),
                ),
                None => out,
            }
        },
    }
}

/// The application of a committed range goes on.
pub open spec fn apply_goes_on(state: StateView, run: RunView, change: ApplyChange) -> RunChange {
    let after = StateView { rows: change.rows, ..state.telling(change.told) };
    match change.next {
        ApplyNextView::Ask(stage, request) => asking(after, run, StageView::Apply(stage), request),
        ApplyNextView::Continue(stage) => RunChange {
            state: after,
            run: run.at(StageView::Apply(stage)),
            step: StepView::Continue,
        },
        ApplyNextView::Applied => going_on(after, run),
        ApplyNextView::Failed(e) => halted(
            after,
            run,
            "apply to state machine failed: "@ + error_text(e),
        ),
    }
}

/// The taking of a snapshot goes on. What the engine asks for when it is taken
/// comes after what it has asked for before.
pub open spec fn take_goes_on(state: StateView, run: RunView, next: TakeNextView) -> RunChange {
    match next {
        TakeNextView::Ask(stage, request) => asking(state, run, StageView::Take(stage), request),
        TakeNextView::Taken { metadata, actions } => going_on(
            state,
            RunView { queue: run.queue + actions, ..run },
        ),
        TakeNextView::Failed(e) => halted(state, run, "snapshot save failed: "@ + error_text(e)),
    }
}

/// The installation of a snapshot goes on. What the engine asks for when it is
/// installed comes after what it has asked for before.
pub open spec fn install_goes_on(
    state: StateView,
    run: RunView,
    next: InstallNextView,
) -> RunChange {
    match next {
        InstallNextView::Ask(stage, request) => asking(
            state,
            run,
            StageView::Install(stage),
            request,
        ),
        InstallNextView::Installed(actions) => going_on(
            state,
            RunView { queue: run.queue + actions, ..run },
        ),
        InstallNextView::Failed(e) => halted(
            state,
            run,
            "snapshot install failed: "@ + error_text(e),
        ),
    }
}

/// How an action is started. `run` no longer holds it.
pub open spec fn action_started(
    state: StateView,
    run: RunView,
    action: Action,
    now: u64,
) -> RunChange {
    match action {
        Action::PersistHardState => asking(
            state,
            run,
            StageView::PersistTip,
            RequestView::ReadLogTip,
        ),
        Action::AppendEntries(entries) => asking(
            state,
            run,
            StageView::Append { indices: indices_of(entries@) },
            RequestView::AppendLog(entries@),
        ),
        Action::TruncateLog(LogTruncation::SuffixFromInclusive { from_index_inclusive }) => asking(
            state,
            run,
            StageView::Truncate,
            RequestView::TruncateLogFrom(from_index_inclusive),
        ),
        Action::TruncateLog(LogTruncation::PrefixThroughInclusive { through_index_inclusive }) =>
            asking(
            state,
            run,
            StageView::CompactFirst { through: through_index_inclusive },
            RequestView::ReadFirstValidIndex,
        ),
        Action::ApplyToStateMachine { from, to } => asking(
            state,
            run,
            StageView::Apply(ApplyStageView::Range { from, to }),
            RequestView::ReadRange { from, end: LogIndex((to.0 + 1) as u64) },
        ),
        Action::TakeSnapshot { through_index } => asking(
            state,
            run,
            StageView::Take(TakeStageView::Term { through: through_index, started_at: now }),
            RequestView::ReadTerm(through_index),
        ),
        Action::InstallSnapshot { metadata, data } => install_goes_on(
            state,
            run,
            install_begin(state.node.last_applied, metadata@, data@),
        ),
        Action::BecomeLeader => going_on(state, run),
        Action::StepDown => going_on(stepped_down(state), run),
        Action::SendMessage { to, message } => message_out(
            state.telling(counted(message@)),
            run,
            to,
            message@,
        ),
        Action::ServeFetch(query) => fetch_goes_on(
            state,
            run,
            query,
            fetch_begin(anchor_of(&state.node), query, state.max_fetch_batch),
        ),
        Action::RedirectToSnapshot {
            to,
            cluster_id,
            leader_epoch,
            leader_id,
            high_watermark,
            snapshot_metadata,
        } => message_out(
            state,
            run,
            to,
            OutboundMessageView::FetchResponse(
                FetchResponseView {
                    cluster_id: cluster_id@,
                    leader_epoch,
                    leader_id,
                    high_watermark,
                    entries: seq![],
                    diverging_epoch: None,
                    snapshot_redirect: Some(redirect_to(snapshot_metadata@)),
                    is_leader: true,
                },
            ),
        ),
    }
}

/// How a run goes on without an outcome.
pub open spec fn run_step(state: StateView, run: RunView, now: u64) -> RunChange {
    match run.stage {
        StageView::Apply(ApplyStageView::Entries { rest, to }) => apply_goes_on(
            state,
            run,
            apply_step(rest, to, state.rows, now),
        ),
        _ => if run.queue.len() == 0 {
            list_done(state, run)
        } else {
            action_started(
                state,
                RunView { queue: run.queue.drop_first(), ..run },
                run.queue[0],
                now,
            )
        },
    }
}

/// The lower of two indices.
pub open spec fn lower(a: LogIndex, b: LogIndex) -> LogIndex {
    if a.0 <= b.0 {
        a
    } else {
        b
    }
}

/// An append is given up: the clients that wait for its entries are failed.
pub open spec fn append_failed(
    state: StateView,
    run: RunView,
    indices: Seq<LogIndex>,
    msg: Seq<char>,
) -> RunChange {
    halted(
        StateView {
            rows: rows_without_all(state.rows, indices),
            ..state.telling(
                propose_answers(
                    reply_ids_at_all(state.rows, indices),
                    Err(ErrorView::Storage(msg)),
                ),
            )
        },
        run,
        msg,
    )
}

/// How many entries the removal of the log up to `through` removed.
pub open spec fn removed_count(through: LogIndex, first_valid: LogIndex) -> u64 {
    if through.0 + 1 >= first_valid.0 {
        (through.0 + 1 - first_valid.0) as u64
    } else {
        0
    }
}

/// How a run goes on with an outcome.
pub open spec fn run_resumed(
    state: StateView,
    run: RunView,
    outcome: Outcome,
    now: u64,
) -> RunChange {
    match (run.stage, outcome) {
        (StageView::PersistTip, Outcome::LogTip { index, term }) => asking(
            state,
            run,
            StageView::Persist,
            RequestView::PersistHardState {
                commit_index: lower(state.node.commit_index, index),
            },
        ),
        (StageView::Persist, Outcome::Done(Ok(_))) => going_on(state, run),
        (StageView::Persist, Outcome::Done(Err(e))) => halted(
            state,
            run,
            "hard-state persist failed: "@ + error_text(e@),
        ),
        (StageView::Append { indices }, Outcome::Done(Ok(_))) => asking(
            state,
            run,
            StageView::AppendFlush { indices },
            RequestView::FlushLog,
        ),
        (StageView::Append { indices }, Outcome::Done(Err(e))) => append_failed(
            state,
            run,
            indices,
            "log append failed: "@ + error_text(e@),
        ),
        (StageView::AppendFlush { indices }, Outcome::Done(Ok(_))) => going_on(
            state.telling(
                seq![EffectView::Observe(Observation::Append(indices.len() as u64))],
            ),
            run,
        ),
        (StageView::AppendFlush { indices }, Outcome::Done(Err(e))) => append_failed(
            state,
            run,
            indices,
            "log flush after append failed: "@ + error_text(e@),
        ),
        (StageView::Truncate, Outcome::Done(Ok(_))) => asking(
            state,
            run,
            StageView::TruncateFlush,
            RequestView::FlushLog,
        ),
        (StageView::Truncate, Outcome::Done(Err(e))) => halted(
            state,
            run,
            "log truncate failed: "@ + error_text(e@),
        ),
        (StageView::TruncateFlush, Outcome::Done(Ok(_))) => asking(
            state,
            run,
            StageView::TruncateTip,
            RequestView::ReadLogTip,
        ),
        (StageView::TruncateFlush, Outcome::Done(Err(e))) => halted(
            state,
            run,
            "log flush after truncate failed: "@ + error_text(e@),
        ),
        (StageView::TruncateTip, Outcome::LogTip { index, term }) => {
            let tip = effective_tip(anchor_of(&state.node), index, term);
            asking(
                state,
                run,
                StageView::TruncateTail,
                RequestView::SetLastLog { index: tip.0, term: tip.1 },
            )
        },
        (StageView::TruncateTail, Outcome::Node(node)) => going_on(
            StateView { node, ..state },
            run,
        ),
        (StageView::CompactFirst { through }, Outcome::FirstValidIndex(first_valid)) => asking(
            state,
            run,
            StageView::Compact { through, first_valid },
            RequestView::PurgeLogPrefix(through),
        ),
        (StageView::Compact { through, first_valid }, Outcome::Done(Ok(_))) => asking(
            state,
            run,
            StageView::CompactFlush { through, first_valid },
            RequestView::FlushLog,
        ),
        (StageView::Compact { through, first_valid }, Outcome::Done(Err(e))) => halted(
            state,
            run,
            "log purge_prefix("@ + index_text(through) + ") failed: "@ + error_text(e@),
        ),
        (StageView::CompactFlush { through, first_valid }, Outcome::Done(Ok(_))) => going_on(
            state.telling(
                seq![
                    EffectView::Observe(
                        Observation::LogCompacted(removed_count(through, first_valid)),
                    ),
                ],
            ),
            run,
        ),
        (StageView::CompactFlush { through, first_valid }, Outcome::Done(Err(e))) => halted(
            state,
            run,
            "log flush after purge_prefix("@ + index_text(through) + ") failed: "@ + error_text(e@),
        ),
        (StageView::Apply(s), _) => apply_goes_on(
            state,
            run,
            apply_continue(s, outcome, state.rows, now),
        ),
        (StageView::Take(s), _) => take_goes_on(
            StateView {
                node: node_after(state.node, outcome),
                ..state.telling(take_effects(s, outcome, now))
            },
            run,
            take_continue(voters_view(state.node.voter_set), s, outcome),
        ),
        (StageView::Install(s), _) => install_goes_on(
            StateView {
                node: node_after(state.node, outcome),
                ..state.telling(install_effects(s))
            },
            run,
            install_continue(state.node, s, outcome),
        ),
        (StageView::Fetch { query, stage }, _) => fetch_goes_on(
            state,
            run,
            query,
            fetch_continue(
                anchor_of(&state.node),
                query,
                state.max_fetch_batch,
                stage,
                outcome,
            ),
        ),
        (StageView::Ack, Outcome::Engine { node, actions }) => going_on(
            StateView { node, ..state },
            RunView {
                parents: run.parents.push(
                    FrameView { queue: run.queue, captured: run.captured },
                ),
                queue: actions@,
                captured: nothing_captured(),
                ..run
            },
        ),
        _ => arbitrary(),
    }
}

/// Whether what was done is the given change.
pub open spec fn did(change: RunChange, state: StateView, run: RunView, step: StepView) -> bool {
    &&& state == change.state
    &&& run == change.run
    &&& step == change.step
}

impl ActionRun {
    /// A run of the given actions. What they answer to `origin` is captured.
    pub fn new(actions: Vec<Action>, origin: Option<NodeId>) -> (r: ActionRun)
        ensures
            r@ == (RunView {
                parents: seq![],
                queue: actions@,
                captured: nothing_captured(),
                origin,
                stage: StageView::Ready,
            }),
    {
        let r = ActionRun {
            parents: Vec::new(),
            queue: into_queue(actions),
            captured: CapturedResponse::empty(),
            origin,
            stage: Stage::Ready,
        };
        assert(r@.parents =~= seq![]);
        r
    }

    /// What a finished run has captured.
    pub fn into_captured(self) -> (r: CapturedResponse)
        ensures
            r@ == self@.captured,
    {
        self.captured
    }

    /// Asks the host for something.
    fn ask(&mut self, stage: Stage, request: Request) -> (step: Step)
        ensures
            final(self)@ == old(self)@.at(stage@),
            step@ == StepView::Ask(request@),
    {
        self.stage = stage;
        Step::Ask(request)
    }

    /// Lets the next action be started.
    fn go_on(&mut self) -> (step: Step)
        ensures
            final(self)@ == old(self)@.at(StageView::Ready),
            step@ == StepView::Continue,
    {
        self.stage = Stage::Ready;
        Step::Continue
    }

    /// Ends the run.
    fn end(&mut self) -> (step: Step)
        ensures
            forall|s: StateView|
                #![trigger ended(s, old(self)@)]
                did(ended(s, old(self)@), s, final(self)@, step@),
    {
        let ghost before = self@;
        let ghost result = unwound(before.parents, before.captured);
        loop
            invariant_except_break
                unwound(self@.parents, self@.captured) == result,
                self@.origin == before.origin,
            ensures
                self@.parents.len() == 0,
                self@.captured == result,
                self@.origin == before.origin,
            decreases self@.parents.len(),
        {
            let ghost now = self@;
            let ghost frames = self.parents@;
            match self.parents.pop() {
                None => {
                    assert(self@.parents =~= now.parents);
                    break ;
                },
                Some(frame) => {
                    assert(now.parents.last() == frames.last()@);
                    assert(self@.parents =~= now.parents.drop_last());
                    let Frame { queue: _, captured } = frame;
                    let mut outer = captured;
                    core::mem::swap(&mut outer, &mut self.captured);
                    self.captured.merge(outer);
                },
            }
        }
        self.queue = VecDeque::new();
        self.stage = Stage::Finished;
        assert(self@.parents =~= seq![]);
        assert(self@.queue =~= seq![]);
        Step::Finished
    }

    /// Ends the run because of a failed action.
    fn halt(&mut self, state: &mut DriverState, msg: String) -> (step: Step)
        ensures
            did(halted(old(state)@, old(self)@, msg@), final(state)@, final(self)@, step@),
    {
        self.captured.error = Some(XRaftError::Storage(msg.clone()));
        state.halt(msg);
        let ghost failed = self@;
        let step = self.end();
        assert(did(ended(state@, failed), state@, self@, step@));
        step
    }

    /// Ends the run because of `what`, which failed with `e`.
    fn halt_because(&mut self, state: &mut DriverState, what: &str, e: &XRaftError) -> (step: Step)
        ensures
            did(
                halted(old(state)@, old(self)@, what@ + error_text(e@)),
                final(state)@,
                final(self)@,
                step@,
            ),
    {
        let msg = prefixed(what, e.text().as_str());
        self.halt(state, msg)
    }

    /// Goes back to the interrupted actions.
    fn finish_list(&mut self, state: &mut DriverState) -> (step: Step)
        requires
            old(self)@.stage is Ready,
        ensures
            did(list_done(old(state)@, old(self)@), final(state)@, final(self)@, step@),
    {
        let ghost before = self@;
        let ghost frames = self.parents@;
        match self.parents.pop() {
            None => {
                assert(self@ =~= before);
                let step = self.end();
                assert(did(ended(state@, before), state@, self@, step@));
                step
            },
            Some(frame) => {
                assert(before.parents.last() == frames.last()@);
                assert(self@.parents =~= before.parents.drop_last());
                let Frame { queue, captured } = frame;
                let mut outer = captured;
                core::mem::swap(&mut outer, &mut self.captured);
                self.captured.merge(outer);
                self.queue = queue;
                if state.halt_reason.is_some() {
                    let ghost merged_run = self@;
                    let step = self.end();
                    assert(did(ended(state@, merged_run), state@, self@, step@));
                    step
                } else {
                    self.go_on()
                }
            },
        }
    }

    /// Captures a message or sends it.
    fn send(&mut self, state: &mut DriverState, to: NodeId, message: OutboundMessage) -> (step:
        Step)
        ensures
            did(
                message_out(old(state)@, old(self)@, to, message@),
                final(state)@,
                final(self)@,
                step@,
            ),
    {
        let expected: bool = match self.origin {
            Some(id) => id == to,
            None => false,
        };
        if expected {
            match message {
                OutboundMessage::VoteResponse(r) => {
                    if self.captured.vote.is_none() {
                        self.captured.vote = Some(r);
                    } else {
                        state.tell(
                            Effect::Dispatch { to, message: OutboundMessage::VoteResponse(r) },
                        );
                    }
                },
                OutboundMessage::PreVoteResponse(r) => {
                    if self.captured.pre_vote.is_none() {
                        self.captured.pre_vote = Some(r);
                    } else {
                        state.tell(
                            Effect::Dispatch { to, message: OutboundMessage::PreVoteResponse(r) },
                        );
                    }
                },
                OutboundMessage::FetchResponse(r) => {
                    if self.captured.fetch.is_none() {
                        self.captured.fetch = Some(r);
                    } else {
                        state.tell(
                            Effect::Dispatch { to, message: OutboundMessage::FetchResponse(r) },
                        );
                    }
                },
                other => {
                    state.tell(Effect::Dispatch { to, message: other });
                },
            }
        } else {
            state.tell(Effect::Dispatch { to, message });
        }
        self.go_on()
    }

    /// Goes on with the service of a fetch.
    fn on_fetch(&mut self, state: &mut DriverState, query: FetchQuery, next: FetchNext) -> (step:
        Step)
        ensures
            did(
                fetch_goes_on(old(state)@, old(self)@, query, next@),
                final(state)@,
                final(self)@,
                step@,
            ),
    {
        match next {
            FetchNext::Ask(stage, request) => self.ask(Stage::Fetch { query, stage }, request),
            FetchNext::Answer(Err(e)) => {
                if self.captured.error.is_none() {
                    self.captured.error = Some(e);
                }
                self.go_on()
            },
            FetchNext::Answer(Ok(r)) => {
                let acked: Option<LogIndex> = fetch_acks(&r, query.fetch_offset);
                let step = self.send(state, query.to, OutboundMessage::FetchResponse(r));
                match acked {
                    Some(offset) => self.ask(
                        Stage::Ack,
                        Request::StepEngine(
                            Input::FetchRequestAcked {
                                replica_id: query.to,
                                confirmed_offset: offset,
                            },
                        ),
                    ),
                    None => step,
                }
            },
        }
    }

    /// Goes on with the application of a committed range, whose effects have
    /// taken place.
    fn on_apply(&mut self, state: &mut DriverState, next: ApplyNext) -> (step: Step)
        ensures
            did(
                apply_goes_on(
                    old(state)@,
                    old(self)@,
                    ApplyChange { next: next@, rows: old(state)@.rows, told: seq![] },
                ),
                final(state)@,
                final(self)@,
                step@,
            ),
    {
        assert(state@ =~= state@.telling(seq![]));
        match next {
            ApplyNext::Ask(stage, request) => self.ask(Stage::Apply(stage), request),
            ApplyNext::Continue(stage) => {
                self.stage = Stage::Apply(stage);
                Step::Continue
            },
            ApplyNext::Applied => self.go_on(),
            ApplyNext::Failed(e) => self.halt_because(
                state,
                "apply to state machine failed: ",
                &e,
            ),
        }
    }

    /// Adds actions behind those that are still to be done.
    fn enqueue(&mut self, actions: Vec<Action>)
        ensures
            final(self)@ == (RunView { queue: old(self)@.queue + actions@, ..old(self)@ }),
    {
        let mut more = into_queue(actions);
        self.queue.append(&mut more);
        assert(self@ =~= RunView { queue: old(self)@.queue + actions@, ..old(self)@ });
    }

    /// Goes on with the taking of a snapshot.
    fn on_take(&mut self, state: &mut DriverState, next: TakeNext) -> (step: Step)
        ensures
            did(
                take_goes_on(old(state)@, old(self)@, next@),
                final(state)@,
                final(self)@,
                step@,
            ),
    {
        match next {
            TakeNext::Ask(stage, request) => self.ask(Stage::Take(stage), request),
            TakeNext::Taken { metadata: _, actions } => {
                self.enqueue(actions);
                self.go_on()
            },
            TakeNext::Failed(e) => self.halt_because(state, "snapshot save failed: ", &e),
        }
    }

    /// Goes on with the installation of a snapshot.
    fn on_install(&mut self, state: &mut DriverState, next: InstallNext) -> (step: Step)
        ensures
            did(
                install_goes_on(old(state)@, old(self)@, next@),
                final(state)@,
                final(self)@,
                step@,
            ),
    {
        match next {
            InstallNext::Ask(stage, request) => self.ask(Stage::Install(stage), request),
            InstallNext::Installed(actions) => {
                self.enqueue(actions);
                self.go_on()
            },
            InstallNext::Failed(e) => self.halt_because(state, "snapshot install failed: ", &e),
        }
    }

    /// Starts an action.
    #[verifier::rlimit(40)]
    fn start(&mut self, state: &mut DriverState, action: Action, now: u64) -> (step: Step)
        requires
            action.in_range(),
            old(state)@.wf(),
        ensures
            did(
                action_started(old(state)@, old(self)@, action, now),
                final(state)@,
                final(self)@,
                step@,
            ),
            final(state)@.wf(),
    {
        match action {
            Action::PersistHardState => self.ask(Stage::PersistTip, Request::ReadLogTip),
            Action::AppendEntries(entries) => {
                let indices = entry_indices(&entries);
                self.ask(Stage::Append { indices }, Request::AppendLog(entries))
            },
            Action::TruncateLog(cut) => match cut {
                LogTruncation::SuffixFromInclusive { from_index_inclusive } => self.ask(
                    Stage::Truncate,
                    Request::TruncateLogFrom(from_index_inclusive),
                ),
                LogTruncation::PrefixThroughInclusive { through_index_inclusive } => self.ask(
                    Stage::CompactFirst { through: through_index_inclusive },
                    Request::ReadFirstValidIndex,
                ),
            },
            Action::ApplyToStateMachine { from, to } => {
                let (stage, request) = begin_apply(from, to);
                self.ask(Stage::Apply(stage), request)
            },
            Action::TakeSnapshot { through_index } => {
                let (stage, request) = begin_take(through_index, now);
                self.ask(Stage::Take(stage), request)
            },
            Action::InstallSnapshot { metadata, data } => {
                let next = begin_install(&state.node, metadata, data);
                self.on_install(state, next)
            },
            Action::BecomeLeader => self.go_on(),
            Action::StepDown => {
                step_down(state);
                self.go_on()
            },
            Action::SendMessage { to, message } => {
                if let OutboundMessage::FetchRequest(_) = &message {
                    state.tell(
                        Effect::Observe(Observation::FetchRequest(FetchDirection::Sent)),
                    );
                }
                assert(state@ =~= old(state)@.telling(counted(message@)));
                self.send(state, to, message)
            },
            Action::ServeFetch(query) => {
                let next = begin_fetch(&state.node, &query, state.max_fetch_batch);
                self.on_fetch(state, query, next)
            },
            Action::RedirectToSnapshot {
                to,
                cluster_id,
                leader_epoch,
                leader_id,
                high_watermark,
                snapshot_metadata,
            } => {
                let response = FetchResponse {
                    cluster_id,
                    leader_epoch,
                    leader_id,
                    high_watermark,
                    entries: Vec::new(),
                    diverging_epoch: None,
                    snapshot_redirect: Some(make_redirect(&snapshot_metadata)),
                    is_leader: true,
                };
                assert(response@.entries =~= seq![]);
                self.send(state, to, OutboundMessage::FetchResponse(response))
            },
        }
    }

    /// Goes on without an outcome.
    #[verifier::rlimit(40)]
    pub fn step(&mut self, state: &mut DriverState, now: u64) -> (step: Step)
        requires
            old(self)@.wf(),
            old(self)@.can_step(),
            old(state)@.wf(),
        ensures
            did(run_step(old(state)@, old(self)@, now), final(state)@, final(self)@, step@),
            final(state)@.wf(),
            final(self)@.wf(),
            step@ matches StepView::Ask(request) ==> forall|o: Outcome|
                run_expects(final(self)@.stage, o) == #[trigger] answers(request, o),
            step@ is Continue ==> final(self)@.can_step(),
    {
        let ghost before = self@;
        proof {
            lemma_step_is_wf(state@, before, now);
        }
        let mut stage = Stage::Ready;
        core::mem::swap(&mut stage, &mut self.stage);
        match stage {
            Stage::Apply(ApplyStage::Entries { rest, to }) => {
                let ghost entered = state@;
                let next = step_apply(rest, to, &mut state.waiters, now, &mut state.outbox);
                let ghost between = state@;
                let step = self.on_apply(state, next);
                proof {
                    lemma_apply_effects_first(
                        entered,
                        before.at(StageView::Ready),
                        between,
                        apply_step(rest@, to, entered.rows, now),
                    );
                    lemma_apply_stage_is_replaced(
                        entered,
                        before,
                        apply_step(rest@, to, entered.rows, now),
                    );
                }
                step
            },
            _ => {
                let ghost actions = self.queue@;
                match self.queue.pop_front() {
                    None => {
                        assert(self@ =~= before);
                        self.finish_list(state)
                    },
                    Some(action) => {
                        assert(action == before.queue[0]);
                        assert(self@ =~= (RunView { queue: before.queue.drop_first(), ..before }));
                        self.start(state, action, now)
                    },
                }
            },
        }
    }

    /// Gives an append up.
    fn fail_append(
        &mut self,
        state: &mut DriverState,
        indices: Vec<LogIndex>,
        what: &str,
        e: &XRaftError,
    ) -> (step: Step)
        requires
            old(state)@.wf(),
        ensures
            did(
                append_failed(old(state)@, old(self)@, indices@, what@ + error_text(e@)),
                final(state)@,
                final(self)@,
                step@,
            ),
            final(state)@.wf(),
    {
        let msg = prefixed(what, e.text().as_str());
        state.waiters.fail_entries(&indices, &msg, &mut state.outbox);
        self.halt(state, msg)
    }

    /// Goes on with an outcome.
    #[verifier::rlimit(40)]
    pub fn resume(&mut self, state: &mut DriverState, outcome: Outcome, now: u64) -> (step: Step)
        requires
            old(self)@.wf(),
            old(state)@.wf(),
            run_expects(old(self)@.stage, outcome),
            outcome.sound(),
        ensures
            did(
                run_resumed(old(state)@, old(self)@, outcome, now),
                final(state)@,
                final(self)@,
                step@,
            ),
            final(state)@.wf(),
            final(self)@.wf(),
            step@ matches StepView::Ask(request) ==> forall|o: Outcome|
                run_expects(final(self)@.stage, o) == #[trigger] answers(request, o),
            step@ is Continue ==> final(self)@.can_step(),
    {
        let ghost before = self@;
        proof {
            lemma_resume_is_wf(state@, before, outcome, now);
        }
        let mut stage = Stage::Ready;
        core::mem::swap(&mut stage, &mut self.stage);
        match stage {
            Stage::Apply(s) => {
                let ghost entered = state@;
                let next = continue_apply(s, outcome, &mut state.waiters, now, &mut state.outbox);
                let ghost between = state@;
                let step = self.on_apply(state, next);
                proof {
                    lemma_apply_effects_first(
                        entered,
                        before.at(StageView::Ready),
                        between,
                        apply_continue(s@, outcome, entered.rows, now),
                    );
                    lemma_apply_stage_is_replaced(
                        entered,
                        before,
                        apply_continue(s@, outcome, entered.rows, now),
                    );
                }
                step
            },
            Stage::Take(s) => {
                let next = continue_take(&mut state.node, s, outcome, now, &mut state.outbox);
                self.on_take(state, next)
            },
            Stage::Install(s) => {
                let next = continue_install(&mut state.node, s, outcome, &mut state.outbox);
                self.on_install(state, next)
            },
            Stage::Fetch { query, stage } => {
                let next = continue_fetch(
                    &state.node,
                    &query,
                    state.max_fetch_batch,
                    stage,
                    outcome,
                );
                self.on_fetch(state, query, next)
            },
            _ => self.resume_log(state, stage, outcome),
        }
    }

    /// Goes on with an outcome of a call to the log, the hard state, or the
    /// engine.
    #[verifier::rlimit(40)]
    fn resume_log(&mut self, state: &mut DriverState, stage: Stage, outcome: Outcome) -> (step:
        Step)
        requires
            old(state)@.wf(),
            stage_wf(stage@),
            run_expects(stage@, outcome),
            outcome.sound(),
            !(stage is Apply) && !(stage is Take) && !(stage is Install) && !(stage is Fetch),
        ensures
            forall|now: u64|
                #![trigger run_resumed(old(state)@, old(self)@.at(stage@), outcome, now)]
                did(
                    run_resumed(old(state)@, old(self)@.at(stage@), outcome, now),
                    final(state)@,
                    final(self)@,
                    step@,
                ),
            final(state)@.wf(),
    {
        match (stage, outcome) {
            (Stage::PersistTip, Outcome::LogTip { index, term: _ }) => {
                let commit_index: LogIndex = if state.node.commit_index.0 <= index.0 {
                    state.node.commit_index
                } else {
                    index
                };
                self.ask(Stage::Persist, Request::PersistHardState { commit_index })
            },
            (Stage::Persist, Outcome::Done(Ok(_))) => self.go_on(),
            (Stage::Persist, Outcome::Done(Err(e))) => self.halt_because(
                state,
                "hard-state persist failed: ",
                &e,
            ),
            (Stage::Append { indices }, Outcome::Done(Ok(_))) => self.ask(
                Stage::AppendFlush { indices },
                Request::FlushLog,
            ),
            (Stage::Append { indices }, Outcome::Done(Err(e))) => self.fail_append(
                state,
                indices,
                "log append failed: ",
                &e,
            ),
            (Stage::AppendFlush { indices }, Outcome::Done(Ok(_))) => {
                state.tell(Effect::Observe(Observation::Append(indices.len() as u64)));
                self.go_on()
            },
            (Stage::AppendFlush { indices }, Outcome::Done(Err(e))) => self.fail_append(
                state,
                indices,
                "log flush after append failed: ",
                &e,
            ),
            (Stage::Truncate, Outcome::Done(Ok(_))) => self.ask(
                Stage::TruncateFlush,
                Request::FlushLog,
            ),
            (Stage::Truncate, Outcome::Done(Err(e))) => self.halt_because(
                state,
                "log truncate failed: ",
                &e,
            ),
            (Stage::TruncateFlush, Outcome::Done(Ok(_))) => self.ask(
                Stage::TruncateTip,
                Request::ReadLogTip,
            ),
            (Stage::TruncateFlush, Outcome::Done(Err(e))) => self.halt_because(
                state,
                "log flush after truncate failed: ",
                &e,
            ),
            (Stage::TruncateTip, Outcome::LogTip { index, term }) => {
                let (index, term): (LogIndex, Term) = effective_log_tip(&state.node, index, term);
                self.ask(Stage::TruncateTail, Request::SetLastLog { index, term })
            },
            (Stage::TruncateTail, Outcome::Node(node)) => {
                state.node = node;
                self.go_on()
            },
            (Stage::CompactFirst { through }, Outcome::FirstValidIndex(first_valid)) => self.ask(
                Stage::Compact { through, first_valid },
                Request::PurgeLogPrefix(through),
            ),
            (Stage::Compact { through, first_valid }, Outcome::Done(Ok(_))) => self.ask(
                Stage::CompactFlush { through, first_valid },
                Request::FlushLog,
            ),
            (Stage::Compact { through, first_valid: _ }, Outcome::Done(Err(e))) => {
                let mut what = "log purge_prefix(".to_owned();
                through.push_text(&mut what);
                what.append(") failed: ");
                self.halt_because(state, what.as_str(), &e)
            },
            (Stage::CompactFlush { through, first_valid }, Outcome::Done(Ok(_))) => {
                let removed: u64 = (through.0 + 1).saturating_sub(first_valid.0);
                state.tell(Effect::Observe(Observation::LogCompacted(removed)));
                self.go_on()
            },
            (Stage::CompactFlush { through, first_valid: _ }, Outcome::Done(Err(e))) => {
                let mut what = "log flush after purge_prefix(".to_owned();
                through.push_text(&mut what);
                what.append(") failed: ");
                self.halt_because(state, what.as_str(), &e)
            },
            (Stage::Ack, Outcome::Engine { node, actions }) => {
                let ghost before = self@;
                state.node = node;
                let mut queue = into_queue(actions);
                core::mem::swap(&mut queue, &mut self.queue);
                let mut captured = CapturedResponse::empty();
                core::mem::swap(&mut captured, &mut self.captured);
                let frame = Frame { queue, captured };
                self.parents.push(frame);
                assert(self@.parents =~= before.parents.push(frame@));
                self.go_on()
            },
            _ => {
                assert(false);
                Step::Continue
            },
        }
    }
}

/// The log indices of entries.
fn entry_indices(entries: &Vec<Entry>) -> (indices: Vec<LogIndex>)
    ensures
        indices@ == indices_of(entries@),
{
    let mut indices: Vec<LogIndex> = Vec::new();
    let mut i: usize = 0;
    while i < entries.len()
        invariant
            i <= entries.len(),
            indices@ == indices_of(entries@.take(i as int)),
        decreases entries.len() - i,
    {
        indices.push(entries[i].index);
        i = i + 1;
        assert(indices@ =~= indices_of(entries@.take(i as int)));
    }
    assert(entries@.take(i as int) =~= entries@);
    indices
}

/// Tells everyone who waits for the driver's leadership that it is over.
fn step_down(state: &mut DriverState)
    requires
        old(state)@.wf(),
    ensures
        final(state)@ == stepped_down(old(state)@),
        final(state)@.wf(),
{
    let hint: Option<NodeId> = state.node.leader_id;
    let result: Result<LogIndex, XRaftError> = Err(XRaftError::NotLeader { leader_hint: hint });
    state.waiters.settle_all(&result, &mut state.outbox);
    let error = XRaftError::NotLeader { leader_hint: hint };
    state.reads.refuse_all(&error, &mut state.outbox);
    state.outbox.observe(Observation::LeaderStepDown);
    assert(state@ =~= stepped_down(old(state)@));
}

proof fn lemma_apply_effects_first(
    entered: StateView,
    run: RunView,
    between: StateView,
    change: ApplyChange,
)
    requires
        between == (StateView { rows: change.rows, ..entered.telling(change.told) }),
    ensures
        apply_goes_on(
            between,
            run,
            ApplyChange { next: change.next, rows: between.rows, told: seq![] },
        ) == apply_goes_on(entered, run, change),
{
    assert(between =~= StateView { rows: between.rows, ..between.telling(seq![]) });
}

proof fn lemma_apply_stage_is_replaced(state: StateView, run: RunView, change: ApplyChange)
    ensures
        apply_goes_on(state, run.at(StageView::Ready), change) == apply_goes_on(
            state,
            run,
            change,
        ),
{
}

#[verifier::rlimit(40)]
proof fn lemma_step_is_wf(state: StateView, run: RunView, now: u64)
    requires
        run.wf(),
        run.can_step(),
    ensures
        run_step(state, run, now).run.wf(),
        run_step(state, run, now).step matches StepView::Ask(request) ==> forall|o: Outcome|
            run_expects(run_step(state, run, now).run.stage, o) == #[trigger] answers(request, o),
        run_step(state, run, now).step is Continue ==> run_step(state, run, now).run.can_step(),
{
}

proof fn lemma_resume_is_wf(state: StateView, run: RunView, outcome: Outcome, now: u64)
    requires
        run.wf(),
        run_expects(run.stage, outcome),
        outcome.sound(),
    ensures
        run_resumed(state, run, outcome, now).run.wf(),
        run_resumed(state, run, outcome, now).step matches StepView::Ask(request) ==> forall|
            o: Outcome,
        |
            run_expects(run_resumed(state, run, outcome, now).run.stage, o) == #[trigger] answers(
                request,
                o,
            ),
        run_resumed(state, run, outcome, now).step is Continue ==> run_resumed(
            state,
            run,
            outcome,
            now,
        ).run.can_step(),
{
    lemma_resume_stays_in_range(state, run, outcome, now);
    lemma_resume_asks_for_what_it_expects(state, run, outcome, now);
}

#[verifier::spinoff_prover]
#[verifier::rlimit(40)]
proof fn lemma_resume_stays_in_range(state: StateView, run: RunView, outcome: Outcome, now: u64)
    requires
        run.wf(),
        run_expects(run.stage, outcome),
        outcome.sound(),
    ensures
        run_resumed(state, run, outcome, now).run.wf(),
        run_resumed(state, run, outcome, now).step is Continue ==> run_resumed(
            state,
            run,
            outcome,
            now,
        ).run.can_step(),
{
}

#[verifier::spinoff_prover]
#[verifier::rlimit(40)]
proof fn lemma_resume_asks_for_what_it_expects(
    state: StateView,
    run: RunView,
    outcome: Outcome,
    now: u64,
)
    requires
        run_expects(run.stage, outcome),
    ensures
        run_resumed(state, run, outcome, now).step matches StepView::Ask(request) ==> forall|
            o: Outcome,
        |
            run_expects(run_resumed(state, run, outcome, now).run.stage, o) == #[trigger] answers(
                request,
                o,
            ),
{
}

} // verus!
