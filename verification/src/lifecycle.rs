//! How the driver's loop goes round, and how it ends: in an orderly drain that
//! leaves everything durable, or at once when something durable has failed.
use vstd::prelude::*;
use vstd::string::*;

use crate::actions::{lower, run_expects, run_resumed, run_step, RunView};
use crate::driver::{
    event_begun, task_expects, task_resumed, task_step, Event, EventView, TaskView,
};
use crate::error::{error_text, ErrorView, XRaftError};
use crate::guarantees::is_error_answer;
use crate::host::{answers, is_failure, Effect, EffectView, Outcome, Request, RequestView};
use crate::reads::{refusals, verdicts, waiting_on};
use crate::roles::{recorded, seen_as, RoleTracker};
use crate::state::{DriverState, StateView};
use crate::text::prefixed;
use crate::types::{LogIndex, Term};
use crate::waiters::{propose_answers, reply_ids};

verus! {

/// Where the loop goes after an event.
#[derive(Clone, Copy, Debug, PartialEq, Eq, Structural)]
pub enum Course {
    /// On to the next event.
    Serve,
    /// Something durable has failed: nothing more is served.
    FailStop,
}

/// Where the loop goes in the given state.
pub open spec fn course_of(state: StateView) -> Course {
    if state.halt is Some {
        Course::FailStop
    } else {
        Course::Serve
    }
}

/// Where the loop goes in the given state.
pub fn course(state: &DriverState) -> (r: Course)
    ensures
        r == course_of(state@),
{
    if state.halt_reason.is_some() {
        Course::FailStop
    } else {
        Course::Serve
    }
}

/// The state after a look at the node.
pub open spec fn looked_at(state: StateView, roles: RoleTracker, now: u64) -> StateView {
    state.telling(recorded(roles, &state.node, now))
}

/// The state after the waiting reads have been gone through.
pub open spec fn reads_drained(state: StateView) -> StateView {
    StateView {
        reads: waiting_on(&state.node, state.reads),
        ..state.telling(verdicts(&state.node, state.reads))
    }
}

/// Looks at the node before anything is served.
pub fn before_serving(state: &mut DriverState, roles: &mut RoleTracker, now: u64)
    ensures
        final(state)@ == looked_at(old(state)@, *old(roles), now),
        *final(roles) == seen_as(*old(roles), old(state)@.node.role, now),
{
    roles.record_role_transition_observations(&state.node, now, &mut state.outbox);
}

/// The state and the tracker once what was committed before the start has been applied.
pub open spec fn started(
    state: StateView,
    roles: RoleTracker,
    applied_any: bool,
    now: u64,
) -> (StateView, RoleTracker) {
    if applied_any && course_of(state) == Course::Serve {
        (looked_at(state, roles, now), seen_as(roles, state.node.role, now))
    } else {
        (state, roles)
    }
}

/// Goes on once what was committed before the start has been applied. If there
/// was anything to apply and it went well, the node is looked at again.
pub fn after_startup(
    state: &mut DriverState,
    roles: &mut RoleTracker,
    applied_any: bool,
    now: u64,
) -> (r: Course)
    ensures
        r == course_of(old(state)@),
        ({
            let again = applied_any && r == Course::Serve;
            &&& again ==> final(state)@ == looked_at(old(state)@, *old(roles), now) && *final(roles)
                == seen_as(*old(roles), old(state)@.node.role, now)
            &&& !again ==> final(state)@ == old(state)@ && *final(roles) == *old(roles)
        }),
        (final(state)@, *final(roles)) == started(old(state)@, *old(roles), applied_any, now),
{
    let next: Course = course(state);
    if applied_any && next == Course::Serve {
        roles.record_role_transition_observations(&state.node, now, &mut state.outbox);
    }
    next
}

/// Goes on after an event: looks at the node, answers the reads that need not
/// wait on, and sees whether the driver can go on. A failure is seen only after
/// that, so that the last state is recorded.
pub fn after_event(state: &mut DriverState, roles: &mut RoleTracker, now: u64) -> (r: Course)
    ensures
        final(state)@ == reads_drained(looked_at(old(state)@, *old(roles), now)),
        *final(roles) == seen_as(*old(roles), old(state)@.node.role, now),
        r == course_of(old(state)@),
{
    roles.record_role_transition_observations(&state.node, now, &mut state.outbox);
    state.reads.drain(&state.node, &mut state.outbox);
    course(state)
}

/// The state at the beginning of the orderly end.
pub open spec fn draining(state: StateView) -> StateView {
    StateView {
        reads: seq![],
        ..state.telling(refusals(state.reads, ErrorView::Shutdown))
    }
}

/// Begins the orderly end: reads that wait are refused, since nobody will confirm
/// them any more.
pub fn begin_drain(state: &mut DriverState)
    ensures
        final(state)@ == (StateView {
            reads: seq![],
            ..old(state)@.telling(refusals(old(state)@.reads, ErrorView::Shutdown))
        }),
        final(state)@ == draining(old(state)@),
{
    state.reads.refuse_all(&XRaftError::Shutdown, &mut state.outbox);
    assert(state@.reads =~= seq![]);
}

/// What a caller is told when its event is not dealt with.
pub open spec fn turned_away(event: EventView, error: ErrorView) -> Seq<EffectView> {
    match event {
        EventView::Startup | EventView::Tick | EventView::Outbound(_) => seq![],
        EventView::Propose { command, reply } => seq![
            EffectView::AnswerPropose { reply, result: Err(error) },
        ],
        EventView::Query { query, reply } => seq![EffectView::RefuseQuery { reply, error }],
        EventView::TriggerSnapshot { reply } => seq![
            EffectView::AnswerSnapshot { reply, result: Err(error) },
        ],
        EventView::Vote { request, reply } => seq![
            EffectView::AnswerVote { reply, result: Err(error) },
        ],
        EventView::PreVote { request, reply } => seq![
            EffectView::AnswerPreVote { reply, result: Err(error) },
        ],
        EventView::Fetch { request, reply } => seq![
            EffectView::AnswerFetch { reply, result: Err(error) },
        ],
        EventView::FetchSnapshot { request, reply } => seq![
            EffectView::AnswerFetchSnapshot { reply, result: Err(error) },
        ],
    }
}

/// Turns an event away with an error.
pub fn turn_away(state: &mut DriverState, event: Event, error: XRaftError)
    ensures
        final(state)@ == old(state)@.telling(turned_away(event@, error@)),
{
    assert(state@ =~= state@.telling(seq![]));
    match event {
        Event::Startup | Event::Tick | Event::Outbound(_) => {},
        Event::Propose { command: _, reply } => state.tell(
            Effect::AnswerPropose { reply, result: Err(error) },
        ),
        Event::Query { query: _, reply } => state.tell(Effect::RefuseQuery { reply, error }),
        Event::TriggerSnapshot { reply } => state.tell(
            Effect::AnswerSnapshot { reply, result: Err(error) },
        ),
        Event::Vote { request: _, reply } => state.tell(
            Effect::AnswerVote { reply, result: Err(error) },
        ),
        Event::PreVote { request: _, reply } => state.tell(
            Effect::AnswerPreVote { reply, result: Err(error) },
        ),
        Event::Fetch { request: _, reply } => state.tell(
            Effect::AnswerFetch { reply, result: Err(error) },
        ),
        Event::FetchSnapshot { request: _, reply } => state.tell(
            Effect::AnswerFetchSnapshot { reply, result: Err(error) },
        ),
    }
}

/// Whether an event is still dealt with during the orderly end. Calls of other
/// nodes and the ends of calls to them are; clients and operators are not, and
/// time no longer passes.
pub open spec fn dealt_with_in_drain(event: EventView) -> bool {
    match event {
        EventView::Outbound(_) | EventView::Vote { .. } | EventView::PreVote { .. }
        | EventView::Fetch { .. } | EventView::FetchSnapshot { .. } => true,
        EventView::Startup | EventView::Tick | EventView::Propose { .. } | EventView::Query { .. }
        | EventView::TriggerSnapshot { .. } => false,
    }
}

/// Decides on an event during the orderly end: it is handed back if it is to be
/// dealt with; otherwise its caller learns that the driver shuts down.
pub fn admit_in_drain(state: &mut DriverState, event: Event) -> (r: Option<Event>)
    ensures
        dealt_with_in_drain(event@) ==> r == Some(event) && final(state)@ == old(state)@,
        !dealt_with_in_drain(event@) ==> r is None && final(state)@ == old(state)@.telling(
            turned_away(event@, ErrorView::Shutdown),
        ),
{
    match event {
        Event::Outbound(_) | Event::Vote { .. } | Event::PreVote { .. } | Event::Fetch { .. }
        | Event::FetchSnapshot { .. } => Some(event),
        other => {
            turn_away(state, other, XRaftError::Shutdown);
            None
        },
    }
}

/// What the orderly end does next while calls to other nodes are in flight.
#[derive(Clone, Copy, Debug, PartialEq, Eq, Structural)]
pub enum DrainNext {
    /// It waits for another call to end.
    Wait,
    /// It makes everything durable.
    Finish,
    /// It stops at once.
    FailStop,
}

/// What the orderly end does next.
pub open spec fn drain_decision(halted: bool, in_flight: nat, deadline_passed: bool) -> DrainNext {
    if halted {
        DrainNext::FailStop
    } else if in_flight == 0 || deadline_passed {
        DrainNext::Finish
    } else {
        DrainNext::Wait
    }
}

/// Decides what the orderly end does next. The calls in flight are waited for
/// until the deadline; a failure ends it at once.
pub fn next_in_drain(state: &DriverState, in_flight: usize, deadline_passed: bool) -> (r: DrainNext)
    ensures
        r == DrainNext::FailStop <==> state@.halt is Some,
        r == DrainNext::Finish <==> state@.halt is None && (in_flight == 0 || deadline_passed),
        r == DrainNext::Wait <==> state@.halt is None && in_flight > 0 && !deadline_passed,
        r == drain_decision(state@.halt is Some, in_flight as nat, deadline_passed),
{
    if state.halt_reason.is_some() {
        DrainNext::FailStop
    } else if in_flight == 0 || deadline_passed {
        DrainNext::Finish
    } else {
        DrainNext::Wait
    }
}

/// The state once everyone who waits has been given up on: clients first, then
/// reads.
pub open spec fn abandoned(state: StateView, error: ErrorView) -> StateView {
    StateView {
        rows: seq![],
        reads: seq![],
        halt: None,
        ..state.telling(
            propose_answers(reply_ids(state.rows), Err(error)) + refusals(state.reads, error),
        )
    }
}

/// Takes the reason to stop, with which everything buffered is turned away
/// before [`abandon`] ends the driver.
pub fn halt_error(state: &DriverState) -> (r: XRaftError)
    requires
        state@.halt is Some,
    ensures
        r@ == ErrorView::Storage(state@.halt->Some_0),
{
    match &state.halt_reason {
        Some(reason) => XRaftError::Storage(reason.clone()),
        None => {
            assert(false);
            XRaftError::Shutdown
        },
    }
}

/// Stops at once: everyone who waits gets the reason, and so does the caller of
/// the loop. Nothing more is persisted.
pub fn abandon(state: &mut DriverState) -> (r: XRaftError)
    requires
        old(state)@.halt is Some,
        old(state)@.wf(),
    ensures
        r@ == ErrorView::Storage(old(state)@.halt->Some_0),
        final(state)@ == abandoned(old(state)@, ErrorView::Storage(old(state)@.halt->Some_0)),
        final(state)@.wf(),
{
    let ghost start = state@;
    let error = halt_error(state);
    let result: Result<LogIndex, XRaftError> = Err(error.duplicate());
    state.waiters.settle_all(&result, &mut state.outbox);
    state.reads.refuse_all(&error, &mut state.outbox);
    state.halt_reason = None;
    assert(state@ =~= abandoned(start, error@));
    error
}

/// What the last writes wait for.
#[derive(Clone, Copy, Debug, PartialEq, Eq, Structural)]
pub enum FinalStage {
    /// The end of the log.
    Tip,
    /// The hard state.
    Persist,
    /// The log.
    Flush,
}

/// Whether an outcome is what a stage waits for.
pub open spec fn final_expects(stage: FinalStage, outcome: Outcome) -> bool {
    match stage {
        FinalStage::Tip => outcome is LogTip,
        FinalStage::Persist | FinalStage::Flush => outcome is Done,
    }
}

/// What comes next in the last writes.
#[derive(Debug)]
pub enum FinalNext {
    /// The host is asked for something.
    Ask(FinalStage, Request),
    /// The driver has ended well.
    Clean,
    /// The driver has ended with the given error.
    Failed(XRaftError),
}

/// What a [`FinalNext`] says.
#[verifier::ext_equal]
pub enum FinalNextView {
    Ask(FinalStage, RequestView),
    Clean,
    Failed(ErrorView),
}

impl View for FinalNext {
    type V = FinalNextView;

    open spec fn view(&self) -> FinalNextView {
        match self {
            FinalNext::Ask(stage, request) => FinalNextView::Ask(*stage, request@),
            FinalNext::Clean => FinalNextView::Clean,
            FinalNext::Failed(e) => FinalNextView::Failed(e@),
        }
    }
}

/// What an end of the last writes changes: what comes next, and the state.
#[verifier::ext_equal]
pub struct FinalChange {
    pub next: FinalNextView,
    pub state: StateView,
}

/// The last writes have ended: every client that still waits is told how.
pub open spec fn final_told(state: StateView, next: FinalNextView) -> FinalChange {
    let error = match next {
        FinalNextView::Failed(e) => e,
        _ => ErrorView::Shutdown,
    };
    FinalChange {
        next,
        state: StateView {
            rows: seq![],
            ..state.telling(propose_answers(reply_ids(state.rows), Err(error)))
        },
    }
}

/// How the last writes go on: the hard state, with a commit index that is not
/// past the end of the log, and then a flush of the log. The first failure ends
/// them.
pub open spec fn final_continue(
    state: StateView,
    stage: FinalStage,
    outcome: Outcome,
) -> FinalChange {
    match (stage, outcome) {
        (FinalStage::Tip, Outcome::LogTip { index, term }) => FinalChange {
            next: FinalNextView::Ask(
                FinalStage::Persist,
                RequestView::PersistHardState {
                    commit_index: lower(state.node.commit_index, index),
                },
            ),
            state,
        },
        (FinalStage::Persist, Outcome::Done(Ok(_))) => FinalChange {
            next: FinalNextView::Ask(FinalStage::Flush, RequestView::FlushLog),
            state,
        },
        (FinalStage::Persist, Outcome::Done(Err(e))) => final_told(
            state,
            FinalNextView::Failed(
                ErrorView::Storage("final hard-state persist failed: "@ + error_text(e@)),
            ),
        ),
        (FinalStage::Flush, Outcome::Done(Ok(_))) => final_told(state, FinalNextView::Clean),
        (FinalStage::Flush, Outcome::Done(Err(e))) => final_told(
            state,
            FinalNextView::Failed(
                ErrorView::Storage("final log flush failed: "@ + error_text(e@)),
            ),
        ),
        _ => arbitrary(),
    }
}

/// Begins the last writes.
pub fn begin_final() -> (r: (FinalStage, Request))
    ensures
        r.0 == FinalStage::Tip,
        r.1@ == RequestView::ReadLogTip,
        forall|o: Outcome| final_expects(r.0, o) == #[trigger] answers(r.1@, o),
{
    (FinalStage::Tip, Request::ReadLogTip)
}

/// Ends the last writes.
fn end_final(state: &mut DriverState, failure: Option<String>) -> (r: FinalNext)
    requires
        old(state)@.wf(),
    ensures
        ({
            let next = match failure {
                Some(msg) => FinalNextView::Failed(ErrorView::Storage(msg@)),
                None => FinalNextView::Clean,
            };
            &&& r@ == next
            &&& final(state)@ == final_told(old(state)@, next).state
        }),
        final(state)@.wf(),
{
    let (error, next) = match failure {
        Some(msg) => (
            XRaftError::Storage(msg.clone()),
            FinalNext::Failed(XRaftError::Storage(msg)),
        ),
        None => (XRaftError::Shutdown, FinalNext::Clean),
    };
    let result: Result<LogIndex, XRaftError> = Err(error);
    let ghost start = state@;
    state.waiters.settle_all(&result, &mut state.outbox);
    assert(state@ =~= final_told(start, next@).state);
    next
}

/// Goes on with the last writes.
pub fn continue_final(state: &mut DriverState, stage: FinalStage, outcome: Outcome) -> (r: FinalNext)
    requires
        old(state)@.wf(),
        final_expects(stage, outcome),
    ensures
        r@ == final_continue(old(state)@, stage, outcome).next,
        final(state)@ == final_continue(old(state)@, stage, outcome).state,
        final(state)@.wf(),
        r matches FinalNext::Ask(stage, request) ==> forall|o: Outcome|
            final_expects(stage, o) == #[trigger] answers(request@, o),
{
    match (stage, outcome) {
        (FinalStage::Tip, Outcome::LogTip { index, term: _ }) => {
            let commit_index: LogIndex = if state.node.commit_index.0 <= index.0 {
                state.node.commit_index
            } else {
                index
            };
            FinalNext::Ask(FinalStage::Persist, Request::PersistHardState { commit_index })
        },
        (FinalStage::Persist, Outcome::Done(Ok(_))) => FinalNext::Ask(
            FinalStage::Flush,
            Request::FlushLog,
        ),
        (FinalStage::Persist, Outcome::Done(Err(e))) => {
            let msg = prefixed("final hard-state persist failed: ", e.text().as_str());
            end_final(state, Some(msg))
        },
        (FinalStage::Flush, Outcome::Done(Ok(_))) => end_final(state, None),
        (FinalStage::Flush, Outcome::Done(Err(e))) => {
            let msg = prefixed("final log flush failed: ", e.text().as_str());
            end_final(state, Some(msg))
        },
        _ => {
            assert(false);
            FinalNext::Clean
        },
    }
}

/// A look at the node and at the waiting reads does not hide a failure, and
/// causes none.
pub proof fn law_failures_are_seen(state: StateView, roles: RoleTracker, now: u64)
    ensures
        course_of(reads_drained(looked_at(state, roles, now))) == course_of(state),
{
}

/// When the driver stops at once nobody is left waiting, and everyone who waited
/// is told of an error.
pub proof fn law_fail_stop_leaves_nobody_waiting(state: StateView, error: ErrorView, k: int)
    ensures
        abandoned(state, error).rows.len() == 0,
        abandoned(state, error).reads.len() == 0,
        state.told.is_prefix_of(abandoned(state, error).told),
        state.told.len() <= k < abandoned(state, error).told.len() ==> is_error_answer(
            abandoned(state, error).told[k],
        ),
{
}

/// The driver ends well exactly when the last write has succeeded; any failure
/// before makes no further call.
pub proof fn law_clean_end_is_durable(state: StateView, stage: FinalStage, outcome: Outcome)
    requires
        final_expects(stage, outcome),
    ensures
        ({
            let change = final_continue(state, stage, outcome);
            &&& change.next is Clean <==> stage == FinalStage::Flush && !is_failure(outcome)
            &&& change.next is Failed <==> is_failure(outcome)
            &&& !(change.next is Ask) ==> change.state.rows.len() == 0
        }),
{
}

/// The last hard state never has a commit index past the end of the log.
pub proof fn law_final_commit_index_is_durable(
    state: StateView,
    stage: FinalStage,
    outcome: Outcome,
)
    requires
        final_expects(stage, outcome),
        stage == FinalStage::Tip,
    ensures
        final_continue(state, stage, outcome).next matches FinalNextView::Ask(
            s,
            RequestView::PersistHardState { commit_index },
        ) && (outcome matches Outcome::LogTip { index, term } && commit_index.0 <= index.0
            && commit_index.0 <= state.node.commit_index.0),
{
}

#[verifier::rlimit(40)]
proof fn lemma_step_adds_no_read(state: StateView, run: RunView, now: u64)
    requires
        run.can_step(),
        state.reads.len() == 0,
    ensures
        run_step(state, run, now).state.reads.len() == 0,
{
}

#[verifier::rlimit(40)]
proof fn lemma_resume_adds_no_read(state: StateView, run: RunView, outcome: Outcome, now: u64)
    requires
        run_expects(run.stage, outcome),
        state.reads.len() == 0,
    ensures
        run_resumed(state, run, outcome, now).state.reads.len() == 0,
{
}

/// Once the orderly end has begun no read waits, whatever is still dealt with.
pub proof fn law_no_read_waits_in_drain(
    state: StateView,
    event: EventView,
    task: TaskView,
    outcome: Outcome,
    now: u64,
)
    requires
        state.reads.len() == 0,
    ensures
        dealt_with_in_drain(event) ==> event_begun(state, event, now).state.reads.len() == 0,
        task.can_step() ==> task_step(state, task, now).state.reads.len() == 0,
        task_expects(task, outcome) ==> task_resumed(
            state,
            task,
            outcome,
            now,
        ).state.reads.len() == 0,
{
    if let TaskView::Run { run, then } = task {
        if run.can_step() {
            lemma_step_adds_no_read(state, run, now);
        }
        if run_expects(run.stage, outcome) {
            lemma_resume_adds_no_read(state, run, outcome, now);
        }
    }
}

/// Once the orderly end has begun no client starts to wait: none of the events
/// that are still dealt with is a proposal.
pub proof fn law_no_client_waits_anew_in_drain(state: StateView, event: EventView, now: u64)
    requires
        dealt_with_in_drain(event),
    ensures
        event_begun(state, event, now).state.rows == state.rows,
        !(event_begun(state, event, now).task is Propose),
{
}

/// The loop ends exactly when something durable has failed.
pub proof fn law_only_a_failure_ends_the_loop(state: StateView)
    ensures
        course_of(state) == Course::FailStop <==> state.halt is Some,
        course_of(state) == Course::Serve <==> state.halt is None,
{
}

/// After an event the node is looked at first and the reads are gone through next, and
/// nothing else of the state changes.
pub proof fn law_loop_looks_and_then_answers_reads(state: StateView, roles: RoleTracker, now: u64)
    ensures
        ({
            let after = reads_drained(looked_at(state, roles, now));
            &&& after.told == state.told + recorded(roles, &state.node, now) + verdicts(
                &state.node,
                state.reads,
            )
            &&& after == StateView {
                reads: waiting_on(&state.node, state.reads),
                told: after.told,
                ..state
            }
        }),
{
}

/// Whether an event comes from a client or an operator.
pub open spec fn is_a_wish(event: EventView) -> bool {
    event is Propose || event is Query || event is TriggerSnapshot
}

/// Whether an event is a call of another node.
pub open spec fn is_a_call(event: EventView) -> bool {
    event is Vote || event is PreVote || event is Fetch || event is FetchSnapshot
}

/// During the orderly end the node still deals with calls of other nodes and with the
/// ends of its own calls to them, and with nothing else.
pub proof fn law_drain_serves_other_nodes(event: EventView)
    ensures
        dealt_with_in_drain(event) <==> is_a_call(event) || event is Outbound,
        is_a_wish(event) || event is Tick || event is Startup ==> !dealt_with_in_drain(event),
{
}

/// Whoever is turned away is told the reason, and told nothing else; time, the start and
/// the ends of the node's own calls have nobody to be told.
pub proof fn law_turned_away_callers_get_the_reason(event: EventView, error: ErrorView)
    ensures
        is_a_wish(event) || is_a_call(event) ==> turned_away(event, error).len() == 1,
        event matches EventView::Propose { command, reply } ==> turned_away(event, error)[0]
            == (EffectView::AnswerPropose { reply, result: Err(error) }),
        event matches EventView::Query { query, reply } ==> turned_away(event, error)[0]
            == (EffectView::RefuseQuery { reply, error }),
        event matches EventView::TriggerSnapshot { reply } ==> turned_away(event, error)[0]
            == (EffectView::AnswerSnapshot { reply, result: Err(error) }),
        event matches EventView::Vote { request, reply } ==> turned_away(event, error)[0]
            == (EffectView::AnswerVote { reply, result: Err(error) }),
        event matches EventView::PreVote { request, reply } ==> turned_away(event, error)[0]
            == (EffectView::AnswerPreVote { reply, result: Err(error) }),
        event matches EventView::Fetch { request, reply } ==> turned_away(event, error)[0]
            == (EffectView::AnswerFetch { reply, result: Err(error) }),
        event matches EventView::FetchSnapshot { request, reply } ==> turned_away(event, error)[0]
            == (EffectView::AnswerFetchSnapshot { reply, result: Err(error) }),
        !is_a_wish(event) && !is_a_call(event) ==> turned_away(event, error).len() == 0,
{
}

/// When the driver stops at once, each client and then each read that waits is told the
/// reason; nothing else changes but that nobody waits and that the reason is taken.
pub proof fn law_fail_stop_gives_the_reason(state: StateView, error: ErrorView, i: int)
    ensures
        ({
            let after = abandoned(state, error);
            let clients = reply_ids(state.rows);
            let told = after.told.skip(state.told.len() as int);
            &&& after == StateView {
                rows: seq![],
                reads: seq![],
                halt: None,
                told: after.told,
                ..state
            }
            &&& told.len() == clients.len() + state.reads.len()
            &&& 0 <= i < clients.len() ==> told[i] == (EffectView::AnswerPropose {
                reply: clients[i],
                result: Err(error),
            })
            &&& 0 <= i < state.reads.len() ==> told[clients.len() + i]
                == (EffectView::RefuseQuery { reply: state.reads[i].reply, error })
        }),
{
}

/// The last writes are, in this order, the hard state, with the engine's commit index or
/// the end of the log if that comes first, and a flush of the log. Nobody is told
/// anything before the flush is done; then each client that still waits learns that the
/// node shuts down, and the driver has ended well.
pub proof fn law_last_writes_are_the_hard_state_and_the_log(
    state: StateView,
    index: LogIndex,
    term: Term,
    i: int,
)
    ensures
        final_continue(state, FinalStage::Tip, Outcome::LogTip { index, term }) == (FinalChange {
            next: FinalNextView::Ask(
                FinalStage::Persist,
                RequestView::PersistHardState {
                    commit_index: if state.node.commit_index.0 <= index.0 {
                        state.node.commit_index
                    } else {
                        index
                    },
                },
            ),
            state,
        }),
        final_continue(state, FinalStage::Persist, Outcome::Done(Ok(()))) == (FinalChange {
            next: FinalNextView::Ask(FinalStage::Flush, RequestView::FlushLog),
            state,
        }),
        ({
            let end = final_continue(state, FinalStage::Flush, Outcome::Done(Ok(())));
            let clients = reply_ids(state.rows);
            let told = end.state.told.skip(state.told.len() as int);
            &&& end.next is Clean
            &&& end.state == StateView { rows: seq![], told: end.state.told, ..state }
            &&& told.len() == clients.len()
            &&& 0 <= i < clients.len() ==> told[i] == (EffectView::AnswerPropose {
                reply: clients[i],
                result: Err(ErrorView::Shutdown),
            })
        }),
{
}

/// A last write that fails ends the driver with an error, and each client that still
/// waits is told that error.
pub proof fn law_failed_last_write_is_told(
    state: StateView,
    stage: FinalStage,
    e: XRaftError,
    i: int,
)
    requires
        stage == FinalStage::Persist || stage == FinalStage::Flush,
    ensures
        ({
            let end = final_continue(state, stage, Outcome::Done(Err(e)));
            let clients = reply_ids(state.rows);
            let told = end.state.told.skip(state.told.len() as int);
            let msg = if stage == FinalStage::Persist {
                "final hard-state persist failed: "@ + error_text(e@)
            } else {
                "final log flush failed: "@ + error_text(e@)
            };
            &&& end.next == FinalNextView::Failed(ErrorView::Storage(msg))
            &&& end.state == StateView { rows: seq![], told: end.state.told, ..state }
            &&& told.len() == clients.len()
            &&& 0 <= i < clients.len() ==> told[i] == (EffectView::AnswerPropose {
                reply: clients[i],
                result: Err(ErrorView::Storage(msg)),
            })
        }),
{
}

/// Reads that wait when the orderly end begins are each refused because the node shuts down;
/// the clients wait on, and nothing else changes.
pub proof fn law_beginning_to_drain_refuses_the_reads(state: StateView, i: int)
    ensures
        ({
            let after = draining(state);
            let told = after.told.skip(state.told.len() as int);
            &&& after == StateView { reads: seq![], told: after.told, ..state }
            &&& state.told.is_prefix_of(after.told)
            &&& told.len() == state.reads.len()
            &&& 0 <= i < state.reads.len() ==> told[i] == (EffectView::RefuseQuery {
                reply: state.reads[i].reply,
                error: ErrorView::Shutdown,
            })
        }),
{
}

/// The orderly end waits only while calls are in flight and the deadline has not passed. A
/// failure ends it at once, whatever is in flight; the end of the last call, or the deadline,
/// brings the last writes.
pub proof fn law_drain_waits_for_the_calls_in_flight(
    halted: bool,
    in_flight: nat,
    deadline_passed: bool,
)
    ensures
        drain_decision(halted, in_flight, deadline_passed) == DrainNext::Wait <==> !halted
            && in_flight > 0 && !deadline_passed,
        halted ==> drain_decision(halted, in_flight, deadline_passed) == DrainNext::FailStop,
        !halted && deadline_passed ==> drain_decision(halted, in_flight, deadline_passed)
            == DrainNext::Finish,
        !halted ==> drain_decision(halted, 0, deadline_passed) == DrainNext::Finish,
{
}

/// After the start the node is looked at again exactly if something was applied and nothing
/// failed; then that look is all that happens, and otherwise nothing does.
pub proof fn law_start_is_looked_at_again(
    state: StateView,
    roles: RoleTracker,
    applied_any: bool,
    now: u64,
)
    ensures
        ({
            let (after, seen) = started(state, roles, applied_any, now);
            &&& applied_any && state.halt is None ==> after.told == state.told + recorded(
                roles,
                &state.node,
                now,
            ) && after == (StateView { told: after.told, ..state }) && seen.prev_role
                == state.node.role
            &&& !applied_any || state.halt is Some ==> after == state && seen == roles
        }),
{
}

} // verus!
