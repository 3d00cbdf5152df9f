//! Every caller is answered exactly once.
//!
//! A caller is known by its reply id. At any moment the answers it has been
//! given, the places where it still waits, and the answer that the event in
//! progress owes it add up to its dues; nothing that the driver does changes
//! them.
use vstd::prelude::*;

use crate::actions::{
    append_failed, run_expects, run_resumed, run_step, stepped_down, RunView, StageView,
};
use crate::apply::{apply_continue, apply_expects, apply_step, give_up, ApplyChange, ApplyStageView};
use crate::captured::CapturedView;
use crate::driver::{
    event_begun, task_expects, task_resumed, task_step, told_then, EventView, TaskView, Then,
};
use crate::error::ErrorView;
use crate::host::{EffectView, Observation, Outcome, ReplyId};
use crate::lifecycle::{
    abandoned, final_told, looked_at, reads_drained, turned_away, FinalNextView,
};
use crate::reads::{
    admission, answered_now, must_wait, refusals, verdict, verdicts, waiting_on, ReadAdmission,
    ReadView,
};
use crate::roles::{recorded, RoleTracker};
use crate::snapshot::take_effects;
use crate::state::StateView;
use crate::types::{Entry, LogIndex, NodeView};
use crate::waiters::{
    in_span, propose_answers, reply_ids, reply_ids_at_all, rows_at, rows_outside, rows_within,
    rows_without, rows_without_all, settled, with_waiter, RowView,
};

verus! {

/// The caller that an effect answers.
pub open spec fn answer_to(effect: EffectView) -> Option<ReplyId> {
    match effect {
        EffectView::AnswerPropose { reply, result } => Some(reply),
        EffectView::RefuseQuery { reply, error } => Some(reply),
        EffectView::ServeQuery { reply, query } => Some(reply),
        EffectView::AnswerSnapshot { reply, result } => Some(reply),
        EffectView::AnswerVote { reply, result } => Some(reply),
        EffectView::AnswerPreVote { reply, result } => Some(reply),
        EffectView::AnswerFetch { reply, result } => Some(reply),
        EffectView::AnswerFetchSnapshot { reply, result } => Some(reply),
        EffectView::Dispatch { to, message } => None,
        EffectView::Observe(_) => None,
    }
}

/// One if the condition holds, else zero.
pub open spec fn one_if(condition: bool) -> nat {
    if condition {
        1
    } else {
        0
    }
}

/// How many of the effects answer `reply`.
pub open spec fn answers_given(told: Seq<EffectView>, reply: ReplyId) -> nat
    decreases told.len(),
{
    if told.len() == 0 {
        0
    } else {
        answers_given(told.drop_last(), reply) + one_if(answer_to(told.last()) == Some(reply))
    }
}

/// How often `reply` stands among the ids.
pub open spec fn times(ids: Seq<ReplyId>, reply: ReplyId) -> nat
    decreases ids.len(),
{
    if ids.len() == 0 {
        0
    } else {
        times(ids.drop_last(), reply) + one_if(ids.last() == reply)
    }
}

/// The callers of waiting reads.
pub open spec fn readers(reads: Seq<ReadView>) -> Seq<ReplyId> {
    reads.map_values(|r: ReadView| r.reply)
}

/// What the driver has told a caller and where the caller waits.
pub open spec fn dues(state: StateView, reply: ReplyId) -> nat {
    answers_given(state.told, reply) + times(reply_ids(state.rows), reply) + times(
        readers(state.reads),
        reply,
    )
}

/// The caller that is answered once the engine's actions are done.
pub open spec fn owed_then(then: Then) -> Option<ReplyId> {
    match then {
        Then::Nothing => None,
        Then::Vote { reply } => Some(reply),
        Then::PreVote { reply } => Some(reply),
        Then::Fetch { reply, counted } => Some(reply),
        Then::Snapshot { reply, info } => Some(reply),
        Then::SteppedDown { reply } => Some(reply),
    }
}

/// The caller whom an event in progress owes an answer.
pub open spec fn owed(task: TaskView) -> Option<ReplyId> {
    match task {
        TaskView::Engine { origin, then } => owed_then(then),
        TaskView::Propose { before, reply } => Some(reply),
        TaskView::Run { run, then } => owed_then(then),
        TaskView::Take { stage, reply } => Some(reply),
        TaskView::Find { request, reply } => Some(reply),
        TaskView::Read { reply } => Some(reply),
        TaskView::Done => None,
    }
}

/// The caller behind an event.
pub open spec fn caller(event: EventView) -> Option<ReplyId> {
    match event {
        EventView::Startup | EventView::Tick | EventView::Outbound(_) => None,
        EventView::Propose { command, reply } => Some(reply),
        EventView::Query { query, reply } => Some(reply),
        EventView::TriggerSnapshot { reply } => Some(reply),
        EventView::Vote { request, reply } => Some(reply),
        EventView::PreVote { request, reply } => Some(reply),
        EventView::Fetch { request, reply } => Some(reply),
        EventView::FetchSnapshot { request, reply } => Some(reply),
    }
}

/// The dues of a caller, with what the event in progress owes it.
pub open spec fn dues_with(state: StateView, task: TaskView, reply: ReplyId) -> nat {
    dues(state, reply) + one_if(owed(task) == Some(reply))
}

proof fn lemma_given_add(a: Seq<EffectView>, b: Seq<EffectView>, reply: ReplyId)
    ensures
        answers_given(a + b, reply) == answers_given(a, reply) + answers_given(b, reply),
    decreases b.len(),
{
    if b.len() == 0 {
        assert(a + b =~= a);
    } else {
        lemma_given_add(a, b.drop_last(), reply);
        assert((a + b).drop_last() =~= a + b.drop_last());
    }
}

proof fn lemma_given_one(e: EffectView, reply: ReplyId)
    ensures
        answers_given(seq![e], reply) == one_if(answer_to(e) == Some(reply)),
        answers_given(Seq::empty(), reply) == 0,
{
    let s = seq![e];
    assert(s.drop_last() =~= Seq::<EffectView>::empty());
    assert(s.last() == e);
    assert(answers_given(s.drop_last(), reply) == 0);
}

proof fn lemma_times_add(a: Seq<ReplyId>, b: Seq<ReplyId>, reply: ReplyId)
    ensures
        times(a + b, reply) == times(a, reply) + times(b, reply),
    decreases b.len(),
{
    if b.len() == 0 {
        assert(a + b =~= a);
    } else {
        lemma_times_add(a, b.drop_last(), reply);
        assert((a + b).drop_last() =~= a + b.drop_last());
    }
}

proof fn lemma_times_push(ids: Seq<ReplyId>, id: ReplyId, reply: ReplyId)
    ensures
        times(ids.push(id), reply) == times(ids, reply) + one_if(id == reply),
{
    assert(ids.push(id).drop_last() =~= ids);
}

proof fn lemma_answers_are_given(
    ids: Seq<ReplyId>,
    result: Result<LogIndex, ErrorView>,
    reply: ReplyId,
)
    ensures
        answers_given(propose_answers(ids, result), reply) == times(ids, reply),
    decreases ids.len(),
{
    if ids.len() > 0 {
        lemma_answers_are_given(ids.drop_last(), result, reply);
        assert(propose_answers(ids, result).drop_last() =~= propose_answers(
            ids.drop_last(),
            result,
        ));
    }
}

proof fn lemma_refusals_are_given(reads: Seq<ReadView>, error: ErrorView, reply: ReplyId)
    ensures
        answers_given(refusals(reads, error), reply) == times(readers(reads), reply),
    decreases reads.len(),
{
    if reads.len() > 0 {
        lemma_refusals_are_given(reads.drop_last(), error, reply);
        assert(refusals(reads, error).drop_last() =~= refusals(reads.drop_last(), error));
        assert(readers(reads).drop_last() =~= readers(reads.drop_last()));
    }
}

/// Rows are told apart by a test: their clients are split between those that
/// meet it and those that do not.
proof fn lemma_rows_split(
    rows: Seq<RowView>,
    yes: spec_fn(RowView) -> bool,
    no: spec_fn(RowView) -> bool,
    reply: ReplyId,
)
    requires
        forall|r: RowView| #[trigger] no(r) == !yes(r),
    ensures
        times(reply_ids(rows), reply) == times(reply_ids(rows.filter(yes)), reply) + times(
            reply_ids(rows.filter(no)),
            reply,
        ),
    decreases rows.len(),
{
    reveal(Seq::filter);
    if rows.len() > 0 {
        let rest = rows.drop_last();
        let row = rows.last();
        lemma_rows_split(rest, yes, no, reply);
        lemma_times_add(reply_ids(rest), row.replies, reply);
        assert(no(row) == !yes(row));
        if yes(row) {
            let kept = rest.filter(yes);
            assert(rows.filter(yes) == kept.push(row));
            assert(kept.push(row).drop_last() =~= kept);
            lemma_times_add(reply_ids(kept), row.replies, reply);
        } else {
            let kept = rest.filter(no);
            assert(rows.filter(no) == kept.push(row));
            assert(kept.push(row).drop_last() =~= kept);
            lemma_times_add(reply_ids(kept), row.replies, reply);
        }
    }
}

proof fn lemma_rows_at_split(rows: Seq<RowView>, index: LogIndex, reply: ReplyId)
    ensures
        times(reply_ids(rows), reply) == times(reply_ids(rows_at(rows, index)), reply) + times(
            reply_ids(rows_without(rows, index)),
            reply,
        ),
{
    lemma_rows_split(
        rows,
        |r: RowView| r.index == index,
        |r: RowView| r.index != index,
        reply,
    );
}

proof fn lemma_rows_within_split(rows: Seq<RowView>, from: LogIndex, to: LogIndex, reply: ReplyId)
    ensures
        times(reply_ids(rows), reply) == times(reply_ids(rows_within(rows, from, to)), reply)
            + times(reply_ids(rows_outside(rows, from, to)), reply),
{
    lemma_rows_split(
        rows,
        |r: RowView| in_span(r.index, from, to),
        |r: RowView| !in_span(r.index, from, to),
        reply,
    );
}

proof fn lemma_rows_at_all_split(rows: Seq<RowView>, indices: Seq<LogIndex>, reply: ReplyId)
    ensures
        times(reply_ids(rows), reply) == times(reply_ids_at_all(rows, indices), reply) + times(
            reply_ids(rows_without_all(rows, indices)),
            reply,
        ),
    decreases indices.len(),
{
    if indices.len() > 0 {
        let left = rows_without_all(rows, indices.drop_last());
        lemma_rows_at_all_split(rows, indices.drop_last(), reply);
        lemma_rows_at_split(left, indices.last(), reply);
        lemma_times_add(
            reply_ids_at_all(rows, indices.drop_last()),
            reply_ids(rows_at(left, indices.last())),
            reply,
        );
    }
}

proof fn lemma_with_waiter(
    rows: Seq<RowView>,
    index: LogIndex,
    id: ReplyId,
    now: u64,
    reply: ReplyId,
)
    ensures
        times(reply_ids(with_waiter(rows, index, id, now)), reply) == times(reply_ids(rows), reply)
            + one_if(id == reply),
    decreases rows.len(),
{
    let after = with_waiter(rows, index, id, now);
    if rows.len() == 0 || rows.last().index.0 < index.0 {
        assert(after.drop_last() =~= rows);
        lemma_times_add(reply_ids(rows), seq![id], reply);
        assert(seq![id].drop_last() =~= Seq::<ReplyId>::empty());
        assert(times(seq![id], reply) == one_if(id == reply)) by {
            assert(times(seq![id].drop_last(), reply) == 0);
        }
    } else if rows.last().index == index {
        assert(after.drop_last() =~= rows.drop_last());
        lemma_times_add(reply_ids(rows.drop_last()), rows.last().replies.push(id), reply);
        lemma_times_add(reply_ids(rows.drop_last()), rows.last().replies, reply);
        lemma_times_push(rows.last().replies, id, reply);
    } else {
        lemma_with_waiter(rows.drop_last(), index, id, now, reply);
        assert(after.drop_last() =~= with_waiter(rows.drop_last(), index, id, now));
        lemma_times_add(
            reply_ids(with_waiter(rows.drop_last(), index, id, now)),
            rows.last().replies,
            reply,
        );
        lemma_times_add(reply_ids(rows.drop_last()), rows.last().replies, reply);
    }
}

/// Telling what answers nobody changes no dues.
proof fn lemma_telling(state: StateView, effects: Seq<EffectView>, reply: ReplyId)
    ensures
        dues(state.telling(effects), reply) == dues(state, reply) + answers_given(effects, reply),
{
    lemma_given_add(state.told, effects, reply);
}

proof fn lemma_apply_step(
    rest: Seq<Entry>,
    to: LogIndex,
    state: StateView,
    now: u64,
    reply: ReplyId,
)
    ensures
        ({
            let c = apply_step(rest, to, state.rows, now);
            dues(StateView { rows: c.rows, ..state.telling(c.told) }, reply) == dues(state, reply)
        }),
{
    let c = apply_step(rest, to, state.rows, now);
    lemma_telling(state, c.told, reply);
    lemma_given_one(arbitrary(), reply);
    if rest.len() > 0 {
        lemma_settled(state.rows, rest[0].index, now, reply);
    }
}

proof fn lemma_settled(rows: Seq<RowView>, index: LogIndex, now: u64, reply: ReplyId)
    ensures
        answers_given(settled(rows, index, Ok(index), now), reply) + times(
            reply_ids(rows_without(rows, index)),
            reply,
        ) == times(reply_ids(rows), reply),
{
    let ids = reply_ids(rows_at(rows, index));
    let told = settled(rows, index, Ok(index), now);
    let head = propose_answers(ids, Ok(index));
    lemma_rows_at_split(rows, index, reply);
    lemma_answers_are_given(ids, Ok(index), reply);
    if rows_at(rows, index).len() > 0 {
        let e = told.last();
        lemma_given_one(e, reply);
        assert(told =~= head + seq![e]);
        lemma_given_add(head, seq![e], reply);
    } else {
        assert(told =~= head);
    }
}

proof fn lemma_apply_continue(
    stage: ApplyStageView,
    outcome: Outcome,
    state: StateView,
    now: u64,
    reply: ReplyId,
)
    requires
        apply_expects(stage, outcome),
    ensures
        ({
            let c = apply_continue(stage, outcome, state.rows, now);
            dues(StateView { rows: c.rows, ..state.telling(c.told) }, reply) == dues(state, reply)
        }),
{
    let c = apply_continue(stage, outcome, state.rows, now);
    lemma_telling(state, c.told, reply);
    lemma_given_one(arbitrary(), reply);
    match stage {
        ApplyStageView::Range { from, to } => {
            lemma_give_up(state.rows, from, to, c, reply);
        },
        ApplyStageView::Command { index, rest, to } => {
            lemma_settled(state.rows, index, now, reply);
            lemma_give_up(state.rows, index, to, c, reply);
        },
        _ => {},
    }
}

proof fn lemma_give_up(
    rows: Seq<RowView>,
    from: LogIndex,
    to: LogIndex,
    c: ApplyChange,
    reply: ReplyId,
)
    ensures
        forall|msg: Seq<char>|
            c == #[trigger] give_up(rows, from, to, msg) ==> answers_given(c.told, reply) + times(
                reply_ids(c.rows),
                reply,
            ) == times(reply_ids(rows), reply),
{
    assert forall|msg: Seq<char>| c == #[trigger] give_up(rows, from, to, msg) implies answers_given(
        c.told,
        reply,
    ) + times(reply_ids(c.rows), reply) == times(reply_ids(rows), reply) by {
        lemma_rows_within_split(rows, from, to, reply);
        lemma_answers_are_given(
            reply_ids(rows_within(rows, from, to)),
            Err(ErrorView::Storage(msg)),
            reply,
        );
    }
}

proof fn lemma_stepped_down(state: StateView, reply: ReplyId)
    ensures
        dues(stepped_down(state), reply) == dues(state, reply),
{
    let hint = state.node.leader_id;
    let clients = propose_answers(reply_ids(state.rows), Err(ErrorView::NotLeader(hint)));
    let others = refusals(state.reads, ErrorView::NotLeader(hint));
    let seen = EffectView::Observe(Observation::LeaderStepDown);
    lemma_answers_are_given(reply_ids(state.rows), Err(ErrorView::NotLeader(hint)), reply);
    lemma_refusals_are_given(state.reads, ErrorView::NotLeader(hint), reply);
    lemma_given_one(seen, reply);
    lemma_given_add(state.told, clients, reply);
    lemma_given_add(state.told + clients, others, reply);
    lemma_given_add(state.told + clients + others, seq![seen], reply);
    assert(times(reply_ids(Seq::<RowView>::empty()), reply) == 0);
    assert(readers(Seq::<ReadView>::empty()) =~= Seq::<ReplyId>::empty());
    assert(times(readers(Seq::<ReadView>::empty()), reply) == 0);
}

proof fn lemma_append_failed(
    state: StateView,
    run: RunView,
    indices: Seq<LogIndex>,
    msg: Seq<char>,
    reply: ReplyId,
)
    ensures
        dues(append_failed(state, run, indices, msg).state, reply) == dues(state, reply),
{
    let told = propose_answers(
        reply_ids_at_all(state.rows, indices),
        Err(ErrorView::Storage(msg)),
    );
    lemma_telling(state, told, reply);
    lemma_rows_at_all_split(state.rows, indices, reply);
    lemma_answers_are_given(
        reply_ids_at_all(state.rows, indices),
        Err(ErrorView::Storage(msg)),
        reply,
    );
}

/// Effects that answer nobody.
proof fn lemma_telling_nobody(state: StateView, effects: Seq<EffectView>, reply: ReplyId)
    requires
        effects.len() <= 1,
        effects.len() == 1 ==> answer_to(effects[0]) is None,
    ensures
        dues(state.telling(effects), reply) == dues(state, reply),
{
    lemma_telling(state, effects, reply);
    if effects.len() == 1 {
        lemma_given_one(effects[0], reply);
        assert(effects =~= seq![effects[0]]);
    } else {
        lemma_given_one(arbitrary(), reply);
        assert(effects =~= Seq::empty());
    }
}

/// The actions of the engine answer those who stop waiting, and nobody else.
pub proof fn law_actions_keep_the_dues(
    state: StateView,
    run: RunView,
    outcome: Outcome,
    now: u64,
    reply: ReplyId,
)
    ensures
        run.can_step() ==> dues(run_step(state, run, now).state, reply) == dues(state, reply),
        run_expects(run.stage, outcome) ==> dues(
            run_resumed(state, run, outcome, now).state,
            reply,
        ) == dues(state, reply),
{
    if run.can_step() {
        lemma_step_keeps_dues(state, run, now, reply);
    }
    if run_expects(run.stage, outcome) {
        lemma_resume_keeps_dues(state, run, outcome, now, reply);
    }
}

#[verifier::rlimit(40)]
proof fn lemma_step_keeps_dues(state: StateView, run: RunView, now: u64, reply: ReplyId)
    requires
        run.can_step(),
    ensures
        dues(run_step(state, run, now).state, reply) == dues(state, reply),
{
    match run.stage {
        StageView::Apply(ApplyStageView::Entries { rest, to }) => {
            lemma_apply_step(rest, to, state, now, reply);
        },
        _ => {
            assert forall|s: StateView, effects: Seq<EffectView>|
                effects.len() <= 1 && (effects.len() == 1 ==> answer_to(effects[0]) is None)
                implies dues(#[trigger] s.telling(effects), reply) == dues(s, reply) by {
                lemma_telling_nobody(s, effects, reply);
            }
            lemma_stepped_down(state, reply);
        },
    }
}

#[verifier::rlimit(40)]
proof fn lemma_resume_keeps_dues(
    state: StateView,
    run: RunView,
    outcome: Outcome,
    now: u64,
    reply: ReplyId,
)
    requires
        run_expects(run.stage, outcome),
    ensures
        dues(run_resumed(state, run, outcome, now).state, reply) == dues(state, reply),
{
    if let StageView::Apply(s) = run.stage {
        lemma_apply_continue(s, outcome, state, now, reply);
    } else {
        assert forall|s: StateView, effects: Seq<EffectView>|
            effects.len() <= 1 && (effects.len() == 1 ==> answer_to(effects[0]) is None)
            implies dues(#[trigger] s.telling(effects), reply) == dues(s, reply) by {
            lemma_telling_nobody(s, effects, reply);
        }
        assert forall|indices: Seq<LogIndex>, msg: Seq<char>|
            dues((#[trigger] append_failed(state, run, indices, msg)).state, reply) == dues(
                state,
                reply,
            ) by {
            lemma_append_failed(state, run, indices, msg, reply);
        }
    }
}

proof fn lemma_told_then(state: StateView, then: Then, captured: CapturedView, reply: ReplyId)
    ensures
        dues(state.telling(told_then(&state.node, then, captured)), reply) == dues(state, reply)
            + one_if(owed_then(then) == Some(reply)),
{
    let told = told_then(&state.node, then, captured);
    lemma_telling(state, told, reply);
    lemma_given_one(told.last(), reply);
    if let Then::Fetch { reply: id, counted } = then {
        if counted && captured.error is None {
            lemma_given_one(told[0], reply);
            lemma_given_add(seq![told[0]], seq![told.last()], reply);
            assert(told =~= seq![told[0]] + seq![told.last()]);
        } else {
            assert(told =~= seq![told.last()]);
        }
    } else if then is Nothing {
        assert(told =~= Seq::empty());
    } else {
        assert(told =~= seq![told.last()]);
    }
}

/// An event adds exactly the answer that its caller is owed: to what the event
/// in progress owes, to those who wait, or to the answers given.
pub proof fn law_event_owes_its_caller_one_answer(
    state: StateView,
    event: EventView,
    now: u64,
    reply: ReplyId,
)
    ensures
        ({
            let change = event_begun(state, event, now);
            dues_with(change.state, change.task, reply) == dues(state, reply) + one_if(
                caller(event) == Some(reply),
            )
        }),
{
    assert forall|e: EffectView|
        dues(#[trigger] state.telling(seq![e]), reply) == dues(state, reply) + one_if(
            answer_to(e) == Some(reply),
        ) by {
        lemma_telling(state, seq![e], reply);
        lemma_given_one(e, reply);
    }
    if let EventView::Query { query, reply: id } = event {
        match admission(&state.node, state.reads.len(), query, id) {
            ReadAdmission::Queued(read) => {
                assert(readers(state.reads.push(read)) =~= readers(state.reads).push(id));
                lemma_times_push(readers(state.reads), id, reply);
            },
            _ => {},
        }
    }
}

/// While an event is dealt with, no caller is answered more than it is owed and
/// none is forgotten.
#[verifier::rlimit(40)]
pub proof fn law_tasks_keep_the_dues(
    state: StateView,
    task: TaskView,
    outcome: Outcome,
    now: u64,
    reply: ReplyId,
)
    ensures
        task.can_step() ==> {
            let change = task_step(state, task, now);
            dues_with(change.state, change.task, reply) == dues_with(state, task, reply)
        },
        task_expects(task, outcome) ==> {
            let change = task_resumed(state, task, outcome, now);
            dues_with(change.state, change.task, reply) == dues_with(state, task, reply)
        },
{
    if let TaskView::Run { run, then } = task {
        law_actions_keep_the_dues(state, run, outcome, now, reply);
        assert forall|s: StateView, captured: CapturedView|
            dues(#[trigger] s.telling(told_then(&s.node, then, captured)), reply) == dues(s, reply)
                + one_if(owed_then(then) == Some(reply)) by {
            lemma_told_then(s, then, captured, reply);
        }
    } else if task_expects(task, outcome) {
        lemma_resumed_keeps_dues(state, task, outcome, now, reply);
    }
}

proof fn lemma_resumed_keeps_dues(
    state: StateView,
    task: TaskView,
    outcome: Outcome,
    now: u64,
    reply: ReplyId,
)
    requires
        task_expects(task, outcome),
        !(task is Run),
    ensures
        ({
            let change = task_resumed(state, task, outcome, now);
            dues_with(change.state, change.task, reply) == dues_with(state, task, reply)
        }),
{
    assert forall|s: StateView, e: EffectView|
        dues(#[trigger] s.telling(seq![e]), reply) == dues(s, reply) + one_if(
            answer_to(e) == Some(reply),
        ) by {
        lemma_telling(s, seq![e], reply);
        lemma_given_one(e, reply);
    }
    match (task, outcome) {
        (TaskView::Propose { before, reply: id }, Outcome::Engine { node, actions }) => {
            lemma_with_waiter(state.rows, node.last_log_index, id, now, reply);
        },
        (TaskView::Take { stage, reply: id }, _) => {
            lemma_telling_nobody(state, take_effects(stage, outcome, now), reply);
        },
        _ => {},
    }
}

/// When an event has been dealt with, its caller has been answered once or
/// waits in one place; everyone else is as they were.
pub proof fn law_finished_event_owes_nothing(state: StateView, task: TaskView, reply: ReplyId)
    requires
        task is Done,
    ensures
        dues_with(state, task, reply) == dues(state, reply),
{
}

proof fn lemma_reads_split(node: &NodeView, reads: Seq<ReadView>, reply: ReplyId)
    ensures
        times(readers(reads), reply) == times(readers(waiting_on(node, reads)), reply)
            + answers_given(verdicts(node, reads), reply),
    decreases reads.len(),
{
    reveal(Seq::filter);
    let stays = |r: ReadView| must_wait(node, r);
    let leaves = |r: ReadView| !must_wait(node, r);
    let say = |r: ReadView| verdict(node, r);
    if reads.len() > 0 {
        let rest = reads.drop_last();
        let read = reads.last();
        lemma_reads_split(node, rest, reply);
        assert(readers(reads).drop_last() =~= readers(rest));
        if must_wait(node, read) {
            assert(waiting_on(node, reads) == waiting_on(node, rest).push(read));
            assert(readers(waiting_on(node, rest).push(read)) =~= readers(
                waiting_on(node, rest),
            ).push(read.reply));
            lemma_times_push(readers(waiting_on(node, rest)), read.reply, reply);
        } else {
            assert(answered_now(node, reads) == answered_now(node, rest).push(read));
            assert(verdicts(node, reads).drop_last() =~= verdicts(node, rest));
            assert(verdicts(node, reads).last() == verdict(node, read));
        }
    } else {
        assert(waiting_on(node, reads) =~= Seq::empty());
        assert(verdicts(node, reads) =~= Seq::empty());
        assert(readers(reads) =~= Seq::empty());
        assert(readers(waiting_on(node, reads)) =~= Seq::empty());
    }
}

/// A waiting read is answered when it stops waiting, and only then.
pub proof fn law_draining_reads_keeps_the_dues(state: StateView, reply: ReplyId)
    ensures
        dues(
            StateView {
                reads: waiting_on(&state.node, state.reads),
                ..state.telling(verdicts(&state.node, state.reads))
            },
            reply,
        ) == dues(state, reply),
{
    lemma_telling(state, verdicts(&state.node, state.reads), reply);
    lemma_reads_split(&state.node, state.reads, reply);
}

/// The look at the node after an event answers nobody, and the reads that stop
/// waiting are answered.
pub proof fn law_loop_keeps_the_dues(
    state: StateView,
    roles: RoleTracker,
    now: u64,
    reply: ReplyId,
)
    ensures
        dues(looked_at(state, roles, now), reply) == dues(state, reply),
        dues(reads_drained(looked_at(state, roles, now)), reply) == dues(state, reply),
{
    let told = recorded(roles, &state.node, now);
    lemma_telling(state, told, reply);
    lemma_no_answers(told, reply);
    law_draining_reads_keeps_the_dues(looked_at(state, roles, now), reply);
}

proof fn lemma_no_answers(told: Seq<EffectView>, reply: ReplyId)
    requires
        forall|i: int| 0 <= i < told.len() ==> answer_to(#[trigger] told[i]) is None,
    ensures
        answers_given(told, reply) == 0,
    decreases told.len(),
{
    if told.len() > 0 {
        lemma_no_answers(told.drop_last(), reply);
    }
}

/// A caller that is turned away is answered once.
pub proof fn law_turned_away_callers_are_answered(
    state: StateView,
    event: EventView,
    error: ErrorView,
    reply: ReplyId,
)
    ensures
        dues(state.telling(turned_away(event, error)), reply) == dues(state, reply) + one_if(
            caller(event) == Some(reply),
        ),
{
    let told = turned_away(event, error);
    lemma_telling(state, told, reply);
    if told.len() > 0 {
        lemma_given_one(told[0], reply);
        assert(told =~= seq![told[0]]);
    } else {
        lemma_given_one(arbitrary(), reply);
        assert(told =~= Seq::empty());
    }
}

/// Whoever waits when the driver stops at once is answered once.
pub proof fn law_fail_stop_answers_everyone(state: StateView, error: ErrorView, reply: ReplyId)
    ensures
        answers_given(abandoned(state, error).told, reply) == dues(state, reply),
{
    let clients = propose_answers(reply_ids(state.rows), Err(error));
    let others = refusals(state.reads, error);
    lemma_answers_are_given(reply_ids(state.rows), Err(error), reply);
    lemma_refusals_are_given(state.reads, error, reply);
    lemma_given_add(clients, others, reply);
    lemma_given_add(state.told, clients + others, reply);
}

/// Whoever waits when the driver ends in order is answered once: reads when the
/// end begins, clients when it is over.
pub proof fn law_shutdown_answers_everyone(
    state: StateView,
    next: FinalNextView,
    reply: ReplyId,
)
    requires
        state.reads.len() == 0,
    ensures
        answers_given(final_told(state, next).state.told, reply) == dues(state, reply),
{
    let error = match next {
        FinalNextView::Failed(e) => e,
        _ => ErrorView::Shutdown,
    };
    let clients = propose_answers(reply_ids(state.rows), Err(error));
    lemma_answers_are_given(reply_ids(state.rows), Err(error), reply);
    lemma_given_add(state.told, clients, reply);
    assert(readers(state.reads) =~= Seq::empty());
}

/// Refusing the waiting reads at the beginning of the orderly end answers each
/// of them once.
pub proof fn law_beginning_to_drain_keeps_the_dues(state: StateView, reply: ReplyId)
    ensures
        dues(
            StateView {
                reads: seq![],
                ..state.telling(refusals(state.reads, ErrorView::Shutdown))
            },
            reply,
        ) == dues(state, reply),
{
    lemma_telling(state, refusals(state.reads, ErrorView::Shutdown), reply);
    lemma_refusals_are_given(state.reads, ErrorView::Shutdown, reply);
    assert(readers(Seq::<ReadView>::empty()) =~= Seq::<ReplyId>::empty());
    assert(times(readers(Seq::<ReadView>::empty()), reply) == 0);
}

} // verus!
