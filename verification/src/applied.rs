//! What the state machine is given of the log, and what the clients hear of it.
use vstd::prelude::*;

use crate::actions::{RunChange, RunView, StageView, StepView};
use crate::apply::{law_only_complete_ranges_are_applied, ApplyStageView};
use crate::error::ErrorView;
use crate::host::{EffectView, Outcome, ReplyId, RequestView};
use crate::message::Action;
use crate::model::{
    action_played, after_call, behind, comes_next, entries_between, is_done, lemma_call,
    lemma_played_end, played, ready, run_after, run_onward, waiting, MachineCall, World,
};
use crate::state::StateView;
use crate::types::{Entry, EntryPayload, LogIndex};
use crate::waiters::{
    law_clients_are_those_of_the_rows, law_settling_is_by_entry, rows_at, rows_without, settled,
    RowView,
};

verus! {

/// What the state machine is given for some entries: the commands among them, each
/// with the index of its entry, in order.
pub open spec fn commands_of(entries: Seq<Entry>) -> Seq<MachineCall>
    decreases entries.len(),
{
    if entries.len() == 0 {
        Seq::empty()
    } else {
        match entries[0].payload {
            EntryPayload::Command(command) => seq![
                MachineCall::Applied { index: entries[0].index, command: command@ },
            ] + commands_of(entries.drop_first()),
            _ => commands_of(entries.drop_first()),
        }
    }
}

/// Whether the indices of some entries ascend.
pub open spec fn ascending(entries: Seq<Entry>) -> bool {
    forall|i: int, j: int|
        0 <= i < j < entries.len() ==> (#[trigger] entries[i]).index.0 < (
        #[trigger] entries[j]).index.0
}

/// Whether one of some entries is at `index`.
pub open spec fn one_is_at(entries: Seq<Entry>, index: LogIndex) -> bool {
    exists|i: int| 0 <= i < entries.len() && (#[trigger] entries[i]).index == index
}

/// A run that is about to apply the given entries.
pub open spec fn applying(
    state: StateView,
    run: RunView,
    rest: Seq<Entry>,
    to: LogIndex,
) -> RunChange {
    RunChange {
        state,
        run: run.at(StageView::Apply(ApplyStageView::Entries { rest, to })),
        step: StepView::Continue,
    }
}

/// A committed range that the log holds reaches the state machine whole: the
/// commands among the log's own entries from the first index to the last one, in
/// order, and nothing else. Each client that waits for one of these entries hears
/// that it is applied, under the entry's index, and waits no longer; every other
/// client waits on.
pub proof fn law_committed_range_reaches_the_state_machine(
    w: World,
    state: StateView,
    run: RunView,
    from: LogIndex,
    to: LogIndex,
    outcomes: Seq<Outcome>,
    clock: spec_fn(nat) -> u64,
    steps: nat,
    row: RowView,
    reply: ReplyId,
)
    requires
        comes_next(run, Action::ApplyToStateMachine { from, to }),
        from.0 <= to.0 < u64::MAX,
        forall|k: u64|
            from.0 <= k <= to.0 ==> #[trigger] w.log.contains_key(k) && w.log[k].index.0 == k,
        action_played(w, state, run, outcomes, clock, steps).honest,
        !(action_played(w, state, run, outcomes, clock, steps).change.step is Ask),
    ensures
        ({
            let p = action_played(w, state, run, outcomes, clock, steps);
            let inside = from.0 <= row.index.0 <= to.0;
            &&& is_done(run, p)
            &&& p.world == (World {
                machine: w.machine + commands_of(
                    entries_between(w.log, from.0 as int, to.0 + 1),
                ),
                ..w
            })
            &&& p.change.state == (StateView {
                rows: p.change.state.rows,
                told: p.change.state.told,
                ..state
            })
            &&& state.told.is_prefix_of(p.change.state.told)
            &&& p.change.state.rows.contains(row) <==> state.rows.contains(row) && !inside
            &&& state.rows.contains(row) && inside && row.replies.contains(reply)
                ==> p.change.state.told.contains(
                EffectView::AnswerPropose { reply, result: Ok(row.index) },
            )
        }),
{
    let rest = behind(run);
    let p = action_played(w, state, run, outcomes, clock, steps);
    let end = LogIndex((to.0 + 1) as u64);
    let request = RequestView::ReadRange { from, end };
    let c0 = waiting(
        state,
        rest,
        StageView::Apply(ApplyStageView::Range { from, to }),
        request,
    );
    lemma_apply_begins(state, run, from, to, clock(outcomes.len()));
    let c1 = run_after(c0, outcomes[0], clock(outcomes.len()));
    lemma_call(w, c0, request, c1, outcomes, clock, steps);
    let entries = outcomes[0]->Entries_0->Ok_0;
    let all = entries_between(w.log, from.0 as int, end.0 as int);
    lemma_log_is_read(w.log, from.0 as int, end.0 as int);
    assert(entries@ == all);
    lemma_range_is_taken(state, rest, from, to, entries, request, clock(outcomes.len()));
    lemma_entries_are_applied(
        w,
        state,
        rest,
        all,
        to,
        outcomes.drop_first(),
        clock,
        (steps - 1) as nat,
        row,
        reply,
    );
    assert(rest.at(StageView::Ready) == rest);
    if from.0 <= row.index.0 <= to.0 {
        assert(all[row.index.0 - from.0].index == row.index);
    }
}

#[verifier::spinoff_prover]
proof fn lemma_apply_begins(
    state: StateView,
    run: RunView,
    from: LogIndex,
    to: LogIndex,
    now: u64,
)
    requires
        comes_next(run, Action::ApplyToStateMachine { from, to }),
    ensures
        run_onward(RunChange { state, run, step: StepView::Continue }, now) == waiting(
            state,
            behind(run),
            StageView::Apply(ApplyStageView::Range { from, to }),
            RequestView::ReadRange { from, end: LogIndex((to.0 + 1) as u64) },
        ),
{
    reveal(run_onward);
}

proof fn lemma_log_is_read(log: Map<u64, Entry>, from: int, end: int)
    requires
        0 <= from <= end <= u64::MAX,
        forall|k: u64| from <= k < end ==> #[trigger] log.contains_key(k) && log[k].index.0 == k,
    ensures
        entries_between(log, from, end).len() == end - from,
        forall|i: int|
            0 <= i < end - from ==> (#[trigger] entries_between(log, from, end)[i]).index.0 == from
                + i,
    decreases end - from,
{
    if from < end {
        lemma_log_is_read(log, from, end - 1);
        let last = (end - 1) as u64;
        assert(log.contains_key(last) && log[last].index.0 == last);
        let earlier = entries_between(log, from, end - 1);
        assert forall|i: int| 0 <= i < end - from implies (#[trigger] entries_between(
            log,
            from,
            end,
        )[i]).index.0 == from + i by {
            if i < earlier.len() {
                assert(entries_between(log, from, end)[i] == earlier[i]);
            }
        }
    }
}

#[verifier::spinoff_prover]
proof fn lemma_range_is_taken(
    state: StateView,
    run: RunView,
    from: LogIndex,
    to: LogIndex,
    entries: Vec<Entry>,
    request: RequestView,
    now: u64,
)
    requires
        from.0 <= to.0,
        entries@.len() == to.0 - from.0 + 1,
        forall|k: int| 0 <= k < entries@.len() ==> (#[trigger] entries@[k]).index.0 == from.0 + k,
    ensures
        run_after(
            waiting(state, run, StageView::Apply(ApplyStageView::Range { from, to }), request),
            Outcome::Entries(Ok(entries)),
            now,
        ) == applying(state, run, entries@, to),
{
    reveal(run_after);
    law_only_complete_ranges_are_applied(from, to, entries, state.rows, now);
    assert(state.telling(seq![]) =~= state);
}

/// The state once the entry at `index` is applied.
spec fn one_applied(state: StateView, index: LogIndex, now: u64) -> StateView {
    StateView {
        rows: rows_without(state.rows, index),
        ..state.telling(settled(state.rows, index, Ok(index), now))
    }
}

#[verifier::spinoff_prover]
proof fn lemma_next_entry(
    state: StateView,
    run: RunView,
    rest: Seq<Entry>,
    to: LogIndex,
    now: u64,
)
    ensures
        rest.len() == 0 ==> run_onward(applying(state, run, rest, to), now) == ready(state, run),
        rest.len() > 0 && !(rest[0].payload is Command) ==> run_onward(
            applying(state, run, rest, to),
            now,
        ) == applying(one_applied(state, rest[0].index, now), run, rest.drop_first(), to),
        rest.len() > 0 && rest[0].payload is Command ==> run_onward(
            applying(state, run, rest, to),
            now,
        ) == waiting(
            state,
            run,
            StageView::Apply(
                ApplyStageView::Command { index: rest[0].index, rest: rest.drop_first(), to },
            ),
            RequestView::Apply {
                index: rest[0].index,
                command: rest[0].payload->Command_0@,
            },
        ),
{
    reveal(run_onward);
    assert(state.telling(seq![]) =~= state);
}

#[verifier::spinoff_prover]
proof fn lemma_command_is_taken(
    state: StateView,
    run: RunView,
    index: LogIndex,
    rest: Seq<Entry>,
    to: LogIndex,
    request: RequestView,
    now: u64,
)
    ensures
        run_after(
            waiting(
                state,
                run,
                StageView::Apply(ApplyStageView::Command { index, rest, to }),
                request,
            ),
            Outcome::Done(Ok(())),
            now,
        ) == applying(one_applied(state, index, now), run, rest, to),
{
    reveal(run_after);
}

/// A step that needs no call.
proof fn lemma_goes_on(
    w: World,
    change: RunChange,
    next: RunChange,
    outcomes: Seq<Outcome>,
    clock: spec_fn(nat) -> u64,
    steps: nat,
)
    requires
        change.step is Continue,
        !(change.run.stage is Ready),
        played(w, change, outcomes, clock, steps).honest,
        run_onward(change, clock(outcomes.len())) == next,
    ensures
        steps > 0,
        played(w, change, outcomes, clock, steps) == played(
            w,
            next,
            outcomes,
            clock,
            (steps - 1) as nat,
        ),
{
    reveal_with_fuel(played, 1);
}

/// What is told of one applied entry.
proof fn lemma_one_applied(state: StateView, index: LogIndex, now: u64, row: RowView, reply: ReplyId)
    ensures
        ({
            let after = one_applied(state, index, now);
            &&& state.told.is_prefix_of(after.told)
            &&& after.rows.contains(row) <==> state.rows.contains(row) && row.index != index
            &&& state.rows.contains(row) && row.index == index && row.replies.contains(reply)
                ==> after.told.contains(
                EffectView::AnswerPropose { reply, result: Ok(index) },
            )
        }),
{
    law_settling_is_by_entry(state.rows, index, row);
    let after = one_applied(state, index, now);
    let here = rows_at(state.rows, index);
    let told = settled(state.rows, index, Ok(index), now);
    if state.rows.contains(row) && row.index == index && row.replies.contains(reply) {
        assert(here.contains(row));
        let i = choose|i: int| 0 <= i < here.len() && here[i] == row;
        assert(here[i].replies.contains(reply));
        law_clients_are_those_of_the_rows(here, reply);
        let ids = crate::waiters::reply_ids(here);
        let j = choose|j: int| 0 <= j < ids.len() && ids[j] == reply;
        let answer = EffectView::AnswerPropose {
            reply,
            result: Ok::<LogIndex, ErrorView>(index),
        };
        assert(told[j] == answer);
        assert(after.told[state.told.len() + j] == answer);
    }
}

proof fn lemma_prefix_contains(a: Seq<EffectView>, b: Seq<EffectView>, c: Seq<EffectView>, e: EffectView)
    requires
        a.is_prefix_of(b),
        b.is_prefix_of(c),
    ensures
        a.is_prefix_of(c),
        b.contains(e) ==> c.contains(e),
{
    if b.contains(e) {
        let i = choose|i: int| 0 <= i < b.len() && b[i] == e;
        assert(c[i] == e);
    }
}

/// Entries are applied one after the other.
proof fn lemma_entries_are_applied(
    w: World,
    state: StateView,
    run: RunView,
    rest: Seq<Entry>,
    to: LogIndex,
    outcomes: Seq<Outcome>,
    clock: spec_fn(nat) -> u64,
    steps: nat,
    row: RowView,
    reply: ReplyId,
)
    requires
        ascending(rest),
        played(w, applying(state, run, rest, to), outcomes, clock, steps).honest,
        !(played(w, applying(state, run, rest, to), outcomes, clock, steps).change.step is Ask),
    ensures
        ({
            let p = played(w, applying(state, run, rest, to), outcomes, clock, steps);
            &&& p.world == (World { machine: w.machine + commands_of(rest), ..w })
            &&& p.change == ready(p.change.state, run)
            &&& p.change.state == (StateView {
                rows: p.change.state.rows,
                told: p.change.state.told,
                ..state
            })
            &&& state.told.is_prefix_of(p.change.state.told)
            &&& p.change.state.rows.contains(row) <==> state.rows.contains(row) && !one_is_at(
                rest,
                row.index,
            )
            &&& state.rows.contains(row) && one_is_at(rest, row.index) && row.replies.contains(
                reply,
            ) ==> p.change.state.told.contains(
                EffectView::AnswerPropose { reply, result: Ok(row.index) },
            )
        }),
    decreases rest.len(),
{
    let c = applying(state, run, rest, to);
    let p = played(w, c, outcomes, clock, steps);
    let now = clock(outcomes.len());
    lemma_next_entry(state, run, rest, to, now);
    let next = run_onward(c, now);
    lemma_goes_on(w, c, next, outcomes, clock, steps);
    if rest.len() == 0 {
        lemma_played_end(w, next, outcomes, clock, (steps - 1) as nat);
        assert(w.machine + commands_of(rest) =~= w.machine);
    } else {
        let index = rest[0].index;
        let later = rest.drop_first();
        assert(ascending(later)) by {
            assert forall|i: int, j: int| 0 <= i < j < later.len() implies (
            #[trigger] later[i]).index.0 < (#[trigger] later[j]).index.0 by {
                assert(rest[i + 1].index.0 < rest[j + 1].index.0);
            }
        }
        assert(one_is_at(rest, row.index) <==> index == row.index || one_is_at(
            later,
            row.index,
        )) by {
            if one_is_at(rest, row.index) {
                let i = choose|i: int|
                    0 <= i < rest.len() && (#[trigger] rest[i]).index == row.index;
                if i > 0 {
                    assert(later[i - 1].index == row.index);
                }
            }
            if one_is_at(later, row.index) {
                let i = choose|i: int|
                    0 <= i < later.len() && (#[trigger] later[i]).index == row.index;
                assert(rest[i + 1].index == row.index);
            }
            if index == row.index {
                assert(rest[0].index == row.index);
            }
        }
        assert(index == row.index ==> !one_is_at(later, row.index)) by {
            if one_is_at(later, row.index) {
                let i = choose|i: int|
                    0 <= i < later.len() && (#[trigger] later[i]).index == row.index;
                assert(rest[0].index.0 < rest[i + 1].index.0);
            }
        }
        let answer = EffectView::AnswerPropose {
            reply,
            result: Ok::<LogIndex, ErrorView>(row.index),
        };
        if rest[0].payload is Command {
            let command = rest[0].payload->Command_0@;
            let request = RequestView::Apply { index, command };
            let after = one_applied(state, index, now);
            lemma_command_is_taken(state, run, index, later, to, request, now);
            lemma_call(
                w,
                next,
                request,
                applying(after, run, later, to),
                outcomes,
                clock,
                (steps - 1) as nat,
            );
            let w1 = after_call(w, request);
            lemma_entries_are_applied(
                w1,
                after,
                run,
                later,
                to,
                outcomes.drop_first(),
                clock,
                (steps - 2) as nat,
                row,
                reply,
            );
            lemma_one_applied(state, index, now, row, reply);
            lemma_prefix_contains(state.told, after.told, p.change.state.told, answer);
            let call = MachineCall::Applied { index, command };
            assert(w.machine.push(call) + commands_of(later) =~= w.machine + (seq![call]
                + commands_of(later)));
        } else {
            let after = one_applied(state, index, now);
            lemma_entries_are_applied(
                w,
                after,
                run,
                later,
                to,
                outcomes,
                clock,
                (steps - 1) as nat,
                row,
                reply,
            );
            lemma_one_applied(state, index, now, row, reply);
            lemma_prefix_contains(state.told, after.told, p.change.state.told, answer);
        }
    }
}

} // verus!
