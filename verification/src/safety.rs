//! What holds of every run of actions: what a failed write stops, what is
//! durable before anyone hears of it, and what an error leaves behind.
use vstd::prelude::*;

use crate::actions::{
    action_started, ended, halted, list_done, message_out, run_expects, run_resumed, run_step,
    unwound, FrameView, RunView, StageView, StepView,
};
use crate::captured::{merged, CapturedView};
use crate::error::ErrorView;
use crate::host::{is_failure, EffectView, Outcome, RequestView};
use crate::message::{Action, OutboundMessageView};
use crate::snapshot::law_install_fails_with_its_calls;
use crate::state::StateView;
use crate::types::NodeId;

verus! {

/// Whether an error has been captured, here or in an interrupted list.
pub open spec fn has_error(run: RunView) -> bool {
    ||| run.captured.error is Some
    ||| exists|i: int|
        0 <= i < run.parents.len() && (#[trigger] run.parents[i]).captured.error is Some
}

proof fn lemma_unwound_error(parents: Seq<FrameView>, captured: CapturedView)
    ensures
        unwound(parents, captured).error is Some <==> captured.error is Some || exists|i: int|
            0 <= i < parents.len() && (#[trigger] parents[i]).captured.error is Some,
    decreases parents.len(),
{
    if parents.len() > 0 {
        let inner = merged(parents.last().captured, captured);
        lemma_unwound_error(parents.drop_last(), inner);
        assert forall|i: int| 0 <= i < parents.drop_last().len() implies parents.drop_last()[i]
            == #[trigger] parents[i] by {}
        if exists|i: int| 0 <= i < parents.len() && (#[trigger] parents[i]).captured.error is Some {
            let i = choose|i: int|
                0 <= i < parents.len() && (#[trigger] parents[i]).captured.error is Some;
            if i < parents.len() - 1 {
                assert(parents.drop_last()[i].captured.error is Some);
            } else {
                assert(inner.error is Some);
            }
        }
        if exists|i: int|
            0 <= i < parents.drop_last().len() && (
            #[trigger] parents.drop_last()[i]).captured.error is Some {
            let i = choose|i: int|
                0 <= i < parents.drop_last().len() && (
                #[trigger] parents.drop_last()[i]).captured.error is Some;
            assert(parents[i].captured.error is Some);
        }
        if parents.last().captured.error is Some {
            assert(parents[parents.len() - 1].captured.error is Some);
        }
    }
}

/// A run that ends reports an error exactly when one was captured on the way,
/// however deep the list that captured it was nested.
pub proof fn law_ended_run_reports_its_errors(state: StateView, run: RunView)
    ensures
        ended(state, run).run.captured.error is Some <==> has_error(run),
{
    lemma_unwound_error(run.parents, run.captured);
}

/// Once an error is captured it stays captured, whatever the run does next.
pub proof fn law_captured_error_stays(state: StateView, run: RunView, outcome: Outcome, now: u64)
    requires
        has_error(run),
    ensures
        run.can_step() ==> has_error(run_step(state, run, now).run),
        run_expects(run.stage, outcome) ==> has_error(run_resumed(state, run, outcome, now).run),
{
    lemma_unwound_error(run.parents, run.captured);
    if run.can_step() {
        lemma_step_keeps_error(state, run, now);
    }
    if run_expects(run.stage, outcome) {
        lemma_resume_keeps_error(state, run, outcome, now);
    }
}

/// The lists and what they have captured, as far as errors go.
spec fn keeps_lists(before: RunView, after: RunView) -> bool {
    &&& after.parents == before.parents
    &&& before.captured.error is Some ==> after.captured.error is Some
}

proof fn lemma_keeps_lists(before: RunView, after: RunView)
    requires
        keeps_lists(before, after),
        has_error(before),
    ensures
        has_error(after),
{
    if before.captured.error is None {
        let i = choose|i: int|
            0 <= i < before.parents.len() && (
            #[trigger] before.parents[i]).captured.error is Some;
        assert(after.parents[i].captured.error is Some);
    }
}

proof fn lemma_halted_has_error(state: StateView, run: RunView, msg: Seq<char>)
    ensures
        has_error(halted(state, run, msg).run),
        halted(state, run, msg).run.captured.error is Some,
{
    lemma_unwound_error(
        run.parents,
        CapturedView { error: Some(ErrorView::Storage(msg)), ..run.captured },
    );
}

proof fn lemma_ended_keeps_error(state: StateView, run: RunView)
    requires
        has_error(run),
    ensures
        has_error(ended(state, run).run),
{
    lemma_unwound_error(run.parents, run.captured);
}

#[verifier::rlimit(40)]
proof fn lemma_step_keeps_error(state: StateView, run: RunView, now: u64)
    requires
        run.can_step(),
        has_error(run),
    ensures
        has_error(run_step(state, run, now).run),
{
    let change = run_step(state, run, now);
    if change.step is Finished {
        lemma_unwound_error(run.parents, run.captured);
        if run.stage is Ready && run.queue.len() == 0 {
            lemma_list_done_keeps_error(state, run);
        } else {
            assert(change.run.captured.error is Some) by {
                lemma_failed_step(state, run, now);
            }
        }
    } else if run.stage is Ready && run.queue.len() == 0 {
        lemma_list_done_keeps_error(state, run);
    } else {
        assert(keeps_lists(run, change.run));
        lemma_keeps_lists(run, change.run);
    }
}

proof fn lemma_failed_step(state: StateView, run: RunView, now: u64)
    requires
        run.can_step(),
        !(run.stage is Ready && run.queue.len() == 0),
        run_step(state, run, now).step is Finished,
    ensures
        run_step(state, run, now).run.captured.error is Some,
{
    assert forall|s: StateView, r: RunView, m: Seq<char>|
        (#[trigger] halted(s, r, m)).run.captured.error is Some by {
        lemma_halted_has_error(s, r, m);
    }
}

proof fn lemma_list_done_keeps_error(state: StateView, run: RunView)
    requires
        has_error(run),
    ensures
        has_error(list_done(state, run).run),
{
    if run.parents.len() == 0 {
        lemma_ended_keeps_error(state, run);
    } else {
        let parent = run.parents.last();
        let outer = RunView {
            parents: run.parents.drop_last(),
            queue: parent.queue,
            captured: merged(parent.captured, run.captured),
            origin: run.origin,
            stage: run.stage,
        };
        if run.captured.error is None {
            let i = choose|i: int|
                0 <= i < run.parents.len() && (
                #[trigger] run.parents[i]).captured.error is Some;
            if i < run.parents.len() - 1 {
                assert(outer.parents[i].captured.error is Some);
            }
        }
        assert(has_error(outer));
        lemma_ended_keeps_error(state, outer);
        lemma_keeps_lists(outer, outer.at(StageView::Ready));
    }
}

#[verifier::rlimit(40)]
proof fn lemma_resume_keeps_error(state: StateView, run: RunView, outcome: Outcome, now: u64)
    requires
        run_expects(run.stage, outcome),
        has_error(run),
    ensures
        has_error(run_resumed(state, run, outcome, now).run),
{
    let change = run_resumed(state, run, outcome, now);
    if change.step is Finished {
        assert forall|s: StateView, r: RunView, m: Seq<char>|
            (#[trigger] halted(s, r, m)).run.captured.error is Some by {
            lemma_halted_has_error(s, r, m);
        }
    } else if run.stage is Ack {
        let frame = change.run.parents.last();
        if run.captured.error is Some {
            assert(change.run.parents[run.parents.len() as int].captured.error is Some);
        } else {
            let i = choose|i: int|
                0 <= i < run.parents.len() && (
                #[trigger] run.parents[i]).captured.error is Some;
            assert(change.run.parents[i].captured.error is Some);
        }
    } else {
        assert(keeps_lists(run, change.run));
        lemma_keeps_lists(run, change.run);
    }
}

/// A failed call stops everything: the run is over, what was still to be done is
/// dropped, the caller is left with an error, and the driver has a reason to
/// stop. The one exception is a read that only serves a fetch.
#[verifier::rlimit(40)]
pub proof fn law_failed_call_stops_everything(
    state: StateView,
    run: RunView,
    outcome: Outcome,
    now: u64,
)
    requires
        run_expects(run.stage, outcome),
        is_failure(outcome),
        !(run.stage is Fetch),
    ensures
        ({
            let change = run_resumed(state, run, outcome, now);
            &&& change.step is Finished
            &&& change.run.queue.len() == 0
            &&& change.run.parents.len() == 0
            &&& change.run.captured.error is Some
            &&& change.state.halt is Some
        }),
{
    assert forall|s: StateView, r: RunView, m: Seq<char>|
        (#[trigger] halted(s, r, m)).run.captured.error is Some by {
        lemma_halted_has_error(s, r, m);
    }
    if let StageView::Install(s) = run.stage {
        law_install_fails_with_its_calls(state.node, s, outcome);
    }
}

/// A failed read for a fetch fails that fetch and nothing else: its caller gets
/// an error, and the driver goes on.
pub proof fn law_failed_fetch_stops_nothing(
    state: StateView,
    run: RunView,
    outcome: Outcome,
    now: u64,
)
    requires
        run_expects(run.stage, outcome),
        is_failure(outcome),
        run.stage is Fetch,
    ensures
        ({
            let change = run_resumed(state, run, outcome, now);
            &&& change.step is Continue
            &&& change.state == state
            &&& change.run.queue == run.queue
            &&& change.run.captured.error is Some
        }),
{
}

/// When a call fails, nobody is told of a success: the only ones told anything
/// are clients, and they get the error.
#[verifier::rlimit(40)]
pub proof fn law_failed_call_releases_no_answer(
    state: StateView,
    run: RunView,
    outcome: Outcome,
    now: u64,
    k: int,
)
    requires
        run_expects(run.stage, outcome),
        is_failure(outcome),
        state.told.len() <= k < run_resumed(state, run, outcome, now).state.told.len(),
    ensures
        run_resumed(state, run, outcome, now).state.told[k] matches EffectView::AnswerPropose {
            reply,
            result,
        } && (result matches Err(e) && e is Storage),
{
    if let StageView::Install(s) = run.stage {
        law_install_fails_with_its_calls(state.node, s, outcome);
    }
}

/// The hard state is never persisted with a commit index past the end of the
/// durable log.
#[verifier::rlimit(40)]
pub proof fn law_persisted_commit_index_is_durable(
    state: StateView,
    run: RunView,
    outcome: Outcome,
    now: u64,
)
    requires
        run_expects(run.stage, outcome),
        run_resumed(state, run, outcome, now).step matches StepView::Ask(
            RequestView::PersistHardState { commit_index },
        ),
    ensures
        outcome matches Outcome::LogTip { index, term } && (run_resumed(
            state,
            run,
            outcome,
            now,
        ).step matches StepView::Ask(RequestView::PersistHardState { commit_index })
            && commit_index.0 <= index.0 && commit_index.0 <= state.node.commit_index.0),
{
}

/// After entries are appended, the next call flushes the log; until then no
/// other action is started and nobody is told anything.
pub proof fn law_append_is_flushed_first(state: StateView, run: RunView, outcome: Outcome, now: u64)
    requires
        run.stage is Append,
        run_expects(run.stage, outcome),
        !is_failure(outcome),
    ensures
        ({
            let change = run_resumed(state, run, outcome, now);
            &&& change.step == StepView::Ask(RequestView::FlushLog)
            &&& change.state == state
            &&& change.run.queue == run.queue
            &&& change.run.captured == run.captured
        }),
{
}

/// A reason to stop, once there is one, stays as it is.
pub proof fn law_halt_reason_stays(state: StateView, run: RunView, outcome: Outcome, now: u64)
    requires
        state.halt is Some,
    ensures
        run.can_step() ==> run_step(state, run, now).state.halt == state.halt,
        run_expects(run.stage, outcome) ==> run_resumed(state, run, outcome, now).state.halt
            == state.halt,
{
    if run.can_step() {
        lemma_step_keeps_halt(state, run, now);
    }
    if run_expects(run.stage, outcome) {
        lemma_resume_keeps_halt(state, run, outcome, now);
    }
}

#[verifier::rlimit(40)]
proof fn lemma_step_keeps_halt(state: StateView, run: RunView, now: u64)
    requires
        state.halt is Some,
        run.can_step(),
    ensures
        run_step(state, run, now).state.halt == state.halt,
{
}

#[verifier::rlimit(40)]
proof fn lemma_resume_keeps_halt(state: StateView, run: RunView, outcome: Outcome, now: u64)
    requires
        state.halt is Some,
        run_expects(run.stage, outcome),
    ensures
        run_resumed(state, run, outcome, now).state.halt == state.halt,
{
}

/// What has been told is never taken back.
#[verifier::rlimit(40)]
pub proof fn law_told_only_grows(state: StateView, run: RunView, outcome: Outcome, now: u64)
    ensures
        run.can_step() ==> state.told.is_prefix_of(run_step(state, run, now).state.told),
        run_expects(run.stage, outcome) ==> state.told.is_prefix_of(
            run_resumed(state, run, outcome, now).state.told,
        ),
{
}

/// Directing a replica to a snapshot acknowledges nothing: the engine is not
/// asked anything.
pub proof fn law_redirect_acknowledges_nothing(
    state: StateView,
    run: RunView,
    action: Action,
    now: u64,
)
    requires
        action is RedirectToSnapshot,
    ensures
        action_started(state, run, action, now).step is Continue,
        action_started(state, run, action, now).run.queue == run.queue,
{
}

/// A message reaches the waiting caller or the network, and never both.
pub proof fn law_message_goes_one_way(
    state: StateView,
    run: RunView,
    to: NodeId,
    message: OutboundMessageView,
)
    ensures
        ({
            let change = message_out(state, run, to, message);
            let sent = change.state == state.telling(seq![EffectView::Dispatch { to, message }]);
            let kept = change.run.captured != run.captured;
            &&& kept ==> change.state == state && run.origin == Some(to)
            &&& !kept ==> sent
        }),
{
}

/// While a call is pending nothing is sent and nothing is granted: what comes
/// after the call in the engine's list waits for its outcome. Only the service
/// of a fetch, whose answer depends on the outcome, captures or sends one.
#[verifier::rlimit(40)]
pub proof fn law_nothing_is_released_while_a_call_is_pending(
    state: StateView,
    run: RunView,
    outcome: Outcome,
    now: u64,
    k: int,
)
    requires
        run_expects(run.stage, outcome),
        !(run.stage is Fetch),
    ensures
        ({
            let change = run_resumed(state, run, outcome, now);
            &&& state.told.len() <= k < change.state.told.len() ==> !(change.state.told[k]
                is Dispatch)
            &&& !(change.step is Finished) && !(run.stage is Ack) ==> change.run.captured
                == run.captured
        }),
{
}

/// The engine's actions are begun in their order, each when the one before is
/// done, and none is skipped: what waits stays at the front of the list, behind
/// it comes only what the engine adds, and an interrupted list is kept whole.
pub proof fn law_actions_are_done_in_order(
    state: StateView,
    run: RunView,
    outcome: Outcome,
    now: u64,
)
    ensures
        run.stage is Ready && run.queue.len() > 0 ==> run_step(state, run, now) == action_started(
            state,
            RunView { queue: run.queue.drop_first(), ..run },
            run.queue[0],
            now,
        ),
        run_expects(run.stage, outcome) ==> {
            let change = run_resumed(state, run, outcome, now);
            ||| change.step is Finished
            ||| run.queue.is_prefix_of(change.run.queue) && change.run.parents == run.parents
            ||| change.run.parents.len() == run.parents.len() + 1 && change.run.parents.last().queue
                == run.queue && change.run.parents.drop_last() == run.parents
        },
{
    if run_expects(run.stage, outcome) {
        lemma_resume_keeps_the_list(state, run, outcome, now);
    }
}

#[verifier::rlimit(40)]
proof fn lemma_resume_keeps_the_list(state: StateView, run: RunView, outcome: Outcome, now: u64)
    requires
        run_expects(run.stage, outcome),
    ensures
        ({
            let change = run_resumed(state, run, outcome, now);
            ||| change.step is Finished
            ||| run.queue.is_prefix_of(change.run.queue) && change.run.parents == run.parents
            ||| change.run.parents.len() == run.parents.len() + 1 && change.run.parents.last().queue
                == run.queue && change.run.parents.drop_last() == run.parents
        }),
{
    let change = run_resumed(state, run, outcome, now);
    if run.stage is Ack {
        assert(change.run.parents.drop_last() =~= run.parents);
    }
}

} // verus!
