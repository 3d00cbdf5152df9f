//! A model of what the host keeps, and what the engine's actions do to it: each
//! one changes exactly what it names.
use vstd::prelude::*;

use crate::actions::{run_resumed, run_step, RunChange, RunView, StageView, StepView};
use crate::host::{answers, EffectView, Observation, Outcome, RequestView};
use crate::message::{Action, InputView, LogTruncation};
use crate::state::StateView;
use crate::types::{Entry, LogIndex, NodeView, SnapshotMetaView, Term};

verus! {

/// A call that changes the state machine.
pub enum MachineCall {
    Applied { index: LogIndex, command: Seq<u8> },
    Restored(Seq<u8>),
}

/// A call to the engine.
#[verifier::ext_equal]
pub enum EngineCall {
    Stepped(InputView),
    Deposed(Term),
    CommittedWanted,
    ToldEnd { index: LogIndex, term: Term },
}

/// What the host keeps: the log and what of it is flushed, the commit indices
/// that were persisted, the calls that changed the state machine and the bytes
/// that a snapshot of it holds after them, the stored snapshots, and the calls to
/// the engine. Calls are listed oldest first.
#[verifier::ext_equal]
pub struct World {
    pub log: Map<u64, Entry>,
    pub durable: Map<u64, Entry>,
    pub hard: Seq<LogIndex>,
    pub machine: Seq<MachineCall>,
    pub image: spec_fn(Seq<MachineCall>) -> Seq<u8>,
    pub saved: Seq<(SnapshotMetaView, Seq<u8>)>,
    pub engine: Seq<EngineCall>,
}

/// The log after entries have been put at their indices.
pub open spec fn with_entries(log: Map<u64, Entry>, entries: Seq<Entry>) -> Map<u64, Entry>
    decreases entries.len(),
{
    if entries.len() == 0 {
        log
    } else {
        with_entries(log, entries.drop_last()).insert(entries.last().index.0, entries.last())
    }
}

/// The entries of the log from `from` up to but not including `end`.
pub open spec fn entries_between(log: Map<u64, Entry>, from: int, end: int) -> Seq<Entry>
    decreases end - from,
{
    if from >= end {
        Seq::empty()
    } else {
        let earlier = entries_between(log, from, end - 1);
        if 0 <= end - 1 <= u64::MAX && log.contains_key((end - 1) as u64) {
            earlier.push(log[(end - 1) as u64])
        } else {
            earlier
        }
    }
}

/// The term of the entry at `index`, if the log holds one.
pub open spec fn term_in(log: Map<u64, Entry>, index: LogIndex) -> Option<Term> {
    if log.contains_key(index.0) {
        Some(log[index.0].term)
    } else {
        None
    }
}

/// Whether the last entry of the log is at `index` and of `term`; both are zero
/// for an empty log.
pub open spec fn is_last(log: Map<u64, Entry>, index: LogIndex, term: Term) -> bool {
    ||| log.contains_key(index.0) && log[index.0].term == term && forall|k: u64|
        log.contains_key(k) ==> k <= index.0
    ||| index.0 == 0 && term.0 == 0 && forall|k: u64| !log.contains_key(k)
}

/// Whether the lowest index that the log holds is `index`.
pub open spec fn is_first(log: Map<u64, Entry>, index: LogIndex) -> bool {
    forall|k: u64| log.contains_key(k) ==> index.0 <= k
}

/// Whether what the node has ends at `index` and in `term`: at its latest
/// snapshot if the log does not reach as far, and at the last entry otherwise.
pub open spec fn ends_at(
    node: NodeView,
    log: Map<u64, Entry>,
    index: LogIndex,
    term: Term,
) -> bool {
    match node.last_snapshot_meta {
        Some(m) if m.last_included_index.0 > 0 && forall|k: u64|
            log.contains_key(k) ==> k < m.last_included_index.0 => index == m.last_included_index
            && term == m.last_included_term,
        _ => is_last(log, index, term),
    }
}

/// What a call does that comes out well.
pub open spec fn after_call(w: World, request: RequestView) -> World {
    match request {
        RequestView::StepEngine(input) => World {
            engine: w.engine.push(EngineCall::Stepped(input)),
            ..w
        },
        RequestView::BecomeFollower(term) => World {
            engine: w.engine.push(EngineCall::Deposed(term)),
            ..w
        },
        RequestView::ApplyCommitted => World {
            engine: w.engine.push(EngineCall::CommittedWanted),
            ..w
        },
        RequestView::SetLastLog { index, term } => World {
            engine: w.engine.push(EngineCall::ToldEnd { index, term }),
            ..w
        },
        RequestView::PersistHardState { commit_index } => World {
            hard: w.hard.push(commit_index),
            ..w
        },
        RequestView::AppendLog(entries) => World { log: with_entries(w.log, entries), ..w },
        RequestView::FlushLog => World { durable: w.log, ..w },
        RequestView::TruncateLogFrom(index) => World {
            log: w.log.restrict(Set::new(|k: u64| k < index.0)),
            ..w
        },
        RequestView::PurgeLogPrefix(index) => World {
            log: w.log.restrict(Set::new(|k: u64| k > index.0)),
            ..w
        },
        RequestView::Apply { index, command } => World {
            machine: w.machine.push(MachineCall::Applied { index, command }),
            ..w
        },
        RequestView::RestoreStateMachine(data) => World {
            machine: w.machine.push(MachineCall::Restored(data)),
            ..w
        },
        RequestView::SaveSnapshot { metadata, data } => World {
            saved: w.saved.push((metadata, data)),
            ..w
        },
        RequestView::ReadLogTip | RequestView::ReadFirstValidIndex | RequestView::ReadTerm(_)
        | RequestView::ReadRange { .. } | RequestView::SnapshotStateMachine
        | RequestView::FindSnapshot(_) | RequestView::ReadSnapshot { .. } => w,
    }
}

/// Whether an outcome is what a call comes to that comes out well: what is read
/// is what is kept under the arguments of the call.
pub open spec fn truthful(w: World, request: RequestView, outcome: Outcome) -> bool {
    match request {
        RequestView::ReadLogTip => outcome matches Outcome::LogTip { index, term } && is_last(
            w.log,
            index,
            term,
        ),
        RequestView::ReadFirstValidIndex => outcome matches Outcome::FirstValidIndex(index)
            && is_first(w.log, index),
        RequestView::ReadTerm(index) => outcome == Outcome::Term(Ok(term_in(w.log, index))),
        RequestView::ReadRange { from, end } => outcome matches Outcome::Entries(Ok(entries))
            && entries@ == entries_between(w.log, from.0 as int, end.0 as int),
        RequestView::SnapshotStateMachine => outcome matches Outcome::Data(Ok(data)) && data@
            == (w.image)(w.machine),
        RequestView::PersistHardState { .. } | RequestView::AppendLog(_) | RequestView::FlushLog
        | RequestView::TruncateLogFrom(_) | RequestView::PurgeLogPrefix(_)
        | RequestView::Apply { .. } | RequestView::RestoreStateMachine(_)
        | RequestView::SaveSnapshot { .. } => outcome == Outcome::Done(Ok(())),
        _ => answers(request, outcome),
    }
}

/// How a run goes on with an outcome, from its latest change.
#[verifier::opaque]
pub open spec fn run_after(change: RunChange, outcome: Outcome, now: u64) -> RunChange {
    run_resumed(change.state, change.run, outcome, now)
}

/// How a run goes on without an outcome, from its latest change.
#[verifier::opaque]
pub open spec fn run_onward(change: RunChange, now: u64) -> RunChange {
    run_step(change.state, change.run, now)
}

/// What has come of an action: the world, the latest change of the run, and
/// whether every call came to what the world holds.
pub struct Played {
    pub world: World,
    pub change: RunChange,
    pub honest: bool,
}

/// What comes of an action whose calls have the given outcomes, until the next
/// action can be begun, or until no outcome is left. The clock is read before
/// each step, and is given how many outcomes are still to come.
#[verifier::opaque]
pub open spec fn played(
    w: World,
    change: RunChange,
    outcomes: Seq<Outcome>,
    clock: spec_fn(nat) -> u64,
    steps: nat,
) -> Played
    decreases steps,
{
    if change.step is Ask && outcomes.len() > 0 {
        if steps == 0 {
            Played { world: w, change, honest: false }
        } else {
            let request = change.step->Ask_0;
            let later = played(
                after_call(w, request),
                run_after(change, outcomes[0], clock(outcomes.len())),
                outcomes.drop_first(),
                clock,
                (steps - 1) as nat,
            );
            Played { honest: truthful(w, request, outcomes[0]) && later.honest, ..later }
        }
    } else if change.step is Continue && !(change.run.stage is Ready) {
        if steps == 0 {
            Played { world: w, change, honest: false }
        } else {
            played(
                w,
                run_onward(change, clock(outcomes.len())),
                outcomes,
                clock,
                (steps - 1) as nat,
            )
        }
    } else {
        Played { world: w, change, honest: outcomes.len() == 0 }
    }
}

/// What comes of a run's next action.
pub open spec fn action_played(
    w: World,
    state: StateView,
    run: RunView,
    outcomes: Seq<Outcome>,
    clock: spec_fn(nat) -> u64,
    steps: nat,
) -> Played {
    let ready = RunChange { state, run, step: StepView::Continue };
    played(w, run_onward(ready, clock(outcomes.len())), outcomes, clock, steps)
}

/// A run that waits for a call.
pub open spec fn waiting(
    state: StateView,
    run: RunView,
    stage: StageView,
    request: RequestView,
) -> RunChange {
    RunChange { state, run: run.at(stage), step: StepView::Ask(request) }
}

/// A run whose next action can be begun.
pub open spec fn ready(state: StateView, run: RunView) -> RunChange {
    RunChange { state, run: run.at(StageView::Ready), step: StepView::Continue }
}

/// A run without its next action.
pub open spec fn behind(run: RunView) -> RunView {
    RunView { queue: run.queue.drop_first(), ..run }
}

/// Whether a run's next action is the given one.
pub open spec fn comes_next(run: RunView, action: Action) -> bool {
    run.stage is Ready && run.queue.len() > 0 && run.queue[0] == action
}

/// Whether an action has been done with calls that all came out well: the next
/// one can be begun, and nothing else of the run has changed.
pub open spec fn is_done(run: RunView, p: Played) -> bool {
    &&& p.honest
    &&& p.change.step is Continue
    &&& p.change.run == behind(run)
}

/// A call of an action that does not end with it.
pub proof fn lemma_call(
    w: World,
    change: RunChange,
    request: RequestView,
    next: RunChange,
    outcomes: Seq<Outcome>,
    clock: spec_fn(nat) -> u64,
    steps: nat,
)
    requires
        change.step == StepView::Ask(request),
        played(w, change, outcomes, clock, steps).honest,
        played(w, change, outcomes, clock, steps).change.step != change.step,
        truthful(w, request, outcomes[0]) ==> run_after(
            change,
            outcomes[0],
            clock(outcomes.len()),
        ) == next,
    ensures
        outcomes.len() > 0,
        steps > 0,
        truthful(w, request, outcomes[0]),
        played(w, change, outcomes, clock, steps) == played(
            after_call(w, request),
            next,
            outcomes.drop_first(),
            clock,
            (steps - 1) as nat,
        ),
{
    reveal_with_fuel(played, 1);
}

/// The end of an action.
pub proof fn lemma_played_end(
    w: World,
    change: RunChange,
    outcomes: Seq<Outcome>,
    clock: spec_fn(nat) -> u64,
    steps: nat,
)
    requires
        !(change.step is Ask),
        change.step is Continue ==> change.run.stage is Ready,
    ensures
        played(w, change, outcomes, clock, steps) == (Played {
            world: w,
            change,
            honest: outcomes.len() == 0,
        }),
{
    reveal_with_fuel(played, 1);
}

/// What entries do to a log: each is found at its index, and what is at any other
/// index is as before.
proof fn lemma_with_entries(log: Map<u64, Entry>, entries: Seq<Entry>, k: u64)
    ensures
        (forall|i: int| 0 <= i < entries.len() ==> (#[trigger] entries[i]).index.0 != k)
            ==> with_entries(log, entries).contains_key(k) == log.contains_key(k) && with_entries(
            log,
            entries,
        )[k] == log[k],
        (exists|i: int| 0 <= i < entries.len() && (#[trigger] entries[i]).index.0 == k)
            ==> with_entries(log, entries).contains_key(k) && entries.contains(
            with_entries(log, entries)[k],
        ) && with_entries(log, entries)[k].index.0 == k,
    decreases entries.len(),
{
    if entries.len() > 0 {
        let rest = entries.drop_last();
        lemma_with_entries(log, rest, k);
        if entries.last().index.0 != k {
            if exists|i: int| 0 <= i < entries.len() && (#[trigger] entries[i]).index.0 == k {
                let i = choose|i: int|
                    0 <= i < entries.len() && (#[trigger] entries[i]).index.0 == k;
                assert(rest[i].index.0 == k);
                let e = with_entries(log, rest)[k];
                let j = choose|j: int| 0 <= j < rest.len() && rest[j] == e;
                assert(entries[j] == e);
            }
            if forall|i: int| 0 <= i < entries.len() ==> (#[trigger] entries[i]).index.0 != k {
                assert forall|i: int| 0 <= i < rest.len() implies (#[trigger] rest[i]).index.0
                    != k by {
                    assert(entries[i].index.0 != k);
                }
            }
        } else {
            assert(entries[entries.len() - 1].index.0 == k);
        }
    }
}

/// An append hands over the entries that it names, all of them and no others, and
/// flushes them: in the log each of them is at its index, what is at any other
/// index is as before, and nothing else is touched. Their number is recorded.
pub proof fn law_append_adds_its_own_entries(
    w: World,
    state: StateView,
    run: RunView,
    entries: Vec<Entry>,
    outcomes: Seq<Outcome>,
    clock: spec_fn(nat) -> u64,
    steps: nat,
    k: u64,
)
    requires
        comes_next(run, Action::AppendEntries(entries)),
        action_played(w, state, run, outcomes, clock, steps).honest,
        !(action_played(w, state, run, outcomes, clock, steps).change.step is Ask),
    ensures
        ({
            let p = action_played(w, state, run, outcomes, clock, steps);
            &&& is_done(run, p)
            &&& p.change.state == state.telling(
                seq![EffectView::Observe(Observation::Append(entries@.len() as u64))],
            )
            &&& p.world == (World { log: p.world.log, durable: p.world.log, ..w })
            &&& (forall|i: int| 0 <= i < entries@.len() ==> (#[trigger] entries@[i]).index.0 != k)
                ==> p.world.log.contains_key(k) == w.log.contains_key(k) && p.world.log[k]
                == w.log[k]
            &&& (exists|i: int| 0 <= i < entries@.len() && (#[trigger] entries@[i]).index.0 == k)
                ==> p.world.log.contains_key(k) && entries@.contains(p.world.log[k])
                && p.world.log[k].index.0 == k
        }),
{
    let rest = behind(run);
    let p = action_played(w, state, run, outcomes, clock, steps);
    let ask0 = RequestView::AppendLog(entries@);
    let indices = entries@.map_values(|e: Entry| e.index);
    let told = state.telling(
        seq![EffectView::Observe(Observation::Append(entries@.len() as u64))],
    );
    let c0 = waiting(state, rest, StageView::Append { indices }, ask0);
    let c1 = waiting(state, rest, StageView::AppendFlush { indices }, RequestView::FlushLog);
    let c2 = ready(told, rest);
    lemma_append_begins(state, run, entries, clock(outcomes.len()));
    lemma_append_calls(state, rest, indices, ask0, clock(outcomes.len()));
    lemma_call(w, c0, ask0, c1, outcomes, clock, steps);
    let o1 = outcomes.drop_first();
    let w1 = after_call(w, ask0);
    lemma_append_calls(state, rest, indices, RequestView::FlushLog, clock(o1.len()));
    lemma_call(w1, c1, RequestView::FlushLog, c2, o1, clock, (steps - 1) as nat);
    let o2 = o1.drop_first();
    let w2 = after_call(w1, RequestView::FlushLog);
    lemma_played_end(w2, c2, o2, clock, (steps - 2) as nat);
    lemma_with_entries(w.log, entries@, k);
    assert(p.world == w2);
    assert(rest.at(StageView::Ready) == rest);
}

#[verifier::spinoff_prover]
proof fn lemma_append_begins(state: StateView, run: RunView, entries: Vec<Entry>, now: u64)
    requires
        comes_next(run, Action::AppendEntries(entries)),
    ensures
        run_onward(RunChange { state, run, step: StepView::Continue }, now) == waiting(
            state,
            behind(run),
            StageView::Append { indices: entries@.map_values(|e: Entry| e.index) },
            RequestView::AppendLog(entries@),
        ),
{
    reveal(run_onward);
}

#[verifier::spinoff_prover]
proof fn lemma_append_calls(
    state: StateView,
    run: RunView,
    indices: Seq<LogIndex>,
    request: RequestView,
    now: u64,
)
    ensures
        run_after(
            waiting(state, run, StageView::Append { indices }, request),
            Outcome::Done(Ok(())),
            now,
        ) == waiting(state, run, StageView::AppendFlush { indices }, RequestView::FlushLog),
        run_after(
            waiting(state, run, StageView::AppendFlush { indices }, request),
            Outcome::Done(Ok(())),
            now,
        ) == ready(
            state.telling(seq![EffectView::Observe(Observation::Append(indices.len() as u64))]),
            run,
        ),
{
    reveal(run_after);
}

/// A removal of the end of the log removes what it names: every entry below the
/// action's own first index is as before, none from that index on is left, and
/// nothing else is touched. What is left is flushed, and the engine is told where
/// it ends.
pub proof fn law_suffix_truncation_keeps_what_is_below(
    w: World,
    state: StateView,
    run: RunView,
    from: LogIndex,
    outcomes: Seq<Outcome>,
    clock: spec_fn(nat) -> u64,
    steps: nat,
)
    requires
        comes_next(
            run,
            Action::TruncateLog(LogTruncation::SuffixFromInclusive { from_index_inclusive: from }),
        ),
        action_played(w, state, run, outcomes, clock, steps).honest,
        !(action_played(w, state, run, outcomes, clock, steps).change.step is Ask),
    ensures
        ({
            let p = action_played(w, state, run, outcomes, clock, steps);
            &&& is_done(run, p)
            &&& p.change.state == (StateView { node: p.change.state.node, ..state })
            &&& forall|k: u64| #[trigger]
                p.world.log.contains_key(k) <==> w.log.contains_key(k) && k < from.0
            &&& forall|k: u64| w.log.contains_key(k) && k < from.0 ==> #[trigger] p.world.log[k]
                == w.log[k]
            &&& exists|index: LogIndex, term: Term|
                #![trigger ends_at(state.node, p.world.log, index, term)]
                ends_at(state.node, p.world.log, index, term) && p.world == (World {
                    log: p.world.log,
                    durable: p.world.log,
                    engine: w.engine.push(EngineCall::ToldEnd { index, term }),
                    ..w
                })
        }),
{
    let rest = behind(run);
    let p = action_played(w, state, run, outcomes, clock, steps);
    let ask0 = RequestView::TruncateLogFrom(from);
    let done = Outcome::Done(Ok(()));
    let c0 = waiting(state, rest, StageView::Truncate, ask0);
    let c1 = waiting(state, rest, StageView::TruncateFlush, RequestView::FlushLog);
    let c2 = waiting(state, rest, StageView::TruncateTip, RequestView::ReadLogTip);
    lemma_truncate_begins(state, run, from, clock(outcomes.len()));
    lemma_truncate_calls(state, rest, ask0, clock(outcomes.len()));
    lemma_call(w, c0, ask0, c1, outcomes, clock, steps);
    let o1 = outcomes.drop_first();
    let w1 = after_call(w, ask0);
    lemma_truncate_calls(state, rest, RequestView::FlushLog, clock(o1.len()));
    lemma_call(w1, c1, RequestView::FlushLog, c2, o1, clock, (steps - 1) as nat);
    let o2 = o1.drop_first();
    let w2 = after_call(w1, RequestView::FlushLog);
    let c3 = run_after(c2, o2[0], clock(o2.len()));
    lemma_call(w2, c2, RequestView::ReadLogTip, c3, o2, clock, (steps - 2) as nat);
    let index = o2[0]->LogTip_index;
    let term = o2[0]->LogTip_term;
    lemma_truncate_tip(state, rest, w2.log, index, term, clock(o2.len()));
    let end = c3.step->Ask_0;
    let o3 = o2.drop_first();
    let c4 = run_after(c3, o3[0], clock(o3.len()));
    lemma_call(w2, c3, end, c4, o3, clock, (steps - 3) as nat);
    lemma_truncate_tail(state, rest, end, o3[0]->Node_0, clock(o3.len()));
    let o4 = o3.drop_first();
    let w4 = after_call(w2, end);
    lemma_played_end(w4, c4, o4, clock, (steps - 4) as nat);
    assert(p.world == w4);
    assert(rest.at(StageView::Ready) == rest);
    assert(ends_at(state.node, p.world.log, end->SetLastLog_index, end->SetLastLog_term));
}

#[verifier::spinoff_prover]
proof fn lemma_truncate_begins(state: StateView, run: RunView, from: LogIndex, now: u64)
    requires
        comes_next(
            run,
            Action::TruncateLog(LogTruncation::SuffixFromInclusive { from_index_inclusive: from }),
        ),
    ensures
        run_onward(RunChange { state, run, step: StepView::Continue }, now) == waiting(
            state,
            behind(run),
            StageView::Truncate,
            RequestView::TruncateLogFrom(from),
        ),
{
    reveal(run_onward);
}

#[verifier::spinoff_prover]
proof fn lemma_truncate_calls(state: StateView, run: RunView, request: RequestView, now: u64)
    ensures
        run_after(waiting(state, run, StageView::Truncate, request), Outcome::Done(Ok(())), now)
            == waiting(state, run, StageView::TruncateFlush, RequestView::FlushLog),
        run_after(
            waiting(state, run, StageView::TruncateFlush, request),
            Outcome::Done(Ok(())),
            now,
        ) == waiting(state, run, StageView::TruncateTip, RequestView::ReadLogTip),
{
    reveal(run_after);
}

/// The later of a log's last entry and the latest snapshot is where what the node
/// has ends.
pub proof fn lemma_ends_at(
    node: NodeView,
    log: Map<u64, Entry>,
    last: LogIndex,
    last_term: Term,
    index: LogIndex,
    term: Term,
)
    requires
        is_last(log, last, last_term),
        match node.last_snapshot_meta {
            Some(m) if m.last_included_index.0 > last.0 => index == m.last_included_index && term
                == m.last_included_term,
            _ => index == last && term == last_term,
        },
    ensures
        ends_at(node, log, index, term),
{
    if let Some(m) = node.last_snapshot_meta {
        if log.contains_key(last.0) && m.last_included_index.0 <= last.0 {
            assert(!(forall|k: u64| log.contains_key(k) ==> k < m.last_included_index.0)) by {
                assert(log.contains_key(last.0));
            }
        }
    }
}

#[verifier::spinoff_prover]
proof fn lemma_truncate_tip(
    state: StateView,
    run: RunView,
    log: Map<u64, Entry>,
    index: LogIndex,
    term: Term,
    now: u64,
)
    requires
        is_last(log, index, term),
    ensures
        ({
            let c = run_after(
                waiting(state, run, StageView::TruncateTip, RequestView::ReadLogTip),
                Outcome::LogTip { index, term },
                now,
            );
            &&& c.step matches StepView::Ask(RequestView::SetLastLog { index: i, term: t })
                && ends_at(state.node, log, i, t) && c == waiting(
                state,
                run,
                StageView::TruncateTail,
                RequestView::SetLastLog { index: i, term: t },
            )
        }),
{
    reveal(run_after);
    let c = run_after(
        waiting(state, run, StageView::TruncateTip, RequestView::ReadLogTip),
        Outcome::LogTip { index, term },
        now,
    );
    let end = c.step->Ask_0;
    lemma_ends_at(
        state.node,
        log,
        index,
        term,
        end->SetLastLog_index,
        end->SetLastLog_term,
    );
}

#[verifier::spinoff_prover]
proof fn lemma_truncate_tail(
    state: StateView,
    run: RunView,
    request: RequestView,
    node: NodeView,
    now: u64,
)
    ensures
        run_after(waiting(state, run, StageView::TruncateTail, request), Outcome::Node(node), now)
            == ready(StateView { node, ..state }, run),
{
    reveal(run_after);
}

/// A removal of the start of the log removes what it names: none up to the
/// action's own last index is left, every entry above it is as before, and
/// nothing else is touched. What is left is flushed, and how much was removed is
/// recorded.
pub proof fn law_prefix_purge_keeps_what_is_above(
    w: World,
    state: StateView,
    run: RunView,
    through: LogIndex,
    outcomes: Seq<Outcome>,
    clock: spec_fn(nat) -> u64,
    steps: nat,
)
    requires
        comes_next(
            run,
            Action::TruncateLog(
                LogTruncation::PrefixThroughInclusive { through_index_inclusive: through },
            ),
        ),
        through.0 < u64::MAX,
        action_played(w, state, run, outcomes, clock, steps).honest,
        !(action_played(w, state, run, outcomes, clock, steps).change.step is Ask),
    ensures
        ({
            let p = action_played(w, state, run, outcomes, clock, steps);
            &&& is_done(run, p)
            &&& forall|k: u64| #[trigger]
                p.world.log.contains_key(k) <==> w.log.contains_key(k) && k > through.0
            &&& forall|k: u64| w.log.contains_key(k) && k > through.0 ==> #[trigger] p.world.log[k]
                == w.log[k]
            &&& p.world == (World { log: p.world.log, durable: p.world.log, ..w })
            &&& exists|first: LogIndex, removed: u64|
                #![trigger is_first(w.log, first), state.telling(seq![EffectView::Observe(Observation::LogCompacted(removed))])]
                is_first(w.log, first) && (through.0 >= first.0 ==> removed == through.0 - first.0
                    + 1) && (through.0 < first.0 ==> removed == 0) && p.change.state
                    == state.telling(
                    seq![EffectView::Observe(Observation::LogCompacted(removed))],
                )
        }),
{
    let rest = behind(run);
    let p = action_played(w, state, run, outcomes, clock, steps);
    let ask0 = RequestView::ReadFirstValidIndex;
    let ask1 = RequestView::PurgeLogPrefix(through);
    let c0 = waiting(state, rest, StageView::CompactFirst { through }, ask0);
    lemma_purge_begins(state, run, through, clock(outcomes.len()));
    let c1 = run_after(c0, outcomes[0], clock(outcomes.len()));
    lemma_call(w, c0, ask0, c1, outcomes, clock, steps);
    let first_valid = outcomes[0]->FirstValidIndex_0;
    lemma_purge_first(state, rest, through, first_valid, clock(outcomes.len()));
    let flush = RequestView::FlushLog;
    let c2 = waiting(state, rest, StageView::CompactFlush { through, first_valid }, flush);
    let o1 = outcomes.drop_first();
    lemma_purge_calls(state, rest, through, first_valid, ask1, clock(o1.len()));
    lemma_call(w, c1, ask1, c2, o1, clock, (steps - 1) as nat);
    let o2 = o1.drop_first();
    let w2 = after_call(w, ask1);
    let removed: u64 = if through.0 >= first_valid.0 {
        (through.0 - first_valid.0 + 1) as u64
    } else {
        0
    };
    let told = state.telling(seq![EffectView::Observe(Observation::LogCompacted(removed))]);
    let c3 = ready(told, rest);
    lemma_purge_calls(state, rest, through, first_valid, flush, clock(o2.len()));
    lemma_call(w2, c2, flush, c3, o2, clock, (steps - 2) as nat);
    let o3 = o2.drop_first();
    let w3 = after_call(w2, flush);
    lemma_played_end(w3, c3, o3, clock, (steps - 3) as nat);
    assert(p.world == w3);
    assert(rest.at(StageView::Ready) == rest);
    assert(is_first(w.log, first_valid));
}

#[verifier::spinoff_prover]
proof fn lemma_purge_begins(state: StateView, run: RunView, through: LogIndex, now: u64)
    requires
        comes_next(
            run,
            Action::TruncateLog(
                LogTruncation::PrefixThroughInclusive { through_index_inclusive: through },
            ),
        ),
    ensures
        run_onward(RunChange { state, run, step: StepView::Continue }, now) == waiting(
            state,
            behind(run),
            StageView::CompactFirst { through },
            RequestView::ReadFirstValidIndex,
        ),
{
    reveal(run_onward);
}

#[verifier::spinoff_prover]
proof fn lemma_purge_first(
    state: StateView,
    run: RunView,
    through: LogIndex,
    first_valid: LogIndex,
    now: u64,
)
    ensures
        run_after(
            waiting(
                state,
                run,
                StageView::CompactFirst { through },
                RequestView::ReadFirstValidIndex,
            ),
            Outcome::FirstValidIndex(first_valid),
            now,
        ) == waiting(
            state,
            run,
            StageView::Compact { through, first_valid },
            RequestView::PurgeLogPrefix(through),
        ),
{
    reveal(run_after);
}

#[verifier::spinoff_prover]
proof fn lemma_purge_calls(
    state: StateView,
    run: RunView,
    through: LogIndex,
    first_valid: LogIndex,
    request: RequestView,
    now: u64,
)
    requires
        through.0 < u64::MAX,
    ensures
        run_after(
            waiting(state, run, StageView::Compact { through, first_valid }, request),
            Outcome::Done(Ok(())),
            now,
        ) == waiting(
            state,
            run,
            StageView::CompactFlush { through, first_valid },
            RequestView::FlushLog,
        ),
        ({
            let removed: u64 = if through.0 >= first_valid.0 {
                (through.0 - first_valid.0 + 1) as u64
            } else {
                0
            };
            run_after(
                waiting(state, run, StageView::CompactFlush { through, first_valid }, request),
                Outcome::Done(Ok(())),
                now,
            ) == ready(
                state.telling(seq![EffectView::Observe(Observation::LogCompacted(removed))]),
                run,
            )
        }),
{
    reveal(run_after);
}

/// The hard state is persisted with the engine's commit index, or with the end of
/// the log if that comes first; nothing else is touched.
pub proof fn law_persisted_commit_index_is_the_lower(
    w: World,
    state: StateView,
    run: RunView,
    outcomes: Seq<Outcome>,
    clock: spec_fn(nat) -> u64,
    steps: nat,
)
    requires
        comes_next(run, Action::PersistHardState),
        action_played(w, state, run, outcomes, clock, steps).honest,
        !(action_played(w, state, run, outcomes, clock, steps).change.step is Ask),
    ensures
        ({
            let p = action_played(w, state, run, outcomes, clock, steps);
            &&& is_done(run, p)
            &&& p.change.state == state
            &&& exists|last: LogIndex, term: Term, commit_index: LogIndex|
                #![trigger is_last(w.log, last, term), w.hard.push(commit_index)]
                is_last(w.log, last, term) && (commit_index == last || commit_index
                    == state.node.commit_index) && commit_index.0 <= last.0 && commit_index.0
                    <= state.node.commit_index.0 && p.world == (World {
                    hard: w.hard.push(commit_index),
                    ..w
                })
        }),
{
    let rest = behind(run);
    let p = action_played(w, state, run, outcomes, clock, steps);
    let c0 = waiting(state, rest, StageView::PersistTip, RequestView::ReadLogTip);
    let c1 = run_after(c0, outcomes[0], clock(outcomes.len()));
    lemma_persist_begins(state, run, clock(outcomes.len()));
    lemma_call(w, c0, RequestView::ReadLogTip, c1, outcomes, clock, steps);
    let last = outcomes[0]->LogTip_index;
    let term = outcomes[0]->LogTip_term;
    let commit_index = if state.node.commit_index.0 <= last.0 {
        state.node.commit_index
    } else {
        last
    };
    let ask1 = RequestView::PersistHardState { commit_index };
    let c2 = ready(state, rest);
    let o1 = outcomes.drop_first();
    lemma_persist_calls(state, rest, last, term, commit_index, clock(outcomes.len()));
    lemma_persist_calls(state, rest, last, term, commit_index, clock(o1.len()));
    lemma_call(w, c1, ask1, c2, o1, clock, (steps - 1) as nat);
    let o2 = o1.drop_first();
    let w2 = after_call(w, ask1);
    lemma_played_end(w2, c2, o2, clock, (steps - 2) as nat);
    assert(p.world == w2);
    assert(rest.at(StageView::Ready) == rest);
    assert(is_last(w.log, last, term));
}

#[verifier::spinoff_prover]
proof fn lemma_persist_begins(state: StateView, run: RunView, now: u64)
    requires
        comes_next(run, Action::PersistHardState),
    ensures
        run_onward(RunChange { state, run, step: StepView::Continue }, now) == waiting(
            state,
            behind(run),
            StageView::PersistTip,
            RequestView::ReadLogTip,
        ),
{
    reveal(run_onward);
}

#[verifier::spinoff_prover]
proof fn lemma_persist_calls(
    state: StateView,
    run: RunView,
    last: LogIndex,
    term: Term,
    commit_index: LogIndex,
    now: u64,
)
    requires
        commit_index == last || commit_index == state.node.commit_index,
        commit_index.0 <= last.0,
        commit_index.0 <= state.node.commit_index.0,
    ensures
        run_after(
            waiting(state, run, StageView::PersistTip, RequestView::ReadLogTip),
            Outcome::LogTip { index: last, term },
            now,
        ) == waiting(
            state,
            run,
            StageView::Persist,
            RequestView::PersistHardState { commit_index },
        ),
        run_after(
            waiting(
                state,
                run,
                StageView::Persist,
                RequestView::PersistHardState { commit_index },
            ),
            Outcome::Done(Ok(())),
            now,
        ) == ready(state, run),
{
    reveal(run_after);
}

} // verus!
