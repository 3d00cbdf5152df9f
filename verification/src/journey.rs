//! What becomes of a snapshot, from the state machine of a leader to that of its
//! follower.
use vstd::prelude::*;

use crate::actions::{StageView, StepView};
use crate::driver::{
    acting, event_begun, fresh_run, over, stepping, task_resumed, task_step, EventView,
    TaskChange, TaskView, Then,
};
use crate::error::XRaftError;
use crate::fetch::{anchor_of, effective_tip};
use crate::guarantees::law_snapshots_travel_whole;
use crate::host::{EffectView, Observation, Outcome, RequestView, StoredChunk};
use crate::inbound::{good_pieces, handed_out, well_stored};
use crate::message::{Action, InputView};
use crate::router::{concluded, crc32_of, drained, joined};
use crate::snapshot::{
    canonical, fresh_meta, install_continue, node_after, take_continue, take_effects,
    InstallNextView, InstallStageView, TakeNextView, TakeStageView,
};
use crate::state::StateView;
use crate::types::{voters_view, LogIndex, NodeView, SnapshotMetaView, Term};

verus! {

/// What has come of an event: the latest change, and all that the host was
/// asked.
#[verifier::ext_equal]
pub struct EventTrace {
    pub change: TaskChange,
    pub asked: Seq<RequestView>,
}

/// How a task goes on with an outcome, from its latest change.
#[verifier::opaque]
pub open spec fn after_outcome(change: TaskChange, outcome: Outcome, now: u64) -> TaskChange {
    task_resumed(change.state, change.task, outcome, now)
}

/// How a task goes on without an outcome, from its latest change.
#[verifier::opaque]
pub open spec fn after_step(change: TaskChange, now: u64) -> TaskChange {
    task_step(change.state, change.task, now)
}

/// What comes of an event if the host's calls come out as given, in at most
/// `steps` steps.
#[verifier::opaque]
pub open spec fn event_run(
    change: TaskChange,
    outcomes: Seq<Outcome>,
    now: u64,
    steps: nat,
) -> EventTrace
    decreases steps,
{
    match change.step {
        StepView::Ask(request) => if steps == 0 || outcomes.len() == 0 {
            EventTrace { change, asked: seq![request] }
        } else {
            let later = event_run(
                after_outcome(change, outcomes[0], now),
                outcomes.drop_first(),
                now,
                (steps - 1) as nat,
            );
            EventTrace { asked: seq![request] + later.asked, ..later }
        },
        StepView::Continue if steps > 0 => event_run(
            after_step(change, now),
            outcomes,
            now,
            (steps - 1) as nat,
        ),
        _ => EventTrace { change, asked: seq![] },
    }
}

/// A call whose outcome is at hand.
pub proof fn lemma_asked(
    change: TaskChange,
    request: RequestView,
    outcome: Outcome,
    rest: Seq<Outcome>,
    next: TaskChange,
    now: u64,
    steps: nat,
)
    requires
        change.step == StepView::Ask(request),
        steps > 0,
        after_outcome(change, outcome, now) == next,
    ensures
        ({
            let later = event_run(next, rest, now, (steps - 1) as nat);
            event_run(change, seq![outcome] + rest, now, steps) == (EventTrace {
                asked: seq![request] + later.asked,
                change: later.change,
            })
        }),
{
    reveal_with_fuel(event_run, 1);
    assert((seq![outcome] + rest).drop_first() =~= rest);
}

/// A step that needs no call.
pub proof fn lemma_stepped(
    change: TaskChange,
    outcomes: Seq<Outcome>,
    next: TaskChange,
    now: u64,
    steps: nat,
)
    requires
        change.step is Continue,
        steps > 0,
        after_step(change, now) == next,
    ensures
        event_run(change, outcomes, now, steps) == event_run(
            next,
            outcomes,
            now,
            (steps - 1) as nat,
        ),
{
    reveal_with_fuel(event_run, 1);
}

/// The last call of which no outcome is at hand.
proof fn lemma_left_asking(change: TaskChange, request: RequestView, outcomes: Seq<Outcome>, now: u64)
    requires
        change.step == StepView::Ask(request),
    ensures
        event_run(change, outcomes, now, 0).asked == seq![request],
{
    reveal_with_fuel(event_run, 1);
}

/// The end of an event.
pub proof fn lemma_ended(change: TaskChange, outcomes: Seq<Outcome>, now: u64)
    requires
        change.step is Finished,
    ensures
        event_run(change, outcomes, now, 0) == (EventTrace { change, asked: seq![] }),
{
    reveal_with_fuel(event_run, 1);
}

/// The only action of an event, which waits for a call.
pub open spec fn waiting_at(
    state: StateView,
    stage: StageView,
    request: RequestView,
) -> TaskChange {
    TaskChange {
        state,
        task: TaskView::Run { run: fresh_run(seq![], None).at(stage), then: Then::Nothing },
        step: StepView::Ask(request),
    }
}

/// How the calls for a snapshot come out that a leader takes: the anchor has
/// `term`, the state machine holds `payload`, and the store takes it.
pub open spec fn taking_outcomes(term: Term, payload: Vec<u8>) -> Seq<Outcome> {
    seq![Outcome::Term(Ok(Some(term))), Outcome::Data(Ok(payload)), Outcome::Done(Ok(()))]
}

/// A snapshot that the engine wants is stored as the state machine gave it,
/// with a description of where it is anchored and how long it is; only then
/// does the engine learn of it.
pub proof fn law_taken_snapshot_is_stored(
    leader: StateView,
    through: LogIndex,
    term: Term,
    payload: Vec<u8>,
    now: u64,
)
    ensures
        ({
            let wanted = seq![Action::TakeSnapshot { through_index: through }];
            let meta = fresh_meta(
                voters_view(leader.node.voter_set),
                through,
                term,
                payload@,
            );
            event_run(
                acting(leader, wanted, None, Then::Nothing),
                taking_outcomes(term, payload),
                now,
                4,
            ).asked == seq![
                RequestView::ReadTerm(through),
                RequestView::SnapshotStateMachine,
                RequestView::SaveSnapshot { metadata: meta, data: payload@ },
                RequestView::StepEngine(
                    InputView::SnapshotComplete { metadata: canonical(meta) },
                ),
            ]
        }),
{
    let wanted = seq![Action::TakeSnapshot { through_index: through }];
    let meta = fresh_meta(voters_view(leader.node.voter_set), through, term, payload@);
    let bytes = payload@.len() as u64;
    let o0 = taking_outcomes(term, payload);
    let c0 = acting(leader, wanted, None, Then::Nothing);
    let c1 = waiting_at(
        leader,
        StageView::Take(TakeStageView::Term { through, started_at: now }),
        RequestView::ReadTerm(through),
    );
    let c2 = waiting_at(
        leader,
        StageView::Take(TakeStageView::Data { through, term, started_at: now }),
        RequestView::SnapshotStateMachine,
    );
    let c3 = waiting_at(
        leader,
        StageView::Take(TakeStageView::Save { metadata: meta, bytes, started_at: now }),
        RequestView::SaveSnapshot { metadata: meta, data: payload@ },
    );
    let last = RequestView::StepEngine(
        InputView::SnapshotComplete { metadata: canonical(meta) },
    );
    let c4 = after_outcome(c3, o0[2], now);
    lemma_take_begins(leader, through, now);
    lemma_take_calls(leader, through, term, payload, now);
    let t2 = seq![o0[2]] + seq![];
    let t1 = seq![o0[1]] + t2;
    let t0 = seq![o0[0]] + t1;
    assert(t0 =~= o0);
    lemma_stepped(c0, t0, c1, now, 4);
    lemma_asked(c1, RequestView::ReadTerm(through), o0[0], t1, c2, now, 3);
    lemma_asked(c2, RequestView::SnapshotStateMachine, o0[1], t2, c3, now, 2);
    lemma_asked(
        c3,
        RequestView::SaveSnapshot { metadata: meta, data: payload@ },
        o0[2],
        seq![],
        c4,
        now,
        1,
    );
    lemma_left_asking(c4, last, seq![], now);
    assert(event_run(c0, t0, now, 4).asked =~= seq![
        RequestView::ReadTerm(through),
        RequestView::SnapshotStateMachine,
        RequestView::SaveSnapshot { metadata: meta, data: payload@ },
        last,
    ]);
}

/// How the engine's wish for a snapshot is begun.
#[verifier::spinoff_prover]
proof fn lemma_take_begins(leader: StateView, through: LogIndex, now: u64)
    ensures
        after_step(
            acting(
                leader,
                seq![Action::TakeSnapshot { through_index: through }],
                None,
                Then::Nothing,
            ),
            now,
        ) == waiting_at(
            leader,
            StageView::Take(TakeStageView::Term { through, started_at: now }),
            RequestView::ReadTerm(through),
        ),
{
    reveal(after_step);
    assert(seq![Action::TakeSnapshot { through_index: through }].drop_first() =~= seq![]);
}

/// The taking of a snapshot goes on to its next call.
#[verifier::spinoff_prover]
proof fn lemma_take_goes_on(
    state: StateView,
    stage: TakeStageView,
    request: RequestView,
    outcome: Outcome,
    next: TakeStageView,
    asked: RequestView,
    now: u64,
)
    requires
        take_continue(voters_view(state.node.voter_set), stage, outcome) == TakeNextView::Ask(
            next,
            asked,
        ),
    ensures
        after_outcome(waiting_at(state, StageView::Take(stage), request), outcome, now)
            == waiting_at(
            StateView {
                node: node_after(state.node, outcome),
                ..state.telling(take_effects(stage, outcome, now))
            },
            StageView::Take(next),
            asked,
        ),
{
    reveal(after_outcome);
}

/// The calls for a snapshot, one after the other.
#[verifier::spinoff_prover]
proof fn lemma_take_calls(
    leader: StateView,
    through: LogIndex,
    term: Term,
    payload: Vec<u8>,
    now: u64,
)
    ensures
        ({
            let meta = fresh_meta(
                voters_view(leader.node.voter_set),
                through,
                term,
                payload@,
            );
            let bytes = payload@.len() as u64;
            let data = TakeStageView::Data { through, term, started_at: now };
            let save = TakeStageView::Save { metadata: meta, bytes, started_at: now };
            let c1 = waiting_at(
                leader,
                StageView::Take(TakeStageView::Term { through, started_at: now }),
                RequestView::ReadTerm(through),
            );
            let c2 = waiting_at(leader, StageView::Take(data), RequestView::SnapshotStateMachine);
            let c3 = waiting_at(
                leader,
                StageView::Take(save),
                RequestView::SaveSnapshot { metadata: meta, data: payload@ },
            );
            &&& after_outcome(c1, Outcome::Term(Ok(Some(term))), now) == c2
            &&& after_outcome(c2, Outcome::Data(Ok(payload)), now) == c3
            &&& after_outcome(c3, Outcome::Done(Ok(())), now).step == StepView::Ask(
                RequestView::StepEngine(
                    InputView::SnapshotComplete { metadata: canonical(meta) },
                ),
            )
        }),
{
    let meta = fresh_meta(voters_view(leader.node.voter_set), through, term, payload@);
    let bytes = payload@.len() as u64;
    let first = TakeStageView::Term { through, started_at: now };
    let data = TakeStageView::Data { through, term, started_at: now };
    let save = TakeStageView::Save { metadata: meta, bytes, started_at: now };
    let engine = TakeStageView::Engine { metadata: canonical(meta) };
    let q1 = RequestView::ReadTerm(through);
    let q2 = RequestView::SnapshotStateMachine;
    let q3 = RequestView::SaveSnapshot { metadata: meta, data: payload@ };
    let q4 = RequestView::StepEngine(InputView::SnapshotComplete { metadata: canonical(meta) });
    assert(leader.telling(seq![]) =~= leader);
    lemma_take_goes_on(leader, first, q1, Outcome::Term(Ok(Some(term))), data, q2, now);
    lemma_take_goes_on(leader, data, q2, Outcome::Data(Ok(payload)), save, q3, now);
    lemma_take_goes_on(leader, save, q3, Outcome::Done(Ok(())), engine, q4, now);
}

/// How the calls for a transferred snapshot come out on a follower. Its engine
/// asks for `install`, then shows itself as `noticed` and asks for nothing; its
/// log holds `found` at the anchor and ends at `log_end`; and no call fails.
pub open spec fn installing_outcomes(
    received: NodeView,
    install: Vec<Action>,
    found: Option<Term>,
    noticed: NodeView,
    nothing: Vec<Action>,
    log_end: (LogIndex, Term),
    shown: NodeView,
) -> Seq<Outcome> {
    seq![
        Outcome::Engine { node: received, actions: install },
        Outcome::Done(Ok(())),
        Outcome::Done(Ok(())),
        Outcome::Term(Ok(found)),
        Outcome::Done(Ok(())),
        Outcome::Done(Ok(())),
        Outcome::Engine { node: noticed, actions: nothing },
        Outcome::LogTip { index: log_end.0, term: log_end.1 },
        Outcome::Node(shown),
    ]
}

/// Whether the engine asks for the snapshot that it was handed, and for nothing
/// else.
pub open spec fn asks_to_install(
    actions: Seq<Action>,
    meta: SnapshotMetaView,
    data: Seq<u8>,
) -> bool {
    &&& actions.len() == 1
    &&& actions[0] matches Action::InstallSnapshot { metadata, data: bytes } && metadata@ == meta
        && bytes@ == data
}

/// Whether the engine shows that it has taken notice of an installed snapshot.
pub open spec fn has_noticed(node: &NodeView, meta: SnapshotMetaView) -> bool {
    &&& anchor_of(node) == Some(canonical(meta))
    &&& node.last_applied == meta.last_included_index
    &&& node.commit_index == meta.last_included_index
}

/// What a follower's host is asked when a snapshot has been transferred: to
/// store it and to restore the state machine from it, each once and with the
/// same bytes, and then to bring the log and the engine in line.
pub open spec fn installing_requests(
    meta: SnapshotMetaView,
    data: Seq<u8>,
    found: Option<Term>,
    log_end: (LogIndex, Term),
) -> Seq<RequestView> {
    let tip = effective_tip(Some(meta), log_end.0, log_end.1);
    seq![
        RequestView::StepEngine(InputView::FetchSnapshotReceived { metadata: meta, data }),
        RequestView::SaveSnapshot { metadata: meta, data },
        RequestView::RestoreStateMachine(data),
        RequestView::ReadTerm(meta.last_included_index),
        cut_request(meta, found),
        RequestView::FlushLog,
        RequestView::StepEngine(InputView::SnapshotInstalled { metadata: canonical(meta) }),
        RequestView::ReadLogTip,
        RequestView::SetLastLog { index: tip.0, term: tip.1 },
    ]
}

/// The installation of a snapshot goes on to its next call.
proof fn lemma_install_goes_on(
    state: StateView,
    stage: InstallStageView,
    request: RequestView,
    outcome: Outcome,
    next: InstallStageView,
    asked: RequestView,
    now: u64,
)
    requires
        !(stage is Tail),
        install_continue(state.node, stage, outcome) == InstallNextView::Ask(next, asked),
    ensures
        after_outcome(waiting_at(state, StageView::Install(stage), request), outcome, now)
            == waiting_at(
            StateView { node: node_after(state.node, outcome), ..state },
            StageView::Install(next),
            asked,
        ),
{
    reveal(after_outcome);
    assert(state.telling(seq![]) =~= state);
}

/// The installation of a snapshot ends, and with it the event.
proof fn lemma_install_ends(
    state: StateView,
    actions: Seq<Action>,
    request: RequestView,
    shown: NodeView,
    now: u64,
)
    requires
        actions.len() == 0,
    ensures
        ({
            let end = after_outcome(
                waiting_at(
                    state,
                    StageView::Install(InstallStageView::Tail { actions }),
                    request,
                ),
                Outcome::Node(shown),
                now,
            );
            &&& end.step is Continue
            &&& after_step(end, now) == over(
                StateView {
                    node: shown,
                    ..state.telling(seq![EffectView::Observe(Observation::SnapshotInstalled)])
                },
            )
        }),
{
    reveal(after_outcome);
    reveal(after_step);
    let told = StateView {
        node: shown,
        ..state.telling(seq![EffectView::Observe(Observation::SnapshotInstalled)])
    };
    assert(Seq::<Action>::empty() + actions =~= seq![]);
    assert(told.telling(seq![]) =~= told);
}

/// How the engine's wish to install a snapshot is begun.
proof fn lemma_install_begins(
    state: StateView,
    install: Seq<Action>,
    meta: SnapshotMetaView,
    data: Seq<u8>,
    now: u64,
)
    requires
        asks_to_install(install, meta, data),
        state.node.last_applied.0 < meta.last_included_index.0,
    ensures
        after_step(acting(state, install, None, Then::Nothing), now) == waiting_at(
            state,
            StageView::Install(InstallStageView::Save { metadata: meta, data }),
            RequestView::SaveSnapshot { metadata: meta, data },
        ),
{
    reveal(after_step);
    assert(install.drop_first() =~= seq![]);
}

/// The stage at which the log is cut, where it holds `found` at the anchor.
pub open spec fn cut_stage(meta: SnapshotMetaView, found: Option<Term>) -> InstallStageView {
    if found == Some(meta.last_included_term) {
        InstallStageView::Purge { metadata: meta }
    } else {
        InstallStageView::Wipe { metadata: meta }
    }
}

/// The stage at which the cut log is flushed.
pub open spec fn flush_stage(meta: SnapshotMetaView, found: Option<Term>) -> InstallStageView {
    if found == Some(meta.last_included_term) {
        InstallStageView::PurgeFlush { metadata: meta }
    } else {
        InstallStageView::WipeFlush { metadata: meta }
    }
}

/// How the log is cut.
pub open spec fn cut_request(meta: SnapshotMetaView, found: Option<Term>) -> RequestView {
    if found == Some(meta.last_included_term) {
        RequestView::PurgeLogPrefix(meta.last_included_index)
    } else {
        RequestView::TruncateLogFrom(LogIndex(1))
    }
}

/// The calls of an installation until the log is flushed, one after the other.
#[verifier::spinoff_prover]
proof fn lemma_installed_until_flush(
    s: StateView,
    meta: SnapshotMetaView,
    data: Seq<u8>,
    found: Option<Term>,
    now: u64,
)
    ensures
        ({
            let done = Outcome::Done(Ok(()));
            let save = StageView::Install(InstallStageView::Save { metadata: meta, data });
            let restore = StageView::Install(InstallStageView::Restore { metadata: meta });
            let anchor = StageView::Install(InstallStageView::Anchor { metadata: meta });
            let cut = StageView::Install(cut_stage(meta, found));
            let flush = StageView::Install(flush_stage(meta, found));
            let c2 = waiting_at(s, save, RequestView::SaveSnapshot { metadata: meta, data });
            let c3 = waiting_at(s, restore, RequestView::RestoreStateMachine(data));
            let c4 = waiting_at(s, anchor, RequestView::ReadTerm(meta.last_included_index));
            let c5 = waiting_at(s, cut, cut_request(meta, found));
            let c6 = waiting_at(s, flush, RequestView::FlushLog);
            &&& after_outcome(c2, done, now) == c3
            &&& after_outcome(c3, done, now) == c4
            &&& after_outcome(c4, Outcome::Term(Ok(found)), now) == c5
            &&& after_outcome(c5, done, now) == c6
        }),
{
    let done = Outcome::Done(Ok(()));
    let save = InstallStageView::Save { metadata: meta, data };
    let restore = InstallStageView::Restore { metadata: meta };
    let anchor = InstallStageView::Anchor { metadata: meta };
    let cut = cut_stage(meta, found);
    let flush = flush_stage(meta, found);
    let q1 = RequestView::SaveSnapshot { metadata: meta, data };
    let q2 = RequestView::RestoreStateMachine(data);
    let q3 = RequestView::ReadTerm(meta.last_included_index);
    let q4 = cut_request(meta, found);
    lemma_install_goes_on(s, save, q1, done, restore, q2, now);
    lemma_install_goes_on(s, restore, q2, done, anchor, q3, now);
    lemma_install_goes_on(s, anchor, q3, Outcome::Term(Ok(found)), cut, q4, now);
    lemma_install_goes_on(s, cut, q4, done, flush, RequestView::FlushLog, now);
}

/// The calls of an installation from then on.
#[verifier::spinoff_prover]
proof fn lemma_installed_from_flush(
    s: StateView,
    meta: SnapshotMetaView,
    found: Option<Term>,
    noticed: NodeView,
    nothing: Vec<Action>,
    log_end: (LogIndex, Term),
    now: u64,
)
    requires
        has_noticed(&noticed, meta),
    ensures
        ({
            let n = StateView { node: noticed, ..s };
            let end = effective_tip(Some(meta), log_end.0, log_end.1);
            let flush = StageView::Install(flush_stage(meta, found));
            let engine = StageView::Install(InstallStageView::Engine);
            let tip = StageView::Install(InstallStageView::Tip { actions: nothing@ });
            let tail = StageView::Install(InstallStageView::Tail { actions: nothing@ });
            let told = InputView::SnapshotInstalled { metadata: canonical(meta) };
            let c6 = waiting_at(s, flush, RequestView::FlushLog);
            let c7 = waiting_at(s, engine, RequestView::StepEngine(told));
            let c8 = waiting_at(n, tip, RequestView::ReadLogTip);
            let c9 = waiting_at(
                n,
                tail,
                RequestView::SetLastLog { index: end.0, term: end.1 },
            );
            &&& after_outcome(c6, Outcome::Done(Ok(())), now) == c7
            &&& after_outcome(c7, Outcome::Engine { node: noticed, actions: nothing }, now) == c8
            &&& after_outcome(
                c8,
                Outcome::LogTip { index: log_end.0, term: log_end.1 },
                now,
            ) == c9
        }),
{
    let n = StateView { node: noticed, ..s };
    let end = effective_tip(Some(meta), log_end.0, log_end.1);
    let flush = flush_stage(meta, found);
    let engine = InstallStageView::Engine;
    let tip = InstallStageView::Tip { actions: nothing@ };
    let tail = InstallStageView::Tail { actions: nothing@ };
    let told = RequestView::StepEngine(
        InputView::SnapshotInstalled { metadata: canonical(meta) },
    );
    let stepped = Outcome::Engine { node: noticed, actions: nothing };
    let read = Outcome::LogTip { index: log_end.0, term: log_end.1 };
    let set = RequestView::SetLastLog { index: end.0, term: end.1 };
    lemma_install_goes_on(s, flush, RequestView::FlushLog, Outcome::Done(Ok(())), engine, told, now);
    lemma_install_goes_on(s, engine, told, stepped, tip, RequestView::ReadLogTip, now);
    lemma_install_goes_on(n, tip, RequestView::ReadLogTip, read, tail, set, now);
}

/// An engine that asks for the snapshot which it was handed gets it installed.
#[verifier::spinoff_prover]
proof fn lemma_handed_snapshot_is_installed(
    follower: StateView,
    meta: SnapshotMetaView,
    data: Seq<u8>,
    received: NodeView,
    install: Vec<Action>,
    found: Option<Term>,
    noticed: NodeView,
    nothing: Vec<Action>,
    log_end: (LogIndex, Term),
    shown: NodeView,
    now: u64,
)
    requires
        asks_to_install(install@, meta, data),
        received.last_applied.0 < meta.last_included_index.0,
        has_noticed(&noticed, meta),
        nothing@.len() == 0,
    ensures
        event_run(
            stepping(
                follower,
                InputView::FetchSnapshotReceived { metadata: meta, data },
                None,
                Then::Nothing,
            ),
            installing_outcomes(received, install, found, noticed, nothing, log_end, shown),
            now,
            11,
        ) == (EventTrace {
            asked: installing_requests(meta, data, found, log_end),
            change: over(
                StateView {
                    node: shown,
                    ..follower.telling(
                        seq![EffectView::Observe(Observation::SnapshotInstalled)],
                    )
                },
            ),
        }),
{
    let s = StateView { node: received, ..follower };
    let n = StateView { node: noticed, ..follower };
    let end = effective_tip(Some(meta), log_end.0, log_end.1);
    let save = StageView::Install(InstallStageView::Save { metadata: meta, data });
    let restore = StageView::Install(InstallStageView::Restore { metadata: meta });
    let anchor = StageView::Install(InstallStageView::Anchor { metadata: meta });
    let cut = StageView::Install(cut_stage(meta, found));
    let flush = StageView::Install(flush_stage(meta, found));
    let engine = StageView::Install(InstallStageView::Engine);
    let tip = StageView::Install(InstallStageView::Tip { actions: nothing@ });
    let tail = StageView::Install(InstallStageView::Tail { actions: nothing@ });
    let input = InputView::FetchSnapshotReceived { metadata: meta, data };
    let q0 = RequestView::StepEngine(input);
    let q1 = RequestView::SaveSnapshot { metadata: meta, data };
    let q2 = RequestView::RestoreStateMachine(data);
    let q3 = RequestView::ReadTerm(meta.last_included_index);
    let q4 = cut_request(meta, found);
    let q5 = RequestView::FlushLog;
    let q6 = RequestView::StepEngine(
        InputView::SnapshotInstalled { metadata: canonical(meta) },
    );
    let q7 = RequestView::ReadLogTip;
    let q8 = RequestView::SetLastLog { index: end.0, term: end.1 };
    let done = Outcome::Done(Ok(()));
    let asked = Outcome::Engine { node: received, actions: install };
    let term = Outcome::Term(Ok(found));
    let stepped = Outcome::Engine { node: noticed, actions: nothing };
    let read = Outcome::LogTip { index: log_end.0, term: log_end.1 };
    let set = Outcome::Node(shown);
    let c0 = stepping(follower, input, None, Then::Nothing);
    let c1 = acting(s, install@, None, Then::Nothing);
    let c2 = waiting_at(s, save, q1);
    let c3 = waiting_at(s, restore, q2);
    let c4 = waiting_at(s, anchor, q3);
    let c5 = waiting_at(s, cut, q4);
    let c6 = waiting_at(s, flush, q5);
    let c7 = waiting_at(s, engine, q6);
    let c8 = waiting_at(n, tip, q7);
    let c9 = waiting_at(n, tail, q8);
    let c10 = after_outcome(c9, set, now);
    let c11 = after_step(c10, now);
    assert(after_outcome(c0, asked, now) == c1) by {
        reveal(after_outcome);
    }
    lemma_install_begins(s, install@, meta, data, now);
    lemma_installed_until_flush(s, meta, data, found, now);
    lemma_installed_from_flush(s, meta, found, noticed, nothing, log_end, now);
    lemma_install_ends(n, nothing@, q8, shown, now);
    let t9 = Seq::<Outcome>::empty();
    let t8 = seq![set] + t9;
    let t7 = seq![read] + t8;
    let t6 = seq![stepped] + t7;
    let t5 = seq![done] + t6;
    let t4 = seq![done] + t5;
    let t3 = seq![term] + t4;
    let t2 = seq![done] + t3;
    let t1 = seq![done] + t2;
    let t0 = seq![asked] + t1;
    lemma_asked(c0, q0, asked, t1, c1, now, 11);
    lemma_stepped(c1, t1, c2, now, 10);
    lemma_asked(c2, q1, done, t2, c3, now, 9);
    lemma_asked(c3, q2, done, t3, c4, now, 8);
    lemma_asked(c4, q3, term, t4, c5, now, 7);
    lemma_asked(c5, q4, done, t5, c6, now, 6);
    lemma_asked(c6, q5, done, t6, c7, now, 5);
    lemma_asked(c7, q6, stepped, t7, c8, now, 4);
    lemma_asked(c8, q7, read, t8, c9, now, 3);
    lemma_asked(c9, q8, set, t9, c10, now, 2);
    lemma_stepped(c10, t9, c11, now, 1);
    lemma_ended(c11, t9, now);
    assert(t0 =~= installing_outcomes(
        received,
        install,
        found,
        noticed,
        nothing,
        log_end,
        shown,
    ));
    assert(event_run(c0, t0, now, 11).asked =~= installing_requests(meta, data, found, log_end));
}

/// A snapshot that a leader takes ends up in the state machine of its follower
/// byte for byte. The leader stores what its state machine gives. What the store
/// then reads in parts is handed out, put together again by the follower, handed
/// to its engine, and, if the engine asks for what it was handed, stored and
/// restored: each once, with the same bytes. No call fails, so the follower has
/// no new reason to stop, and where its log does not reach beyond the snapshot,
/// applied, committed and last log index are all the snapshot's.
pub proof fn law_follower_matches_its_leader(
    leader: StateView,
    through: LogIndex,
    term: Term,
    payload: Vec<u8>,
    pieces: Seq<Result<StoredChunk, XRaftError>>,
    parts: Seq<Seq<u8>>,
    max_bytes: nat,
    follower: StateView,
    received: NodeView,
    install: Vec<Action>,
    found: Option<Term>,
    noticed: NodeView,
    nothing: Vec<Action>,
    log_end: (LogIndex, Term),
    now: u64,
)
    requires
        ({
            let meta = canonical(
                fresh_meta(voters_view(leader.node.voter_set), through, term, payload@),
            );
            &&& well_stored(pieces, meta, parts)
            &&& joined(parts) == payload@
            &&& 0 < parts.len() < u64::MAX
            &&& payload@.len() <= max_bytes
            &&& payload@.len() <= u64::MAX
            &&& follower.node.cluster_id@ == leader.node.cluster_id@
            &&& follower.node.current_term == leader.node.current_term
            &&& follower.node.leader_id == Some(leader.node.id)
            &&& received.last_applied.0 < through.0
            &&& asks_to_install(install@, meta, payload@)
            &&& has_noticed(&noticed, meta)
            &&& nothing@.len() == 0
        }),
    ensures
        ({
            let taken = fresh_meta(
                voters_view(leader.node.voter_set),
                through,
                term,
                payload@,
            );
            let meta = canonical(taken);
            let wanted = seq![Action::TakeSnapshot { through_index: through }];
            let taking = event_run(
                acting(leader, wanted, None, Then::Nothing),
                taking_outcomes(term, payload),
                now,
                4,
            );
            let arrived = drained(max_bytes, good_pieces(handed_out(&leader.node, pieces)));
            let result = concluded(arrived, leader.node.id, crc32_of(arrived.data));
            let tip = effective_tip(Some(meta), log_end.0, log_end.1);
            let shown = NodeView { last_log_index: tip.0, ..noticed };
            let installing = event_run(
                event_begun(follower, EventView::Outbound(result), now),
                installing_outcomes(
                    received,
                    install,
                    found,
                    noticed,
                    nothing,
                    log_end,
                    shown,
                ),
                now,
                11,
            );
            &&& taking.asked[2] == RequestView::SaveSnapshot { metadata: taken, data: payload@ }
            &&& installing.asked == installing_requests(meta, payload@, found, log_end)
            &&& installing.change.step is Finished
            &&& installing.change.state.halt == follower.halt
            &&& installing.change.state.node == shown
            &&& has_noticed(&shown, meta)
            &&& log_end.0.0 <= through.0 ==> shown.last_log_index == through
        }),
{
    let meta = canonical(fresh_meta(voters_view(leader.node.voter_set), through, term, payload@));
    let tip = effective_tip(Some(meta), log_end.0, log_end.1);
    let shown = NodeView { last_log_index: tip.0, ..noticed };
    law_taken_snapshot_is_stored(leader, through, term, payload, now);
    law_snapshots_travel_whole(&leader.node, pieces, meta, parts, max_bytes, follower, now);
    lemma_handed_snapshot_is_installed(
        follower,
        meta,
        payload@,
        received,
        install,
        found,
        noticed,
        nothing,
        log_end,
        shown,
        now,
    );
}

} // verus!
