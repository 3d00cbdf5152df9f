//! What becomes of a snapshot that a node takes, and of one that it is sent: what
//! is stored, what the state machine and the log hold then, and what the engine
//! learns.
use vstd::prelude::*;

use crate::actions::{RunChange, RunView, StageView, StepView};
use crate::host::{EffectView, Observation, Outcome, RequestView};
use crate::message::{Action, InputView};
use crate::model::{
    action_played, after_call, behind, comes_next, ends_at, is_last, lemma_call, lemma_ends_at,
    lemma_played_end, ready, run_after, run_onward, term_in, waiting, EngineCall, MachineCall,
    World,
};
use crate::snapshot::{InstallStageView, TakeStageView};
use crate::state::StateView;
use crate::types::{
    canonical_id, Entry, LogIndex, NodeId, NodeView, SnapshotMeta, SnapshotMetaView, Term,
};

verus! {

/// The voters that a node knows of.
pub open spec fn known_voters(node: NodeView) -> Option<Seq<NodeId>> {
    match node.voter_set {
        Some(set) => Some(set@),
        None => None,
    }
}

/// A description under the id of its anchor.
pub open spec fn identified(m: SnapshotMetaView) -> SnapshotMetaView {
    SnapshotMetaView {
        id: canonical_id(m.last_included_term, m.last_included_index),
        last_included_index: m.last_included_index,
        last_included_term: m.last_included_term,
        voter_set: m.voter_set,
        size_bytes: m.size_bytes,
        checksum: m.checksum,
    }
}

/// The time that a clock counts between two readings.
pub open spec fn between(start: u64, end: u64) -> int {
    if end >= start {
        end - start
    } else {
        0
    }
}

/// A snapshot is taken of what the state machine holds, and stored with where in
/// the log it is anchored: at the action's own index, in the term that the log has
/// there. Only then does the engine learn of it, under the id of its anchor. Its
/// size and the time that it took are recorded, the engine's node is taken over,
/// and what the engine asks for comes after what is still to be done.
pub proof fn law_snapshot_is_taken_of_the_state_machine(
    w: World,
    state: StateView,
    run: RunView,
    through: LogIndex,
    outcomes: Seq<Outcome>,
    clock: spec_fn(nat) -> u64,
    steps: nat,
)
    requires
        comes_next(run, Action::TakeSnapshot { through_index: through }),
        w.log.contains_key(through.0) || through.0 == 0,
        action_played(w, state, run, outcomes, clock, steps).honest,
        !(action_played(w, state, run, outcomes, clock, steps).change.step is Ask),
    ensures
        ({
            let p = action_played(w, state, run, outcomes, clock, steps);
            let data = (w.image)(w.machine);
            let term = if w.log.contains_key(through.0) {
                w.log[through.0].term
            } else {
                Term(0)
            };
            let meta = SnapshotMetaView {
                id: Seq::empty(),
                last_included_index: through,
                last_included_term: term,
                voter_set: known_voters(state.node),
                size_bytes: Some(data.len() as u64),
                checksum: None,
            };
            &&& p.world == (World {
                saved: w.saved.push((meta, data)),
                engine: w.engine.push(
                    EngineCall::Stepped(
                        InputView::SnapshotComplete { metadata: identified(meta) },
                    ),
                ),
                ..w
            })
            &&& outcomes.len() == 4
            &&& outcomes[3] matches Outcome::Engine { node, actions } && p.change == ready(
                StateView {
                    node,
                    ..state.telling(
                        seq![
                            EffectView::Observe(
                                Observation::SnapshotTaken {
                                    bytes: data.len() as u64,
                                    elapsed: between(clock(4), clock(2)) as u64,
                                },
                            ),
                        ],
                    )
                },
                RunView { queue: run.queue.drop_first() + actions@, ..run },
            )
        }),
{
    let rest = behind(run);
    let p = action_played(w, state, run, outcomes, clock, steps);
    let started_at = clock(outcomes.len());
    let ask0 = RequestView::ReadTerm(through);
    let ask1 = RequestView::SnapshotStateMachine;
    let found = term_in(w.log, through);
    let term = match found {
        Some(t) => t,
        None => Term(0),
    };
    let c0 = waiting(
        state,
        rest,
        StageView::Take(TakeStageView::Term { through, started_at }),
        ask0,
    );
    let c1 = waiting(
        state,
        rest,
        StageView::Take(TakeStageView::Data { through, term, started_at }),
        ask1,
    );
    lemma_take_starts(state, run, through, started_at);
    lemma_take_term(state, rest, through, found, started_at, started_at);
    lemma_call(w, c0, ask0, c1, outcomes, clock, steps);
    let o1 = outcomes.drop_first();
    let c2 = run_after(c1, o1[0], clock(o1.len()));
    lemma_call(w, c1, ask1, c2, o1, clock, (steps - 1) as nat);
    let payload = o1[0]->Data_0->Ok_0;
    let data = (w.image)(w.machine);
    let meta = SnapshotMetaView {
        id: Seq::empty(),
        last_included_index: through,
        last_included_term: term,
        voter_set: known_voters(state.node),
        size_bytes: Some(data.len() as u64),
        checksum: None,
    };
    lemma_take_data(state, rest, through, term, payload, started_at, clock(o1.len()));
    let o2 = o1.drop_first();
    let ask2 = RequestView::SaveSnapshot { metadata: meta, data };
    let bytes = data.len() as u64;
    let told = state.telling(
        seq![
            EffectView::Observe(
                Observation::SnapshotTaken {
                    bytes,
                    elapsed: between(started_at, clock(o2.len())) as u64,
                },
            ),
        ],
    );
    let ask3 = RequestView::StepEngine(InputView::SnapshotComplete { metadata: identified(meta) });
    let c3 = waiting(
        told,
        rest,
        StageView::Take(TakeStageView::Engine { metadata: identified(meta) }),
        ask3,
    );
    lemma_take_saved(state, rest, meta, bytes, ask2, started_at, clock(o2.len()));
    lemma_call(w, c2, ask2, c3, o2, clock, (steps - 2) as nat);
    let w3 = after_call(w, ask2);
    let o3 = o2.drop_first();
    let c4 = run_after(c3, o3[0], clock(o3.len()));
    lemma_call(w3, c3, ask3, c4, o3, clock, (steps - 3) as nat);
    let w4 = after_call(w3, ask3);
    let node = o3[0]->Engine_node;
    let actions = o3[0]->Engine_actions;
    lemma_take_told(told, rest, identified(meta), ask3, node, actions, clock(o3.len()));
    let o4 = o3.drop_first();
    lemma_played_end(w4, c4, o4, clock, (steps - 4) as nat);
    assert(p.world == w4);
    assert(outcomes.len() == 4);
    assert(o3[0] == outcomes[3]);
}

#[verifier::spinoff_prover]
proof fn lemma_take_starts(state: StateView, run: RunView, through: LogIndex, now: u64)
    requires
        comes_next(run, Action::TakeSnapshot { through_index: through }),
    ensures
        run_onward(RunChange { state, run, step: StepView::Continue }, now) == waiting(
            state,
            behind(run),
            StageView::Take(TakeStageView::Term { through, started_at: now }),
            RequestView::ReadTerm(through),
        ),
{
    reveal(run_onward);
}

#[verifier::spinoff_prover]
proof fn lemma_take_term(
    state: StateView,
    run: RunView,
    through: LogIndex,
    found: Option<Term>,
    started_at: u64,
    now: u64,
)
    requires
        found is Some || through.0 == 0,
    ensures
        run_after(
            waiting(
                state,
                run,
                StageView::Take(TakeStageView::Term { through, started_at }),
                RequestView::ReadTerm(through),
            ),
            Outcome::Term(Ok(found)),
            now,
        ) == waiting(
            state,
            run,
            StageView::Take(
                TakeStageView::Data {
                    through,
                    term: match found {
                        Some(t) => t,
                        None => Term(0),
                    },
                    started_at,
                },
            ),
            RequestView::SnapshotStateMachine,
        ),
{
    reveal(run_after);
    assert(state.telling(seq![]) =~= state);
}

#[verifier::spinoff_prover]
proof fn lemma_take_data(
    state: StateView,
    run: RunView,
    through: LogIndex,
    term: Term,
    payload: Vec<u8>,
    started_at: u64,
    now: u64,
)
    ensures
        ({
            let meta = SnapshotMetaView {
                id: Seq::empty(),
                last_included_index: through,
                last_included_term: term,
                voter_set: known_voters(state.node),
                size_bytes: Some(payload@.len() as u64),
                checksum: None,
            };
            run_after(
                waiting(
                    state,
                    run,
                    StageView::Take(TakeStageView::Data { through, term, started_at }),
                    RequestView::SnapshotStateMachine,
                ),
                Outcome::Data(Ok(payload)),
                now,
            ) == waiting(
                state,
                run,
                StageView::Take(
                    TakeStageView::Save {
                        metadata: meta,
                        bytes: payload@.len() as u64,
                        started_at,
                    },
                ),
                RequestView::SaveSnapshot { metadata: meta, data: payload@ },
            )
        }),
{
    reveal(run_after);
    assert(state.telling(seq![]) =~= state);
}

#[verifier::spinoff_prover]
proof fn lemma_take_saved(
    state: StateView,
    run: RunView,
    meta: SnapshotMetaView,
    bytes: u64,
    request: RequestView,
    started_at: u64,
    now: u64,
)
    ensures
        run_after(
            waiting(
                state,
                run,
                StageView::Take(TakeStageView::Save { metadata: meta, bytes, started_at }),
                request,
            ),
            Outcome::Done(Ok(())),
            now,
        ) == waiting(
            state.telling(
                seq![
                    EffectView::Observe(
                        Observation::SnapshotTaken {
                            bytes,
                            elapsed: between(started_at, now) as u64,
                        },
                    ),
                ],
            ),
            run,
            StageView::Take(TakeStageView::Engine { metadata: identified(meta) }),
            RequestView::StepEngine(InputView::SnapshotComplete { metadata: identified(meta) }),
        ),
{
    reveal(run_after);
}

#[verifier::spinoff_prover]
proof fn lemma_take_told(
    state: StateView,
    run: RunView,
    meta: SnapshotMetaView,
    request: RequestView,
    node: NodeView,
    actions: Vec<Action>,
    now: u64,
)
    ensures
        run_after(
            waiting(
                state,
                run,
                StageView::Take(TakeStageView::Engine { metadata: meta }),
                request,
            ),
            Outcome::Engine { node, actions },
            now,
        ) == ready(
            StateView { node, ..state },
            RunView { queue: run.queue + actions@, ..run },
        ),
{
    reveal(run_after);
    assert(state.telling(seq![]) =~= state);
}

/// A snapshot whose anchor the log does not hold is not taken: nothing is stored,
/// the engine hears nothing, and the driver has a reason to stop.
pub proof fn law_unanchored_snapshot_is_not_taken(
    w: World,
    state: StateView,
    run: RunView,
    through: LogIndex,
    outcomes: Seq<Outcome>,
    clock: spec_fn(nat) -> u64,
    steps: nat,
)
    requires
        comes_next(run, Action::TakeSnapshot { through_index: through }),
        !w.log.contains_key(through.0),
        through.0 > 0,
        action_played(w, state, run, outcomes, clock, steps).honest,
        !(action_played(w, state, run, outcomes, clock, steps).change.step is Ask),
    ensures
        ({
            let p = action_played(w, state, run, outcomes, clock, steps);
            &&& p.world == w
            &&& p.change.step is Finished
            &&& p.change.state.halt is Some
            &&& p.change.state.told == state.told
        }),
{
    let rest = behind(run);
    let ask0 = RequestView::ReadTerm(through);
    let started_at = clock(outcomes.len());
    let c0 = waiting(
        state,
        rest,
        StageView::Take(TakeStageView::Term { through, started_at }),
        ask0,
    );
    lemma_take_starts(state, run, through, started_at);
    let c1 = run_after(c0, outcomes[0], started_at);
    lemma_call(w, c0, ask0, c1, outcomes, clock, steps);
    lemma_take_has_no_anchor(state, rest, through, started_at, started_at);
    lemma_played_end(w, c1, outcomes.drop_first(), clock, (steps - 1) as nat);
}

#[verifier::spinoff_prover]
proof fn lemma_take_has_no_anchor(
    state: StateView,
    run: RunView,
    through: LogIndex,
    started_at: u64,
    now: u64,
)
    requires
        through.0 > 0,
    ensures
        ({
            let c = run_after(
                waiting(
                    state,
                    run,
                    StageView::Take(TakeStageView::Term { through, started_at }),
                    RequestView::ReadTerm(through),
                ),
                Outcome::Term(Ok(None)),
                now,
            );
            &&& c.step is Finished
            &&& c.state.halt is Some
            &&& c.state.told == state.told
        }),
{
    reveal(run_after);
    assert(state.told + seq![] =~= state.told);
}

/// The log that an installed snapshot leaves: what lies above the anchor if the
/// log's entry at the anchor has the snapshot's term, and nothing otherwise.
pub open spec fn log_left(
    before: Map<u64, Entry>,
    meta: SnapshotMetaView,
    after: Map<u64, Entry>,
) -> bool {
    let matches_anchor = before.contains_key(meta.last_included_index.0)
        && before[meta.last_included_index.0].term == meta.last_included_term;
    &&& forall|k: u64|
        k > 0 ==> (#[trigger] after.contains_key(k) <==> before.contains_key(k) && matches_anchor
            && k > meta.last_included_index.0)
    &&& forall|k: u64| #[trigger]
        after.contains_key(k) ==> before.contains_key(k) && after[k] == before[k]
}

/// A snapshot that reaches beyond what is applied is installed whole: it is stored
/// as it came, the state machine is restored from its bytes, the log keeps what
/// lies above the anchor exactly if it agrees with the snapshot there and is
/// flushed, and the engine learns first of the snapshot, under the id of its
/// anchor, and then where what the node has ends.
pub proof fn law_snapshot_is_installed_whole(
    w: World,
    state: StateView,
    run: RunView,
    metadata: SnapshotMeta,
    data: Vec<u8>,
    outcomes: Seq<Outcome>,
    clock: spec_fn(nat) -> u64,
    steps: nat,
)
    requires
        comes_next(run, Action::InstallSnapshot { metadata, data }),
        metadata.last_included_index.0 > state.node.last_applied.0,
        action_played(w, state, run, outcomes, clock, steps).honest,
        !(action_played(w, state, run, outcomes, clock, steps).change.step is Ask),
    ensures
        ({
            let p = action_played(w, state, run, outcomes, clock, steps);
            &&& log_left(w.log, metadata@, p.world.log)
            &&& outcomes.len() == 8
            &&& outcomes[5] matches Outcome::Engine { node, actions } && outcomes[7]
                matches Outcome::Node(last) && p.change == ready(
                StateView {
                    node: last,
                    ..state.telling(seq![EffectView::Observe(Observation::SnapshotInstalled)])
                },
                RunView { queue: run.queue.drop_first() + actions@, ..run },
            ) && exists|index: LogIndex, term: Term|
                #![trigger ends_at(node, p.world.log, index, term)]
                ends_at(node, p.world.log, index, term) && p.world == (World {
                    log: p.world.log,
                    durable: p.world.log,
                    saved: w.saved.push((metadata@, data@)),
                    machine: w.machine.push(MachineCall::Restored(data@)),
                    engine: w.engine.push(
                        EngineCall::Stepped(
                            InputView::SnapshotInstalled { metadata: identified(metadata@) },
                        ),
                    ).push(EngineCall::ToldEnd { index, term }),
                    ..w
                })
        }),
{
    let rest = behind(run);
    let p = action_played(w, state, run, outcomes, clock, steps);
    let meta = metadata@;
    let ask0 = RequestView::SaveSnapshot { metadata: meta, data: data@ };
    let ask1 = RequestView::RestoreStateMachine(data@);
    let ask2 = RequestView::ReadTerm(meta.last_included_index);
    let c0 = waiting(
        state,
        rest,
        StageView::Install(InstallStageView::Save { metadata: meta, data: data@ }),
        ask0,
    );
    let c1 = waiting(
        state,
        rest,
        StageView::Install(InstallStageView::Restore { metadata: meta }),
        ask1,
    );
    let c2 = waiting(
        state,
        rest,
        StageView::Install(InstallStageView::Anchor { metadata: meta }),
        ask2,
    );
    lemma_install_starts(state, run, metadata, data, clock(outcomes.len()));
    lemma_install_writes(state, rest, meta, data@, ask0, clock(outcomes.len()));
    lemma_call(w, c0, ask0, c1, outcomes, clock, steps);
    let w1 = after_call(w, ask0);
    let o1 = outcomes.drop_first();
    lemma_install_writes(state, rest, meta, data@, ask1, clock(o1.len()));
    lemma_call(w1, c1, ask1, c2, o1, clock, (steps - 1) as nat);
    let w2 = after_call(w1, ask1);
    let o2 = o1.drop_first();
    let found = term_in(w.log, meta.last_included_index);
    let agrees = found == Some(meta.last_included_term);
    let ask3 = if agrees {
        RequestView::PurgeLogPrefix(meta.last_included_index)
    } else {
        RequestView::TruncateLogFrom(LogIndex(1))
    };
    let cut = if agrees {
        StageView::Install(InstallStageView::Purge { metadata: meta })
    } else {
        StageView::Install(InstallStageView::Wipe { metadata: meta })
    };
    let flushing = if agrees {
        StageView::Install(InstallStageView::PurgeFlush { metadata: meta })
    } else {
        StageView::Install(InstallStageView::WipeFlush { metadata: meta })
    };
    let c3 = waiting(state, rest, cut, ask3);
    lemma_install_anchor(state, rest, meta, found, clock(o2.len()));
    lemma_call(w2, c2, ask2, c3, o2, clock, (steps - 2) as nat);
    let o3 = o2.drop_first();
    let flush = RequestView::FlushLog;
    let c4 = waiting(state, rest, flushing, flush);
    lemma_install_cuts(state, rest, meta, ask3, clock(o3.len()));
    lemma_call(w2, c3, ask3, c4, o3, clock, (steps - 3) as nat);
    let w4 = after_call(w2, ask3);
    let o4 = o3.drop_first();
    let ask5 = RequestView::StepEngine(
        InputView::SnapshotInstalled { metadata: identified(meta) },
    );
    let c5 = waiting(state, rest, StageView::Install(InstallStageView::Engine), ask5);
    lemma_install_cuts(state, rest, meta, flush, clock(o4.len()));
    lemma_call(w4, c4, flush, c5, o4, clock, (steps - 4) as nat);
    let w5 = after_call(w4, flush);
    let o5 = o4.drop_first();
    let c6 = run_after(c5, o5[0], clock(o5.len()));
    lemma_call(w5, c5, ask5, c6, o5, clock, (steps - 5) as nat);
    let node = o5[0]->Engine_node;
    let actions = o5[0]->Engine_actions;
    lemma_install_engine(state, rest, ask5, node, actions, clock(o5.len()));
    let w6 = after_call(w5, ask5);
    let o6 = o5.drop_first();
    let tip = RequestView::ReadLogTip;
    let c7 = run_after(c6, o6[0], clock(o6.len()));
    lemma_call(w6, c6, tip, c7, o6, clock, (steps - 6) as nat);
    let s6 = StateView { node, ..state };
    let index = o6[0]->LogTip_index;
    let term = o6[0]->LogTip_term;
    lemma_install_tip(s6, rest, actions@, w6.log, index, term, clock(o6.len()));
    let end = c7.step->Ask_0;
    let o7 = o6.drop_first();
    let c8 = run_after(c7, o7[0], clock(o7.len()));
    lemma_call(w6, c7, end, c8, o7, clock, (steps - 7) as nat);
    let last = o7[0]->Node_0;
    lemma_install_tail(s6, rest, actions@, end, last, clock(o7.len()));
    let w8 = after_call(w6, end);
    let o8 = o7.drop_first();
    lemma_played_end(w8, c8, o8, clock, (steps - 8) as nat);
    assert(p.world == w8);
    assert(outcomes.len() == 8);
    assert(o5[0] == outcomes[5]);
    assert(o7[0] == outcomes[7]);
    lemma_log_left(w.log, meta, w4.log);
    assert(ends_at(node, p.world.log, end->SetLastLog_index, end->SetLastLog_term));
    assert(p.change == c8);
}

proof fn lemma_log_left(before: Map<u64, Entry>, meta: SnapshotMetaView, after: Map<u64, Entry>)
    requires
        after == if term_in(before, meta.last_included_index) == Some(meta.last_included_term) {
            before.restrict(Set::new(|k: u64| k > meta.last_included_index.0))
        } else {
            before.restrict(Set::new(|k: u64| k < 1))
        },
    ensures
        log_left(before, meta, after),
{
}

#[verifier::spinoff_prover]
proof fn lemma_install_starts(
    state: StateView,
    run: RunView,
    metadata: SnapshotMeta,
    data: Vec<u8>,
    now: u64,
)
    requires
        comes_next(run, Action::InstallSnapshot { metadata, data }),
        metadata.last_included_index.0 > state.node.last_applied.0,
    ensures
        run_onward(RunChange { state, run, step: StepView::Continue }, now) == waiting(
            state,
            behind(run),
            StageView::Install(InstallStageView::Save { metadata: metadata@, data: data@ }),
            RequestView::SaveSnapshot { metadata: metadata@, data: data@ },
        ),
{
    reveal(run_onward);
}

#[verifier::spinoff_prover]
proof fn lemma_install_writes(
    state: StateView,
    run: RunView,
    meta: SnapshotMetaView,
    data: Seq<u8>,
    request: RequestView,
    now: u64,
)
    ensures
        run_after(
            waiting(
                state,
                run,
                StageView::Install(InstallStageView::Save { metadata: meta, data }),
                request,
            ),
            Outcome::Done(Ok(())),
            now,
        ) == waiting(
            state,
            run,
            StageView::Install(InstallStageView::Restore { metadata: meta }),
            RequestView::RestoreStateMachine(data),
        ),
        run_after(
            waiting(
                state,
                run,
                StageView::Install(InstallStageView::Restore { metadata: meta }),
                request,
            ),
            Outcome::Done(Ok(())),
            now,
        ) == waiting(
            state,
            run,
            StageView::Install(InstallStageView::Anchor { metadata: meta }),
            RequestView::ReadTerm(meta.last_included_index),
        ),
{
    reveal(run_after);
    assert(state.telling(seq![]) =~= state);
}

#[verifier::spinoff_prover]
proof fn lemma_install_anchor(
    state: StateView,
    run: RunView,
    meta: SnapshotMetaView,
    found: Option<Term>,
    now: u64,
)
    ensures
        run_after(
            waiting(
                state,
                run,
                StageView::Install(InstallStageView::Anchor { metadata: meta }),
                RequestView::ReadTerm(meta.last_included_index),
            ),
            Outcome::Term(Ok(found)),
            now,
        ) == if found == Some(meta.last_included_term) {
            waiting(
                state,
                run,
                StageView::Install(InstallStageView::Purge { metadata: meta }),
                RequestView::PurgeLogPrefix(meta.last_included_index),
            )
        } else {
            waiting(
                state,
                run,
                StageView::Install(InstallStageView::Wipe { metadata: meta }),
                RequestView::TruncateLogFrom(LogIndex(1)),
            )
        },
{
    reveal(run_after);
    assert(state.telling(seq![]) =~= state);
}

#[verifier::spinoff_prover]
proof fn lemma_install_cuts(
    state: StateView,
    run: RunView,
    meta: SnapshotMetaView,
    request: RequestView,
    now: u64,
)
    ensures
        run_after(
            waiting(
                state,
                run,
                StageView::Install(InstallStageView::Purge { metadata: meta }),
                request,
            ),
            Outcome::Done(Ok(())),
            now,
        ) == waiting(
            state,
            run,
            StageView::Install(InstallStageView::PurgeFlush { metadata: meta }),
            RequestView::FlushLog,
        ),
        run_after(
            waiting(
                state,
                run,
                StageView::Install(InstallStageView::Wipe { metadata: meta }),
                request,
            ),
            Outcome::Done(Ok(())),
            now,
        ) == waiting(
            state,
            run,
            StageView::Install(InstallStageView::WipeFlush { metadata: meta }),
            RequestView::FlushLog,
        ),
        run_after(
            waiting(
                state,
                run,
                StageView::Install(InstallStageView::PurgeFlush { metadata: meta }),
                request,
            ),
            Outcome::Done(Ok(())),
            now,
        ) == waiting(
            state,
            run,
            StageView::Install(InstallStageView::Engine),
            RequestView::StepEngine(InputView::SnapshotInstalled { metadata: identified(meta) }),
        ),
        run_after(
            waiting(
                state,
                run,
                StageView::Install(InstallStageView::WipeFlush { metadata: meta }),
                request,
            ),
            Outcome::Done(Ok(())),
            now,
        ) == waiting(
            state,
            run,
            StageView::Install(InstallStageView::Engine),
            RequestView::StepEngine(InputView::SnapshotInstalled { metadata: identified(meta) }),
        ),
{
    reveal(run_after);
    assert(state.telling(seq![]) =~= state);
}

#[verifier::spinoff_prover]
proof fn lemma_install_engine(
    state: StateView,
    run: RunView,
    request: RequestView,
    node: NodeView,
    actions: Vec<Action>,
    now: u64,
)
    ensures
        run_after(
            waiting(state, run, StageView::Install(InstallStageView::Engine), request),
            Outcome::Engine { node, actions },
            now,
        ) == waiting(
            StateView { node, ..state },
            run,
            StageView::Install(InstallStageView::Tip { actions: actions@ }),
            RequestView::ReadLogTip,
        ),
{
    reveal(run_after);
    assert(state.telling(seq![]) =~= state);
}

#[verifier::spinoff_prover]
proof fn lemma_install_tip(
    state: StateView,
    run: RunView,
    actions: Seq<Action>,
    log: Map<u64, Entry>,
    index: LogIndex,
    term: Term,
    now: u64,
)
    requires
        is_last(log, index, term),
    ensures
        ({
            let c = run_after(
                waiting(
                    state,
                    run,
                    StageView::Install(InstallStageView::Tip { actions }),
                    RequestView::ReadLogTip,
                ),
                Outcome::LogTip { index, term },
                now,
            );
            c.step matches StepView::Ask(RequestView::SetLastLog { index: i, term: t }) && ends_at(
                state.node,
                log,
                i,
                t,
            ) && c == waiting(
                state,
                run,
                StageView::Install(InstallStageView::Tail { actions }),
                RequestView::SetLastLog { index: i, term: t },
            )
        }),
{
    reveal(run_after);
    assert(state.telling(seq![]) =~= state);
    let c = run_after(
        waiting(
            state,
            run,
            StageView::Install(InstallStageView::Tip { actions }),
            RequestView::ReadLogTip,
        ),
        Outcome::LogTip { index, term },
        now,
    );
    let end = c.step->Ask_0;
    lemma_ends_at(
        state.node,
        log,
        index,
        term,
        end->SetLastLog_index,
        end->SetLastLog_term,
    );
}

#[verifier::spinoff_prover]
proof fn lemma_install_tail(
    state: StateView,
    run: RunView,
    actions: Seq<Action>,
    request: RequestView,
    node: NodeView,
    now: u64,
)
    ensures
        run_after(
            waiting(
                state,
                run,
                StageView::Install(InstallStageView::Tail { actions }),
                request,
            ),
            Outcome::Node(node),
            now,
        ) == ready(
            StateView {
                node,
                ..state.telling(seq![EffectView::Observe(Observation::SnapshotInstalled)])
            },
            RunView { queue: run.queue + actions, ..run },
        ),
{
    reveal(run_after);
}

/// A snapshot that does not reach beyond what is applied leaves everything as it
/// is: the run goes on with its next action.
pub proof fn law_applied_snapshot_is_not_installed(
    w: World,
    state: StateView,
    run: RunView,
    metadata: SnapshotMeta,
    data: Vec<u8>,
    outcomes: Seq<Outcome>,
    clock: spec_fn(nat) -> u64,
    steps: nat,
)
    requires
        comes_next(run, Action::InstallSnapshot { metadata, data }),
        metadata.last_included_index.0 <= state.node.last_applied.0,
    ensures
        ({
            let p = action_played(w, state, run, outcomes, clock, steps);
            &&& p.world == w
            &&& p.change == ready(state, behind(run))
        }),
{
    let c = ready(state, behind(run));
    assert(run_onward(
        RunChange { state, run, step: StepView::Continue },
        clock(outcomes.len()),
    ) == c) by {
        reveal(run_onward);
        assert(behind(run).queue + seq![] =~= behind(run).queue);
    }
    lemma_played_end(w, c, outcomes, clock, steps);
}

} // verus!
