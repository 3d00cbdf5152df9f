//! What a replica is served: the leader's own entries from the place up to which
//! the two logs agree.
use vstd::prelude::*;

use crate::actions::{run_resumed, RunChange, RunView, StageView, StepView};
use crate::captured::CapturedView;
use crate::error::{error_text, ErrorView, XRaftError};
use crate::fetch::FetchStage;
use crate::host::{EffectView, Outcome, RequestView};
use crate::message::{
    Action, DivergingEpoch, FetchQuery, FetchResponseView, InputView, OutboundMessageView,
    SnapshotRedirectView,
};
use crate::model::{
    action_played, behind, comes_next, ends_at, entries_between, is_last, lemma_call,
    lemma_ends_at, played, run_after, run_onward, term_in, truthful, waiting, Played, World,
};
use crate::state::StateView;
use crate::types::{index_text, Entry, LogIndex, NodeView, Term};

verus! {

/// Whether the entry at `offset` lies in the node's latest snapshot, which has an
/// id to ask for.
pub open spec fn covered(node: NodeView, offset: LogIndex) -> bool {
    node.last_snapshot_meta matches Some(m) && offset.0 <= m.last_included_index.0 && m.id@.len()
        > 0
}

/// The term that the node's log has before `offset`; where the latest snapshot
/// ends there, the snapshot knows it.
pub open spec fn term_before(
    node: NodeView,
    log: Map<u64, Entry>,
    offset: LogIndex,
) -> Option<Term> {
    match node.last_snapshot_meta {
        Some(m) if m.last_included_index.0 + 1 == offset.0 => Some(m.last_included_term),
        _ => term_in(log, LogIndex((offset.0 - 1) as u64)),
    }
}

/// Whether a replica's log agrees with the node's up to where the replica asks
/// for more.
pub open spec fn logs_agree(node: NodeView, log: Map<u64, Entry>, q: FetchQuery) -> bool {
    q.fetch_offset.0 <= 1 || term_before(node, log, q.fetch_offset) == Some(q.last_fetched_epoch)
}

/// Where a batch of at most `max_batch` entries ends that starts at `offset`.
pub open spec fn batch_limit(offset: LogIndex, max_batch: usize) -> int {
    if offset.0 + max_batch <= u64::MAX {
        offset.0 + max_batch
    } else {
        u64::MAX as int
    }
}

/// Whether an answer says that the logs part: at the end of what the node has, and
/// in the term that the node has before the offset, or else in that of its end.
pub open spec fn says_where_they_part(
    node: NodeView,
    log: Map<u64, Entry>,
    q: FetchQuery,
    r: FetchResponseView,
    term: Term,
) -> bool {
    r.diverging_epoch matches Some(d) && ends_at(node, log, d.end_offset, term) && d.epoch
        == match term_before(node, log, q.fetch_offset) {
        Some(t) => t,
        None => term,
    }
}

/// Whether an answer is the one that a fetch calls for. It is in the name of the
/// leader. An offset that the latest snapshot covers is redirected there. A replica
/// whose log agrees gets the entries of the log from the offset on, one batch of
/// them. Any other learns where the logs part.
pub open spec fn is_right(
    node: NodeView,
    log: Map<u64, Entry>,
    max_batch: usize,
    q: FetchQuery,
    r: FetchResponseView,
) -> bool {
    &&& r.cluster_id == q.cluster_id@
    &&& r.leader_epoch == q.leader_epoch
    &&& r.leader_id == q.leader_id
    &&& r.high_watermark == q.high_watermark
    &&& r.is_leader
    &&& covered(node, q.fetch_offset) ==> {
        &&& r.entries.len() == 0
        &&& r.diverging_epoch is None
        &&& r.snapshot_redirect == Some(
            SnapshotRedirectView {
                snapshot_id: node.last_snapshot_meta->0.id@,
                last_included_index: node.last_snapshot_meta->0.last_included_index,
                last_included_term: node.last_snapshot_meta->0.last_included_term,
            },
        )
    }
    &&& !covered(node, q.fetch_offset) && logs_agree(node, log, q) ==> {
        &&& r.entries == entries_between(
            log,
            q.fetch_offset.0 as int,
            batch_limit(q.fetch_offset, max_batch),
        )
        &&& r.diverging_epoch is None
        &&& r.snapshot_redirect is None
    }
    &&& !covered(node, q.fetch_offset) && !logs_agree(node, log, q) ==> {
        &&& r.entries.len() == 0
        &&& r.snapshot_redirect is None
        &&& exists|term: Term| #[trigger] says_where_they_part(node, log, q, r, term)
    }
}

/// A run once a fetch has been answered: the answer goes to the caller that waits
/// for it, or else out, and the engine learns that the replica has everything
/// before the offset, unless the answer redirects it or says where the logs part.
pub open spec fn answered_with(
    state: StateView,
    run: RunView,
    q: FetchQuery,
    r: FetchResponseView,
) -> RunChange {
    let waits = run.origin == Some(q.to) && run.captured.fetch is None;
    let state = if waits {
        state
    } else {
        state.telling(
            seq![
                EffectView::Dispatch { to: q.to, message: OutboundMessageView::FetchResponse(r) },
            ],
        )
    };
    let run = if waits {
        RunView { captured: CapturedView { fetch: Some(r), ..run.captured }, ..run }
    } else {
        run
    };
    if r.diverging_epoch is None && r.snapshot_redirect is None && q.fetch_offset.0 > 0 {
        waiting(
            state,
            run,
            StageView::Ack,
            RequestView::StepEngine(
                InputView::FetchRequestAcked {
                    replica_id: q.to,
                    confirmed_offset: LogIndex((q.fetch_offset.0 - 1) as u64),
                },
            ),
        )
    } else {
        RunChange { state, run: run.at(StageView::Ready), step: StepView::Continue }
    }
}

/// Whether a run waits for the log.
pub open spec fn reads_the_log(change: RunChange) -> bool {
    change.step matches StepView::Ask(request) && (request is ReadTerm || request is ReadRange
        || request is ReadLogTip)
}

/// A fetch is served from the leader's log. Whatever the log holds, if every call
/// comes to what the log holds under the arguments of the call, then the replica
/// gets the right answer and the engine the right acknowledgement: in particular,
/// if the log's entry before the offset has the term that the replica names, the
/// answer holds the log's entries from the offset on and does not diverge.
pub proof fn law_fetch_is_served_from_the_log(
    w: World,
    state: StateView,
    run: RunView,
    q: FetchQuery,
    outcomes: Seq<Outcome>,
    clock: spec_fn(nat) -> u64,
    steps: nat,
)
    requires
        comes_next(run, Action::ServeFetch(q)),
        action_played(w, state, run, outcomes, clock, steps).honest,
        !reads_the_log(action_played(w, state, run, outcomes, clock, steps).change),
        forall|i: int| 0 <= i < outcomes.len() ==> !((#[trigger] outcomes[i]) is Engine),
    ensures
        ({
            let p = action_played(w, state, run, outcomes, clock, steps);
            &&& p.world == w
            &&& exists|r: FetchResponseView| #[trigger]
                is_right(state.node, w.log, state.max_fetch_batch, q, r) && p.change
                    == answered_with(state, behind(run), q, r)
        }),
{
    let rest = behind(run);
    let p = action_played(w, state, run, outcomes, clock, steps);
    let end = LogIndex(batch_limit(q.fetch_offset, state.max_fetch_batch) as u64);
    let ranged = StageView::Fetch { query: q, stage: FetchStage::Range { end } };
    let range = RequestView::ReadRange { from: q.fetch_offset, end };
    let c0 = run_onward(
        RunChange { state, run, step: StepView::Continue },
        clock(outcomes.len()),
    );
    lemma_fetch_begins(state, run, q, clock(outcomes.len()));
    if covered(state.node, q.fetch_offset) {
        let r = plain_answer(q, seq![], None, Some(redirect_of(state.node)));
        lemma_answered(w, state, rest, q, r, outcomes, clock, steps);
        assert(is_right(state.node, w.log, state.max_fetch_batch, q, r));
    } else if c0 == waiting(state, rest, ranged, range) {
        lemma_range(w, state, rest, q, outcomes, clock, steps);
    } else if asks_for_term(state.node, q) {
        let before = LogIndex((q.fetch_offset.0 - 1) as u64);
        let ask = RequestView::ReadTerm(before);
        let c1 = run_after(c0, outcomes[0], clock(outcomes.len()));
        lemma_call(w, c0, ask, c1, outcomes, clock, steps);
        let found = term_in(w.log, before);
        let o1 = outcomes.drop_first();
        assert forall|i: int| 0 <= i < o1.len() implies !((#[trigger] o1[i]) is Engine) by {
            assert(o1[i] == outcomes[i + 1]);
        }
        lemma_term_known(state, rest, q, ask, found, clock(outcomes.len()));
        if found == Some(q.last_fetched_epoch) {
            lemma_range(w, state, rest, q, o1, clock, (steps - 1) as nat);
        } else {
            lemma_tip(w, state, rest, q, found, o1, clock, (steps - 1) as nat);
        }
    } else {
        let found = Some(state.node.last_snapshot_meta->0.last_included_term);
        lemma_tip(w, state, rest, q, found, outcomes, clock, steps);
    }
}

/// An answer in the name of the leader.
spec fn plain_answer(
    q: FetchQuery,
    entries: Seq<Entry>,
    diverging_epoch: Option<DivergingEpoch>,
    snapshot_redirect: Option<SnapshotRedirectView>,
) -> FetchResponseView {
    FetchResponseView {
        cluster_id: q.cluster_id@,
        leader_epoch: q.leader_epoch,
        leader_id: q.leader_id,
        high_watermark: q.high_watermark,
        entries,
        diverging_epoch,
        snapshot_redirect,
        is_leader: true,
    }
}

/// Where the latest snapshot is found.
spec fn redirect_of(node: NodeView) -> SnapshotRedirectView {
    SnapshotRedirectView {
        snapshot_id: node.last_snapshot_meta->0.id@,
        last_included_index: node.last_snapshot_meta->0.last_included_index,
        last_included_term: node.last_snapshot_meta->0.last_included_term,
    }
}

/// Whether only the log knows the term before the offset.
spec fn asks_for_term(node: NodeView, q: FetchQuery) -> bool {
    q.fetch_offset.0 > 1 && !(node.last_snapshot_meta matches Some(m) && m.last_included_index.0
        + 1 == q.fetch_offset.0)
}

#[verifier::spinoff_prover]
proof fn lemma_fetch_begins(state: StateView, run: RunView, q: FetchQuery, now: u64)
    requires
        comes_next(run, Action::ServeFetch(q)),
    ensures
        ({
            let c = run_onward(RunChange { state, run, step: StepView::Continue }, now);
            let end = LogIndex(batch_limit(q.fetch_offset, state.max_fetch_batch) as u64);
            if covered(state.node, q.fetch_offset) {
                c == answered_with(
                    state,
                    behind(run),
                    q,
                    plain_answer(q, seq![], None, Some(redirect_of(state.node))),
                )
            } else if asks_for_term(state.node, q) {
                c == waiting(
                    state,
                    behind(run),
                    StageView::Fetch { query: q, stage: FetchStage::Term },
                    RequestView::ReadTerm(LogIndex((q.fetch_offset.0 - 1) as u64)),
                )
            } else if q.fetch_offset.0 <= 1 || state.node.last_snapshot_meta->0.last_included_term
                == q.last_fetched_epoch {
                c == waiting(
                    state,
                    behind(run),
                    StageView::Fetch { query: q, stage: FetchStage::Range { end } },
                    RequestView::ReadRange { from: q.fetch_offset, end },
                )
            } else {
                let epoch = Some(state.node.last_snapshot_meta->0.last_included_term);
                c == waiting(
                    state,
                    behind(run),
                    StageView::Fetch { query: q, stage: FetchStage::Tip { epoch } },
                    RequestView::ReadLogTip,
                )
            }
        }),
{
    reveal(run_onward);
}

#[verifier::spinoff_prover]
proof fn lemma_term_known(
    state: StateView,
    run: RunView,
    q: FetchQuery,
    request: RequestView,
    found: Option<Term>,
    now: u64,
)
    ensures
        ({
            let end = LogIndex(batch_limit(q.fetch_offset, state.max_fetch_batch) as u64);
            run_after(
                waiting(
                    state,
                    run,
                    StageView::Fetch { query: q, stage: FetchStage::Term },
                    request,
                ),
                Outcome::Term(Ok(found)),
                now,
            ) == if found == Some(q.last_fetched_epoch) {
                waiting(
                    state,
                    run,
                    StageView::Fetch { query: q, stage: FetchStage::Range { end } },
                    RequestView::ReadRange { from: q.fetch_offset, end },
                )
            } else {
                waiting(
                    state,
                    run,
                    StageView::Fetch { query: q, stage: FetchStage::Tip { epoch: found } },
                    RequestView::ReadLogTip,
                )
            }
        }),
{
    reveal(run_after);
}

/// Once the fetch is answered, no call to the log is left.
proof fn lemma_answered(
    w: World,
    state: StateView,
    run: RunView,
    q: FetchQuery,
    r: FetchResponseView,
    outcomes: Seq<Outcome>,
    clock: spec_fn(nat) -> u64,
    steps: nat,
)
    requires
        played(w, answered_with(state, run, q, r), outcomes, clock, steps).honest,
        forall|i: int| 0 <= i < outcomes.len() ==> !((#[trigger] outcomes[i]) is Engine),
    ensures
        played(w, answered_with(state, run, q, r), outcomes, clock, steps) == (Played {
            world: w,
            change: answered_with(state, run, q, r),
            honest: true,
        }),
{
    let c = answered_with(state, run, q, r);
    reveal_with_fuel(played, 1);
    if c.step is Ask && outcomes.len() > 0 {
        assert(truthful(w, c.step->Ask_0, outcomes[0]));
        assert(outcomes[0] is Engine);
    }
}

#[verifier::spinoff_prover]
proof fn lemma_range_read(
    state: StateView,
    run: RunView,
    q: FetchQuery,
    end: LogIndex,
    entries: Vec<Entry>,
    now: u64,
)
    ensures
        run_after(
            waiting(
                state,
                run,
                StageView::Fetch { query: q, stage: FetchStage::Range { end } },
                RequestView::ReadRange { from: q.fetch_offset, end },
            ),
            Outcome::Entries(Ok(entries)),
            now,
        ) == answered_with(state, run, q, plain_answer(q, entries@, None, None)),
{
    reveal(run_after);
}

/// The entries are read where the logs agree.
proof fn lemma_range(
    w: World,
    state: StateView,
    run: RunView,
    q: FetchQuery,
    outcomes: Seq<Outcome>,
    clock: spec_fn(nat) -> u64,
    steps: nat,
)
    requires
        !covered(state.node, q.fetch_offset),
        logs_agree(state.node, w.log, q),
        ({
            let end = LogIndex(batch_limit(q.fetch_offset, state.max_fetch_batch) as u64);
            let c = waiting(
                state,
                run,
                StageView::Fetch { query: q, stage: FetchStage::Range { end } },
                RequestView::ReadRange { from: q.fetch_offset, end },
            );
            &&& played(w, c, outcomes, clock, steps).honest
            &&& !reads_the_log(played(w, c, outcomes, clock, steps).change)
        }),
        forall|i: int| 0 <= i < outcomes.len() ==> !((#[trigger] outcomes[i]) is Engine),
    ensures
        ({
            let end = LogIndex(batch_limit(q.fetch_offset, state.max_fetch_batch) as u64);
            let c = waiting(
                state,
                run,
                StageView::Fetch { query: q, stage: FetchStage::Range { end } },
                RequestView::ReadRange { from: q.fetch_offset, end },
            );
            let p = played(w, c, outcomes, clock, steps);
            &&& p.world == w
            &&& exists|r: FetchResponseView| #[trigger]
                is_right(state.node, w.log, state.max_fetch_batch, q, r) && p.change
                    == answered_with(state, run, q, r)
        }),
{
    let end = LogIndex(batch_limit(q.fetch_offset, state.max_fetch_batch) as u64);
    let request = RequestView::ReadRange { from: q.fetch_offset, end };
    let c = waiting(
        state,
        run,
        StageView::Fetch { query: q, stage: FetchStage::Range { end } },
        request,
    );
    let next = run_after(c, outcomes[0], clock(outcomes.len()));
    lemma_call(w, c, request, next, outcomes, clock, steps);
    let entries = outcomes[0]->Entries_0->Ok_0;
    let r = plain_answer(q, entries@, None, None);
    lemma_range_read(state, run, q, end, entries, clock(outcomes.len()));
    let later = outcomes.drop_first();
    assert forall|i: int| 0 <= i < later.len() implies !((#[trigger] later[i]) is Engine) by {
        assert(later[i] == outcomes[i + 1]);
    }
    lemma_answered(w, state, run, q, r, later, clock, (steps - 1) as nat);
    assert(is_right(state.node, w.log, state.max_fetch_batch, q, r));
}

#[verifier::spinoff_prover]
proof fn lemma_tip_read(
    state: StateView,
    run: RunView,
    q: FetchQuery,
    epoch: Option<Term>,
    log: Map<u64, Entry>,
    index: LogIndex,
    term: Term,
    now: u64,
) -> (r: FetchResponseView)
    requires
        is_last(log, index, term),
        epoch == term_before(state.node, log, q.fetch_offset),
    ensures
        run_after(
            waiting(
                state,
                run,
                StageView::Fetch { query: q, stage: FetchStage::Tip { epoch } },
                RequestView::ReadLogTip,
            ),
            Outcome::LogTip { index, term },
            now,
        ) == answered_with(state, run, q, r),
        r == plain_answer(q, seq![], r.diverging_epoch, None),
        exists|t: Term| #[trigger] says_where_they_part(state.node, log, q, r, t),
{
    reveal(run_after);
    let (i, t) = match state.node.last_snapshot_meta {
        Some(m) if m.last_included_index.0 > index.0 => (
            m.last_included_index,
            m.last_included_term,
        ),
        _ => (index, term),
    };
    lemma_ends_at(state.node, log, index, term, i, t);
    let r = plain_answer(
        q,
        seq![],
        Some(
            DivergingEpoch {
                epoch: match epoch {
                    Some(e) => e,
                    None => t,
                },
                end_offset: i,
            },
        ),
        None,
    );
    assert(says_where_they_part(state.node, log, q, r, t));
    r
}

/// The end of the log is read where the logs part.
proof fn lemma_tip(
    w: World,
    state: StateView,
    run: RunView,
    q: FetchQuery,
    epoch: Option<Term>,
    outcomes: Seq<Outcome>,
    clock: spec_fn(nat) -> u64,
    steps: nat,
)
    requires
        !covered(state.node, q.fetch_offset),
        !logs_agree(state.node, w.log, q),
        epoch == term_before(state.node, w.log, q.fetch_offset),
        ({
            let c = waiting(
                state,
                run,
                StageView::Fetch { query: q, stage: FetchStage::Tip { epoch } },
                RequestView::ReadLogTip,
            );
            &&& played(w, c, outcomes, clock, steps).honest
            &&& !reads_the_log(played(w, c, outcomes, clock, steps).change)
        }),
        forall|i: int| 0 <= i < outcomes.len() ==> !((#[trigger] outcomes[i]) is Engine),
    ensures
        ({
            let c = waiting(
                state,
                run,
                StageView::Fetch { query: q, stage: FetchStage::Tip { epoch } },
                RequestView::ReadLogTip,
            );
            let p = played(w, c, outcomes, clock, steps);
            &&& p.world == w
            &&& exists|r: FetchResponseView| #[trigger]
                is_right(state.node, w.log, state.max_fetch_batch, q, r) && p.change
                    == answered_with(state, run, q, r)
        }),
{
    let c = waiting(
        state,
        run,
        StageView::Fetch { query: q, stage: FetchStage::Tip { epoch } },
        RequestView::ReadLogTip,
    );
    let next = run_after(c, outcomes[0], clock(outcomes.len()));
    lemma_call(w, c, RequestView::ReadLogTip, next, outcomes, clock, steps);
    let index = outcomes[0]->LogTip_index;
    let term = outcomes[0]->LogTip_term;
    let r = lemma_tip_read(state, run, q, epoch, w.log, index, term, clock(outcomes.len()));
    let later = outcomes.drop_first();
    assert forall|i: int| 0 <= i < later.len() implies !((#[trigger] later[i]) is Engine) by {
        assert(later[i] == outcomes[i + 1]);
    }
    lemma_answered(w, state, run, q, r, later, clock, (steps - 1) as nat);
    assert(is_right(state.node, w.log, state.max_fetch_batch, q, r));
}

/// A log without gaps is served entry by entry: if it holds every index from the
/// offset up to `end` and nothing behind that, an agreeing replica gets exactly
/// these entries, or the first of them if there are more than a batch.
pub proof fn law_served_entries_are_those_of_the_log(
    node: NodeView,
    log: Map<u64, Entry>,
    max_batch: usize,
    q: FetchQuery,
    r: FetchResponseView,
    end: int,
    k: int,
)
    requires
        is_right(node, log, max_batch, q, r),
        !covered(node, q.fetch_offset),
        logs_agree(node, log, q),
        q.fetch_offset.0 <= end <= u64::MAX,
        forall|i: u64| q.fetch_offset.0 <= i ==> (#[trigger] log.contains_key(i) <==> i < end),
    ensures
        r.entries.len() == if end - q.fetch_offset.0 <= max_batch {
            end - q.fetch_offset.0
        } else {
            max_batch as int
        },
        0 <= k < r.entries.len() ==> r.entries[k] == log[(q.fetch_offset.0 + k) as u64],
{
    let from = q.fetch_offset.0 as int;
    lemma_without_gaps(log, from, end, batch_limit(q.fetch_offset, max_batch), k);
}

proof fn lemma_without_gaps(log: Map<u64, Entry>, from: int, end: int, limit: int, k: int)
    requires
        0 <= from <= end <= u64::MAX,
        from <= limit <= u64::MAX,
        forall|i: u64| from <= i ==> (#[trigger] log.contains_key(i) <==> i < end),
    ensures
        entries_between(log, from, limit).len() == if end <= limit {
            end - from
        } else {
            limit - from
        },
        0 <= k < entries_between(log, from, limit).len() ==> entries_between(log, from, limit)[k]
            == log[(from + k) as u64],
    decreases limit - from,
{
    if from < limit {
        lemma_without_gaps(log, from, end, limit - 1, k);
        assert(log.contains_key((limit - 1) as u64) <==> limit - 1 < end);
    }
}

/// A call to the log that fails fails the fetch: its caller gets the error of that call, unless
/// it has an error already, and the run goes on with its next action.
pub proof fn law_failed_read_fails_the_fetch(
    state: StateView,
    run: RunView,
    q: FetchQuery,
    end: LogIndex,
    e: XRaftError,
    now: u64,
)
    ensures
        ({
            let before = LogIndex((q.fetch_offset.0 - 1) as u64);
            let at_term = run.at(StageView::Fetch { query: q, stage: FetchStage::Term });
            let at_range = run.at(StageView::Fetch { query: q, stage: FetchStage::Range { end } });
            let term = run_resumed(state, at_term, Outcome::Term(Err(e)), now);
            let range = run_resumed(state, at_range, Outcome::Entries(Err(e)), now);
            let no_term = ErrorView::Storage(
                "term_at("@ + index_text(before) + ") failed during fetch: "@ + error_text(e@),
            );
            let no_range = ErrorView::Storage(
                "get_range("@ + index_text(q.fetch_offset) + ", "@ + index_text(end)
                    + ") failed during fetch: "@ + error_text(e@),
            );
            &&& term == failed_with(state, run, no_term)
            &&& range == failed_with(state, run, no_range)
        }),
{
}

/// A run that goes on with an error, the first that it has.
pub open spec fn failed_with(state: StateView, run: RunView, error: ErrorView) -> RunChange {
    RunChange {
        state,
        run: RunView {
            captured: CapturedView {
                error: if run.captured.error is Some {
                    run.captured.error
                } else {
                    Some(error)
                },
                ..run.captured
            },
            stage: StageView::Ready,
            ..run
        },
        step: StepView::Continue,
    }
}

} // verus!
