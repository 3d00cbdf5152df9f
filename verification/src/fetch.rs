//! Serving a replica's fetch: entries from the leader's log, or the place where
//! the two logs part, or a redirect to a snapshot.
use vstd::prelude::*;
use vstd::string::*;

use crate::error::{error_text, ErrorView, XRaftError};
use crate::host::{answers, Outcome, Request, RequestView};
use crate::message::{
    DivergingEpoch, FetchQuery, FetchResponse, FetchResponseView, SnapshotRedirect,
    SnapshotRedirectView,
};
use crate::types::{index_text, Entry, LogIndex, NodeView, SnapshotMeta, SnapshotMetaView, Term};

verus! {

/// What is known of the latest snapshot.
pub open spec fn anchor_of(node: &NodeView) -> Option<SnapshotMetaView> {
    match node.last_snapshot_meta {
        Some(m) => Some(m@),
        None => None,
    }
}

/// Where the log ends, given its last entry: at the latest snapshot, if that
/// reaches further.
pub open spec fn effective_tip(
    anchor: Option<SnapshotMetaView>,
    log_index: LogIndex,
    log_term: Term,
) -> (LogIndex, Term) {
    match anchor {
        Some(m) if m.last_included_index.0 > log_index.0 => (
            m.last_included_index,
            m.last_included_term,
        ),
        _ => (log_index, log_term),
    }
}

/// Where the log ends, given index and term of its last entry.
pub fn effective_log_tip(node: &NodeView, log_index: LogIndex, log_term: Term) -> (tip: (
    LogIndex,
    Term,
))
    ensures
        tip == effective_tip(anchor_of(node), log_index, log_term),
{
    match &node.last_snapshot_meta {
        Some(m) => {
            if m.last_included_index.0 > log_index.0 {
                (m.last_included_index, m.last_included_term)
            } else {
                (log_index, log_term)
            }
        },
        None => (log_index, log_term),
    }
}

/// The snapshot that a fetch at `offset` is redirected to: the latest one, if
/// it covers that offset and has an id to ask for.
pub open spec fn redirect_for(
    anchor: Option<SnapshotMetaView>,
    offset: LogIndex,
) -> Option<SnapshotRedirectView> {
    match anchor {
        Some(m) if offset.0 <= m.last_included_index.0 && m.id.len() > 0 => Some(
            redirect_to(m),
        ),
        _ => None,
    }
}

/// Directs a replica to the given snapshot.
pub open spec fn redirect_to(m: SnapshotMetaView) -> SnapshotRedirectView {
    SnapshotRedirectView {
        snapshot_id: m.id,
        last_included_index: m.last_included_index,
        last_included_term: m.last_included_term,
    }
}

/// An answer in the name of the leader.
pub open spec fn leader_answer(
    q: FetchQuery,
    entries: Seq<Entry>,
    diverging_epoch: Option<DivergingEpoch>,
    snapshot_redirect: Option<SnapshotRedirectView>,
) -> FetchResponseView {
    FetchResponseView {
        cluster_id: q.cluster_id@,
        leader_epoch: q.leader_epoch,
        leader_id: q.leader_id,
        high_watermark: q.high_watermark,
        entries,
        diverging_epoch,
        snapshot_redirect,
        is_leader: true,
    }
}

/// What the service of a fetch waits for.
#[derive(Clone, Copy, Debug, PartialEq, Eq, Structural)]
pub enum FetchStage {
    /// The term of the entry before the offset.
    Term,
    /// The end of the log, to report where the logs part. `epoch` is the
    /// leader's term before the offset, if it has an entry there.
    Tip { epoch: Option<Term> },
    /// The entries from the offset up to `end`.
    Range { end: LogIndex },
}

/// What comes next in the service of a fetch.
#[verifier::ext_equal]
pub enum FetchNextView {
    Ask(FetchStage, RequestView),
    Answer(Result<FetchResponseView, ErrorView>),
}

/// What comes next in the service of a fetch.
#[derive(Debug)]
pub enum FetchNext {
    /// The host is asked for something.
    Ask(FetchStage, Request),
    /// The fetch is answered.
    Answer(Result<FetchResponse, XRaftError>),
}

impl View for FetchNext {
    type V = FetchNextView;

    open spec fn view(&self) -> FetchNextView {
        match self {
            FetchNext::Ask(stage, request) => FetchNextView::Ask(*stage, request@),
            FetchNext::Answer(r) => FetchNextView::Answer(
                match r {
                    Ok(v) => Ok(v@),
                    Err(e) => Err(e@),
                },
            ),
        }
    }
}

/// The index before `offset`.
pub open spec fn before(offset: LogIndex) -> LogIndex {
    LogIndex((offset.0 - 1) as u64)
}

/// The end of a batch that starts at `offset`.
pub open spec fn batch_end(offset: LogIndex, max_batch: usize) -> LogIndex {
    if offset.0 + max_batch > u64::MAX {
        LogIndex(u64::MAX)
    } else {
        LogIndex((offset.0 + max_batch) as u64)
    }
}

/// The service goes on with the entries.
pub open spec fn ask_range(q: FetchQuery, max_batch: usize) -> FetchNextView {
    FetchNextView::Ask(
        FetchStage::Range { end: batch_end(q.fetch_offset, max_batch) },
        RequestView::ReadRange {
            from: q.fetch_offset,
            end: batch_end(q.fetch_offset, max_batch),
        },
    )
}

/// The logs agree if the replica's last term is the leader's term there.
pub open spec fn compare_terms(q: FetchQuery, max_batch: usize, term: Option<Term>) -> FetchNextView {
    if term == Some(q.last_fetched_epoch) {
        ask_range(q, max_batch)
    } else {
        FetchNextView::Ask(FetchStage::Tip { epoch: term }, RequestView::ReadLogTip)
    }
}

/// How the service of a fetch begins.
pub open spec fn fetch_begin(
    anchor: Option<SnapshotMetaView>,
    q: FetchQuery,
    max_batch: usize,
) -> FetchNextView {
    match redirect_for(anchor, q.fetch_offset) {
        Some(r) => FetchNextView::Answer(Ok(leader_answer(q, seq![], None, Some(r)))),
        None => if q.fetch_offset.0 > 1 {
            match anchor {
                Some(m) if m.last_included_index == before(q.fetch_offset) => compare_terms(
                    q,
                    max_batch,
                    Some(m.last_included_term),
                ),
                _ => FetchNextView::Ask(
                    FetchStage::Term,
                    RequestView::ReadTerm(before(q.fetch_offset)),
                ),
            }
        } else {
            ask_range(q, max_batch)
        },
    }
}

/// How the service of a fetch goes on with an outcome.
pub open spec fn fetch_continue(
    anchor: Option<SnapshotMetaView>,
    q: FetchQuery,
    max_batch: usize,
    stage: FetchStage,
    outcome: Outcome,
) -> FetchNextView {
    match (stage, outcome) {
        (FetchStage::Term, Outcome::Term(Ok(term))) => compare_terms(q, max_batch, term),
        (FetchStage::Term, Outcome::Term(Err(e))) => FetchNextView::Answer(
            Err(
                ErrorView::Storage(
                    "term_at("@ + index_text(before(q.fetch_offset)) + ") failed during fetch: "@
                        + error_text(e@),
                ),
            ),
        ),
        (FetchStage::Tip { epoch }, Outcome::LogTip { index, term }) => {
            let tip = effective_tip(anchor, index, term);
            FetchNextView::Answer(
                Ok(
                    leader_answer(
                        q,
                        seq![],
                        Some(
                            DivergingEpoch {
                                epoch: match epoch {
                                    Some(t) => t,
                                    None => tip.1,
                                },
                                end_offset: tip.0,
                            },
                        ),
                        None,
                    ),
                ),
            )
        },
        (FetchStage::Range { end }, Outcome::Entries(Ok(entries))) => FetchNextView::Answer(
            Ok(leader_answer(q, entries@, None, None)),
        ),
        (FetchStage::Range { end }, Outcome::Entries(Err(e))) => FetchNextView::Answer(
            Err(
                ErrorView::Storage(
                    "get_range("@ + index_text(q.fetch_offset) + ", "@ + index_text(end)
                        + ") failed during fetch: "@ + error_text(e@),
                ),
            ),
        ),
        _ => arbitrary(),
    }
}

/// Whether an outcome is what a stage waits for.
pub open spec fn fetch_expects(stage: FetchStage, outcome: Outcome) -> bool {
    match stage {
        FetchStage::Term => outcome is Term,
        FetchStage::Tip { .. } => outcome is LogTip,
        FetchStage::Range { .. } => outcome is Entries,
    }
}

/// Builds an answer in the name of the leader.
fn make_leader_answer(
    q: &FetchQuery,
    entries: Vec<Entry>,
    diverging_epoch: Option<DivergingEpoch>,
    snapshot_redirect: Option<SnapshotRedirect>,
) -> (r: FetchResponse)
    ensures
        r@ == leader_answer(
            *q,
            entries@,
            diverging_epoch,
            match snapshot_redirect {
                Some(s) => Some(s@),
                None => None,
            },
        ),
{
    FetchResponse {
        cluster_id: q.cluster_id.clone(),
        leader_epoch: q.leader_epoch,
        leader_id: q.leader_id,
        high_watermark: q.high_watermark,
        entries,
        diverging_epoch,
        snapshot_redirect,
        is_leader: true,
    }
}

/// Asks for the entries.
fn make_ask_range(q: &FetchQuery, max_batch: usize) -> (r: FetchNext)
    ensures
        r@ == ask_range(*q, max_batch),
{
    let end: LogIndex = LogIndex(q.fetch_offset.0.saturating_add(max_batch as u64));
    FetchNext::Ask(FetchStage::Range { end }, Request::ReadRange { from: q.fetch_offset, end })
}

/// Compares the leader's term before the offset with the replica's.
fn make_compare_terms(q: &FetchQuery, max_batch: usize, term: Option<Term>) -> (r: FetchNext)
    ensures
        r@ == compare_terms(*q, max_batch, term),
{
    let agrees: bool = match term {
        Some(t) => t == q.last_fetched_epoch,
        None => false,
    };
    if agrees {
        make_ask_range(q, max_batch)
    } else {
        FetchNext::Ask(FetchStage::Tip { epoch: term }, Request::ReadLogTip)
    }
}

/// The redirect to a snapshot.
pub fn make_redirect(m: &SnapshotMeta) -> (r: SnapshotRedirect)
    ensures
        r@ == redirect_to(m@),
{
    SnapshotRedirect {
        snapshot_id: m.id.clone(),
        last_included_index: m.last_included_index,
        last_included_term: m.last_included_term,
    }
}

/// Begins to serve a fetch.
pub fn begin_fetch(node: &NodeView, q: &FetchQuery, max_batch: usize) -> (r: FetchNext)
    ensures
        r@ == fetch_begin(anchor_of(node), *q, max_batch),
        r matches FetchNext::Ask(stage, request) ==> forall|o: Outcome|
            fetch_expects(stage, o) == #[trigger] answers(request@, o),
{
    if let Some(m) = &node.last_snapshot_meta {
        if q.fetch_offset.0 <= m.last_included_index.0 && !m.id.as_str().is_empty() {
            let r = make_leader_answer(q, Vec::new(), None, Some(make_redirect(m)));
            assert(r@.entries =~= seq![]);
            return FetchNext::Answer(Ok(r));
        }
    }
    if q.fetch_offset.0 > 1 {
        let prev: LogIndex = LogIndex(q.fetch_offset.0 - 1);
        if let Some(m) = &node.last_snapshot_meta {
            if m.last_included_index == prev {
                return make_compare_terms(q, max_batch, Some(m.last_included_term));
            }
        }
        FetchNext::Ask(FetchStage::Term, Request::ReadTerm(prev))
    } else {
        make_ask_range(q, max_batch)
    }
}

/// Goes on to serve a fetch.
pub fn continue_fetch(
    node: &NodeView,
    q: &FetchQuery,
    max_batch: usize,
    stage: FetchStage,
    outcome: Outcome,
) -> (r: FetchNext)
    requires
        fetch_expects(stage, outcome),
        stage is Term ==> q.fetch_offset.0 > 1,
    ensures
        r@ == fetch_continue(anchor_of(node), *q, max_batch, stage, outcome),
        r matches FetchNext::Ask(stage, request) ==> forall|o: Outcome|
            fetch_expects(stage, o) == #[trigger] answers(request@, o),
{
    match (stage, outcome) {
        (FetchStage::Term, Outcome::Term(Ok(term))) => make_compare_terms(q, max_batch, term),
        (FetchStage::Term, Outcome::Term(Err(e))) => {
            let prev: LogIndex = LogIndex(q.fetch_offset.0 - 1);
            let mut msg = "term_at(".to_owned();
            prev.push_text(&mut msg);
            msg.append(") failed during fetch: ");
            msg.append(e.text().as_str());
            FetchNext::Answer(Err(XRaftError::Storage(msg)))
        },
        (FetchStage::Tip { epoch }, Outcome::LogTip { index, term }) => {
            let (end_offset, end_term): (LogIndex, Term) = effective_log_tip(node, index, term);
            let epoch: Term = match epoch {
                Some(t) => t,
                None => end_term,
            };
            let r = make_leader_answer(
                q,
                Vec::new(),
                Some(DivergingEpoch { epoch, end_offset }),
                None,
            );
            assert(r@.entries =~= seq![]);
            FetchNext::Answer(Ok(r))
        },
        (FetchStage::Range { end: _ }, Outcome::Entries(Ok(entries))) => {
            FetchNext::Answer(Ok(make_leader_answer(q, entries, None, None)))
        },
        (FetchStage::Range { end }, Outcome::Entries(Err(e))) => {
            let mut msg = "get_range(".to_owned();
            q.fetch_offset.push_text(&mut msg);
            msg.append(", ");
            end.push_text(&mut msg);
            msg.append(") failed during fetch: ");
            msg.append(e.text().as_str());
            FetchNext::Answer(Err(XRaftError::Storage(msg)))
        },
        _ => {
            assert(false);
            FetchNext::Ask(stage, Request::ReadLogTip)
        },
    }
}

/// The offset up to which an answered fetch shows that the replica has the
/// log: the one before it asked, unless the logs part or the replica is
/// redirected.
pub open spec fn acked_offset(r: FetchResponseView, offset: LogIndex) -> Option<LogIndex> {
    if r.diverging_epoch is None && r.snapshot_redirect is None && offset.0 > 0 {
        Some(before(offset))
    } else {
        None
    }
}

/// The offset up to which an answered fetch shows that the replica has the log.
pub fn fetch_acks(r: &FetchResponse, offset: LogIndex) -> (a: Option<LogIndex>)
    ensures
        a == acked_offset(r@, offset),
{
    if r.diverging_epoch.is_none() && r.snapshot_redirect.is_none() && offset.0 > 0 {
        Some(LogIndex(offset.0 - 1))
    } else {
        None
    }
}

/// The answer to a fetch, from the latest snapshot, the term that the log holds
/// before the offset, the end of the log, and the entries of the batch.
pub open spec fn fetch_answer(
    anchor: Option<SnapshotMetaView>,
    q: FetchQuery,
    term_before: Option<Term>,
    log_end: (LogIndex, Term),
    batch: Seq<Entry>,
) -> FetchResponseView {
    let known = match anchor {
        Some(m) if m.last_included_index == before(q.fetch_offset) => Some(m.last_included_term),
        _ => term_before,
    };
    let tip = effective_tip(anchor, log_end.0, log_end.1);
    match redirect_for(anchor, q.fetch_offset) {
        Some(r) => leader_answer(q, seq![], None, Some(r)),
        None => if q.fetch_offset.0 > 1 && known != Some(q.last_fetched_epoch) {
            leader_answer(
                q,
                seq![],
                Some(
                    DivergingEpoch {
                        epoch: match known {
                            Some(t) => t,
                            None => tip.1,
                        },
                        end_offset: tip.0,
                    },
                ),
                None,
            )
        } else {
            leader_answer(q, batch, None, None)
        },
    }
}

/// What comes of the service of a fetch when every question is answered from
/// the same log.
pub open spec fn fetch_run(
    anchor: Option<SnapshotMetaView>,
    q: FetchQuery,
    max_batch: usize,
    next: FetchNextView,
    term_before: Option<Term>,
    log_end: (LogIndex, Term),
    batch: Vec<Entry>,
    fuel: nat,
) -> FetchNextView
    decreases fuel,
{
    match next {
        FetchNextView::Ask(stage, _) if fuel > 0 => {
            let outcome = match stage {
                FetchStage::Term => Outcome::Term(Ok(term_before)),
                FetchStage::Tip { .. } => Outcome::LogTip { index: log_end.0, term: log_end.1 },
                FetchStage::Range { .. } => Outcome::Entries(Ok(batch)),
            };
            fetch_run(
                anchor,
                q,
                max_batch,
                fetch_continue(anchor, q, max_batch, stage, outcome),
                term_before,
                log_end,
                batch,
                (fuel - 1) as nat,
            )
        },
        _ => next,
    }
}

/// A fetch is answered after at most two questions, and the answer is the one
/// that the log and the latest snapshot call for.
pub proof fn law_fetch_is_answered_from_the_log(
    anchor: Option<SnapshotMetaView>,
    q: FetchQuery,
    max_batch: usize,
    term_before: Option<Term>,
    log_end: (LogIndex, Term),
    batch: Vec<Entry>,
)
    ensures
        fetch_run(
            anchor,
            q,
            max_batch,
            fetch_begin(anchor, q, max_batch),
            term_before,
            log_end,
            batch,
            2,
        ) == FetchNextView::Answer(Ok(fetch_answer(anchor, q, term_before, log_end, batch@))),
{
    reveal_with_fuel(fetch_run, 3);
}

/// An answer carries entries, or says where the logs part, or redirects: never
/// two of these. Only a plain answer acknowledges anything.
pub proof fn law_fetch_answers_are_exclusive(
    anchor: Option<SnapshotMetaView>,
    q: FetchQuery,
    term_before: Option<Term>,
    log_end: (LogIndex, Term),
    batch: Seq<Entry>,
)
    ensures
        ({
            let r = fetch_answer(anchor, q, term_before, log_end, batch);
            &&& r.snapshot_redirect is Some ==> r.entries.len() == 0 && r.diverging_epoch is None
            &&& r.diverging_epoch is Some ==> r.entries.len() == 0 && r.snapshot_redirect is None
            &&& r.entries.len() > 0 ==> r.diverging_epoch is None && r.snapshot_redirect is None
            &&& acked_offset(r, q.fetch_offset) is Some ==> r.diverging_epoch is None
                && r.snapshot_redirect is None
            &&& r.is_leader
        }),
{
}

/// A replica that asks for an entry which the latest snapshot covers is
/// redirected to it, and what it asked is no acknowledgement.
pub proof fn law_compacted_offset_redirects(
    m: SnapshotMetaView,
    q: FetchQuery,
    term_before: Option<Term>,
    log_end: (LogIndex, Term),
    batch: Seq<Entry>,
)
    requires
        m.id.len() > 0,
        q.fetch_offset.0 <= m.last_included_index.0,
    ensures
        ({
            let r = fetch_answer(Some(m), q, term_before, log_end, batch);
            &&& r.snapshot_redirect == Some(redirect_to(m))
            &&& acked_offset(r, q.fetch_offset) is None
        }),
{
}

/// A replica that holds exactly what the latest snapshot covers is served
/// entries, whether or not the log still reaches back to the snapshot.
pub proof fn law_snapshot_anchor_vouches_for_its_term(
    m: SnapshotMetaView,
    q: FetchQuery,
    term_before: Option<Term>,
    log_end: (LogIndex, Term),
    batch: Seq<Entry>,
)
    requires
        q.fetch_offset.0 == m.last_included_index.0 + 1,
        q.last_fetched_epoch == m.last_included_term,
    ensures
        fetch_answer(Some(m), q, term_before, log_end, batch) == leader_answer(
            q,
            batch,
            None,
            None,
        ),
{
}

/// The end of the log never lies before the latest snapshot, nor before the
/// last entry.
pub proof fn law_effective_tip_covers_log_and_snapshot(
    anchor: Option<SnapshotMetaView>,
    log_index: LogIndex,
    log_term: Term,
)
    ensures
        effective_tip(anchor, log_index, log_term).0.0 >= log_index.0,
        anchor matches Some(m) ==> effective_tip(anchor, log_index, log_term).0.0
            >= m.last_included_index.0,
{
}

} // verus!
