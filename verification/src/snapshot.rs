//! Taking a snapshot of the state machine, and installing one that the leader
//! sent.
use vstd::prelude::*;
use vstd::string::*;

use crate::error::{error_text, ErrorView, XRaftError};
use crate::fetch::{anchor_of, effective_log_tip, effective_tip};
use crate::host::{
    answers, is_failure, EffectView, Observation, Outbox, Outcome, Request, RequestView,
};
use crate::message::{Action, Input, InputView};
use crate::text::{decimal, push_decimal};
use crate::types::{
    canonical_id, canonical_snapshot_id, duplicate_voters, index_text, voters_view, LogIndex,
    NodeId, NodeView, SnapshotMeta, SnapshotMetaView, Term,
};
use crate::waiters::elapsed;

verus! {

/// `(term=.., index=..)` of an anchor.
pub open spec fn place_text(term: Term, index: LogIndex) -> Seq<char> {
    "(term="@ + decimal(term.0 as nat) + ", index="@ + decimal(index.0 as nat) + ")"@
}

/// `what` at an anchor failed because of `e`.
pub open spec fn failed_at(
    what: Seq<char>,
    term: Term,
    index: LogIndex,
    e: ErrorView,
) -> ErrorView {
    ErrorView::Storage(what + place_text(term, index) + " failed: "@ + error_text(e))
}

/// Builds the error that `what` at an anchor failed because of `e`.
fn fail_at(what: &str, term: Term, index: LogIndex, e: &XRaftError) -> (r: XRaftError)
    ensures
        r@ == failed_at(what@, term, index, e@),
{
    let mut msg = what.to_owned();
    msg.append("(term=");
    push_decimal(&mut msg, term.0);
    msg.append(", index=");
    push_decimal(&mut msg, index.0);
    msg.append(")");
    assert(msg@ =~= what@ + place_text(term, index));
    msg.append(" failed: ");
    msg.append(e.text().as_str());
    XRaftError::Storage(msg)
}

/// A description under the id that its anchor gives it.
pub open spec fn canonical(m: SnapshotMetaView) -> SnapshotMetaView {
    SnapshotMetaView { id: canonical_id(m.last_included_term, m.last_included_index), ..m }
}

/// What the taking of a snapshot waits for. `started_at` is when it began.
#[derive(Debug)]
pub enum TakeStage {
    /// The term of the last entry that the snapshot covers.
    Term { through: LogIndex, started_at: u64 },
    /// The state machine's state.
    Data { through: LogIndex, term: Term, started_at: u64 },
    /// The store. The description does not carry its id yet.
    Save { metadata: SnapshotMeta, bytes: u64, started_at: u64 },
    /// The engine.
    Engine { metadata: SnapshotMeta },
}

/// What a [`TakeStage`] holds.
#[verifier::ext_equal]
pub enum TakeStageView {
    Term { through: LogIndex, started_at: u64 },
    Data { through: LogIndex, term: Term, started_at: u64 },
    Save { metadata: SnapshotMetaView, bytes: u64, started_at: u64 },
    Engine { metadata: SnapshotMetaView },
}

impl View for TakeStage {
    type V = TakeStageView;

    open spec fn view(&self) -> TakeStageView {
        match self {
            TakeStage::Term { through, started_at } => TakeStageView::Term {
                through: *through,
                started_at: *started_at,
            },
            TakeStage::Data { through, term, started_at } => TakeStageView::Data {
                through: *through,
                term: *term,
                started_at: *started_at,
            },
            TakeStage::Save { metadata, bytes, started_at } => TakeStageView::Save {
                metadata: metadata@,
                bytes: *bytes,
                started_at: *started_at,
            },
            TakeStage::Engine { metadata } => TakeStageView::Engine { metadata: metadata@ },
        }
    }
}

/// What comes next in the taking of a snapshot.
#[derive(Debug)]
pub enum TakeNext {
    /// The host is asked for something.
    Ask(TakeStage, Request),
    /// The snapshot is taken; the engine asks for `actions`.
    Taken { metadata: SnapshotMeta, actions: Vec<Action> },
    /// The snapshot is not taken.
    Failed(XRaftError),
}

/// What a [`TakeNext`] says.
#[verifier::ext_equal]
pub enum TakeNextView {
    Ask(TakeStageView, RequestView),
    Taken { metadata: SnapshotMetaView, actions: Seq<Action> },
    Failed(ErrorView),
}

impl View for TakeNext {
    type V = TakeNextView;

    open spec fn view(&self) -> TakeNextView {
        match self {
            TakeNext::Ask(stage, request) => TakeNextView::Ask(stage@, request@),
            TakeNext::Taken { metadata, actions } => TakeNextView::Taken {
                metadata: metadata@,
                actions: actions@,
            },
            TakeNext::Failed(e) => TakeNextView::Failed(e@),
        }
    }
}

/// Whether an outcome is what a stage waits for.
pub open spec fn take_expects(stage: TakeStageView, outcome: Outcome) -> bool {
    match stage {
        TakeStageView::Term { .. } => outcome is Term,
        TakeStageView::Data { .. } => outcome is Data,
        TakeStageView::Save { .. } => outcome is Done,
        TakeStageView::Engine { .. } => outcome is Engine,
    }
}

/// The engine's state after an outcome.
pub open spec fn node_after(node: NodeView, outcome: Outcome) -> NodeView {
    match outcome {
        Outcome::Engine { node: n, actions: _ } => n,
        Outcome::Node(n) => n,
        _ => node,
    }
}

/// The description of a snapshot of `data` through the entry at `through`.
pub open spec fn fresh_meta(
    voters: Option<Seq<NodeId>>,
    through: LogIndex,
    term: Term,
    data: Seq<u8>,
) -> SnapshotMetaView {
    SnapshotMetaView {
        id: Seq::empty(),
        last_included_index: through,
        last_included_term: term,
        voter_set: voters,
        size_bytes: Some(data.len() as u64),
        checksum: None,
    }
}

/// How the taking of a snapshot goes on. The state machine is asked once the
/// anchor's term is known, the store once there is something to store, and the
/// engine once it is stored.
pub open spec fn take_continue(
    voters: Option<Seq<NodeId>>,
    stage: TakeStageView,
    outcome: Outcome,
) -> TakeNextView {
    match (stage, outcome) {
        (TakeStageView::Term { through, started_at }, Outcome::Term(Ok(found))) => if found is Some
            || through.0 == 0 {
            TakeNextView::Ask(
                TakeStageView::Data {
                    through,
                    term: match found {
                        Some(t) => t,
                        None => Term(0),
                    },
                    started_at,
                },
                RequestView::SnapshotStateMachine,
            )
        } else {
            TakeNextView::Failed(
                ErrorView::Storage(
                    "snapshot: no entry at through_index "@ + index_text(through)
                        + " to anchor SnapshotMeta term"@,
                ),
            )
        },
        (TakeStageView::Term { through, started_at }, Outcome::Term(Err(e))) => TakeNextView::Failed(
            e@,
        ),
        (TakeStageView::Data { through, term, started_at }, Outcome::Data(Ok(data))) =>
            TakeNextView::Ask(
            TakeStageView::Save {
                metadata: fresh_meta(voters, through, term, data@),
                bytes: data@.len() as u64,
                started_at,
            },
            RequestView::SaveSnapshot {
                metadata: fresh_meta(voters, through, term, data@),
                data: data@,
            },
        ),
        (TakeStageView::Data { through, term, started_at }, Outcome::Data(Err(e))) =>
            TakeNextView::Failed(
            ErrorView::Storage(
                "state machine snapshot at "@ + index_text(through) + " failed: "@ + error_text(
                    e@,
                ),
            ),
        ),
        (TakeStageView::Save { metadata, bytes, started_at }, Outcome::Done(Ok(_))) =>
            TakeNextView::Ask(
            TakeStageView::Engine { metadata: canonical(metadata) },
            RequestView::StepEngine(
                InputView::SnapshotComplete { metadata: canonical(metadata) },
            ),
        ),
        (TakeStageView::Save { metadata, bytes, started_at }, Outcome::Done(Err(e))) =>
            TakeNextView::Failed(
            failed_at(
                "save_snapshot at "@,
                metadata.last_included_term,
                metadata.last_included_index,
                e@,
            ),
        ),
        (TakeStageView::Engine { metadata }, Outcome::Engine { node, actions }) =>
            TakeNextView::Taken { metadata, actions: actions@ },
        _ => arbitrary(),
    }
}

/// What is told when the taking of a snapshot goes on: that it is stored.
pub open spec fn take_effects(stage: TakeStageView, outcome: Outcome, now: u64) -> Seq<EffectView> {
    match (stage, outcome) {
        (TakeStageView::Save { metadata, bytes, started_at }, Outcome::Done(Ok(_))) => seq![
            EffectView::Observe(
                Observation::SnapshotTaken { bytes, elapsed: elapsed(started_at, now) },
            ),
        ],
        _ => seq![],
    }
}

/// Begins to take a snapshot through the entry at `through`.
pub fn begin_take(through: LogIndex, now: u64) -> (r: (TakeStage, Request))
    ensures
        r.0@ == (TakeStageView::Term { through, started_at: now }),
        r.1@ == RequestView::ReadTerm(through),
        forall|o: Outcome| take_expects(r.0@, o) == #[trigger] answers(r.1@, o),
{
    (TakeStage::Term { through, started_at: now }, Request::ReadTerm(through))
}

/// Goes on to take a snapshot.
pub fn continue_take(
    node: &mut NodeView,
    stage: TakeStage,
    outcome: Outcome,
    now: u64,
    outbox: &mut Outbox,
) -> (r: TakeNext)
    requires
        take_expects(stage@, outcome),
    ensures
        r@ == take_continue(voters_view(old(node).voter_set), stage@, outcome),
        *final(node) == node_after(*old(node), outcome),
        final(outbox)@ == old(outbox)@ + take_effects(stage@, outcome, now),
        r matches TakeNext::Ask(stage, request) ==> forall|o: Outcome|
            take_expects(stage@, o) == #[trigger] answers(request@, o),
{
    let ghost start = outbox@;
    assert(start =~= start + Seq::<EffectView>::empty());
    match (stage, outcome) {
        (TakeStage::Term { through, started_at }, Outcome::Term(Ok(found))) => {
            let term: Term = match found {
                Some(t) => t,
                None => {
                    if through.0 != 0 {
                        let mut msg = "snapshot: no entry at through_index ".to_owned();
                        through.push_text(&mut msg);
                        msg.append(" to anchor SnapshotMeta term");
                        return TakeNext::Failed(XRaftError::Storage(msg));
                    }
                    Term(0)
                },
            };
            TakeNext::Ask(
                TakeStage::Data { through, term, started_at },
                Request::SnapshotStateMachine,
            )
        },
        (TakeStage::Term { through: _, started_at: _ }, Outcome::Term(Err(e))) => TakeNext::Failed(
            e,
        ),
        (TakeStage::Data { through, term, started_at }, Outcome::Data(Ok(data))) => {
            let bytes: u64 = data.len() as u64;
            let metadata = SnapshotMeta {
                id: String::new(),
                last_included_index: through,
                last_included_term: term,
                voter_set: duplicate_voters(&node.voter_set),
                size_bytes: Some(bytes),
                checksum: None,
            };
            assert(metadata@ =~= fresh_meta(
                voters_view(old(node).voter_set),
                through,
                term,
                data@,
            ));
            let copy = metadata.duplicate();
            TakeNext::Ask(
                TakeStage::Save { metadata, bytes, started_at },
                Request::SaveSnapshot { metadata: copy, data },
            )
        },
        (TakeStage::Data { through, term: _, started_at: _ }, Outcome::Data(Err(e))) => {
            let mut msg = "state machine snapshot at ".to_owned();
            through.push_text(&mut msg);
            msg.append(" failed: ");
            msg.append(e.text().as_str());
            TakeNext::Failed(XRaftError::Storage(msg))
        },
        (TakeStage::Save { metadata, bytes, started_at }, Outcome::Done(Ok(_))) => {
            let mut metadata = metadata;
            let ghost stored = metadata@;
            metadata.id = canonical_snapshot_id(
                metadata.last_included_term,
                metadata.last_included_index,
            );
            assert(metadata@ =~= canonical(stored));
            let elapsed: u64 = if now >= started_at {
                now - started_at
            } else {
                0
            };
            outbox.observe(Observation::SnapshotTaken { bytes, elapsed });
            assert(outbox@ =~= start + take_effects(stage@, outcome, now));
            let copy = metadata.duplicate();
            TakeNext::Ask(
                TakeStage::Engine { metadata },
                Request::StepEngine(Input::SnapshotComplete { metadata: copy }),
            )
        },
        (TakeStage::Save { metadata, bytes: _, started_at: _ }, Outcome::Done(Err(e))) => {
            TakeNext::Failed(
                fail_at(
                    "save_snapshot at ",
                    metadata.last_included_term,
                    metadata.last_included_index,
                    &e,
                ),
            )
        },
        (TakeStage::Engine { metadata }, Outcome::Engine { node: n, actions }) => {
            *node = n;
            TakeNext::Taken { metadata, actions }
        },
        _ => {
            assert(false);
            TakeNext::Failed(XRaftError::Shutdown)
        },
    }
}

/// What the installation of a snapshot waits for.
#[derive(Debug)]
pub enum InstallStage {
    /// The store.
    Save { metadata: SnapshotMeta, data: Vec<u8> },
    /// The state machine.
    Restore { metadata: SnapshotMeta },
    /// The term that the log holds at the anchor.
    Anchor { metadata: SnapshotMeta },
    /// The removal of the whole log.
    Wipe { metadata: SnapshotMeta },
    /// The flush after that.
    WipeFlush { metadata: SnapshotMeta },
    /// The removal of the log up to the anchor.
    Purge { metadata: SnapshotMeta },
    /// The flush after that.
    PurgeFlush { metadata: SnapshotMeta },
    /// The engine.
    Engine,
    /// The end of the log.
    Tip { actions: Vec<Action> },
    /// The engine, which is told the end of the log.
    Tail { actions: Vec<Action> },
}

/// What an [`InstallStage`] holds.
#[verifier::ext_equal]
pub enum InstallStageView {
    Save { metadata: SnapshotMetaView, data: Seq<u8> },
    Restore { metadata: SnapshotMetaView },
    Anchor { metadata: SnapshotMetaView },
    Wipe { metadata: SnapshotMetaView },
    WipeFlush { metadata: SnapshotMetaView },
    Purge { metadata: SnapshotMetaView },
    PurgeFlush { metadata: SnapshotMetaView },
    Engine,
    Tip { actions: Seq<Action> },
    Tail { actions: Seq<Action> },
}

impl View for InstallStage {
    type V = InstallStageView;

    open spec fn view(&self) -> InstallStageView {
        match self {
            InstallStage::Save { metadata, data } => InstallStageView::Save {
                metadata: metadata@,
                data: data@,
            },
            InstallStage::Restore { metadata } => InstallStageView::Restore { metadata: metadata@ },
            InstallStage::Anchor { metadata } => InstallStageView::Anchor { metadata: metadata@ },
            InstallStage::Wipe { metadata } => InstallStageView::Wipe { metadata: metadata@ },
            InstallStage::WipeFlush { metadata } => InstallStageView::WipeFlush {
                metadata: metadata@,
            },
            InstallStage::Purge { metadata } => InstallStageView::Purge { metadata: metadata@ },
            InstallStage::PurgeFlush { metadata } => InstallStageView::PurgeFlush {
                metadata: metadata@,
            },
            InstallStage::Engine => InstallStageView::Engine,
            InstallStage::Tip { actions } => InstallStageView::Tip { actions: actions@ },
            InstallStage::Tail { actions } => InstallStageView::Tail { actions: actions@ },
        }
    }
}

/// What comes next in the installation of a snapshot.
#[derive(Debug)]
pub enum InstallNext {
    /// The host is asked for something.
    Ask(InstallStage, Request),
    /// The snapshot is installed, or need not be; the engine asks for the
    /// actions.
    Installed(Vec<Action>),
    /// The snapshot is not installed.
    Failed(XRaftError),
}

/// What an [`InstallNext`] says.
#[verifier::ext_equal]
pub enum InstallNextView {
    Ask(InstallStageView, RequestView),
    Installed(Seq<Action>),
    Failed(ErrorView),
}

impl View for InstallNext {
    type V = InstallNextView;

    open spec fn view(&self) -> InstallNextView {
        match self {
            InstallNext::Ask(stage, request) => InstallNextView::Ask(stage@, request@),
            InstallNext::Installed(actions) => InstallNextView::Installed(actions@),
            InstallNext::Failed(e) => InstallNextView::Failed(e@),
        }
    }
}

/// Whether an outcome is what a stage waits for.
pub open spec fn install_expects(stage: InstallStageView, outcome: Outcome) -> bool {
    match stage {
        InstallStageView::Save { .. } | InstallStageView::Restore { .. }
        | InstallStageView::Wipe { .. } | InstallStageView::WipeFlush { .. }
        | InstallStageView::Purge { .. } | InstallStageView::PurgeFlush { .. } => outcome is Done,
        InstallStageView::Anchor { .. } => outcome is Term,
        InstallStageView::Engine => outcome is Engine,
        InstallStageView::Tip { .. } => outcome is LogTip,
        InstallStageView::Tail { .. } => outcome is Node,
    }
}

/// How the installation of a snapshot begins. One that does not reach beyond
/// what is applied already is ignored.
pub open spec fn install_begin(
    last_applied: LogIndex,
    metadata: SnapshotMetaView,
    data: Seq<u8>,
) -> InstallNextView {
    if metadata.last_included_index.0 <= last_applied.0 {
        InstallNextView::Installed(seq![])
    } else {
        InstallNextView::Ask(
            InstallStageView::Save { metadata, data },
            RequestView::SaveSnapshot { metadata, data },
        )
    }
}

/// The engine learns of an installed snapshot.
pub open spec fn tell_engine(metadata: SnapshotMetaView) -> InstallNextView {
    InstallNextView::Ask(
        InstallStageView::Engine,
        RequestView::StepEngine(InputView::SnapshotInstalled { metadata: canonical(metadata) }),
    )
}

/// How the installation of a snapshot goes on: it is stored, then the state
/// machine is restored, then the log is brought in line, and then the engine
/// learns of it. The log keeps what follows the anchor if its entry at the
/// anchor has the snapshot's term, and nothing otherwise.
pub open spec fn install_continue(
    node: NodeView,
    stage: InstallStageView,
    outcome: Outcome,
) -> InstallNextView {
    match (stage, outcome) {
        (InstallStageView::Save { metadata, data }, Outcome::Done(Ok(_))) => InstallNextView::Ask(
            InstallStageView::Restore { metadata },
            RequestView::RestoreStateMachine(data),
        ),
        (InstallStageView::Save { metadata, data }, Outcome::Done(Err(e))) =>
            InstallNextView::Failed(
            failed_at(
                "save_snapshot (install) at "@,
                metadata.last_included_term,
                metadata.last_included_index,
                e@,
            ),
        ),
        (InstallStageView::Restore { metadata }, Outcome::Done(Ok(_))) => InstallNextView::Ask(
            InstallStageView::Anchor { metadata },
            RequestView::ReadTerm(metadata.last_included_index),
        ),
        (InstallStageView::Restore { metadata }, Outcome::Done(Err(e))) => InstallNextView::Failed(
            failed_at(
                "state machine restore at "@,
                metadata.last_included_term,
                metadata.last_included_index,
                e@,
            ),
        ),
        (InstallStageView::Anchor { metadata }, Outcome::Term(Ok(found))) => if found == Some(
            metadata.last_included_term,
        ) {
            InstallNextView::Ask(
                InstallStageView::Purge { metadata },
                RequestView::PurgeLogPrefix(metadata.last_included_index),
            )
        } else {
            InstallNextView::Ask(
                InstallStageView::Wipe { metadata },
                RequestView::TruncateLogFrom(LogIndex(1)),
            )
        },
        (InstallStageView::Anchor { metadata }, Outcome::Term(Err(e))) => InstallNextView::Failed(
            ErrorView::Storage(
                "term_at("@ + index_text(metadata.last_included_index)
                    + ") failed before install-snapshot log wipe: "@ + error_text(e@),
            ),
        ),
        (InstallStageView::Wipe { metadata }, Outcome::Done(Ok(_))) => InstallNextView::Ask(
            InstallStageView::WipeFlush { metadata },
            RequestView::FlushLog,
        ),
        (InstallStageView::Wipe { metadata }, Outcome::Done(Err(e))) => InstallNextView::Failed(
            failed_at(
                "log truncate (install-snapshot wipe) at "@,
                metadata.last_included_term,
                metadata.last_included_index,
                e@,
            ),
        ),
        (InstallStageView::WipeFlush { metadata }, Outcome::Done(Ok(_))) => tell_engine(metadata),
        (InstallStageView::WipeFlush { metadata }, Outcome::Done(Err(e))) =>
            InstallNextView::Failed(
            failed_at(
                "log flush (install-snapshot wipe) at "@,
                metadata.last_included_term,
                metadata.last_included_index,
                e@,
            ),
        ),
        (InstallStageView::Purge { metadata }, Outcome::Done(Ok(_))) => InstallNextView::Ask(
            InstallStageView::PurgeFlush { metadata },
            RequestView::FlushLog,
        ),
        (InstallStageView::Purge { metadata }, Outcome::Done(Err(e))) => InstallNextView::Failed(
            failed_at(
                "log purge_prefix (install-snapshot retain) at "@,
                metadata.last_included_term,
                metadata.last_included_index,
                e@,
            ),
        ),
        (InstallStageView::PurgeFlush { metadata }, Outcome::Done(Ok(_))) => tell_engine(metadata),
        (InstallStageView::PurgeFlush { metadata }, Outcome::Done(Err(e))) =>
            InstallNextView::Failed(
            failed_at(
                "log flush (install-snapshot retain) at "@,
                metadata.last_included_term,
                metadata.last_included_index,
                e@,
            ),
        ),
        (InstallStageView::Engine, Outcome::Engine { node: n, actions }) => InstallNextView::Ask(
            InstallStageView::Tip { actions: actions@ },
            RequestView::ReadLogTip,
        ),
        (InstallStageView::Tip { actions }, Outcome::LogTip { index, term }) => {
            let tip = effective_tip(anchor_of(&node), index, term);
            InstallNextView::Ask(
                InstallStageView::Tail { actions },
                RequestView::SetLastLog { index: tip.0, term: tip.1 },
            )
        },
        (InstallStageView::Tail { actions }, Outcome::Node(n)) => InstallNextView::Installed(
            actions,
        ),
        _ => arbitrary(),
    }
}

/// What is told when the installation of a snapshot goes on: that it is done.
pub open spec fn install_effects(stage: InstallStageView) -> Seq<EffectView> {
    match stage {
        InstallStageView::Tail { .. } => seq![EffectView::Observe(Observation::SnapshotInstalled)],
        _ => seq![],
    }
}

/// Begins to install a snapshot.
pub fn begin_install(node: &NodeView, metadata: SnapshotMeta, data: Vec<u8>) -> (r: InstallNext)
    ensures
        r@ == install_begin(node.last_applied, metadata@, data@),
        r matches InstallNext::Ask(stage, request) ==> forall|o: Outcome|
            install_expects(stage@, o) == #[trigger] answers(request@, o),
{
    if metadata.last_included_index.0 <= node.last_applied.0 {
        let none: Vec<Action> = Vec::new();
        assert(none@ =~= seq![]);
        return InstallNext::Installed(none);
    }
    let copy = metadata.duplicate();
    let bytes: Vec<u8> = data.clone();
    assert(bytes@ =~= data@);
    InstallNext::Ask(
        InstallStage::Save { metadata, data },
        Request::SaveSnapshot { metadata: copy, data: bytes },
    )
}

/// Tells the engine of an installed snapshot.
fn make_tell_engine(metadata: SnapshotMeta) -> (r: InstallNext)
    ensures
        r@ == tell_engine(metadata@),
{
    let mut feedback = metadata;
    let ghost given = feedback@;
    feedback.id = canonical_snapshot_id(
        feedback.last_included_term,
        feedback.last_included_index,
    );
    assert(feedback@ =~= canonical(given));
    InstallNext::Ask(
        InstallStage::Engine,
        Request::StepEngine(Input::SnapshotInstalled { metadata: feedback }),
    )
}

/// Goes on to install a snapshot.
pub fn continue_install(
    node: &mut NodeView,
    stage: InstallStage,
    outcome: Outcome,
    outbox: &mut Outbox,
) -> (r: InstallNext)
    requires
        install_expects(stage@, outcome),
    ensures
        r@ == install_continue(*old(node), stage@, outcome),
        *final(node) == node_after(*old(node), outcome),
        final(outbox)@ == old(outbox)@ + install_effects(stage@),
        r matches InstallNext::Ask(stage, request) ==> forall|o: Outcome|
            install_expects(stage@, o) == #[trigger] answers(request@, o),
{
    let ghost start = outbox@;
    assert(start =~= start + Seq::<EffectView>::empty());
    match (stage, outcome) {
        (InstallStage::Save { metadata, data }, Outcome::Done(Ok(_))) => InstallNext::Ask(
            InstallStage::Restore { metadata },
            Request::RestoreStateMachine(data),
        ),
        (InstallStage::Save { metadata, data: _ }, Outcome::Done(Err(e))) => InstallNext::Failed(
            fail_at(
                "save_snapshot (install) at ",
                metadata.last_included_term,
                metadata.last_included_index,
                &e,
            ),
        ),
        (InstallStage::Restore { metadata }, Outcome::Done(Ok(_))) => {
            let index: LogIndex = metadata.last_included_index;
            InstallNext::Ask(InstallStage::Anchor { metadata }, Request::ReadTerm(index))
        },
        (InstallStage::Restore { metadata }, Outcome::Done(Err(e))) => InstallNext::Failed(
            fail_at(
                "state machine restore at ",
                metadata.last_included_term,
                metadata.last_included_index,
                &e,
            ),
        ),
        (InstallStage::Anchor { metadata }, Outcome::Term(Ok(found))) => {
            let retain: bool = match found {
                Some(t) => t == metadata.last_included_term,
                None => false,
            };
            let index: LogIndex = metadata.last_included_index;
            if retain {
                InstallNext::Ask(InstallStage::Purge { metadata }, Request::PurgeLogPrefix(index))
            } else {
                InstallNext::Ask(
                    InstallStage::Wipe { metadata },
                    Request::TruncateLogFrom(LogIndex(1)),
                )
            }
        },
        (InstallStage::Anchor { metadata }, Outcome::Term(Err(e))) => {
            let mut msg = "term_at(".to_owned();
            metadata.last_included_index.push_text(&mut msg);
            msg.append(") failed before install-snapshot log wipe: ");
            msg.append(e.text().as_str());
            InstallNext::Failed(XRaftError::Storage(msg))
        },
        (InstallStage::Wipe { metadata }, Outcome::Done(Ok(_))) => InstallNext::Ask(
            InstallStage::WipeFlush { metadata },
            Request::FlushLog,
        ),
        (InstallStage::Wipe { metadata }, Outcome::Done(Err(e))) => InstallNext::Failed(
            fail_at(
                "log truncate (install-snapshot wipe) at ",
                metadata.last_included_term,
                metadata.last_included_index,
                &e,
            ),
        ),
        (InstallStage::WipeFlush { metadata }, Outcome::Done(Ok(_))) => make_tell_engine(metadata),
        (InstallStage::WipeFlush { metadata }, Outcome::Done(Err(e))) => InstallNext::Failed(
            fail_at(
                "log flush (install-snapshot wipe) at ",
                metadata.last_included_term,
                metadata.last_included_index,
                &e,
            ),
        ),
        (InstallStage::Purge { metadata }, Outcome::Done(Ok(_))) => InstallNext::Ask(
            InstallStage::PurgeFlush { metadata },
            Request::FlushLog,
        ),
        (InstallStage::Purge { metadata }, Outcome::Done(Err(e))) => InstallNext::Failed(
            fail_at(
                "log purge_prefix (install-snapshot retain) at ",
                metadata.last_included_term,
                metadata.last_included_index,
                &e,
            ),
        ),
        (InstallStage::PurgeFlush { metadata }, Outcome::Done(Ok(_))) => make_tell_engine(metadata),
        (InstallStage::PurgeFlush { metadata }, Outcome::Done(Err(e))) => InstallNext::Failed(
            fail_at(
                "log flush (install-snapshot retain) at ",
                metadata.last_included_term,
                metadata.last_included_index,
                &e,
            ),
        ),
        (InstallStage::Engine, Outcome::Engine { node: n, actions }) => {
            *node = n;
            InstallNext::Ask(InstallStage::Tip { actions }, Request::ReadLogTip)
        },
        (InstallStage::Tip { actions }, Outcome::LogTip { index, term }) => {
            let (index, term): (LogIndex, Term) = effective_log_tip(node, index, term);
            InstallNext::Ask(InstallStage::Tail { actions }, Request::SetLastLog { index, term })
        },
        (InstallStage::Tail { actions }, Outcome::Node(n)) => {
            *node = n;
            outbox.observe(Observation::SnapshotInstalled);
            assert(outbox@ =~= start + install_effects(stage@));
            InstallNext::Installed(actions)
        },
        _ => {
            assert(false);
            InstallNext::Failed(XRaftError::Shutdown)
        },
    }
}

/// A snapshot that does not reach beyond what is applied already touches
/// nothing: no call is made and nothing is asked for.
pub proof fn law_stale_snapshot_is_ignored(
    last_applied: LogIndex,
    metadata: SnapshotMetaView,
    data: Seq<u8>,
)
    ensures
        metadata.last_included_index.0 <= last_applied.0 <==> install_begin(
            last_applied,
            metadata,
            data,
        ) == InstallNextView::Installed(seq![]),
{
}

/// An installation fails exactly when a call fails, and then makes no further
/// call.
pub proof fn law_install_fails_with_its_calls(
    node: NodeView,
    stage: InstallStageView,
    outcome: Outcome,
)
    requires
        install_expects(stage, outcome),
    ensures
        is_failure(outcome) <==> install_continue(node, stage, outcome) is Failed,
        install_continue(node, stage, outcome) matches InstallNextView::Failed(e) ==> e is Storage,
{
}

/// The state machine is restored only from bytes that the store has accepted,
/// and the log is touched only after the state machine has been restored.
pub proof fn law_install_saves_before_it_restores(
    node: NodeView,
    stage: InstallStageView,
    outcome: Outcome,
)
    requires
        install_expects(stage, outcome),
        install_continue(node, stage, outcome) is Ask,
    ensures
        ({
            let request = install_continue(node, stage, outcome)->Ask_1;
            &&& !is_failure(outcome)
            &&& request is RestoreStateMachine ==> stage is Save && request
                == RequestView::RestoreStateMachine(stage->data)
            &&& request is ReadTerm ==> stage is Restore
            &&& request is TruncateLogFrom || request is PurgeLogPrefix ==> stage is Anchor
            &&& request is StepEngine ==> stage is WipeFlush || stage is PurgeFlush
        }),
{
}

/// What follows the anchor survives exactly if the log agrees with the
/// snapshot at the anchor.
pub proof fn law_install_retains_a_matching_suffix(
    node: NodeView,
    metadata: SnapshotMetaView,
    found: Option<Term>,
)
    ensures
        ({
            let next = install_continue(
                node,
                InstallStageView::Anchor { metadata },
                Outcome::Term(Ok(found)),
            );
            if found == Some(metadata.last_included_term) {
                next matches InstallNextView::Ask(_, request) && request
                    == RequestView::PurgeLogPrefix(metadata.last_included_index)
            } else {
                next matches InstallNextView::Ask(_, request) && request
                    == RequestView::TruncateLogFrom(LogIndex(1))
            }
        }),
{
}

/// The engine never hears of a snapshot that is not stored.
pub proof fn law_snapshot_is_stored_before_the_engine_knows(
    voters: Option<Seq<NodeId>>,
    stage: TakeStageView,
    outcome: Outcome,
)
    requires
        take_expects(stage, outcome),
        take_continue(voters, stage, outcome) matches TakeNextView::Ask(_, request)
            && request is StepEngine,
    ensures
        stage is Save,
        !is_failure(outcome),
{
}

/// An installation that fails names the call that failed, where the snapshot is anchored, and
/// the call's own error.
pub proof fn law_failed_installations_are_worded(
    node: NodeView,
    metadata: SnapshotMetaView,
    data: Seq<u8>,
    e: XRaftError,
)
    ensures
        ({
            let place = "(term="@ + decimal(metadata.last_included_term.0 as nat) + ", index="@
                + decimal(metadata.last_included_index.0 as nat) + ")"@;
            let failed = Outcome::Done(Err(e));
            let because = " failed: "@ + error_text(e@);
            &&& install_continue(node, InstallStageView::Save { metadata, data }, failed)
                == InstallNextView::Failed(
                ErrorView::Storage("save_snapshot (install) at "@ + place + because),
            )
            &&& install_continue(node, InstallStageView::Restore { metadata }, failed)
                == InstallNextView::Failed(
                ErrorView::Storage("state machine restore at "@ + place + because),
            )
            &&& install_continue(
                node,
                InstallStageView::Anchor { metadata },
                Outcome::Term(Err(e)),
            ) == InstallNextView::Failed(
                ErrorView::Storage(
                    "term_at("@ + index_text(metadata.last_included_index)
                        + ") failed before install-snapshot log wipe: "@ + error_text(e@),
                ),
            )
            &&& install_continue(node, InstallStageView::Wipe { metadata }, failed)
                == InstallNextView::Failed(
                ErrorView::Storage("log truncate (install-snapshot wipe) at "@ + place + because),
            )
            &&& install_continue(node, InstallStageView::WipeFlush { metadata }, failed)
                == InstallNextView::Failed(
                ErrorView::Storage("log flush (install-snapshot wipe) at "@ + place + because),
            )
            &&& install_continue(node, InstallStageView::Purge { metadata }, failed)
                == InstallNextView::Failed(
                ErrorView::Storage(
                    "log purge_prefix (install-snapshot retain) at "@ + place + because,
                ),
            )
            &&& install_continue(node, InstallStageView::PurgeFlush { metadata }, failed)
                == InstallNextView::Failed(
                ErrorView::Storage("log flush (install-snapshot retain) at "@ + place + because),
            )
        }),
{
    let place = "(term="@ + decimal(metadata.last_included_term.0 as nat) + ", index="@ + decimal(
        metadata.last_included_index.0 as nat,
    ) + ")"@;
    lemma_failed_at("save_snapshot (install) at "@, metadata, place, e);
    lemma_failed_at("state machine restore at "@, metadata, place, e);
    lemma_failed_at("log truncate (install-snapshot wipe) at "@, metadata, place, e);
    lemma_failed_at("log flush (install-snapshot wipe) at "@, metadata, place, e);
    lemma_failed_at("log purge_prefix (install-snapshot retain) at "@, metadata, place, e);
    lemma_failed_at("log flush (install-snapshot retain) at "@, metadata, place, e);
}

proof fn lemma_failed_at(
    what: Seq<char>,
    metadata: SnapshotMetaView,
    place: Seq<char>,
    e: XRaftError,
)
    requires
        place == "(term="@ + decimal(metadata.last_included_term.0 as nat) + ", index="@ + decimal(
            metadata.last_included_index.0 as nat,
        ) + ")"@,
    ensures
        failed_at(what, metadata.last_included_term, metadata.last_included_index, e@)
            == ErrorView::Storage(what + place + (" failed: "@ + error_text(e@))),
{
    let f = failed_at(what, metadata.last_included_term, metadata.last_included_index, e@);
    assert(f->Storage_0 =~= what + place + (" failed: "@ + error_text(e@)));
}

/// A snapshot fails to be taken exactly if a call fails or the log has no entry to anchor it
/// at; what failed is named.
pub proof fn law_failed_takings_are_worded(
    voters: Option<Seq<NodeId>>,
    through: LogIndex,
    term: Term,
    metadata: SnapshotMetaView,
    bytes: u64,
    started_at: u64,
    e: XRaftError,
)
    ensures
        take_continue(
            voters,
            TakeStageView::Term { through, started_at },
            Outcome::Term(Err(e)),
        ) == TakeNextView::Failed(e@),
        through.0 > 0 ==> take_continue(
            voters,
            TakeStageView::Term { through, started_at },
            Outcome::Term(Ok(None)),
        ) == TakeNextView::Failed(
            ErrorView::Storage(
                "snapshot: no entry at through_index "@ + index_text(through)
                    + " to anchor SnapshotMeta term"@,
            ),
        ),
        take_continue(
            voters,
            TakeStageView::Data { through, term, started_at },
            Outcome::Data(Err(e)),
        ) == TakeNextView::Failed(
            ErrorView::Storage(
                "state machine snapshot at "@ + index_text(through) + " failed: "@ + error_text(e@),
            ),
        ),
        take_continue(
            voters,
            TakeStageView::Save { metadata, bytes, started_at },
            Outcome::Done(Err(e)),
        ) == TakeNextView::Failed(
            ErrorView::Storage(
                "save_snapshot at "@ + ("(term="@ + decimal(metadata.last_included_term.0 as nat)
                    + ", index="@ + decimal(metadata.last_included_index.0 as nat) + ")"@) + (
                " failed: "@ + error_text(e@)),
            ),
        ),
{
    lemma_failed_at(
        "save_snapshot at "@,
        metadata,
        "(term="@ + decimal(metadata.last_included_term.0 as nat) + ", index="@ + decimal(
            metadata.last_included_index.0 as nat,
        ) + ")"@,
        e,
    );
}

} // verus!
