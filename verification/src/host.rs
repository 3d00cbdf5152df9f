//! The boundary between the driver's decisions and the world: what the driver
//! asks its host to do, what the host reports back, and what the driver tells
//! the outside without waiting for a report.
use vstd::prelude::*;

use crate::config::{FetchDirection, TriggeredSnapshotInfo};
use crate::error::{ErrorView, XRaftError};
use crate::message::{
    all_in_range, Action, FetchResponse, FetchResponseView, FetchSnapshotChunk, Input, InputView,
    OutboundMessage, OutboundMessageView, PreVoteResponse, VoteResponse,
};
use crate::status::NodeStatus;
use crate::types::{
    Entry, LogIndex, NodeId, NodeView, SnapshotMeta, SnapshotMetaView, Term,
};

verus! {

/// Names the caller that waits for an answer.
pub type ReplyId = u64;

/// A call that the host makes for the driver, and whose outcome the driver
/// needs before it can go on.
#[derive(Clone, Debug, PartialEq, Eq)]
pub enum Request {
    /// Step the engine.
    StepEngine(Input),
    /// Make the engine a follower in the given term, with no known leader.
    BecomeFollower(Term),
    /// Ask the engine for what is committed and not applied yet.
    ApplyCommitted,
    /// Tell the engine where its log ends.
    SetLastLog { index: LogIndex, term: Term },
    /// Read index and term of the last entry of the log.
    ReadLogTip,
    /// Read the lowest index that the log still holds.
    ReadFirstValidIndex,
    /// Read the term of one entry.
    ReadTerm(LogIndex),
    /// Read the entries from `from` up to but not including `end`.
    ReadRange { from: LogIndex, end: LogIndex },
    /// Record the commit index in the engine's hard state and persist it.
    PersistHardState { commit_index: LogIndex },
    /// Append entries to the log.
    AppendLog(Vec<Entry>),
    /// Flush the log.
    FlushLog,
    /// Remove the entries from the given index on.
    TruncateLogFrom(LogIndex),
    /// Remove the entries up to the given index.
    PurgeLogPrefix(LogIndex),
    /// Apply a command to the state machine.
    Apply { index: LogIndex, command: Vec<u8> },
    /// Take a snapshot of the state machine.
    SnapshotStateMachine,
    /// Replace the state machine's state.
    RestoreStateMachine(Vec<u8>),
    /// Store a snapshot.
    SaveSnapshot { metadata: SnapshotMeta, data: Vec<u8> },
    /// Look a snapshot up by id.
    FindSnapshot(String),
    /// Read a snapshot in chunks. A `chunk_size` of zero leaves the size to the
    /// store.
    ReadSnapshot {
        metadata: SnapshotMeta,
        chunk_size: usize,
        offset: u64,
        max_bytes: Option<u64>,
    },
}

/// What a [`Request`] says.
#[verifier::ext_equal]
pub enum RequestView {
    StepEngine(InputView),
    BecomeFollower(Term),
    ApplyCommitted,
    SetLastLog { index: LogIndex, term: Term },
    ReadLogTip,
    ReadFirstValidIndex,
    ReadTerm(LogIndex),
    ReadRange { from: LogIndex, end: LogIndex },
    PersistHardState { commit_index: LogIndex },
    AppendLog(Seq<Entry>),
    FlushLog,
    TruncateLogFrom(LogIndex),
    PurgeLogPrefix(LogIndex),
    Apply { index: LogIndex, command: Seq<u8> },
    SnapshotStateMachine,
    RestoreStateMachine(Seq<u8>),
    SaveSnapshot { metadata: SnapshotMetaView, data: Seq<u8> },
    FindSnapshot(Seq<char>),
    ReadSnapshot {
        metadata: SnapshotMetaView,
        chunk_size: usize,
        offset: u64,
        max_bytes: Option<u64>,
    },
}

impl View for Request {
    type V = RequestView;

    open spec fn view(&self) -> RequestView {
        match self {
            Request::StepEngine(input) => RequestView::StepEngine(input@),
            Request::BecomeFollower(term) => RequestView::BecomeFollower(*term),
            Request::ApplyCommitted => RequestView::ApplyCommitted,
            Request::SetLastLog { index, term } => RequestView::SetLastLog {
                index: *index,
                term: *term,
            },
            Request::ReadLogTip => RequestView::ReadLogTip,
            Request::ReadFirstValidIndex => RequestView::ReadFirstValidIndex,
            Request::ReadTerm(index) => RequestView::ReadTerm(*index),
            Request::ReadRange { from, end } => RequestView::ReadRange { from: *from, end: *end },
            Request::PersistHardState { commit_index } => RequestView::PersistHardState {
                commit_index: *commit_index,
            },
            Request::AppendLog(entries) => RequestView::AppendLog(entries@),
            Request::FlushLog => RequestView::FlushLog,
            Request::TruncateLogFrom(index) => RequestView::TruncateLogFrom(*index),
            Request::PurgeLogPrefix(index) => RequestView::PurgeLogPrefix(*index),
            Request::Apply { index, command } => RequestView::Apply {
                index: *index,
                command: command@,
            },
            Request::SnapshotStateMachine => RequestView::SnapshotStateMachine,
            Request::RestoreStateMachine(data) => RequestView::RestoreStateMachine(data@),
            Request::SaveSnapshot { metadata, data } => RequestView::SaveSnapshot {
                metadata: metadata@,
                data: data@,
            },
            Request::FindSnapshot(id) => RequestView::FindSnapshot(id@),
            Request::ReadSnapshot { metadata, chunk_size, offset, max_bytes } =>
                RequestView::ReadSnapshot {
                metadata: metadata@,
                chunk_size: *chunk_size,
                offset: *offset,
                max_bytes: *max_bytes,
            },
        }
    }
}

/// A piece of a stored snapshot, before it is addressed to anyone.
#[derive(Clone, Debug, PartialEq, Eq)]
pub struct StoredChunk {
    pub chunk_index: u64,
    pub data: Vec<u8>,
    pub done: bool,
    pub metadata: Option<SnapshotMeta>,
}

/// What came of a [`Request`].
#[derive(Debug, PartialEq, Eq)]
pub enum Outcome {
    /// The engine was stepped: its state now, and what it asks for.
    Engine { node: NodeView, actions: Vec<Action> },
    /// The engine was told where its log ends: its state now.
    Node(NodeView),
    /// Index and term of the last entry of the log; zero for an empty log.
    LogTip { index: LogIndex, term: Term },
    /// The lowest index that the log still holds.
    FirstValidIndex(LogIndex),
    /// The term of an entry, if the log holds it.
    Term(Result<Option<Term>, XRaftError>),
    /// Entries of the log.
    Entries(Result<Vec<Entry>, XRaftError>),
    /// A change was made.
    Done(Result<(), XRaftError>),
    /// A snapshot of the state machine.
    Data(Result<Vec<u8>, XRaftError>),
    /// A stored snapshot, if there is one of that id.
    Found(Result<Option<SnapshotMeta>, XRaftError>),
    /// The pieces of a stored snapshot; a piece that cannot be read is an
    /// error in its place.
    Chunks(Result<Vec<Result<StoredChunk, XRaftError>>, XRaftError>),
}

impl Outcome {
    /// Whether what the engine shows of itself is valid, and what it asks for is
    /// in range.
    pub open spec fn sound(&self) -> bool {
        match self {
            Outcome::Engine { node, actions } => node.valid() && all_in_range(actions@),
            Outcome::Node(node) => node.valid(),
            _ => true,
        }
    }
}

/// Whether `outcome` is of the kind that `request` is answered with.
pub open spec fn answers(request: RequestView, outcome: Outcome) -> bool {
    match request {
        RequestView::StepEngine(_) | RequestView::BecomeFollower(_)
        | RequestView::ApplyCommitted => outcome is Engine,
        RequestView::SetLastLog { .. } => outcome is Node,
        RequestView::ReadLogTip => outcome is LogTip,
        RequestView::ReadFirstValidIndex => outcome is FirstValidIndex,
        RequestView::ReadTerm(_) => outcome is Term,
        RequestView::ReadRange { .. } => outcome is Entries,
        RequestView::PersistHardState { .. } | RequestView::AppendLog(_) | RequestView::FlushLog
        | RequestView::TruncateLogFrom(_) | RequestView::PurgeLogPrefix(_)
        | RequestView::Apply { .. } | RequestView::RestoreStateMachine(_)
        | RequestView::SaveSnapshot { .. } => outcome is Done,
        RequestView::SnapshotStateMachine => outcome is Data,
        RequestView::FindSnapshot(_) => outcome is Found,
        RequestView::ReadSnapshot { .. } => outcome is Chunks,
    }
}

/// Whether an outcome reports a failure.
pub open spec fn is_failure(outcome: Outcome) -> bool {
    match outcome {
        Outcome::Term(r) => r is Err,
        Outcome::Entries(r) => r is Err,
        Outcome::Done(r) => r is Err,
        Outcome::Data(r) => r is Err,
        Outcome::Found(r) => r is Err,
        Outcome::Chunks(r) => r is Err,
        _ => false,
    }
}

/// Something worth recording in metrics. Durations are in nanoseconds.
#[derive(Clone, Copy, Debug, PartialEq, Eq, Structural)]
pub enum Observation {
    Status(NodeStatus),
    Append(u64),
    ElectionWon(u64),
    FetchRequest(FetchDirection),
    ReplicationLag { replica: NodeId, lag: u64 },
    CommitLatency(u64),
    LeaderStepDown,
    SnapshotTaken { bytes: u64, elapsed: u64 },
    SnapshotInstalled,
    LogCompacted(u64),
}

/// Something that the driver tells the outside without waiting for a report.
#[derive(Debug, PartialEq, Eq)]
pub enum Effect {
    /// Answer a proposal.
    AnswerPropose { reply: ReplyId, result: Result<LogIndex, XRaftError> },
    /// Answer a read with an error.
    RefuseQuery { reply: ReplyId, error: XRaftError },
    /// Answer a read with what the state machine makes of it now.
    ServeQuery { reply: ReplyId, query: Vec<u8> },
    /// Answer a request for a snapshot.
    AnswerSnapshot { reply: ReplyId, result: Result<TriggeredSnapshotInfo, XRaftError> },
    /// Answer a vote request.
    AnswerVote { reply: ReplyId, result: Result<VoteResponse, XRaftError> },
    /// Answer a trial vote request.
    AnswerPreVote { reply: ReplyId, result: Result<PreVoteResponse, XRaftError> },
    /// Answer a fetch.
    AnswerFetch { reply: ReplyId, result: Result<FetchResponse, XRaftError> },
    /// Answer a snapshot fetch with the pieces of the snapshot.
    AnswerFetchSnapshot {
        reply: ReplyId,
        result: Result<Vec<Result<FetchSnapshotChunk, XRaftError>>, XRaftError>,
    },
    /// Send a message.
    Dispatch { to: NodeId, message: OutboundMessage },
    /// Record an observation.
    Observe(Observation),
}

/// What a [`FetchSnapshotChunk`] says.
#[verifier::ext_equal]
pub struct ChunkView {
    pub cluster_id: Seq<char>,
    pub leader_epoch: u64,
    pub chunk_index: u64,
    pub data: Seq<u8>,
    pub done: bool,
    pub metadata: Option<SnapshotMetaView>,
}

impl View for FetchSnapshotChunk {
    type V = ChunkView;

    open spec fn view(&self) -> ChunkView {
        ChunkView {
            cluster_id: self.cluster_id@,
            leader_epoch: self.leader_epoch,
            chunk_index: self.chunk_index,
            data: self.data@,
            done: self.done,
            metadata: match self.metadata {
                Some(m) => Some(m@),
                None => None,
            },
        }
    }
}

/// What one piece of an answered snapshot fetch says.
pub open spec fn piece_view(
    piece: Result<FetchSnapshotChunk, XRaftError>,
) -> Result<ChunkView, ErrorView> {
    match piece {
        Ok(c) => Ok(c@),
        Err(e) => Err(e@),
    }
}

/// What an [`Effect`] says.
#[verifier::ext_equal]
pub enum EffectView {
    AnswerPropose { reply: ReplyId, result: Result<LogIndex, ErrorView> },
    RefuseQuery { reply: ReplyId, error: ErrorView },
    ServeQuery { reply: ReplyId, query: Seq<u8> },
    AnswerSnapshot { reply: ReplyId, result: Result<TriggeredSnapshotInfo, ErrorView> },
    AnswerVote { reply: ReplyId, result: Result<VoteResponse, ErrorView> },
    AnswerPreVote { reply: ReplyId, result: Result<PreVoteResponse, ErrorView> },
    AnswerFetch { reply: ReplyId, result: Result<FetchResponseView, ErrorView> },
    AnswerFetchSnapshot {
        reply: ReplyId,
        result: Result<Seq<Result<ChunkView, ErrorView>>, ErrorView>,
    },
    Dispatch { to: NodeId, message: OutboundMessageView },
    Observe(Observation),
}

impl View for Effect {
    type V = EffectView;

    open spec fn view(&self) -> EffectView {
        match self {
            Effect::AnswerPropose { reply, result } => EffectView::AnswerPropose {
                reply: *reply,
                result: match result {
                    Ok(v) => Ok(*v),
                    Err(e) => Err(e@),
                },
            },
            Effect::RefuseQuery { reply, error } => EffectView::RefuseQuery {
                reply: *reply,
                error: error@,
            },
            Effect::ServeQuery { reply, query } => EffectView::ServeQuery {
                reply: *reply,
                query: query@,
            },
            Effect::AnswerSnapshot { reply, result } => EffectView::AnswerSnapshot {
                reply: *reply,
                result: match result {
                    Ok(v) => Ok(*v),
                    Err(e) => Err(e@),
                },
            },
            Effect::AnswerVote { reply, result } => EffectView::AnswerVote {
                reply: *reply,
                result: match result {
                    Ok(v) => Ok(*v),
                    Err(e) => Err(e@),
                },
            },
            Effect::AnswerPreVote { reply, result } => EffectView::AnswerPreVote {
                reply: *reply,
                result: match result {
                    Ok(v) => Ok(*v),
                    Err(e) => Err(e@),
                },
            },
            Effect::AnswerFetch { reply, result } => EffectView::AnswerFetch {
                reply: *reply,
                result: match result {
                    Ok(v) => Ok(v@),
                    Err(e) => Err(e@),
                },
            },
            Effect::AnswerFetchSnapshot { reply, result } => EffectView::AnswerFetchSnapshot {
                reply: *reply,
                result: match result {
                    Ok(pieces) => Ok(
                        pieces@.map_values(
                            |p: Result<FetchSnapshotChunk, XRaftError>| piece_view(p),
                        ),
                    ),
                    Err(e) => Err(e@),
                },
            },
            Effect::Dispatch { to, message } => EffectView::Dispatch {
                to: *to,
                message: message@,
            },
            Effect::Observe(o) => EffectView::Observe(*o),
        }
    }
}

/// The effects that the driver has decided on and the host has not taken yet,
/// oldest first.
#[derive(Debug)]
pub struct Outbox {
    items: Vec<Effect>,
}

impl View for Outbox {
    type V = Seq<EffectView>;

    closed spec fn view(&self) -> Seq<EffectView> {
        self.items@.map_values(|e: Effect| e@)
    }
}

impl Outbox {
    /// An outbox without effects.
    pub fn new() -> (r: Outbox)
        ensures
            r@ == Seq::<EffectView>::empty(),
    {
        let r = Outbox { items: Vec::new() };
        assert(r@ =~= Seq::<EffectView>::empty());
        r
    }

    /// Adds an effect.
    pub fn push(&mut self, effect: Effect)
        ensures
            final(self)@ == old(self)@.push(effect@),
    {
        self.items.push(effect);
        assert(self@ =~= old(self)@.push(effect@));
    }

    /// Adds an observation.
    pub fn observe(&mut self, o: Observation)
        ensures
            final(self)@ == old(self)@.push(EffectView::Observe(o)),
    {
        self.push(Effect::Observe(o));
    }

    /// Takes all effects out.
    pub fn take(&mut self) -> (r: Vec<Effect>)
        ensures
            r@.map_values(|e: Effect| e@) == old(self)@,
            final(self)@ == Seq::<EffectView>::empty(),
    {
        let mut items: Vec<Effect> = Vec::new();
        core::mem::swap(&mut items, &mut self.items);
        assert(self@ =~= Seq::<EffectView>::empty());
        items
    }
}

} // verus!
