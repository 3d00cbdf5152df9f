//! Messages between nodes, and the vocabulary of the consensus engine: the
//! inputs it is stepped with and the actions it asks for.
use vstd::prelude::*;

use crate::types::{Entry, LogIndex, NodeId, SnapshotMeta, SnapshotMetaView, Term};

verus! {

/// Request for a vote in a real election.
#[derive(Clone, Debug, PartialEq, Eq)]
pub struct VoteRequest {
    pub cluster_id: String,
    pub leader_epoch: u64,
    pub term: Term,
    pub candidate_id: NodeId,
    pub last_log_index: LogIndex,
    pub last_log_term: Term,
}

/// Answer to a [`VoteRequest`].
#[derive(Clone, Debug, PartialEq, Eq)]
pub struct VoteResponse {
    pub cluster_id: String,
    pub leader_epoch: u64,
    pub term: Term,
    pub vote_granted: bool,
    pub leader_hint: Option<NodeId>,
}

/// Request for a vote in a trial election.
#[derive(Clone, Debug, PartialEq, Eq)]
pub struct PreVoteRequest {
    pub cluster_id: String,
    pub leader_epoch: u64,
    pub next_term: Term,
    pub candidate_id: NodeId,
    pub last_log_index: LogIndex,
    pub last_log_term: Term,
}

/// Answer to a [`PreVoteRequest`].
#[derive(Clone, Debug, PartialEq, Eq)]
pub struct PreVoteResponse {
    pub cluster_id: String,
    pub leader_epoch: u64,
    pub term: Term,
    pub vote_granted: bool,
    pub leader_hint: Option<NodeId>,
}

/// Request of a replica for log entries.
#[derive(Clone, Debug, PartialEq, Eq)]
pub struct FetchRequest {
    pub cluster_id: String,
    pub leader_epoch: u64,
    pub replica_id: NodeId,
    pub fetch_offset: LogIndex,
    pub last_fetched_epoch: Term,
}

/// Where a replica's log parts from the leader's.
#[derive(Clone, Copy, Debug, PartialEq, Eq, Structural)]
pub struct DivergingEpoch {
    pub epoch: Term,
    pub end_offset: LogIndex,
}

/// Directs a replica to a snapshot because the entries it asks for are gone.
#[derive(Clone, Debug, PartialEq, Eq)]
pub struct SnapshotRedirect {
    pub snapshot_id: String,
    pub last_included_index: LogIndex,
    pub last_included_term: Term,
}

/// Answer to a [`FetchRequest`].
#[derive(Clone, Debug, PartialEq, Eq)]
pub struct FetchResponse {
    pub cluster_id: String,
    pub leader_epoch: u64,
    pub leader_id: NodeId,
    pub high_watermark: LogIndex,
    pub entries: Vec<Entry>,
    pub diverging_epoch: Option<DivergingEpoch>,
    pub snapshot_redirect: Option<SnapshotRedirect>,
    pub is_leader: bool,
}

/// What a [`SnapshotRedirect`] says.
#[verifier::ext_equal]
pub struct SnapshotRedirectView {
    pub snapshot_id: Seq<char>,
    pub last_included_index: LogIndex,
    pub last_included_term: Term,
}

impl View for SnapshotRedirect {
    type V = SnapshotRedirectView;

    open spec fn view(&self) -> SnapshotRedirectView {
        SnapshotRedirectView {
            snapshot_id: self.snapshot_id@,
            last_included_index: self.last_included_index,
            last_included_term: self.last_included_term,
        }
    }
}

/// What a [`FetchResponse`] says.
#[verifier::ext_equal]
pub struct FetchResponseView {
    pub cluster_id: Seq<char>,
    pub leader_epoch: u64,
    pub leader_id: NodeId,
    pub high_watermark: LogIndex,
    pub entries: Seq<Entry>,
    pub diverging_epoch: Option<DivergingEpoch>,
    pub snapshot_redirect: Option<SnapshotRedirectView>,
    pub is_leader: bool,
}

impl View for FetchResponse {
    type V = FetchResponseView;

    open spec fn view(&self) -> FetchResponseView {
        FetchResponseView {
            cluster_id: self.cluster_id@,
            leader_epoch: self.leader_epoch,
            leader_id: self.leader_id,
            high_watermark: self.high_watermark,
            entries: self.entries@,
            diverging_epoch: self.diverging_epoch,
            snapshot_redirect: match self.snapshot_redirect {
                Some(r) => Some(r@),
                None => None,
            },
            is_leader: self.is_leader,
        }
    }
}

/// Request of a replica for the bytes of a snapshot. A `max_bytes` of zero sets
/// no limit.
#[derive(Clone, Debug, PartialEq, Eq)]
pub struct FetchSnapshotRequest {
    pub cluster_id: String,
    pub leader_epoch: u64,
    pub replica_id: NodeId,
    pub snapshot_id: String,
    pub offset: u64,
    pub max_bytes: u64,
}

/// One piece of a snapshot transfer. The first piece carries the description,
/// the last one has `done` set.
#[derive(Clone, Debug, PartialEq, Eq)]
pub struct FetchSnapshotChunk {
    pub cluster_id: String,
    pub leader_epoch: u64,
    pub chunk_index: u64,
    pub data: Vec<u8>,
    pub done: bool,
    pub metadata: Option<SnapshotMeta>,
}

/// Message for another node.
#[derive(Clone, Debug, PartialEq, Eq)]
pub enum OutboundMessage {
    VoteRequest(VoteRequest),
    PreVoteRequest(PreVoteRequest),
    FetchRequest(FetchRequest),
    FetchSnapshotRequest(FetchSnapshotRequest),
    VoteResponse(VoteResponse),
    PreVoteResponse(PreVoteResponse),
    FetchResponse(FetchResponse),
}

/// What an [`OutboundMessage`] says.
#[verifier::ext_equal]
pub enum OutboundMessageView {
    VoteRequest(VoteRequest),
    PreVoteRequest(PreVoteRequest),
    FetchRequest(FetchRequest),
    FetchSnapshotRequest(FetchSnapshotRequest),
    VoteResponse(VoteResponse),
    PreVoteResponse(PreVoteResponse),
    FetchResponse(FetchResponseView),
}

impl View for OutboundMessage {
    type V = OutboundMessageView;

    open spec fn view(&self) -> OutboundMessageView {
        match self {
            OutboundMessage::VoteRequest(m) => OutboundMessageView::VoteRequest(*m),
            OutboundMessage::PreVoteRequest(m) => OutboundMessageView::PreVoteRequest(*m),
            OutboundMessage::FetchRequest(m) => OutboundMessageView::FetchRequest(*m),
            OutboundMessage::FetchSnapshotRequest(m) => OutboundMessageView::FetchSnapshotRequest(
                *m,
            ),
            OutboundMessage::VoteResponse(m) => OutboundMessageView::VoteResponse(*m),
            OutboundMessage::PreVoteResponse(m) => OutboundMessageView::PreVoteResponse(*m),
            OutboundMessage::FetchResponse(m) => OutboundMessageView::FetchResponse(m@),
        }
    }
}

/// Which end of the log a truncation removes.
#[derive(Clone, Copy, Debug, PartialEq, Eq, Structural)]
pub enum LogTruncation {
    /// Every entry from the given index on.
    SuffixFromInclusive { from_index_inclusive: LogIndex },
    /// Every entry up to the given index.
    PrefixThroughInclusive { through_index_inclusive: LogIndex },
}

/// What a replica asked for, as the engine hands it on to be served.
#[derive(Clone, Debug, PartialEq, Eq)]
pub struct FetchQuery {
    pub to: NodeId,
    pub cluster_id: String,
    pub leader_epoch: u64,
    pub leader_id: NodeId,
    pub high_watermark: LogIndex,
    pub fetch_offset: LogIndex,
    pub last_fetched_epoch: Term,
}

/// Something that the engine asks the driver to do.
#[derive(Clone, Debug, PartialEq, Eq)]
pub enum Action {
    PersistHardState,
    AppendEntries(Vec<Entry>),
    TruncateLog(LogTruncation),
    ApplyToStateMachine { from: LogIndex, to: LogIndex },
    TakeSnapshot { through_index: LogIndex },
    InstallSnapshot { metadata: SnapshotMeta, data: Vec<u8> },
    BecomeLeader,
    StepDown,
    SendMessage { to: NodeId, message: OutboundMessage },
    ServeFetch(FetchQuery),
    RedirectToSnapshot {
        to: NodeId,
        cluster_id: String,
        leader_epoch: u64,
        leader_id: NodeId,
        high_watermark: LogIndex,
        snapshot_metadata: SnapshotMeta,
    },
}

impl Action {
    /// Whether the index after the last one that the action names exists.
    pub open spec fn in_range(self) -> bool {
        match self {
            Action::ApplyToStateMachine { from, to } => to.0 < u64::MAX,
            Action::TruncateLog(
                LogTruncation::PrefixThroughInclusive { through_index_inclusive },
            ) => through_index_inclusive.0 < u64::MAX,
            _ => true,
        }
    }
}

/// Whether every action is in range.
pub open spec fn all_in_range(actions: Seq<Action>) -> bool {
    forall|i: int| 0 <= i < actions.len() ==> (#[trigger] actions[i]).in_range()
}

/// Whether the index after the last one that each action names exists.
pub fn actions_in_range(actions: &Vec<Action>) -> (ok: bool)
    ensures
        ok == all_in_range(actions@),
{
    let mut i: usize = 0;
    while i < actions.len()
        invariant
            i <= actions.len(),
            forall|j: int| 0 <= j < i ==> (#[trigger] actions@[j]).in_range(),
        decreases actions.len() - i,
    {
        let good: bool = match &actions[i] {
            Action::ApplyToStateMachine { from: _, to } => to.0 < u64::MAX,
            Action::TruncateLog(cut) => match cut {
                LogTruncation::PrefixThroughInclusive { through_index_inclusive } =>
                    through_index_inclusive.0 < u64::MAX,
                LogTruncation::SuffixFromInclusive { from_index_inclusive: _ } => true,
            },
            _ => true,
        };
        assert(good == actions@[i as int].in_range());
        if !good {
            return false;
        }
        i = i + 1;
    }
    true
}

/// Something that the engine is stepped with.
#[derive(Clone, Debug, PartialEq, Eq)]
pub enum Input {
    Tick,
    VoteRequest(VoteRequest),
    PreVoteRequest(PreVoteRequest),
    FetchRequest(FetchRequest),
    VoteResponse { from: NodeId, response: VoteResponse },
    PreVoteResponse { from: NodeId, response: PreVoteResponse },
    FetchResponse(FetchResponse),
    FetchSnapshotReceived { metadata: SnapshotMeta, data: Vec<u8> },
    ClientPropose(Vec<u8>),
    FetchRequestAcked { replica_id: NodeId, confirmed_offset: LogIndex },
    SnapshotComplete { metadata: SnapshotMeta },
    SnapshotInstalled { metadata: SnapshotMeta },
}

/// What an [`Input`] says.
#[verifier::ext_equal]
pub enum InputView {
    Tick,
    VoteRequest(VoteRequest),
    PreVoteRequest(PreVoteRequest),
    FetchRequest(FetchRequest),
    VoteResponse { from: NodeId, response: VoteResponse },
    PreVoteResponse { from: NodeId, response: PreVoteResponse },
    FetchResponse(FetchResponseView),
    FetchSnapshotReceived { metadata: SnapshotMetaView, data: Seq<u8> },
    ClientPropose(Seq<u8>),
    FetchRequestAcked { replica_id: NodeId, confirmed_offset: LogIndex },
    SnapshotComplete { metadata: SnapshotMetaView },
    SnapshotInstalled { metadata: SnapshotMetaView },
}

impl View for Input {
    type V = InputView;

    open spec fn view(&self) -> InputView {
        match self {
            Input::Tick => InputView::Tick,
            Input::VoteRequest(m) => InputView::VoteRequest(*m),
            Input::PreVoteRequest(m) => InputView::PreVoteRequest(*m),
            Input::FetchRequest(m) => InputView::FetchRequest(*m),
            Input::VoteResponse { from, response } => InputView::VoteResponse {
                from: *from,
                response: *response,
            },
            Input::PreVoteResponse { from, response } => InputView::PreVoteResponse {
                from: *from,
                response: *response,
            },
            Input::FetchResponse(m) => InputView::FetchResponse(m@),
            Input::FetchSnapshotReceived { metadata, data } => InputView::FetchSnapshotReceived {
                metadata: metadata@,
                data: data@,
            },
            Input::ClientPropose(command) => InputView::ClientPropose(command@),
            Input::FetchRequestAcked { replica_id, confirmed_offset } =>
                InputView::FetchRequestAcked {
                replica_id: *replica_id,
                confirmed_offset: *confirmed_offset,
            },
            Input::SnapshotComplete { metadata } => InputView::SnapshotComplete {
                metadata: metadata@,
            },
            Input::SnapshotInstalled { metadata } => InputView::SnapshotInstalled {
                metadata: metadata@,
            },
        }
    }
}

/// Only a range of entries to apply, or a removal of the start of the log, can be out of
/// range: if no index comes after the last one that it names.
pub proof fn law_only_the_last_index_is_out_of_range(action: Action, from: LogIndex, to: LogIndex)
    ensures
        (Action::ApplyToStateMachine { from, to }).in_range() <==> to.0 + 1 <= u64::MAX,
        Action::TruncateLog(
            LogTruncation::PrefixThroughInclusive { through_index_inclusive: to },
        ).in_range() <==> to.0 + 1 <= u64::MAX,
        Action::TruncateLog(
            LogTruncation::SuffixFromInclusive { from_index_inclusive: from },
        ).in_range(),
        !(action is ApplyToStateMachine) && !(action is TruncateLog) ==> action.in_range(),
{
}

} // verus!
