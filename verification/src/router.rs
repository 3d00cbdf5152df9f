//! Outbound calls: which call a message becomes, how a snapshot transfer is put
//! together from its pieces, and what the driver is told when a call ends.
use vstd::prelude::*;
use vstd::string::*;

use crate::host::ChunkView;
use crate::message::{
    FetchRequest, FetchResponse, FetchResponseView, FetchSnapshotChunk, FetchSnapshotRequest,
    OutboundMessage, PreVoteRequest, PreVoteResponse, VoteRequest, VoteResponse,
};
use crate::text::{decimal, padded, push_decimal, push_padded};
use crate::types::{NodeId, SnapshotMeta, SnapshotMetaView};

verus! {

/// How an outbound call ended.
#[derive(Clone, Debug, PartialEq, Eq)]
pub enum OutboundResult {
    /// A vote was answered.
    Vote { peer: NodeId, response: VoteResponse },
    /// A trial vote was answered.
    PreVote { peer: NodeId, response: PreVoteResponse },
    /// A fetch was answered, by `peer`.
    Fetch { peer: NodeId, response: FetchResponse },
    /// A snapshot was transferred in full.
    FetchSnapshot {
        peer: NodeId,
        cluster_id: String,
        leader_epoch: u64,
        chunk_count: u64,
        completed: bool,
        metadata: Option<SnapshotMeta>,
        data: Vec<u8>,
    },
    /// The call failed; `kind` names which call it was.
    Error { peer: NodeId, kind: &'static str, err: String },
}

/// What an [`OutboundResult`] says.
#[verifier::ext_equal]
pub enum OutboundResultView {
    Vote { peer: NodeId, response: VoteResponse },
    PreVote { peer: NodeId, response: PreVoteResponse },
    Fetch { peer: NodeId, response: FetchResponseView },
    FetchSnapshot {
        peer: NodeId,
        cluster_id: Seq<char>,
        leader_epoch: u64,
        chunk_count: u64,
        completed: bool,
        metadata: Option<SnapshotMetaView>,
        data: Seq<u8>,
    },
    Error { peer: NodeId, kind: Seq<char>, err: Seq<char> },
}

impl View for OutboundResult {
    type V = OutboundResultView;

    open spec fn view(&self) -> OutboundResultView {
        match self {
            OutboundResult::Vote { peer, response } => OutboundResultView::Vote {
                peer: *peer,
                response: *response,
            },
            OutboundResult::PreVote { peer, response } => OutboundResultView::PreVote {
                peer: *peer,
                response: *response,
            },
            OutboundResult::Fetch { peer, response } => OutboundResultView::Fetch {
                peer: *peer,
                response: response@,
            },
            OutboundResult::FetchSnapshot {
                peer,
                cluster_id,
                leader_epoch,
                chunk_count,
                completed,
                metadata,
                data,
            } => OutboundResultView::FetchSnapshot {
                peer: *peer,
                cluster_id: cluster_id@,
                leader_epoch: *leader_epoch,
                chunk_count: *chunk_count,
                completed: *completed,
                metadata: match metadata {
                    Some(m) => Some(m@),
                    None => None,
                },
                data: data@,
            },
            OutboundResult::Error { peer, kind, err } => OutboundResultView::Error {
                peer: *peer,
                kind: kind@,
                err: err@,
            },
        }
    }
}

/// The call that a message becomes.
#[derive(Clone, Debug, PartialEq, Eq)]
pub enum OutboundCall {
    Vote(VoteRequest),
    PreVote(PreVoteRequest),
    Fetch(FetchRequest),
    FetchSnapshot(FetchSnapshotRequest),
    /// Answers travel with the call that they answer; on their own they are
    /// dropped.
    Dropped,
}

/// The call that a message becomes.
pub open spec fn call_of(message: OutboundMessage) -> OutboundCall {
    match message {
        OutboundMessage::VoteRequest(req) => OutboundCall::Vote(req),
        OutboundMessage::PreVoteRequest(req) => OutboundCall::PreVote(req),
        OutboundMessage::FetchRequest(req) => OutboundCall::Fetch(req),
        OutboundMessage::FetchSnapshotRequest(req) => OutboundCall::FetchSnapshot(req),
        OutboundMessage::VoteResponse(_) | OutboundMessage::PreVoteResponse(_)
        | OutboundMessage::FetchResponse(_) => OutboundCall::Dropped,
    }
}

/// Decides which call a message becomes.
pub fn dispatch(message: OutboundMessage) -> (call: OutboundCall)
    ensures
        call == call_of(message),
{
    match message {
        OutboundMessage::VoteRequest(req) => OutboundCall::Vote(req),
        OutboundMessage::PreVoteRequest(req) => OutboundCall::PreVote(req),
        OutboundMessage::FetchRequest(req) => OutboundCall::Fetch(req),
        OutboundMessage::FetchSnapshotRequest(req) => OutboundCall::FetchSnapshot(req),
        OutboundMessage::VoteResponse(_) => OutboundCall::Dropped,
        OutboundMessage::PreVoteResponse(_) => OutboundCall::Dropped,
        OutboundMessage::FetchResponse(_) => OutboundCall::Dropped,
    }
}

/// How a vote that was sent to `peer` ends.
pub open spec fn vote_ended(peer: NodeId, answer: Result<VoteResponse, String>) -> OutboundResultView {
    match answer {
        Ok(response) => OutboundResultView::Vote { peer, response },
        Err(err) => OutboundResultView::Error { peer, kind: "vote"@, err: err@ },
    }
}

/// How a trial vote that was sent to `peer` ends.
pub open spec fn pre_vote_ended(
    peer: NodeId,
    answer: Result<PreVoteResponse, String>,
) -> OutboundResultView {
    match answer {
        Ok(response) => OutboundResultView::PreVote { peer, response },
        Err(err) => OutboundResultView::Error { peer, kind: "pre_vote"@, err: err@ },
    }
}

/// How a fetch that was sent to `peer` ends.
pub open spec fn fetch_ended(
    peer: NodeId,
    answer: Result<(NodeId, FetchResponse), String>,
) -> OutboundResultView {
    match answer {
        Ok((responder, response)) => OutboundResultView::Fetch {
            peer: responder,
            response: response@,
        },
        Err(err) => OutboundResultView::Error { peer, kind: "fetch"@, err: err@ },
    }
}

/// How a vote ends.
pub fn vote_result(peer: NodeId, answer: Result<VoteResponse, String>) -> (r: OutboundResult)
    ensures
        r@ == match answer {
            Ok(response) => OutboundResultView::Vote { peer, response },
            Err(err) => OutboundResultView::Error { peer, kind: "vote"@, err: err@ },
        },
        r@ == vote_ended(peer, answer),
{
    match answer {
        Ok(response) => OutboundResult::Vote { peer, response },
        Err(err) => OutboundResult::Error { peer, kind: "vote", err },
    }
}

/// How a trial vote ends.
pub fn pre_vote_result(peer: NodeId, answer: Result<PreVoteResponse, String>) -> (r: OutboundResult)
    ensures
        r@ == match answer {
            Ok(response) => OutboundResultView::PreVote { peer, response },
            Err(err) => OutboundResultView::Error { peer, kind: "pre_vote"@, err: err@ },
        },
        r@ == pre_vote_ended(peer, answer),
{
    match answer {
        Ok(response) => OutboundResult::PreVote { peer, response },
        Err(err) => OutboundResult::Error { peer, kind: "pre_vote", err },
    }
}

/// How a fetch that was sent to `peer` ends. The answer names the node that
/// gave it, which is another one where the call was redirected; a failure is
/// put down to the node that was called.
pub fn fetch_result(peer: NodeId, answer: Result<(NodeId, FetchResponse), String>) -> (r:
    OutboundResult)
    ensures
        r@ == match answer {
            Ok((responder, response)) => OutboundResultView::Fetch {
                peer: responder,
                response: response@,
            },
            Err(err) => OutboundResultView::Error { peer, kind: "fetch"@, err: err@ },
        },
        r@ == fetch_ended(peer, answer),
{
    match answer {
        Ok((responder, response)) => OutboundResult::Fetch { peer: responder, response },
        Err(err) => OutboundResult::Error { peer, kind: "fetch", err },
    }
}

/// How a snapshot transfer ends that never began, or that broke off with `err`.
pub fn fetch_snapshot_failed(peer: NodeId, err: String) -> (r: OutboundResult)
    ensures
        r@ == (OutboundResultView::Error { peer, kind: "fetch_snapshot"@, err: err@ }),
{
    OutboundResult::Error { peer, kind: "fetch_snapshot", err }
}

/// How a snapshot transfer ends that took longer than `deadline` milliseconds.
pub fn fetch_snapshot_timed_out(peer: NodeId, deadline: u64) -> (r: OutboundResult)
    ensures
        r@ == (OutboundResultView::Error {
            peer,
            kind: "fetch_snapshot"@,
            err: "FetchSnapshot stream drain exceeded deadline of "@ + decimal(deadline as nat)
                + "ms"@,
        }),
{
    let mut err = "FetchSnapshot stream drain exceeded deadline of ".to_owned();
    push_decimal(&mut err, deadline);
    err.append("ms");
    fetch_snapshot_failed(peer, err)
}

/// Where a snapshot transfer stands.
#[derive(Clone, Debug, PartialEq, Eq)]
pub enum TransferState {
    /// More pieces may come.
    Open,
    /// The last piece has come.
    Complete,
    /// The transfer broke off.
    Failed(String),
}

/// What a [`TransferState`] says.
#[verifier::ext_equal]
pub enum TransferStateView {
    Open,
    Complete,
    Failed(Seq<char>),
}

impl View for TransferState {
    type V = TransferStateView;

    open spec fn view(&self) -> TransferStateView {
        match self {
            TransferState::Open => TransferStateView::Open,
            TransferState::Complete => TransferStateView::Complete,
            TransferState::Failed(e) => TransferStateView::Failed(e@),
        }
    }
}

/// A snapshot that is being put together from the pieces of a transfer.
#[derive(Debug)]
pub struct SnapshotAssembly {
    pub max_bytes: usize,
    pub chunk_count: u64,
    pub data: Vec<u8>,
    pub metadata: Option<SnapshotMeta>,
    pub cluster_id: Option<String>,
    pub leader_epoch: Option<u64>,
    /// Highest quarter of the declared size whose passing was reported.
    pub reported_quarter: u8,
    pub state: TransferState,
}

/// What a [`SnapshotAssembly`] holds.
#[verifier::ext_equal]
pub struct AssemblyView {
    pub max_bytes: nat,
    pub chunk_count: u64,
    pub data: Seq<u8>,
    pub metadata: Option<SnapshotMetaView>,
    pub cluster_id: Option<Seq<char>>,
    pub leader_epoch: Option<u64>,
    pub reported_quarter: u8,
    pub state: TransferStateView,
}

impl View for SnapshotAssembly {
    type V = AssemblyView;

    open spec fn view(&self) -> AssemblyView {
        AssemblyView {
            max_bytes: self.max_bytes as nat,
            chunk_count: self.chunk_count,
            data: self.data@,
            metadata: match self.metadata {
                Some(m) => Some(m@),
                None => None,
            },
            cluster_id: match self.cluster_id {
                Some(c) => Some(c@),
                None => None,
            },
            leader_epoch: self.leader_epoch,
            reported_quarter: self.reported_quarter,
            state: self.state@,
        }
    }
}

impl AssemblyView {
    /// What every assembly satisfies: the bytes stay within the limit, and the
    /// envelope and the description are known exactly when a piece has been
    /// accepted.
    pub open spec fn wf(self) -> bool {
        &&& self.data.len() <= self.max_bytes
        &&& self.chunk_count == 0 ==> {
            &&& self.metadata is None
            &&& self.cluster_id is None
            &&& self.leader_epoch is None
            &&& self.data.len() == 0
        }
        &&& self.chunk_count > 0 ==> {
            &&& self.metadata is Some
            &&& self.cluster_id is Some
            &&& self.leader_epoch is Some
        }
        &&& self.state is Complete ==> self.chunk_count > 0
    }
}

/// An assembly before its first piece.
pub open spec fn empty_assembly(max_bytes: nat) -> AssemblyView {
    AssemblyView {
        max_bytes,
        chunk_count: 0,
        data: Seq::empty(),
        metadata: None,
        cluster_id: None,
        leader_epoch: None,
        reported_quarter: 0,
        state: TransferStateView::Open,
    }
}

/// Why `c` cannot be the next piece, if it cannot: the envelope must not change
/// within a transfer, pieces must come in order, the first one must describe
/// the snapshot, and the bytes must stay within the limit.
pub open spec fn chunk_fault(a: AssemblyView, c: ChunkView) -> Option<Seq<char>> {
    if a.cluster_id is Some && a.cluster_id->0 != c.cluster_id {
        Some(
            "FetchSnapshot stream cluster_id mutated mid-stream: "@ + a.cluster_id->0 + " -> "@
                + c.cluster_id,
        )
    } else if a.leader_epoch is Some && a.leader_epoch->0 != c.leader_epoch {
        Some(
            "FetchSnapshot stream leader_epoch mutated mid-stream: "@ + decimal(
                a.leader_epoch->0 as nat,
            ) + " -> "@ + decimal(c.leader_epoch as nat),
        )
    } else if c.chunk_index != a.chunk_count {
        Some(
            "FetchSnapshot chunk_index out of order: expected "@ + decimal(a.chunk_count as nat)
                + ", got "@ + decimal(c.chunk_index as nat),
        )
    } else if a.chunk_count == 0 && c.metadata is None {
        Some("FetchSnapshot first chunk missing required SnapshotMeta"@)
    } else if a.data.len() + c.data.len() > a.max_bytes {
        Some(
            "FetchSnapshot reassembled data exceeded cap of "@ + decimal(a.max_bytes)
                + " bytes (got "@ + decimal(a.data.len()) + " + "@ + decimal(c.data.len()) + ")"@,
        )
    } else {
        None
    }
}

/// How many hundredths of the declared size `len` bytes are, if a size other
/// than zero was declared.
pub open spec fn percent_of(len: nat, declared: Option<u64>) -> Option<nat> {
    match declared {
        Some(total) if total > 0 => Some(len * 100 / (total as nat)),
        _ => None,
    }
}

/// The quarter that a percentage falls in, of the percentage as an eight-bit
/// number.
pub open spec fn quarter_of(percent: nat) -> u8 {
    if (percent % 256) / 25 < 3 {
        ((percent % 256) / 25) as u8
    } else {
        3
    }
}

/// The declared size of the snapshot that `c` continues.
pub open spec fn declared_size(a: AssemblyView, c: ChunkView) -> Option<u64> {
    if a.chunk_count == 0 {
        match c.metadata {
            Some(m) => m.size_bytes,
            None => None,
        }
    } else {
        match a.metadata {
            Some(m) => m.size_bytes,
            None => None,
        }
    }
}

/// Percentage to report when `c` is accepted: the first one in each quarter.
pub open spec fn progress(a: AssemblyView, c: ChunkView) -> Option<nat> {
    match percent_of(a.data.len() + c.data.len(), declared_size(a, c)) {
        Some(p) if quarter_of(p) > a.reported_quarter => Some(p),
        _ => None,
    }
}

/// The assembly after the piece `c` has come.
pub open spec fn accepted(a: AssemblyView, c: ChunkView) -> AssemblyView {
    match chunk_fault(a, c) {
        Some(err) => AssemblyView { state: TransferStateView::Failed(err), ..a },
        None => AssemblyView {
            max_bytes: a.max_bytes,
            chunk_count: (a.chunk_count + 1) as u64,
            data: a.data + c.data,
            metadata: if a.chunk_count == 0 {
                c.metadata
            } else {
                a.metadata
            },
            cluster_id: Some(c.cluster_id),
            leader_epoch: Some(c.leader_epoch),
            reported_quarter: match progress(a, c) {
                Some(p) => quarter_of(p),
                None => a.reported_quarter,
            },
            state: if c.done {
                TransferStateView::Complete
            } else {
                TransferStateView::Open
            },
        },
    }
}

/// One bit of the division by the polynomial of CRC-32, lowest bit first.
pub open spec fn crc_bit(c: u32) -> u32 {
    if c & 1 == 1 {
        (c >> 1) ^ 0xedb8_8320
    } else {
        c >> 1
    }
}

/// Eight bits of that division.
pub open spec fn crc_byte(c: u32) -> u32 {
    crc_bit(crc_bit(crc_bit(crc_bit(crc_bit(crc_bit(crc_bit(crc_bit(c))))))))
}

/// What the division leaves of a byte string.
pub open spec fn crc_remainder(data: Seq<u8>) -> u32
    decreases data.len(),
{
    if data.len() == 0 {
        0xffff_ffff
    } else {
        crc_byte(crc_remainder(data.drop_last()) ^ (data.last() as u32))
    }
}

/// The CRC-32 checksum of a byte string, as IEEE 802.3 defines it.
#[verifier::opaque]
pub open spec fn crc32_of(data: Seq<u8>) -> u32 {
    crc_remainder(data) ^ 0xffff_ffff
}

/// Calls `crc32fast::hash`, which is claimed to give the IEEE CRC-32 checksum of
/// the bytes.
#[verifier::external_body]
fn crc32(data: &Vec<u8>) -> (crc: u32)
    ensures
        crc == crc32_of(data@),
{
    crc32fast::hash(data)
}

/// How a transfer ends that no more pieces come of, where the bytes that came
/// have the checksum `crc`.
pub open spec fn concluded(a: AssemblyView, peer: NodeId, crc: u32) -> OutboundResultView {
    match a.state {
        TransferStateView::Failed(err) => OutboundResultView::Error {
            peer,
            kind: "fetch_snapshot"@,
            err,
        },
        TransferStateView::Open => OutboundResultView::Error {
            peer,
            kind: "fetch_snapshot"@,
            err: "FetchSnapshot stream ended after "@ + decimal(a.chunk_count as nat)
                + " chunks without done=true"@,
        },
        TransferStateView::Complete => match integrity_fault(a, crc) {
            Some(err) => OutboundResultView::Error { peer, kind: "fetch_snapshot"@, err },
            None => OutboundResultView::FetchSnapshot {
                peer,
                cluster_id: a.cluster_id->0,
                leader_epoch: a.leader_epoch->0,
                chunk_count: a.chunk_count,
                completed: true,
                metadata: a.metadata,
                data: a.data,
            },
        },
    }
}

/// Why the bytes of a complete transfer are not those that were described, if
/// they are not. The size is looked at before the checksum.
pub open spec fn integrity_fault(a: AssemblyView, crc: u32) -> Option<Seq<char>> {
    let size = a.metadata->0.size_bytes;
    let checksum = a.metadata->0.checksum;
    if size is Some && size->0 != a.data.len() {
        Some(
            "FetchSnapshot integrity check failed: declared size "@ + decimal(size->0 as nat)
                + " bytes != reassembled "@ + decimal(a.data.len()) + " bytes (chunk_count="@
                + decimal(a.chunk_count as nat) + ")"@,
        )
    } else if checksum is Some && checksum->0 != crc {
        Some(
            "FetchSnapshot integrity check failed: declared crc32 0x"@ + padded(
                checksum->0 as nat,
                16,
                8,
            ) + " != computed 0x"@ + padded(crc as nat, 16, 8) + " ("@ + decimal(a.data.len())
                + " bytes, chunk_count="@ + decimal(a.chunk_count as nat) + ")"@,
        )
    } else {
        None
    }
}

impl SnapshotAssembly {
    /// An assembly that takes at most `max_bytes` bytes.
    pub fn new(max_bytes: usize) -> (r: SnapshotAssembly)
        ensures
            r@ == empty_assembly(max_bytes as nat),
            r@.wf(),
    {
        let r = SnapshotAssembly {
            max_bytes,
            chunk_count: 0,
            data: Vec::new(),
            metadata: None,
            cluster_id: None,
            leader_epoch: None,
            reported_quarter: 0,
            state: TransferState::Open,
        };
        assert(r@ =~= empty_assembly(max_bytes as nat));
        r
    }

    /// Why `chunk` cannot be the next piece, if it cannot.
    fn fault(&self, chunk: &FetchSnapshotChunk) -> (r: Option<String>)
        requires
            self@.wf(),
        ensures
            match r {
                Some(err) => chunk_fault(self@, chunk@) == Some(err@),
                None => chunk_fault(self@, chunk@) is None,
            },
    {
        if let Some(prev) = &self.cluster_id {
            if *prev != chunk.cluster_id {
                let mut err = "FetchSnapshot stream cluster_id mutated mid-stream: ".to_owned();
                err.append(prev.as_str());
                err.append(" -> ");
                err.append(chunk.cluster_id.as_str());
                return Some(err);
            }
        }
        if let Some(prev) = self.leader_epoch {
            if prev != chunk.leader_epoch {
                let mut err = "FetchSnapshot stream leader_epoch mutated mid-stream: ".to_owned();
                push_decimal(&mut err, prev);
                err.append(" -> ");
                push_decimal(&mut err, chunk.leader_epoch);
                return Some(err);
            }
        }
        if chunk.chunk_index != self.chunk_count {
            let mut err = "FetchSnapshot chunk_index out of order: expected ".to_owned();
            push_decimal(&mut err, self.chunk_count);
            err.append(", got ");
            push_decimal(&mut err, chunk.chunk_index);
            return Some(err);
        }
        if self.chunk_count == 0 && chunk.metadata.is_none() {
            return Some("FetchSnapshot first chunk missing required SnapshotMeta".to_owned());
        }
        if chunk.data.len() > self.max_bytes - self.data.len() {
            let mut err = "FetchSnapshot reassembled data exceeded cap of ".to_owned();
            push_decimal(&mut err, self.max_bytes as u64);
            err.append(" bytes (got ");
            push_decimal(&mut err, self.data.len() as u64);
            err.append(" + ");
            push_decimal(&mut err, chunk.data.len() as u64);
            err.append(")");
            return Some(err);
        }
        None
    }

    /// Takes the next piece of the transfer. Returns a percentage of the
    /// declared size where it is worth reporting.
    pub fn accept(&mut self, chunk: FetchSnapshotChunk) -> (percent: Option<u64>)
        requires
            old(self)@.wf(),
            old(self)@.state is Open,
            old(self).chunk_count < u64::MAX,
        ensures
            final(self)@ == accepted(old(self)@, chunk@),
            final(self)@.wf(),
            match chunk_fault(old(self)@, chunk@) {
                Some(_) => percent is None,
                None => match progress(old(self)@, chunk@) {
                    Some(p) => percent == Some(p as u64),
                    None => percent is None,
                },
            },
    {
        match self.fault(&chunk) {
            Some(err) => {
                self.state = TransferState::Failed(err);
                assert(self@ =~= accepted(old(self)@, chunk@));
                None
            },
            None => {
                let ghost before = self@;
                let FetchSnapshotChunk {
                    cluster_id,
                    leader_epoch,
                    chunk_index: _,
                    data,
                    done,
                    metadata,
                } = chunk;
                if self.chunk_count == 0 {
                    self.metadata = metadata;
                }
                self.cluster_id = Some(cluster_id);
                self.leader_epoch = Some(leader_epoch);
                let mut data = data;
                self.data.append(&mut data);
                self.chunk_count = self.chunk_count + 1;
                let percent: Option<u64> = self.advance_progress();
                if done {
                    self.state = TransferState::Complete;
                }
                assert(self@ =~= accepted(old(self)@, chunk@));
                percent
            },
        }
    }

    /// Notes the quarter of the declared size that has been passed, and returns
    /// the percentage if the quarter is a new one.
    fn advance_progress(&mut self) -> (percent: Option<u64>)
        ensures
            final(self)@ == (AssemblyView {
                reported_quarter: final(self).reported_quarter,
                ..old(self)@
            }),
            match percent_of(
                old(self).data@.len(),
                match old(self)@.metadata {
                    Some(m) => m.size_bytes,
                    None => None,
                },
            ) {
                Some(p) if quarter_of(p) > old(self).reported_quarter => {
                    &&& final(self).reported_quarter == quarter_of(p)
                    &&& percent == Some(p as u64)
                },
                _ => {
                    &&& final(self).reported_quarter == old(self).reported_quarter
                    &&& percent is None
                },
            },
    {
        let declared: Option<u64> = match &self.metadata {
            Some(m) => m.size_bytes,
            None => None,
        };
        match declared {
            Some(total) => {
                if total == 0 {
                    return None;
                }
                let len: u128 = self.data.len() as u128;
                let pct: u128 = len * 100 / (total as u128);
                let low: u128 = pct % 256;
                let quarter: u8 = if low / 25 < 3 {
                    (low / 25) as u8
                } else {
                    3
                };
                assert(pct as nat == self.data@.len() * 100 / (total as nat));
                if quarter > self.reported_quarter {
                    self.reported_quarter = quarter;
                    Some(pct as u64)
                } else {
                    None
                }
            },
            None => None,
        }
    }

    /// Breaks the transfer off, because the peer reported `err`.
    pub fn fail(&mut self, err: String)
        requires
            old(self)@.wf(),
        ensures
            final(self)@ == (AssemblyView { state: TransferStateView::Failed(err@), ..old(self)@ }),
            final(self)@.wf(),
    {
        self.state = TransferState::Failed(err);
    }

    /// Ends the transfer, given the checksum of the bytes that came.
    pub fn conclude_with_crc(self, peer: NodeId, crc: u32) -> (r: OutboundResult)
        requires
            self@.wf(),
        ensures
            r@ == concluded(self@, peer, crc),
    {
        match self.state {
            TransferState::Failed(err) => fetch_snapshot_failed(peer, err),
            TransferState::Open => {
                let mut err = "FetchSnapshot stream ended after ".to_owned();
                push_decimal(&mut err, self.chunk_count);
                err.append(" chunks without done=true");
                fetch_snapshot_failed(peer, err)
            },
            TransferState::Complete => {
                match self.fails_integrity(crc) {
                    Some(err) => fetch_snapshot_failed(peer, err),
                    None => OutboundResult::FetchSnapshot {
                        peer,
                        cluster_id: self.cluster_id.unwrap(),
                        leader_epoch: self.leader_epoch.unwrap(),
                        chunk_count: self.chunk_count,
                        completed: true,
                        metadata: self.metadata,
                        data: self.data,
                    },
                }
            },
        }
    }

    /// Why the bytes are not those that were described, if they are not.
    fn fails_integrity(&self, crc: u32) -> (r: Option<String>)
        requires
            self@.wf(),
            self@.state is Complete,
        ensures
            match r {
                Some(err) => integrity_fault(self@, crc) == Some(err@),
                None => integrity_fault(self@, crc) is None,
            },
    {
        let (size, checksum): (Option<u64>, Option<u64>) = match &self.metadata {
            Some(m) => (m.size_bytes, m.checksum),
            None => (None, None),
        };
        let len: u64 = self.data.len() as u64;
        if let Some(declared) = size {
            if declared != len {
                let mut err =
                    "FetchSnapshot integrity check failed: declared size ".to_owned();
                push_decimal(&mut err, declared);
                err.append(" bytes != reassembled ");
                push_decimal(&mut err, len);
                err.append(" bytes (chunk_count=");
                push_decimal(&mut err, self.chunk_count);
                err.append(")");
                return Some(err);
            }
        }
        if let Some(declared) = checksum {
            if declared != crc as u64 {
                let mut err =
                    "FetchSnapshot integrity check failed: declared crc32 0x".to_owned();
                push_padded(&mut err, declared, 16, 8);
                err.append(" != computed 0x");
                push_padded(&mut err, crc as u64, 16, 8);
                err.append(" (");
                push_decimal(&mut err, len);
                err.append(" bytes, chunk_count=");
                push_decimal(&mut err, self.chunk_count);
                err.append(")");
                return Some(err);
            }
        }
        None
    }

    /// Ends the transfer.
    pub fn conclude(self, peer: NodeId) -> (r: OutboundResult)
        requires
            self@.wf(),
        ensures
            r@ == concluded(self@, peer, crc32_of(self.data@)),
    {
        let crc: u32 = crc32(&self.data);
        self.conclude_with_crc(peer, crc)
    }
}

/// Where a transfer stands after `chunks` have come; what comes after its end is
/// not looked at.
pub open spec fn drained(max_bytes: nat, chunks: Seq<ChunkView>) -> AssemblyView
    decreases chunks.len(),
{
    if chunks.len() == 0 {
        empty_assembly(max_bytes)
    } else {
        let before = drained(max_bytes, chunks.drop_last());
        if before.state is Open {
            accepted(before, chunks.last())
        } else {
            before
        }
    }
}

/// Byte strings put one after the other.
pub open spec fn joined(pieces: Seq<Seq<u8>>) -> Seq<u8>
    decreases pieces.len(),
{
    if pieces.len() == 0 {
        Seq::empty()
    } else {
        joined(pieces.drop_last()) + pieces.last()
    }
}

/// The bytes that the pieces of a transfer carry.
pub open spec fn payloads(chunks: Seq<ChunkView>) -> Seq<Seq<u8>> {
    chunks.map_values(|c: ChunkView| c.data)
}

/// The pieces in which a snapshot is sent: numbered from zero, all in the same
/// envelope, the first with the description and the last marked.
pub open spec fn transfer(
    meta: SnapshotMetaView,
    pieces: Seq<Seq<u8>>,
    cluster_id: Seq<char>,
    leader_epoch: u64,
) -> Seq<ChunkView> {
    Seq::new(
        pieces.len(),
        |i: int|
            ChunkView {
                cluster_id,
                leader_epoch,
                chunk_index: i as u64,
                data: pieces[i],
                done: i == pieces.len() - 1,
                metadata: if i == 0 {
                    Some(meta)
                } else {
                    None
                },
            },
    )
}

/// Whatever a peer sends, the bytes held never exceed the limit, and what is
/// known of the snapshot is what its first piece said.
pub proof fn law_transfer_is_bounded(max_bytes: nat, chunks: Seq<ChunkView>)
    requires
        chunks.len() < u64::MAX,
    ensures
        drained(max_bytes, chunks).wf(),
        drained(max_bytes, chunks).max_bytes == max_bytes,
        drained(max_bytes, chunks).data.len() <= max_bytes,
        drained(max_bytes, chunks).chunk_count <= chunks.len(),
        drained(max_bytes, chunks).chunk_count > 0 ==> drained(max_bytes, chunks).metadata
            == chunks[0].metadata,
    decreases chunks.len(),
{
    if chunks.len() > 0 {
        law_transfer_is_bounded(max_bytes, chunks.drop_last());
    }
}

proof fn lemma_joined_take(chunks: Seq<ChunkView>, n: int)
    requires
        0 < n <= chunks.len(),
    ensures
        joined(payloads(chunks.take(n))) == joined(payloads(chunks.take(n - 1))) + chunks[n - 1].data,
{
    assert(payloads(chunks.take(n)).drop_last() =~= payloads(chunks.take(n - 1)));
}

/// The bytes held are those of the accepted pieces, in the order in which they
/// came. A transfer is complete only once a piece marked as the last was
/// accepted.
pub proof fn law_assembly_is_concatenation(max_bytes: nat, chunks: Seq<ChunkView>)
    requires
        chunks.len() < u64::MAX,
    ensures
        ({
            let a = drained(max_bytes, chunks);
            &&& a.chunk_count <= chunks.len()
            &&& a.data == joined(payloads(chunks.take(a.chunk_count as int)))
            &&& a.state is Open ==> a.chunk_count == chunks.len()
            &&& a.state is Complete ==> a.chunk_count > 0 && chunks[a.chunk_count - 1].done
        }),
    decreases chunks.len(),
{
    if chunks.len() == 0 {
        assert(payloads(chunks.take(0)) =~= Seq::<Seq<u8>>::empty());
    } else {
        let last = chunks.len() - 1;
        law_assembly_is_concatenation(max_bytes, chunks.drop_last());
        let before = drained(max_bytes, chunks.drop_last());
        let n = before.chunk_count as int;
        assert(chunks.drop_last().take(n) =~= chunks.take(n));
        if before.state is Open && chunk_fault(before, chunks.last()) is None {
            lemma_joined_take(chunks, n + 1);
        }
    }
}

/// A snapshot that is handed on has the size and the checksum that its
/// description declares, and its bytes are those of the pieces.
pub proof fn law_transferred_snapshot_is_intact(
    max_bytes: nat,
    chunks: Seq<ChunkView>,
    peer: NodeId,
    crc: u32,
)
    requires
        chunks.len() < u64::MAX,
        concluded(drained(max_bytes, chunks), peer, crc) is FetchSnapshot,
    ensures
        ({
            let r = concluded(drained(max_bytes, chunks), peer, crc);
            &&& r->completed
            &&& 0 < r->chunk_count <= chunks.len()
            &&& r->data == joined(payloads(chunks.take(r->chunk_count as int)))
            &&& r->FetchSnapshot_metadata == chunks[0].metadata
            &&& r->FetchSnapshot_metadata is Some
            &&& r->FetchSnapshot_metadata->0.size_bytes matches Some(n) ==> n == r->data.len()
            &&& r->FetchSnapshot_metadata->0.checksum matches Some(c) ==> c == crc
        }),
{
    law_assembly_is_concatenation(max_bytes, chunks);
    law_transfer_is_bounded(max_bytes, chunks);
}

proof fn lemma_joined_prefix_len(pieces: Seq<Seq<u8>>, n: int)
    requires
        0 <= n <= pieces.len(),
    ensures
        joined(pieces.take(n)).len() <= joined(pieces).len(),
    decreases pieces.len() - n,
{
    if n < pieces.len() {
        lemma_joined_prefix_len(pieces, n + 1);
        assert(pieces.take(n + 1).drop_last() =~= pieces.take(n));
    } else {
        assert(pieces.take(n) =~= pieces);
    }
}

proof fn lemma_transfer_prefix(
    max_bytes: nat,
    meta: SnapshotMetaView,
    pieces: Seq<Seq<u8>>,
    cluster_id: Seq<char>,
    leader_epoch: u64,
    n: int,
)
    requires
        pieces.len() < u64::MAX,
        joined(pieces).len() <= max_bytes,
        0 <= n <= pieces.len(),
    ensures
        ({
            let a = drained(
                max_bytes,
                transfer(meta, pieces, cluster_id, leader_epoch).take(n),
            );
            &&& a.max_bytes == max_bytes
            &&& a.chunk_count == n
            &&& a.data == joined(pieces.take(n))
            &&& n > 0 ==> a.metadata == Some(meta) && a.cluster_id == Some(cluster_id)
                && a.leader_epoch == Some(leader_epoch)
            &&& n == 0 ==> a == empty_assembly(max_bytes)
            &&& n < pieces.len() ==> a.state is Open
            &&& n == pieces.len() && n > 0 ==> a.state is Complete
        }),
    decreases n,
{
    let chunks = transfer(meta, pieces, cluster_id, leader_epoch);
    if n > 0 {
        lemma_transfer_prefix(max_bytes, meta, pieces, cluster_id, leader_epoch, n - 1);
        lemma_joined_prefix_len(pieces, n);
        assert(pieces.take(n).drop_last() =~= pieces.take(n - 1));
        assert(chunks.take(n).drop_last() =~= chunks.take(n - 1));
        assert(chunks.take(n).last() == chunks[n - 1]);
    }
}

/// A snapshot that is sent in pieces arrives as it was sent: every byte, the
/// description and the envelope.
pub proof fn law_transfer_round_trip(
    max_bytes: nat,
    meta: SnapshotMetaView,
    pieces: Seq<Seq<u8>>,
    cluster_id: Seq<char>,
    leader_epoch: u64,
    peer: NodeId,
    crc: u32,
)
    requires
        0 < pieces.len() < u64::MAX,
        joined(pieces).len() <= max_bytes,
        meta.size_bytes matches Some(n) ==> n == joined(pieces).len(),
        meta.checksum matches Some(c) ==> c == crc,
    ensures
        concluded(
            drained(max_bytes, transfer(meta, pieces, cluster_id, leader_epoch)),
            peer,
            crc,
        ) == (OutboundResultView::FetchSnapshot {
            peer,
            cluster_id,
            leader_epoch,
            chunk_count: pieces.len() as u64,
            completed: true,
            metadata: Some(meta),
            data: joined(pieces),
        }),
{
    let chunks = transfer(meta, pieces, cluster_id, leader_epoch);
    lemma_transfer_prefix(
        max_bytes,
        meta,
        pieces,
        cluster_id,
        leader_epoch,
        pieces.len() as int,
    );
    assert(chunks.take(pieces.len() as int) =~= chunks);
    assert(pieces.take(pieces.len() as int) =~= pieces);
}

/// Each request becomes the call of its kind, unchanged; an answer on its own becomes no
/// call.
pub proof fn law_requests_become_their_own_calls(
    vote: VoteRequest,
    pre_vote: PreVoteRequest,
    fetch: FetchRequest,
    snapshot: FetchSnapshotRequest,
    message: OutboundMessage,
)
    ensures
        call_of(OutboundMessage::VoteRequest(vote)) == OutboundCall::Vote(vote),
        call_of(OutboundMessage::PreVoteRequest(pre_vote)) == OutboundCall::PreVote(pre_vote),
        call_of(OutboundMessage::FetchRequest(fetch)) == OutboundCall::Fetch(fetch),
        call_of(OutboundMessage::FetchSnapshotRequest(snapshot)) == OutboundCall::FetchSnapshot(
            snapshot,
        ),
        call_of(message) is Dropped <==> message is VoteResponse || message is PreVoteResponse
            || message is FetchResponse,
{
}

/// Whether a piece cannot follow on what has come: it is of another cluster or term than
/// the pieces before it, it is not the next one, it is the first one and describes
/// nothing, or it brings too many bytes.
pub open spec fn does_not_follow(a: AssemblyView, c: ChunkView) -> bool {
    ||| a.chunk_count > 0 && a.cluster_id != Some(c.cluster_id)
    ||| a.chunk_count > 0 && a.leader_epoch != Some(c.leader_epoch)
    ||| c.chunk_index != a.chunk_count
    ||| a.chunk_count == 0 && c.metadata is None
    ||| a.data.len() + c.data.len() > a.max_bytes
}

/// A piece that cannot follow breaks the transfer off, and nothing of it is kept. Any
/// other piece is added: its bytes behind those that came before, its description if it
/// is the first. The transfer is complete with the piece that is marked as the last.
pub proof fn law_piece_follows_or_breaks_the_transfer(a: AssemblyView, c: ChunkView)
    requires
        a.wf(),
        a.state is Open,
        a.chunk_count < u64::MAX,
    ensures
        accepted(a, c).state is Failed <==> does_not_follow(a, c),
        does_not_follow(a, c) ==> accepted(a, c) == (AssemblyView {
            state: accepted(a, c).state,
            ..a
        }),
        !does_not_follow(a, c) ==> {
            let b = accepted(a, c);
            &&& b.data == a.data + c.data
            &&& b.chunk_count == a.chunk_count + 1
            &&& b.max_bytes == a.max_bytes
            &&& b.cluster_id == Some(c.cluster_id)
            &&& b.leader_epoch == Some(c.leader_epoch)
            &&& a.chunk_count == 0 ==> b.metadata == c.metadata
            &&& a.chunk_count > 0 ==> b.metadata == a.metadata
            &&& c.done ==> b.state is Complete
            &&& !c.done ==> b.state is Open
        },
{
}

/// The pieces that a transfer has accepted belong together: they are numbered from zero,
/// are all of the first one's cluster and term, and none but the last is marked as the
/// last.
pub proof fn law_accepted_pieces_belong_together(
    max_bytes: nat,
    chunks: Seq<ChunkView>,
    i: int,
)
    requires
        chunks.len() < u64::MAX,
        0 <= i < drained(max_bytes, chunks).chunk_count,
    ensures
        ({
            let a = drained(max_bytes, chunks);
            &&& a.chunk_count <= chunks.len()
            &&& chunks[i].chunk_index == i
            &&& chunks[i].cluster_id == chunks[0].cluster_id
            &&& chunks[i].leader_epoch == chunks[0].leader_epoch
            &&& a.cluster_id == Some(chunks[0].cluster_id)
            &&& a.leader_epoch == Some(chunks[0].leader_epoch)
            &&& a.metadata == chunks[0].metadata
            &&& i < a.chunk_count - 1 ==> !chunks[i].done
            &&& a.state is Complete ==> chunks[a.chunk_count - 1].done
            &&& a.state is Open ==> !chunks[a.chunk_count - 1].done
        }),
    decreases chunks.len(),
{
    law_transfer_is_bounded(max_bytes, chunks);
    law_assembly_is_concatenation(max_bytes, chunks);
    let last = chunks.len() - 1;
    let rest = chunks.drop_last();
    let before = drained(max_bytes, rest);
    law_transfer_is_bounded(max_bytes, rest);
    law_assembly_is_concatenation(max_bytes, rest);
    if i < before.chunk_count {
        law_accepted_pieces_belong_together(max_bytes, rest, i);
    }
    if before.state is Open {
        law_piece_follows_or_breaks_the_transfer(before, chunks.last());
        if before.chunk_count > 0 {
            law_accepted_pieces_belong_together(max_bytes, rest, 0);
            lemma_open_is_not_marked(max_bytes, rest);
        }
    }
}

/// While a transfer goes on, its latest piece is not marked as the last.
proof fn lemma_open_is_not_marked(max_bytes: nat, chunks: Seq<ChunkView>)
    requires
        chunks.len() < u64::MAX,
        drained(max_bytes, chunks).state is Open,
        drained(max_bytes, chunks).chunk_count > 0,
    ensures
        !chunks[drained(max_bytes, chunks).chunk_count - 1].done,
{
    law_assembly_is_concatenation(max_bytes, chunks);
    law_assembly_is_concatenation(max_bytes, chunks.drop_last());
}

/// A transfer is handed on exactly if its last piece has come and its bytes have the size
/// and the checksum that were declared, as far as they were; then everything of it is
/// handed on in the name of the node that sent it. In any other case the node's call for a
/// snapshot has failed.
pub proof fn law_only_intact_transfers_are_handed_on(a: AssemblyView, peer: NodeId, crc: u32)
    requires
        a.wf(),
    ensures
        ({
            let meta = a.metadata->0;
            let intact = a.state is Complete && (meta.size_bytes matches Some(n) ==> n
                == a.data.len()) && (meta.checksum matches Some(c) ==> c == crc);
            let r = concluded(a, peer, crc);
            &&& intact ==> r == (OutboundResultView::FetchSnapshot {
                peer,
                cluster_id: a.cluster_id->0,
                leader_epoch: a.leader_epoch->0,
                chunk_count: a.chunk_count,
                completed: true,
                metadata: a.metadata,
                data: a.data,
            })
            &&& !intact ==> (r matches OutboundResultView::Error { peer: p, kind, err } && p == peer
                && kind == "fetch_snapshot"@)
        }),
{
}

/// A percentage that is reported is that of all the bytes that have come, of the size that
/// was declared, and it lies in a higher quarter than the one reported before.
pub proof fn law_reported_progress_is_the_share_that_has_come(a: AssemblyView, c: ChunkView)
    requires
        a.wf(),
        a.state is Open,
        progress(a, c) is Some,
    ensures
        ({
            let p = progress(a, c)->0;
            let size = if a.chunk_count == 0 {
                c.metadata->0.size_bytes
            } else {
                a.metadata->0.size_bytes
            };
            let have = a.data.len() + c.data.len();
            &&& size matches Some(total) && total > 0 && p * total <= have * 100 && have * 100 < (p
                + 1) * total
            &&& p < 256 ==> p >= 25 * (a.reported_quarter + 1)
            &&& chunk_fault(a, c) is None ==> accepted(a, c).reported_quarter
                > a.reported_quarter
        }),
{
    let p = progress(a, c)->0;
    let total = declared_size(a, c)->0 as nat;
    let have = a.data.len() + c.data.len();
    assert(total * p <= have * 100 && have * 100 < total * (p + 1)) by (nonlinear_arith)
        requires
            total > 0,
            p == have * 100 / total,
    ;
    assert(p * total == total * p) by (nonlinear_arith);
    assert((p + 1) * total == total * (p + 1)) by (nonlinear_arith);
}

/// A piece that breaks a transfer off is named with what was expected and what came.
pub proof fn law_broken_transfers_are_worded(a: AssemblyView, c: ChunkView)
    requires
        a.wf(),
        a.state is Open,
    ensures
        ({
            let other_cluster = a.chunk_count > 0 && a.cluster_id->0 != c.cluster_id;
            let other_epoch = a.chunk_count > 0 && a.leader_epoch->0 != c.leader_epoch;
            let misplaced = c.chunk_index != a.chunk_count;
            let state = accepted(a, c).state;
            &&& other_cluster ==> state == TransferStateView::Failed(
                "FetchSnapshot stream cluster_id mutated mid-stream: "@ + a.cluster_id->0 + " -> "@
                    + c.cluster_id,
            )
            &&& !other_cluster && other_epoch ==> state == TransferStateView::Failed(
                "FetchSnapshot stream leader_epoch mutated mid-stream: "@ + decimal(
                    a.leader_epoch->0 as nat,
                ) + " -> "@ + decimal(c.leader_epoch as nat),
            )
            &&& !other_cluster && !other_epoch && misplaced ==> state == TransferStateView::Failed(
                "FetchSnapshot chunk_index out of order: expected "@ + decimal(
                    a.chunk_count as nat,
                ) + ", got "@ + decimal(c.chunk_index as nat),
            )
            &&& a.chunk_count == 0 && !misplaced && c.metadata is None ==> state
                == TransferStateView::Failed(
                "FetchSnapshot first chunk missing required SnapshotMeta"@,
            )
        }),
{
}

/// The bytes that a transfer brings in all are those of its pieces: a piece that is accepted
/// changes none of those before it, whatever comes later.
pub proof fn law_later_pieces_change_no_earlier_bytes(
    max_bytes: nat,
    chunks: Seq<ChunkView>,
    n: int,
)
    requires
        chunks.len() < u64::MAX,
        0 <= n <= chunks.len(),
    ensures
        drained(max_bytes, chunks.take(n)).data.is_prefix_of(drained(max_bytes, chunks).data),
        !(drained(max_bytes, chunks.take(n)).state is Open) ==> drained(max_bytes, chunks)
            == drained(max_bytes, chunks.take(n)),
    decreases chunks.len() - n,
{
    if n < chunks.len() {
        law_later_pieces_change_no_earlier_bytes(max_bytes, chunks, n + 1);
        assert(chunks.take(n + 1).drop_last() =~= chunks.take(n));
    } else {
        assert(chunks.take(n) =~= chunks);
    }
}

/// An answered call ends in that answer, under the name of the node that gave it: for a vote
/// the node that was called, for a fetch the node that answered. A failed call ends in its
/// error, under the name of the node that was called and of the kind of call.
pub proof fn law_calls_end_in_their_answers(
    peer: NodeId,
    responder: NodeId,
    vote: VoteResponse,
    pre_vote: PreVoteResponse,
    fetch: FetchResponse,
    err: String,
)
    ensures
        vote_ended(peer, Ok(vote)) == (OutboundResultView::Vote { peer, response: vote }),
        pre_vote_ended(peer, Ok(pre_vote)) == (OutboundResultView::PreVote {
            peer,
            response: pre_vote,
        }),
        fetch_ended(peer, Ok((responder, fetch))) == (OutboundResultView::Fetch {
            peer: responder,
            response: fetch@,
        }),
        vote_ended(peer, Err(err)) == (OutboundResultView::Error {
            peer,
            kind: "vote"@,
            err: err@,
        }),
        pre_vote_ended(peer, Err(err)) == (OutboundResultView::Error {
            peer,
            kind: "pre_vote"@,
            err: err@,
        }),
        fetch_ended(peer, Err(err)) == (OutboundResultView::Error {
            peer,
            kind: "fetch"@,
            err: err@,
        }),
{
}

/// A transfer that cannot be handed on is named: that it brought too much, that it ended too
/// early, or how its bytes differ from what was declared.
pub proof fn law_unfit_transfers_are_worded(
    a: AssemblyView,
    c: ChunkView,
    peer: NodeId,
    crc: u32,
)
    requires
        a.wf(),
    ensures
        a.state is Open && !(a.chunk_count > 0 && (a.cluster_id->0 != c.cluster_id
            || a.leader_epoch->0 != c.leader_epoch)) && c.chunk_index == a.chunk_count && !(
        a.chunk_count == 0 && c.metadata is None) && a.data.len() + c.data.len() > a.max_bytes
            ==> accepted(a, c).state == TransferStateView::Failed(
            "FetchSnapshot reassembled data exceeded cap of "@ + decimal(a.max_bytes)
                + " bytes (got "@ + decimal(a.data.len()) + " + "@ + decimal(c.data.len()) + ")"@,
        ),
        a.state is Open ==> concluded(a, peer, crc) == (OutboundResultView::Error {
            peer,
            kind: "fetch_snapshot"@,
            err: "FetchSnapshot stream ended after "@ + decimal(a.chunk_count as nat)
                + " chunks without done=true"@,
        }),
        a.state matches TransferStateView::Failed(err) ==> concluded(a, peer, crc)
            == (OutboundResultView::Error { peer, kind: "fetch_snapshot"@, err }),
        a.state is Complete && (a.metadata->0.size_bytes matches Some(n) && n != a.data.len())
            ==> concluded(a, peer, crc) == (OutboundResultView::Error {
            peer,
            kind: "fetch_snapshot"@,
            err: "FetchSnapshot integrity check failed: declared size "@ + decimal(
                a.metadata->0.size_bytes->0 as nat,
            ) + " bytes != reassembled "@ + decimal(a.data.len()) + " bytes (chunk_count="@
                + decimal(a.chunk_count as nat) + ")"@,
        }),
        a.state is Complete && (a.metadata->0.size_bytes matches Some(n) ==> n == a.data.len()) && (
        a.metadata->0.checksum matches Some(k) && k != crc) ==> concluded(a, peer, crc)
            == (OutboundResultView::Error {
            peer,
            kind: "fetch_snapshot"@,
            err: "FetchSnapshot integrity check failed: declared crc32 0x"@ + padded(
                a.metadata->0.checksum->0 as nat,
                16,
                8,
            ) + " != computed 0x"@ + padded(crc as nat, 16, 8) + " ("@ + decimal(a.data.len())
                + " bytes, chunk_count="@ + decimal(a.chunk_count as nat) + ")"@,
        }),
{
}

} // verus!
