//! Calls of other nodes: what they are answered with when the engine gives no
//! answer, and who may read a snapshot.
use vstd::prelude::*;
use vstd::string::*;

use crate::error::{ErrorView, XRaftError};
use crate::host::{piece_view, ChunkView, StoredChunk};
use crate::message::{
    FetchResponse, FetchResponseView, FetchSnapshotChunk, FetchSnapshotRequest, PreVoteResponse,
    VoteResponse,
};
use crate::queue::into_queue;
use crate::router::transfer;
use crate::text::{decimal, push_decimal};
use crate::types::{node_text, NodeId, NodeView, PeerProgress, SnapshotMetaView, Term};

verus! {

/// A vote that is not granted.
pub open spec fn denied_vote(node: &NodeView) -> VoteResponse {
    VoteResponse {
        cluster_id: node.cluster_id,
        leader_epoch: node.current_term.0,
        term: node.current_term,
        vote_granted: false,
        leader_hint: node.leader_id,
    }
}

/// The answer to a vote request that the engine leaves unanswered.
pub fn default_deny_vote(node: &NodeView) -> (r: VoteResponse)
    ensures
        r == denied_vote(node),
{
    VoteResponse {
        cluster_id: node.cluster_id.clone(),
        leader_epoch: node.current_term.0,
        term: node.current_term,
        vote_granted: false,
        leader_hint: node.leader_id,
    }
}

/// A trial vote that is not granted.
pub open spec fn denied_pre_vote(node: &NodeView) -> PreVoteResponse {
    PreVoteResponse {
        cluster_id: node.cluster_id,
        leader_epoch: node.current_term.0,
        term: node.current_term,
        vote_granted: false,
        leader_hint: node.leader_id,
    }
}

/// The answer to a trial vote request that the engine leaves unanswered.
pub fn default_deny_pre_vote(node: &NodeView) -> (r: PreVoteResponse)
    ensures
        r == denied_pre_vote(node),
{
    PreVoteResponse {
        cluster_id: node.cluster_id.clone(),
        leader_epoch: node.current_term.0,
        term: node.current_term,
        vote_granted: false,
        leader_hint: node.leader_id,
    }
}

/// A fetch that is not served: no entries, and the leader as far as it is known.
pub open spec fn denied_fetch(node: &NodeView) -> FetchResponseView {
    FetchResponseView {
        cluster_id: node.cluster_id@,
        leader_epoch: node.current_term.0,
        leader_id: match node.leader_id {
            Some(id) => id,
            None => node.id,
        },
        high_watermark: node.commit_index,
        entries: seq![],
        diverging_epoch: None,
        snapshot_redirect: None,
        is_leader: false,
    }
}

/// The answer to a fetch that the engine leaves unanswered.
pub fn default_deny_fetch(node: &NodeView) -> (r: FetchResponse)
    ensures
        r@ == denied_fetch(node),
{
    let r = FetchResponse {
        cluster_id: node.cluster_id.clone(),
        leader_epoch: node.current_term.0,
        leader_id: match node.leader_id {
            Some(id) => id,
            None => node.id,
        },
        high_watermark: node.commit_index,
        entries: Vec::new(),
        diverging_epoch: None,
        snapshot_redirect: None,
        is_leader: false,
    };
    assert(r@.entries =~= seq![]);
    r
}

/// Whether the engine tracks a peer of the given id.
pub open spec fn known_peer(peers: Seq<PeerProgress>, id: NodeId) -> bool {
    exists|i: int| 0 <= i < peers.len() && (#[trigger] peers[i]).id == id
}

/// Whether a node may read from this one: voters and tracked peers may.
pub open spec fn member(node: &NodeView, id: NodeId) -> bool {
    ||| (node.voter_set matches Some(set) && set@.contains(id))
    ||| known_peer(node.peers@, id)
}

/// Whether a node may read from this one.
fn is_member(node: &NodeView, id: NodeId) -> (found: bool)
    ensures
        found == member(node, id),
{
    if let Some(set) = &node.voter_set {
        if set.contains(id) {
            return true;
        }
    }
    let mut i: usize = 0;
    while i < node.peers.len()
        invariant
            i <= node.peers.len(),
            forall|j: int| 0 <= j < i ==> (#[trigger] node.peers@[j]).id != id,
        decreases node.peers.len() - i,
    {
        if node.peers[i].id == id {
            return true;
        }
        i = i + 1;
    }
    false
}

/// What is made of a request for a snapshot before any storage is touched.
#[derive(Debug)]
pub enum SnapshotVerdict {
    /// It is refused.
    Refuse(XRaftError),
    /// The caller is in a higher term: this node must step down.
    StepDown(Term),
    /// The snapshot is looked up.
    Serve,
}

/// What a [`SnapshotVerdict`] says.
#[verifier::ext_equal]
pub enum SnapshotVerdictView {
    Refuse(ErrorView),
    StepDown(Term),
    Serve,
}

impl View for SnapshotVerdict {
    type V = SnapshotVerdictView;

    open spec fn view(&self) -> SnapshotVerdictView {
        match self {
            SnapshotVerdict::Refuse(e) => SnapshotVerdictView::Refuse(e@),
            SnapshotVerdict::StepDown(t) => SnapshotVerdictView::StepDown(*t),
            SnapshotVerdict::Serve => SnapshotVerdictView::Serve,
        }
    }
}

/// What stands before a node's snapshots. Foreign clusters come first, then
/// the node itself, then its role, then membership, and the term last.
pub open spec fn snapshot_verdict(
    node: &NodeView,
    request: &FetchSnapshotRequest,
) -> SnapshotVerdictView {
    if request.cluster_id@ != node.cluster_id@ {
        SnapshotVerdictView::Refuse(
            ErrorView::Transport(
                "FetchSnapshot cluster_id mismatch: expected "@ + node.cluster_id@ + ", got "@
                    + request.cluster_id@,
            ),
        )
    } else if request.replica_id == node.id {
        SnapshotVerdictView::Refuse(ErrorView::Transport("FetchSnapshot self-loopback rejected"@))
    } else if !node.leads() {
        SnapshotVerdictView::Refuse(ErrorView::NotLeader(node.leader_id))
    } else if !member(node, request.replica_id) {
        SnapshotVerdictView::Refuse(
            ErrorView::Transport(
                "FetchSnapshot from unknown replica "@ + node_text(request.replica_id)
                    + " (not a voter and not a tracked peer)"@,
            ),
        )
    } else if request.leader_epoch > node.current_term.0 {
        SnapshotVerdictView::StepDown(Term(request.leader_epoch))
    } else if request.leader_epoch < node.current_term.0 {
        SnapshotVerdictView::Refuse(
            ErrorView::Transport(
                "FetchSnapshot leader_epoch mismatch: caller="@ + decimal(
                    request.leader_epoch as nat,
                ) + ", ours="@ + decimal(node.current_term.0 as nat),
            ),
        )
    } else {
        SnapshotVerdictView::Serve
    }
}

/// Decides on a request for a snapshot.
pub fn judge_fetch_snapshot(node: &NodeView, request: &FetchSnapshotRequest) -> (r: SnapshotVerdict)
    ensures
        r@ == snapshot_verdict(node, request),
{
    if request.cluster_id != node.cluster_id {
        let mut msg = "FetchSnapshot cluster_id mismatch: expected ".to_owned();
        msg.append(node.cluster_id.as_str());
        msg.append(", got ");
        msg.append(request.cluster_id.as_str());
        return SnapshotVerdict::Refuse(XRaftError::Transport(msg));
    }
    if request.replica_id == node.id {
        return SnapshotVerdict::Refuse(
            XRaftError::Transport("FetchSnapshot self-loopback rejected".to_owned()),
        );
    }
    if !node.is_leader() {
        return SnapshotVerdict::Refuse(XRaftError::NotLeader { leader_hint: node.leader_id });
    }
    if !is_member(node, request.replica_id) {
        let mut msg = "FetchSnapshot from unknown replica ".to_owned();
        request.replica_id.push_text(&mut msg);
        msg.append(" (not a voter and not a tracked peer)");
        return SnapshotVerdict::Refuse(XRaftError::Transport(msg));
    }
    if request.leader_epoch > node.current_term.0 {
        return SnapshotVerdict::StepDown(Term(request.leader_epoch));
    }
    if request.leader_epoch < node.current_term.0 {
        let mut msg = "FetchSnapshot leader_epoch mismatch: caller=".to_owned();
        push_decimal(&mut msg, request.leader_epoch);
        msg.append(", ours=");
        push_decimal(&mut msg, node.current_term.0);
        return SnapshotVerdict::Refuse(XRaftError::Transport(msg));
    }
    SnapshotVerdict::Serve
}

/// How many pieces of a snapshot are handed out: all up to and including the
/// first one that could not be read.
pub open spec fn readable(pieces: Seq<Result<StoredChunk, XRaftError>>) -> nat
    decreases pieces.len(),
{
    if pieces.len() == 0 {
        0
    } else if pieces[0] is Err {
        1
    } else {
        1 + readable(pieces.drop_first())
    }
}

/// A piece of a snapshot, addressed to another node.
pub open spec fn addressed(
    node: &NodeView,
    piece: Result<StoredChunk, XRaftError>,
) -> Result<ChunkView, ErrorView> {
    match piece {
        Ok(c) => Ok(
            ChunkView {
                cluster_id: node.cluster_id@,
                leader_epoch: node.current_term.0,
                chunk_index: c.chunk_index,
                data: c.data@,
                done: c.done,
                metadata: match c.metadata {
                    Some(m) => Some(m@),
                    None => None,
                },
            },
        ),
        Err(e) => Err(e@),
    }
}

/// The pieces of a snapshot that are handed out.
pub open spec fn handed_out(
    node: &NodeView,
    pieces: Seq<Result<StoredChunk, XRaftError>>,
) -> Seq<Result<ChunkView, ErrorView>> {
    pieces.take(readable(pieces) as int).map_values(
        |p: Result<StoredChunk, XRaftError>| addressed(node, p),
    )
}

proof fn lemma_readable_at(pieces: Seq<Result<StoredChunk, XRaftError>>, i: int)
    requires
        0 <= i <= pieces.len(),
        forall|j: int| 0 <= j < i ==> (#[trigger] pieces[j]) is Ok,
    ensures
        readable(pieces) == i + readable(pieces.skip(i)),
        readable(pieces) <= pieces.len(),
    decreases pieces.len(),
{
    assert(pieces.skip(0) =~= pieces);
    if pieces.len() > 0 && pieces[0] is Ok {
        if i > 0 {
            lemma_readable_at(pieces.drop_first(), i - 1);
            assert(pieces.drop_first().skip(i - 1) =~= pieces.skip(i));
        } else {
            lemma_readable_at(pieces.drop_first(), 0);
        }
    }
}

/// Addresses the pieces of a snapshot to another node, up to and including the
/// first one that could not be read.
pub fn address_pieces(
    node: &NodeView,
    pieces: Vec<Result<StoredChunk, XRaftError>>,
) -> (r: Vec<Result<FetchSnapshotChunk, XRaftError>>)
    ensures
        r@.map_values(|p: Result<FetchSnapshotChunk, XRaftError>| piece_view(p)) == handed_out(
            node,
            pieces@,
        ),
{
    let ghost all = pieces@;
    let ghost say = |p: Result<FetchSnapshotChunk, XRaftError>| piece_view(p);
    let ghost tag = |p: Result<StoredChunk, XRaftError>| addressed(node, p);
    let mut rest = into_queue(pieces);
    let mut out: Vec<Result<FetchSnapshotChunk, XRaftError>> = Vec::new();
    proof {
        assert(rest@ =~= all.skip(0));
        lemma_readable_at(all, 0);
    }
    loop
        invariant_except_break
            out@.len() <= all.len(),
            rest@ == all.skip(out@.len() as int),
            forall|j: int| 0 <= j < out@.len() ==> (#[trigger] all[j]) is Ok,
        invariant
            say == (|p: Result<FetchSnapshotChunk, XRaftError>| piece_view(p)),
            tag == (|p: Result<StoredChunk, XRaftError>| addressed(node, p)),
            forall|j: int|
                0 <= j < out@.len() ==> piece_view(#[trigger] out@[j]) == addressed(node, all[j]),
        ensures
            out@.len() == readable(all),
            out@.len() <= all.len(),
        decreases rest@.len(),
    {
        let ghost i = out@.len() as int;
        let ghost left = rest@;
        proof {
            lemma_readable_at(all, i);
        }
        match rest.pop_front() {
            None => {
                assert(all.skip(i).len() == 0);
                break ;
            },
            Some(piece) => {
                assert(piece == all[i]);
                assert(all.skip(i)[0] == all[i]);
                assert(all.skip(i).drop_first() =~= all.skip(i + 1));
                match piece {
                    Ok(c) => {
                        let StoredChunk { chunk_index, data, done, metadata } = c;
                        let sent = FetchSnapshotChunk {
                            cluster_id: node.cluster_id.clone(),
                            leader_epoch: node.current_term.0,
                            chunk_index,
                            data,
                            done,
                            metadata,
                        };
                        assert(sent@ =~= addressed(node, all[i])->Ok_0);
                        out.push(Ok(sent));
                        assert(rest@ =~= all.skip(i + 1));
                    },
                    Err(e) => {
                        out.push(Err(e));
                        break ;
                    },
                }
            },
        }
    }
    assert(out@.map_values(say) =~= handed_out(node, all));
    out
}

/// A node that the engine leaves without an answer is never given a vote, and
/// learns the term that this node is in.
pub proof fn law_silence_is_denial(node: &NodeView)
    ensures
        !denied_vote(node).vote_granted,
        denied_vote(node).term == node.current_term,
        !denied_pre_vote(node).vote_granted,
        denied_pre_vote(node).term == node.current_term,
        !denied_fetch(node).is_leader,
        denied_fetch(node).entries.len() == 0,
{
}

/// A snapshot is read exactly by a voter or tracked peer of the same cluster,
/// other than the node itself, from a leader in the caller's own term.
pub proof fn law_snapshots_are_fenced(node: &NodeView, request: &FetchSnapshotRequest)
    ensures
        snapshot_verdict(node, request) is Serve <==> {
            &&& request.cluster_id@ == node.cluster_id@
            &&& request.replica_id != node.id
            &&& node.leads()
            &&& member(node, request.replica_id)
            &&& request.leader_epoch == node.current_term.0
        },
{
}

/// A leader steps down for a snapshot request exactly when a member of its own
/// cluster is in a higher term, and then into that term.
pub proof fn law_only_members_depose(node: &NodeView, request: &FetchSnapshotRequest)
    ensures
        snapshot_verdict(node, request) is StepDown <==> {
            &&& request.cluster_id@ == node.cluster_id@
            &&& request.replica_id != node.id
            &&& node.leads()
            &&& member(node, request.replica_id)
            &&& request.leader_epoch > node.current_term.0
        },
        snapshot_verdict(node, request) matches SnapshotVerdictView::StepDown(t) ==> t == Term(
            request.leader_epoch,
        ),
{
}

/// Of a stored snapshot every piece is handed out if all can be read; otherwise
/// nothing follows the first piece that cannot, and that piece is an error.
pub proof fn law_no_piece_after_a_fault(
    node: &NodeView,
    pieces: Seq<Result<StoredChunk, XRaftError>>,
)
    ensures
        (forall|j: int| 0 <= j < pieces.len() ==> (#[trigger] pieces[j]) is Ok) ==> handed_out(
            node,
            pieces,
        ).len() == pieces.len(),
        forall|j: int|
            0 <= j < handed_out(node, pieces).len() - 1 ==> (#[trigger] handed_out(
                node,
                pieces,
            )[j]) is Ok,
        handed_out(node, pieces).len() < pieces.len() ==> handed_out(node, pieces).len() > 0
            && handed_out(node, pieces).last() is Err,
{
    lemma_readable_at(pieces, 0);
    lemma_readable_shape(pieces);
}

proof fn lemma_readable_shape(pieces: Seq<Result<StoredChunk, XRaftError>>)
    ensures
        readable(pieces) <= pieces.len(),
        forall|j: int| 0 <= j < readable(pieces) - 1 ==> (#[trigger] pieces[j]) is Ok,
        readable(pieces) < pieces.len() ==> readable(pieces) > 0 && pieces[readable(pieces) - 1]
            is Err,
        (forall|j: int| 0 <= j < pieces.len() ==> (#[trigger] pieces[j]) is Ok) ==> readable(pieces)
            == pieces.len(),
    decreases pieces.len(),
{
    if pieces.len() > 0 && pieces[0] is Ok {
        let rest = pieces.drop_first();
        lemma_readable_shape(rest);
        assert forall|j: int| 0 <= j < readable(pieces) - 1 implies (#[trigger] pieces[j])
            is Ok by {
            if j > 0 {
                assert(rest[j - 1] == pieces[j]);
            }
        }
        if forall|j: int| 0 <= j < pieces.len() ==> (#[trigger] pieces[j]) is Ok {
            assert forall|j: int| 0 <= j < rest.len() implies (#[trigger] rest[j]) is Ok by {
                assert(rest[j] == pieces[j + 1]);
            }
        }
    }
}

/// Whether stored pieces are the parts of one snapshot: numbered from zero, the
/// first with the description and the last marked.
pub open spec fn well_stored(
    pieces: Seq<Result<StoredChunk, XRaftError>>,
    meta: SnapshotMetaView,
    parts: Seq<Seq<u8>>,
) -> bool {
    &&& pieces.len() == parts.len()
    &&& forall|i: int|
        0 <= i < pieces.len() ==> ((#[trigger] pieces[i]) matches Ok(c) && c.chunk_index == i
            && c.data@ == parts[i] && c.done == (i == pieces.len() - 1) && (match c.metadata {
            Some(m) => Some(m@),
            None => None,
        }) == (if i == 0 {
            Some(meta)
        } else {
            None
        }))
}

/// The pieces that a caller can read.
pub open spec fn good_pieces(pieces: Seq<Result<ChunkView, ErrorView>>) -> Seq<ChunkView> {
    pieces.map_values(|p: Result<ChunkView, ErrorView>| p->Ok_0)
}

/// The parts of a stored snapshot are handed out as one transfer, in the node's
/// own cluster and term.
pub proof fn law_stored_snapshot_is_handed_out_whole(
    node: &NodeView,
    pieces: Seq<Result<StoredChunk, XRaftError>>,
    meta: SnapshotMetaView,
    parts: Seq<Seq<u8>>,
)
    requires
        well_stored(pieces, meta, parts),
        parts.len() < u64::MAX,
    ensures
        forall|i: int|
            0 <= i < handed_out(node, pieces).len() ==> (#[trigger] handed_out(node, pieces)[i])
                is Ok,
        good_pieces(handed_out(node, pieces)) == transfer(
            meta,
            parts,
            node.cluster_id@,
            node.current_term.0,
        ),
{
    lemma_readable_shape(pieces);
    let out = good_pieces(handed_out(node, pieces));
    let sent = transfer(meta, parts, node.cluster_id@, node.current_term.0);
    assert(pieces.take(pieces.len() as int) =~= pieces);
    assert forall|i: int| 0 <= i < out.len() implies out[i] == sent[i] by {
        assert(pieces[i] is Ok);
        assert(out[i] =~= sent[i]);
    }
    assert(out =~= sent);
}

/// A node may read from this one if it is a voter or if the engine tracks it, and only
/// then.
pub proof fn law_voters_and_replicas_are_members(node: &NodeView, id: NodeId)
    ensures
        member(node, id) <==> ((node.voter_set matches Some(set) && exists|i: int|
            0 <= i < set@.len() && #[trigger] set@[i] == id) || exists|i: int|
            0 <= i < node.peers@.len() && (#[trigger] node.peers@[i]).id == id),
{
    if let Some(set) = node.voter_set {
        if exists|i: int| 0 <= i < set@.len() && #[trigger] set@[i] == id {
            let i = choose|i: int| 0 <= i < set@.len() && #[trigger] set@[i] == id;
            assert(set@.contains(id));
        }
    }
}

/// A refused request for a snapshot is told why. A node that does not lead names the leader
/// that it knows of; every other refusal is an error of the transport. A foreign cluster is
/// refused whoever asks, and the node itself whoever leads.
pub proof fn law_refused_snapshot_requests_say_why(node: &NodeView, request: &FetchSnapshotRequest)
    ensures
        ({
            let verdict = snapshot_verdict(node, request);
            let foreign = request.cluster_id@ != node.cluster_id@;
            let own = request.replica_id == node.id;
            &&& verdict == SnapshotVerdictView::Refuse(ErrorView::NotLeader(node.leader_id))
                <==> !foreign && !own && !(node.role is Leader)
            &&& foreign || own ==> (verdict matches SnapshotVerdictView::Refuse(e) && e
                is Transport)
            &&& node.role is Leader && !member(node, request.replica_id) ==> (verdict
                matches SnapshotVerdictView::Refuse(e) && e is Transport)
            &&& node.role is Leader && request.leader_epoch < node.current_term.0 ==> (verdict
                matches SnapshotVerdictView::Refuse(e) && e is Transport)
        }),
{
}

/// Each piece that is handed out is the stored piece of the same place: its bytes, its
/// number, its mark and its description, in the node's own cluster and term. A piece that
/// could not be read is its error.
pub proof fn law_handed_out_pieces_are_the_stored_ones(
    node: &NodeView,
    pieces: Seq<Result<StoredChunk, XRaftError>>,
    i: int,
)
    requires
        0 <= i < handed_out(node, pieces).len(),
    ensures
        i < pieces.len(),
        pieces[i] matches Ok(c) ==> (handed_out(node, pieces)[i] matches Ok(sent) && sent.data
            == c.data@ && sent.chunk_index == c.chunk_index && sent.done == c.done
            && sent.cluster_id == node.cluster_id@ && sent.leader_epoch == node.current_term.0
            && sent.metadata == match c.metadata {
            Some(m) => Some(m@),
            None => None,
        }),
        pieces[i] matches Err(e) ==> handed_out(node, pieces)[i] == Err::<ChunkView, ErrorView>(
            e@,
        ),
{
    lemma_readable_shape(pieces);
}

/// A refusal names what it is about: both clusters, the unknown replica, or both terms.
pub proof fn law_refusals_are_worded(node: &NodeView, request: &FetchSnapshotRequest)
    ensures
        ({
            let verdict = snapshot_verdict(node, request);
            let ours = request.cluster_id@ == node.cluster_id@;
            let own = request.replica_id == node.id;
            let leads = node.role is Leader;
            let known = member(node, request.replica_id);
            &&& !ours ==> verdict == SnapshotVerdictView::Refuse(
                ErrorView::Transport(
                    "FetchSnapshot cluster_id mismatch: expected "@ + node.cluster_id@ + ", got "@
                        + request.cluster_id@,
                ),
            )
            &&& ours && own ==> verdict == SnapshotVerdictView::Refuse(
                ErrorView::Transport("FetchSnapshot self-loopback rejected"@),
            )
            &&& ours && !own && leads && !known ==> verdict == SnapshotVerdictView::Refuse(
                ErrorView::Transport(
                    "FetchSnapshot from unknown replica "@ + node_text(request.replica_id)
                        + " (not a voter and not a tracked peer)"@,
                ),
            )
            &&& ours && !own && leads && known && request.leader_epoch < node.current_term.0
                ==> verdict == SnapshotVerdictView::Refuse(
                ErrorView::Transport(
                    "FetchSnapshot leader_epoch mismatch: caller="@ + decimal(
                        request.leader_epoch as nat,
                    ) + ", ours="@ + decimal(node.current_term.0 as nat),
                ),
            )
        }),
{
}

} // verus!
