//! Plain values that the driver's decisions are made from: identifiers, the
//! observable state of the consensus engine, and snapshot descriptions.
use vstd::prelude::*;
use vstd::string::*;

use crate::text::{
    decimal, lemma_decimal_fits_twenty, lemma_padded_reads_back, numeral_value, padded,
    push_decimal, push_padded,
};

verus! {

/// Identity of a node in the cluster.
#[derive(Clone, Copy, Debug, PartialEq, Eq, PartialOrd, Ord, Hash, Structural)]
pub struct NodeId(pub u64);

/// An election term.
#[derive(Clone, Copy, Debug, PartialEq, Eq, PartialOrd, Ord, Hash, Structural)]
pub struct Term(pub u64);

/// Position of an entry in the replicated log; the first entry has index one.
#[derive(Clone, Copy, Debug, PartialEq, Eq, PartialOrd, Ord, Hash, Structural)]
pub struct LogIndex(pub u64);

/// Role of a node in the protocol.
#[derive(Clone, Copy, Debug, PartialEq, Eq, Hash, Structural)]
pub enum NodeRole {
    Follower,
    PreCandidate,
    Candidate,
    Leader,
    Observer,
}

/// `name(n)`, the way an identifier is written in messages.
pub open spec fn tagged(name: Seq<char>, n: u64) -> Seq<char> {
    name + decimal(n as nat) + ")"@
}

/// Text of a node id, such as `NodeId(7)`.
pub open spec fn node_text(n: NodeId) -> Seq<char> {
    tagged("NodeId("@, n.0)
}

/// Text of a log index, such as `LogIndex(7)`.
pub open spec fn index_text(i: LogIndex) -> Seq<char> {
    tagged("LogIndex("@, i.0)
}

/// Appends `name`, the decimal numeral of `n`, and a closing bracket.
fn push_tagged(out: &mut String, name: &str, n: u64)
    ensures
        final(out)@ == old(out)@ + tagged(name@, n),
{
    out.append(name);
    push_decimal(out, n);
    out.append(")");
    assert(out@ =~= old(out)@ + tagged(name@, n));
}

impl NodeId {
    /// Appends the text of this id.
    pub fn push_text(self, out: &mut String)
        ensures
            final(out)@ == old(out)@ + node_text(self),
    {
        push_tagged(out, "NodeId(", self.0);
    }
}

impl LogIndex {
    /// Appends the text of this index.
    pub fn push_text(self, out: &mut String)
        ensures
            final(out)@ == old(out)@ + index_text(self),
    {
        push_tagged(out, "LogIndex(", self.0);
    }
}

/// The voters of the cluster, in roster order, each once.
#[derive(Clone, Debug, PartialEq, Eq)]
pub struct VoterSet {
    pub voters: Vec<NodeId>,
}

impl View for VoterSet {
    type V = Seq<NodeId>;

    open spec fn view(&self) -> Seq<NodeId> {
        self.voters@
    }
}

impl VoterSet {
    /// Whether no voter occurs twice.
    pub open spec fn wf(&self) -> bool {
        self@.no_duplicates()
    }

    /// Whether no voter occurs twice.
    pub fn is_wf(&self) -> (ok: bool)
        ensures
            ok == self.wf(),
    {
        distinct_ids(&self.voters)
    }

    /// Whether `id` is a voter.
    pub fn contains(&self, id: NodeId) -> (found: bool)
        ensures
            found == self@.contains(id),
    {
        let mut i: usize = 0;
        while i < self.voters.len()
            invariant
                i <= self.voters.len(),
                forall|j: int| 0 <= j < i ==> self.voters@[j] != id,
            decreases self.voters.len() - i,
        {
            if self.voters[i] == id {
                assert(self@[i as int] == id);
                return true;
            }
            i = i + 1;
        }
        false
    }

    /// How many voters make a majority.
    pub fn quorum_size(&self) -> (n: usize)
        ensures
            n == majority(self@.len()),
            2 * n > self@.len(),
            2 * (n - 1) <= self@.len(),
    {
        self.voters.len() / 2 + 1
    }

    /// A copy of the set.
    pub fn duplicate(&self) -> (r: VoterSet)
        ensures
            r@ == self@,
    {
        let mut voters: Vec<NodeId> = Vec::new();
        let mut i: usize = 0;
        while i < self.voters.len()
            invariant
                i <= self.voters.len(),
                voters@ == self.voters@.take(i as int),
            decreases self.voters.len() - i,
        {
            voters.push(self.voters[i]);
            i = i + 1;
            assert(voters@ =~= self.voters@.take(i as int));
        }
        assert(voters@ =~= self.voters@);
        VoterSet { voters }
    }
}

/// Whether no id occurs twice.
fn distinct_ids(ids: &Vec<NodeId>) -> (ok: bool)
    ensures
        ok == ids@.no_duplicates(),
{
    let mut i: usize = 0;
    while i < ids.len()
        invariant
            i <= ids.len(),
            forall|a: int, b: int| 0 <= a < b < i ==> ids@[a] != ids@[b],
        decreases ids.len() - i,
    {
        let mut j: usize = 0;
        while j < i
            invariant
                j <= i < ids.len(),
                forall|a: int| 0 <= a < j ==> ids@[a] != ids@[i as int],
            decreases i - j,
        {
            if ids[j] == ids[i] {
                return false;
            }
            j = j + 1;
        }
        i = i + 1;
    }
    true
}

/// The least number of `n` voters that is more than half of them.
pub open spec fn majority(n: nat) -> nat {
    n / 2 + 1
}

/// The voters behind an optional voter set.
pub open spec fn voters_view(set: Option<VoterSet>) -> Option<Seq<NodeId>> {
    match set {
        Some(s) => Some(s@),
        None => None,
    }
}

/// A copy of an optional voter set.
pub fn duplicate_voters(set: &Option<VoterSet>) -> (r: Option<VoterSet>)
    ensures
        voters_view(r) == voters_view(*set),
{
    match set {
        Some(s) => Some(s.duplicate()),
        None => None,
    }
}

/// Description of a snapshot: where in the log it is anchored, under which
/// voters it was taken, and what its payload must look like.
#[derive(Clone, Debug, PartialEq, Eq)]
pub struct SnapshotMeta {
    pub id: String,
    pub last_included_index: LogIndex,
    pub last_included_term: Term,
    pub voter_set: Option<VoterSet>,
    pub size_bytes: Option<u64>,
    pub checksum: Option<u64>,
}

/// What a [`SnapshotMeta`] says.
#[verifier::ext_equal]
pub struct SnapshotMetaView {
    pub id: Seq<char>,
    pub last_included_index: LogIndex,
    pub last_included_term: Term,
    pub voter_set: Option<Seq<NodeId>>,
    pub size_bytes: Option<u64>,
    pub checksum: Option<u64>,
}

impl View for SnapshotMeta {
    type V = SnapshotMetaView;

    open spec fn view(&self) -> SnapshotMetaView {
        SnapshotMetaView {
            id: self.id@,
            last_included_index: self.last_included_index,
            last_included_term: self.last_included_term,
            voter_set: voters_view(self.voter_set),
            size_bytes: self.size_bytes,
            checksum: self.checksum,
        }
    }
}

impl SnapshotMeta {
    /// A copy of the description.
    pub fn duplicate(&self) -> (r: SnapshotMeta)
        ensures
            r@ == self@,
    {
        SnapshotMeta {
            id: self.id.clone(),
            last_included_index: self.last_included_index,
            last_included_term: self.last_included_term,
            voter_set: duplicate_voters(&self.voter_set),
            size_bytes: self.size_bytes,
            checksum: self.checksum,
        }
    }
}

/// The id under which a snapshot anchored at `index` in `term` is stored:
/// `snapshot-`, the term in ten digits, a dash, the index in twenty digits.
pub open spec fn canonical_id(term: Term, index: LogIndex) -> Seq<char> {
    "snapshot-"@ + padded(term.0 as nat, 10, 10) + "-"@ + padded(index.0 as nat, 10, 20)
}

/// The id under which a snapshot is stored.
pub fn canonical_snapshot_id(term: Term, index: LogIndex) -> (id: String)
    ensures
        id@ == canonical_id(term, index),
{
    let mut id = "snapshot-".to_owned();
    push_padded(&mut id, term.0, 10, 10);
    id.append("-");
    push_padded(&mut id, index.0, 10, 20);
    id
}

/// What the leader knows of one replica's progress.
#[derive(Clone, Copy, Debug, PartialEq, Eq, Structural)]
pub struct PeerProgress {
    pub id: NodeId,
    /// Value of the engine's fetch counter at the replica's latest fetch.
    pub last_fetch_seq: u64,
    /// Offset of the replica's latest fetch.
    pub last_fetch_offset: LogIndex,
}

/// What the consensus engine shows of itself between two calls.
#[derive(Clone, Debug, PartialEq, Eq)]
pub struct NodeView {
    pub id: NodeId,
    pub cluster_id: String,
    pub role: NodeRole,
    pub leader_id: Option<NodeId>,
    pub current_term: Term,
    pub commit_index: LogIndex,
    pub last_applied: LogIndex,
    pub last_log_index: LogIndex,
    pub logical_tick: u64,
    /// Counts the fetch requests that the engine has accepted.
    pub fetch_seq: u64,
    pub check_quorum_interval_ticks: u64,
    pub enable_leader_lease: bool,
    pub has_active_lease: bool,
    pub snapshot_in_flight: bool,
    pub voter_set: Option<VoterSet>,
    /// One row for each tracked replica.
    pub peers: Vec<PeerProgress>,
    pub last_snapshot_meta: Option<SnapshotMeta>,
}

/// The ids of the replicas behind the given rows.
pub open spec fn peer_ids(peers: Seq<PeerProgress>) -> Seq<NodeId> {
    peers.map_values(|p: PeerProgress| p.id)
}

impl NodeView {
    /// Whether every voter is named once and every replica has one row.
    #[verifier::opaque]
    pub open spec fn valid(&self) -> bool {
        &&& self.voter_set matches Some(set) ==> set.wf()
        &&& peer_ids(self.peers@).no_duplicates()
    }

    /// Whether every voter is named once and every replica has one row.
    pub fn is_valid(&self) -> (ok: bool)
        ensures
            ok == self.valid(),
    {
        proof {
            reveal(NodeView::valid);
        }
        let mut ids: Vec<NodeId> = Vec::new();
        let mut i: usize = 0;
        while i < self.peers.len()
            invariant
                i <= self.peers.len(),
                ids@ == peer_ids(self.peers@).take(i as int),
            decreases self.peers.len() - i,
        {
            ids.push(self.peers[i].id);
            i = i + 1;
            assert(ids@ =~= peer_ids(self.peers@).take(i as int));
        }
        assert(ids@ =~= peer_ids(self.peers@));
        let voters_once: bool = match &self.voter_set {
            Some(set) => set.is_wf(),
            None => true,
        };
        voters_once && distinct_ids(&ids)
    }

    /// Whether the node leads the cluster.
    pub open spec fn leads(&self) -> bool {
        self.role == NodeRole::Leader
    }

    /// Whether the node leads the cluster.
    pub fn is_leader(&self) -> (b: bool)
        ensures
            b == self.leads(),
    {
        match self.role {
            NodeRole::Leader => true,
            _ => false,
        }
    }
}

/// One entry of the replicated log.
#[derive(Clone, Debug, PartialEq, Eq)]
pub struct Entry {
    pub index: LogIndex,
    pub term: Term,
    pub payload: EntryPayload,
}

/// What an entry carries. Only commands reach the state machine.
#[derive(Clone, Debug, PartialEq, Eq)]
pub enum EntryPayload {
    NoOp,
    Command(Vec<u8>),
    ConfigChange(Vec<u8>),
    Snapshot(Vec<u8>),
}

/// A snapshot id is unambiguous: it determines the term and the index of the
/// anchor.
pub proof fn law_canonical_id_is_injective(t1: Term, i1: LogIndex, t2: Term, i2: LogIndex)
    requires
        canonical_id(t1, i1) == canonical_id(t2, i2),
    ensures
        t1 == t2,
        i1 == i2,
{
    let a = canonical_id(t1, i1);
    let b = canonical_id(t2, i2);
    let head = "snapshot-"@;
    let dash = "-"@;
    reveal_strlit("-");
    lemma_decimal_fits_twenty(i1.0);
    lemma_decimal_fits_twenty(i2.0);
    lemma_padded_reads_back(i1.0 as nat, 10, 20);
    lemma_padded_reads_back(i2.0 as nat, 10, 20);
    lemma_padded_reads_back(t1.0 as nat, 10, 10);
    lemma_padded_reads_back(t2.0 as nat, 10, 10);
    let p1 = padded(t1.0 as nat, 10, 10);
    let p2 = padded(t2.0 as nat, 10, 10);
    assert(a.skip(a.len() - 20) =~= padded(i1.0 as nat, 10, 20));
    assert(b.skip(b.len() - 20) =~= padded(i2.0 as nat, 10, 20));
    assert(a.subrange(head.len() as int, a.len() - 21) =~= p1);
    assert(b.subrange(head.len() as int, b.len() - 21) =~= p2);
}

/// A majority is more than half of the voters, and no smaller number is.
pub proof fn law_majority_is_more_than_half(n: nat)
    ensures
        2 * majority(n) > n,
        2 * (majority(n) - 1) <= n,
{
}

/// Any two groups of voters that are each large enough to confirm a leader have
/// a voter in common, so that no two leaders can be confirmed apart.
pub proof fn law_majorities_share_a_voter(voters: Seq<NodeId>, a: Seq<NodeId>, b: Seq<NodeId>)
    requires
        a.no_duplicates(),
        b.no_duplicates(),
        forall|i: int| 0 <= i < a.len() ==> voters.contains(#[trigger] a[i]),
        forall|i: int| 0 <= i < b.len() ==> voters.contains(#[trigger] b[i]),
        a.len() >= majority(voters.len()),
        b.len() >= majority(voters.len()),
    ensures
        exists|id: NodeId| #[trigger] a.contains(id) && b.contains(id) && voters.contains(id),
{
    broadcast use vstd::seq_lib::seq_to_set_is_finite;

    let one = a.to_set();
    let two = b.to_set();
    let all = voters.to_set();
    a.unique_seq_to_set();
    b.unique_seq_to_set();
    voters.lemma_cardinality_of_set();
    if one.disjoint(two) {
        vstd::set_lib::lemma_set_disjoint_lens(one, two);
        assert((one + two).subset_of(all)) by {
            assert forall|id: NodeId| (one + two).contains(id) implies all.contains(id) by {
                if one.contains(id) {
                    assert(a.contains(id));
                    let i = choose|i: int| 0 <= i < a.len() && a[i] == id;
                    assert(voters.contains(a[i]));
                } else {
                    assert(b.contains(id));
                    let i = choose|i: int| 0 <= i < b.len() && b[i] == id;
                    assert(voters.contains(b[i]));
                }
            }
        }
        vstd::set_lib::lemma_len_subset(one + two, all);
    } else {
        let id = choose|id: NodeId| one.contains(id) && two.contains(id);
        assert(a.contains(id) && b.contains(id));
        let i = choose|i: int| 0 <= i < a.len() && a[i] == id;
        assert(voters.contains(a[i]));
    }
}

/// A node's state is valid exactly if no two of its voters are the same and no two of its
/// rows are of the same replica.
pub proof fn law_valid_nodes_name_everyone_once(node: &NodeView)
    ensures
        node.valid() <==> (forall|i: int, j: int|
            #![trigger node.peers@[i], node.peers@[j]]
            0 <= i < j < node.peers@.len() ==> node.peers@[i].id != node.peers@[j].id) && (
        node.voter_set matches Some(set) ==> forall|i: int, j: int|
            0 <= i < j < set@.len() ==> #[trigger] set@[i] != #[trigger] set@[j]),
{
    reveal(NodeView::valid);
    let ids = peer_ids(node.peers@);
    if ids.no_duplicates() {
        assert forall|i: int, j: int|
            #![trigger node.peers@[i], node.peers@[j]]
            0 <= i < j < node.peers@.len() implies node.peers@[i].id != node.peers@[j].id by {
            assert(ids[i] != ids[j]);
        }
    }
    if forall|i: int, j: int|
        #![trigger node.peers@[i], node.peers@[j]]
        0 <= i < j < node.peers@.len() ==> node.peers@[i].id != node.peers@[j].id {
        assert forall|i: int, j: int| 0 <= i < ids.len() && 0 <= j < ids.len() && i != j implies
            ids[i] != ids[j] by {
            if i < j {
                assert(node.peers@[i].id != node.peers@[j].id);
            } else {
                assert(node.peers@[j].id != node.peers@[i].id);
            }
        }
    }
}

/// A snapshot id is laid out as it is read: `snapshot-`, the term in at least ten digits, a
/// dash, and the index in twenty digits.
pub proof fn law_canonical_id_reads_back(term: Term, index: LogIndex)
    ensures
        ({
            let id = canonical_id(term, index);
            let head = "snapshot-"@;
            let dash = id.len() - 21;
            &&& head.len() + 10 <= dash
            &&& id.take(head.len() as int) == head
            &&& id[dash] == '-'
            &&& numeral_value(id.skip(dash + 1), 10) == index.0
            &&& numeral_value(id.subrange(head.len() as int, dash), 10) == term.0
        }),
{
    let id = canonical_id(term, index);
    let head = "snapshot-"@;
    reveal_strlit("-");
    lemma_decimal_fits_twenty(index.0);
    lemma_padded_reads_back(index.0 as nat, 10, 20);
    lemma_padded_reads_back(term.0 as nat, 10, 10);
    assert(id.take(head.len() as int) =~= head);
    assert(id.skip(id.len() - 20) =~= padded(index.0 as nat, 10, 20));
    assert(id.subrange(head.len() as int, id.len() - 21) =~= padded(term.0 as nat, 10, 10));
}

} // verus!
