//! Linearizable reads: a leader without an active lease answers a read only
//! after a majority has shown, by fetching again, that it still follows.
use std::collections::VecDeque;

use vstd::prelude::*;

use crate::config::MAX_PENDING_READS;
use crate::error::{ErrorView, XRaftError};
use crate::host::{Effect, EffectView, Outbox, ReplyId};
use crate::types::{
    law_majorities_share_a_voter, law_majority_is_more_than_half, majority, peer_ids, LogIndex,
    NodeId, NodeView, PeerProgress, VoterSet,
};

verus! {

/// A read that waits for its confirmation.
#[derive(Clone, Debug, PartialEq, Eq)]
pub struct PendingRead {
    pub query: Vec<u8>,
    pub reply: ReplyId,
    /// Commit index when the read came; the answer must cover it.
    pub read_index: LogIndex,
    /// Fetch counter when the read came; only later fetches confirm it.
    pub read_baseline_seq: u64,
    /// Last tick at which the read may still be answered.
    pub deadline_tick: u64,
}

/// What a [`PendingRead`] holds.
#[verifier::ext_equal]
pub struct ReadView {
    pub query: Seq<u8>,
    pub reply: ReplyId,
    pub read_index: LogIndex,
    pub read_baseline_seq: u64,
    pub deadline_tick: u64,
}

impl View for PendingRead {
    type V = ReadView;

    open spec fn view(&self) -> ReadView {
        ReadView {
            query: self.query@,
            reply: self.reply,
            read_index: self.read_index,
            read_baseline_seq: self.read_baseline_seq,
            deadline_tick: self.deadline_tick,
        }
    }
}

/// The replicas among the voters that have fetched since the counter stood at
/// `baseline`.
pub open spec fn fresh_voters(
    peers: Seq<PeerProgress>,
    voters: Seq<NodeId>,
    baseline: u64,
) -> Seq<PeerProgress> {
    peers.filter(|p: PeerProgress| voters.contains(p.id) && p.last_fetch_seq > baseline)
}

/// How many voters confirm the node's leadership since `baseline`: the node
/// itself, if it is a voter, and every voter that has fetched since.
pub open spec fn confirmations(node: &NodeView, voters: Seq<NodeId>, baseline: u64) -> nat {
    (if voters.contains(node.id) {
        1nat
    } else {
        0
    }) + fresh_voters(node.peers@, voters, baseline).len()
}

/// Whether a majority of the voters has confirmed the node's leadership since
/// `baseline`. Without known voters nothing is confirmed.
pub open spec fn confirmed(node: &NodeView, baseline: u64) -> bool {
    match node.voter_set {
        Some(set) => confirmations(node, set@, baseline) >= majority(set@.len()),
        None => false,
    }
}

/// Whether a majority of the voters has confirmed the node's leadership since
/// the fetch counter stood at `read_baseline_seq`.
pub fn has_read_index_quorum_proof(node: &NodeView, read_baseline_seq: u64) -> (r: bool)
    ensures
        r == confirmed(node, read_baseline_seq),
{
    match &node.voter_set {
        None => false,
        Some(set) => {
            let needed: usize = set.quorum_size();
            let mut acks: usize = if set.contains(node.id) {
                1
            } else {
                0
            };
            let ghost own: nat = acks as nat;
            let ghost peers = node.peers@;
            let ghost fresh = |p: PeerProgress|
                set@.contains(p.id) && p.last_fetch_seq > read_baseline_seq;
            let mut i: usize = 0;
            proof {
                reveal(Seq::filter);
                assert(peers.take(0) =~= Seq::<PeerProgress>::empty());
            }
            while i < node.peers.len()
                invariant
                    i <= node.peers.len(),
                    peers == node.peers@,
                    fresh == (|p: PeerProgress|
                        set@.contains(p.id) && p.last_fetch_seq > read_baseline_seq),
                    own <= 1,
                    acks <= usize::MAX,
                    acks == own + peers.take(i as int).filter(fresh).len() || (acks == usize::MAX
                        && own + peers.take(i as int).filter(fresh).len() >= usize::MAX),
                decreases node.peers.len() - i,
            {
                let peer: PeerProgress = node.peers[i];
                proof {
                    reveal(Seq::filter);
                    assert(peers.take(i + 1).drop_last() =~= peers.take(i as int));
                }
                if set.contains(peer.id) && peer.last_fetch_seq > read_baseline_seq {
                    acks = acks.saturating_add(1);
                }
                i = i + 1;
            }
            assert(peers.take(i as int) =~= peers);
            acks >= needed
        },
    }
}

/// Whether a read has to wait on: the node still leads, the deadline has not
/// passed, and leadership is not confirmed or the answer would be too old.
pub open spec fn must_wait(node: &NodeView, read: ReadView) -> bool {
    &&& node.leads()
    &&& node.logical_tick <= read.deadline_tick
    &&& !(confirmed(node, read.read_baseline_seq) && node.last_applied.0 >= read.read_index.0)
}

/// What becomes of a read that does not wait on.
pub open spec fn verdict(node: &NodeView, read: ReadView) -> EffectView {
    if !node.leads() {
        EffectView::RefuseQuery { reply: read.reply, error: ErrorView::NotLeader(node.leader_id) }
    } else if node.logical_tick > read.deadline_tick {
        EffectView::RefuseQuery { reply: read.reply, error: ErrorView::NotLeader(None) }
    } else {
        EffectView::ServeQuery { reply: read.reply, query: read.query }
    }
}

/// The reads that wait on.
pub open spec fn waiting_on(node: &NodeView, reads: Seq<ReadView>) -> Seq<ReadView> {
    reads.filter(|r: ReadView| must_wait(node, r))
}

/// The reads that are answered now.
pub open spec fn answered_now(node: &NodeView, reads: Seq<ReadView>) -> Seq<ReadView> {
    reads.filter(|r: ReadView| !must_wait(node, r))
}

/// The answers to the reads that are answered now.
pub open spec fn verdicts(node: &NodeView, reads: Seq<ReadView>) -> Seq<EffectView> {
    answered_now(node, reads).map_values(|r: ReadView| verdict(node, r))
}

/// The same refusal for every read.
pub open spec fn refusals(reads: Seq<ReadView>, error: ErrorView) -> Seq<EffectView> {
    reads.map_values(|r: ReadView| EffectView::RefuseQuery { reply: r.reply, error })
}

/// Reads that wait for their confirmation, oldest first.
#[derive(Clone, Debug)]
pub struct ReadQueue {
    reads: VecDeque<PendingRead>,
}

impl View for ReadQueue {
    type V = Seq<ReadView>;

    closed spec fn view(&self) -> Seq<ReadView> {
        self.reads@.map_values(|r: PendingRead| r@)
    }
}

impl ReadQueue {
    /// A queue without reads.
    pub fn new() -> (r: ReadQueue)
        ensures
            r@ == Seq::<ReadView>::empty(),
    {
        let r = ReadQueue { reads: VecDeque::new() };
        assert(r@ =~= Seq::<ReadView>::empty());
        r
    }

    /// How many reads wait.
    pub fn len(&self) -> (n: usize)
        ensures
            n == self@.len(),
    {
        self.reads.len()
    }

    /// Adds a read at the end.
    pub fn push(&mut self, read: PendingRead)
        ensures
            final(self)@ == old(self)@.push(read@),
    {
        self.reads.push_back(read);
        assert(self@ =~= old(self)@.push(read@));
    }

    /// Answers every read that need not wait on; the others keep their order.
    pub fn drain(&mut self, node: &NodeView, outbox: &mut Outbox)
        ensures
            final(self)@ == waiting_on(node, old(self)@),
            final(outbox)@ == old(outbox)@ + verdicts(node, old(self)@),
    {
        let ghost reads = self@;
        let ghost start = outbox@;
        let ghost stays = |r: ReadView| must_wait(node, r);
        let ghost leaves = |r: ReadView| !must_wait(node, r);
        let ghost say = |r: ReadView| verdict(node, r);
        let n: usize = self.reads.len();
        let mut i: usize = 0;
        proof {
            reveal(Seq::filter);
            assert(reads.take(0) =~= Seq::<ReadView>::empty());
            assert(self@ =~= reads.skip(0) + reads.take(0).filter(stays));
            assert(start =~= start + reads.take(0).filter(leaves).map_values(say));
        }
        while i < n
            invariant
                i <= n,
                n == reads.len(),
                stays == (|r: ReadView| must_wait(node, r)),
                leaves == (|r: ReadView| !must_wait(node, r)),
                say == (|r: ReadView| verdict(node, r)),
                self@ == reads.skip(i as int) + reads.take(i as int).filter(stays),
                outbox@ == start + reads.take(i as int).filter(leaves).map_values(say),
            decreases n - i,
        {
            let ghost queue = self@;
            let ghost told = outbox@;
            proof {
                reveal(Seq::filter);
                assert(reads.take(i + 1).drop_last() =~= reads.take(i as int));
                assert(queue.len() > 0 && queue[0] == reads[i as int]);
            }
            match self.reads.pop_front() {
                Some(read) => {
                    assert(self@ =~= queue.drop_first());
                    assert(read@ == reads[i as int]);
                    if !node.is_leader() {
                        outbox.push(
                            Effect::RefuseQuery {
                                reply: read.reply,
                                error: XRaftError::NotLeader { leader_hint: node.leader_id },
                            },
                        );
                    } else if node.logical_tick > read.deadline_tick {
                        outbox.push(
                            Effect::RefuseQuery {
                                reply: read.reply,
                                error: XRaftError::NotLeader { leader_hint: None },
                            },
                        );
                    } else if has_read_index_quorum_proof(node, read.read_baseline_seq)
                        && node.last_applied.0 >= read.read_index.0 {
                        outbox.push(Effect::ServeQuery { reply: read.reply, query: read.query });
                    } else {
                        self.reads.push_back(read);
                        assert(self@ =~= queue.drop_first().push(read@));
                    }
                    assert(self@ =~= reads.skip(i + 1) + reads.take(i + 1).filter(stays));
                    assert(outbox@ =~= start + reads.take(i + 1).filter(leaves).map_values(say));
                },
                None => {},
            }
            i = i + 1;
        }
        assert(reads.take(n as int) =~= reads);
        assert(self@ =~= waiting_on(node, reads));
    }

    /// Refuses every read with the same error, and leaves none waiting.
    pub fn refuse_all(&mut self, error: &XRaftError, outbox: &mut Outbox)
        ensures
            final(self)@ == Seq::<ReadView>::empty(),
            final(outbox)@ == old(outbox)@ + refusals(old(self)@, error@),
    {
        let ghost reads = self@;
        let ghost start = outbox@;
        let ghost mut done: int = 0;
        proof {
            assert(self@ =~= reads.skip(0));
            assert(start =~= start + refusals(reads.take(0), error@));
        }
        loop
            invariant_except_break
                0 <= done <= reads.len(),
                self@ == reads.skip(done),
                outbox@ == start + refusals(reads.take(done), error@),
            ensures
                self@.len() == 0,
                outbox@ == start + refusals(reads, error@),
            decreases self@.len(),
        {
            let ghost queue = self@;
            let ghost items = self.reads@;
            match self.reads.pop_front() {
                None => {
                    assert(self@ =~= queue);
                    assert(reads.take(done) =~= reads);
                    break ;
                },
                Some(read) => {
                    proof {
                        assert(self@ =~= queue.drop_first());
                        assert(queue[0] == items[0]@);
                        assert(queue[0] == reads[done]);
                    }
                    outbox.push(Effect::RefuseQuery { reply: read.reply, error: error.duplicate() });
                    proof {
                        assert(outbox@ =~= start + refusals(reads.take(done + 1), error@));
                        assert(self@ =~= reads.skip(done + 1));
                        done = done + 1;
                    }
                },
            }
        }
        assert(self@ =~= Seq::<ReadView>::empty());
    }
}

/// The sum of two ticks, or the last tick if there is no such tick.
pub open spec fn tick_after(tick: u64, delay: int) -> u64 {
    if tick + delay > u64::MAX {
        u64::MAX
    } else {
        (tick + delay) as u64
    }
}

/// What becomes of a read when it comes.
#[verifier::ext_equal]
pub enum ReadAdmission {
    /// It is answered at once.
    Told(EffectView),
    /// It has to wait.
    Queued(ReadView),
}

/// What becomes of a read when it comes: only a leader answers it; with an
/// active lease at once, otherwise after a confirmation, for which it may wait
/// two check-quorum windows unless too many reads wait already.
pub open spec fn admission(
    node: &NodeView,
    waiting: nat,
    query: Seq<u8>,
    reply: ReplyId,
) -> ReadAdmission {
    if !node.leads() {
        ReadAdmission::Told(
            EffectView::RefuseQuery { reply, error: ErrorView::NotLeader(node.leader_id) },
        )
    } else if node.enable_leader_lease && node.has_active_lease {
        ReadAdmission::Told(EffectView::ServeQuery { reply, query })
    } else if waiting >= MAX_PENDING_READS {
        ReadAdmission::Told(EffectView::RefuseQuery { reply, error: ErrorView::NotLeader(None) })
    } else {
        ReadAdmission::Queued(
            ReadView {
                query,
                reply,
                read_index: node.commit_index,
                read_baseline_seq: node.fetch_seq,
                deadline_tick: tick_after(
                    node.logical_tick,
                    if 2 * node.check_quorum_interval_ticks > u64::MAX {
                        u64::MAX as int
                    } else {
                        2 * node.check_quorum_interval_ticks
                    },
                ),
            },
        )
    }
}

/// Answers a read, or queues it until the node's leadership is confirmed.
pub fn handle_client_query(
    node: &NodeView,
    reads: &mut ReadQueue,
    outbox: &mut Outbox,
    query: Vec<u8>,
    reply: ReplyId,
)
    ensures
        match admission(node, old(reads)@.len(), query@, reply) {
            ReadAdmission::Told(effect) => {
                &&& final(reads)@ == old(reads)@
                &&& final(outbox)@ == old(outbox)@.push(effect)
            },
            ReadAdmission::Queued(read) => {
                &&& final(reads)@ == old(reads)@.push(read)
                &&& final(outbox)@ == old(outbox)@
            },
        },
{
    if !node.is_leader() {
        outbox.push(
            Effect::RefuseQuery {
                reply,
                error: XRaftError::NotLeader { leader_hint: node.leader_id },
            },
        );
    } else if node.enable_leader_lease && node.has_active_lease {
        outbox.push(Effect::ServeQuery { reply, query });
    } else if reads.len() >= MAX_PENDING_READS {
        outbox.push(
            Effect::RefuseQuery { reply, error: XRaftError::NotLeader { leader_hint: None } },
        );
    } else {
        let window: u64 = node.check_quorum_interval_ticks.saturating_add(
            node.check_quorum_interval_ticks,
        );
        let deadline_tick: u64 = node.logical_tick.saturating_add(window);
        reads.push(
            PendingRead {
                query,
                reply,
                read_index: node.commit_index,
                read_baseline_seq: node.fetch_seq,
                deadline_tick,
            },
        );
    }
}

/// Every read either waits on or is answered, exactly once.
pub proof fn law_every_read_waits_or_is_answered(node: &NodeView, reads: Seq<ReadView>)
    ensures
        waiting_on(node, reads).len() + verdicts(node, reads).len() == reads.len(),
        waiting_on(node, reads).len() <= reads.len(),
    decreases reads.len(),
{
    reveal(Seq::filter);
    if reads.len() > 0 {
        law_every_read_waits_or_is_answered(node, reads.drop_last());
    }
}

/// A read is answered from the state machine only by a leader, within its
/// deadline, after a majority has fetched since the read came, and from a state
/// that covers everything committed when the read came.
pub proof fn law_served_reads_are_confirmed(node: &NodeView, reads: Seq<ReadView>, k: int)
    requires
        0 <= k < verdicts(node, reads).len(),
        verdicts(node, reads)[k] is ServeQuery,
    ensures
        exists|i: int|
            #![trigger reads[i]]
            0 <= i < reads.len() && verdicts(node, reads)[k] == (EffectView::ServeQuery {
                reply: reads[i].reply,
                query: reads[i].query,
            }) && node.leads() && node.logical_tick <= reads[i].deadline_tick && confirmed(
                node,
                reads[i].read_baseline_seq,
            ) && node.last_applied.0 >= reads[i].read_index.0,
{
    let leaves = |r: ReadView| !must_wait(node, r);
    let left = reads.filter(leaves);
    broadcast use vstd::seq_lib::group_filter_ensures;

    assert(leaves(left[k]));
    assert(left.contains(left[k]));
    reads.lemma_filter_contains_rev(leaves, left[k]);
    assert(reads.contains(left[k]));
    let i = choose|i: int| 0 <= i < reads.len() && reads[i] == left[k];
    assert(reads[i] == left[k]);
}

/// Once a node no longer leads, no read waits on and none is served.
pub proof fn law_deposed_leader_serves_no_read(node: &NodeView, reads: Seq<ReadView>)
    requires
        !node.leads(),
    ensures
        waiting_on(node, reads).len() == 0,
        forall|k: int|
            0 <= k < verdicts(node, reads).len() ==> (#[trigger] verdicts(node, reads)[k])
                is RefuseQuery,
{
    let stays = |r: ReadView| must_wait(node, r);
    broadcast use vstd::seq_lib::group_filter_ensures;

    if waiting_on(node, reads).len() > 0 {
        assert(stays(reads.filter(stays)[0]));
    }
}

/// The queue of waiting reads never grows beyond its limit.
pub proof fn law_waiting_reads_are_bounded(
    node: &NodeView,
    reads: Seq<ReadView>,
    query: Seq<u8>,
    reply: ReplyId,
)
    requires
        reads.len() <= MAX_PENDING_READS,
    ensures
        admission(node, reads.len(), query, reply) matches ReadAdmission::Queued(r) ==> reads.push(
            r,
        ).len() <= MAX_PENDING_READS,
        waiting_on(node, reads).len() <= MAX_PENDING_READS,
{
    law_every_read_waits_or_is_answered(node, reads);
}

/// A read that just came is not confirmed by anything that happened before,
/// except for the node's own vote: any other confirmation needs a fetch that the
/// engine counts later.
pub proof fn law_confirmation_is_fresh(node: &NodeView, voters: Seq<NodeId>)
    requires
        forall|i: int|
            0 <= i < node.peers@.len() ==> (#[trigger] node.peers@[i]).last_fetch_seq
                <= node.fetch_seq,
    ensures
        confirmations(node, voters, node.fetch_seq) <= 1,
{
    let fresh = |p: PeerProgress| voters.contains(p.id) && p.last_fetch_seq > node.fetch_seq;
    let found = node.peers@.filter(fresh);
    broadcast use vstd::seq_lib::group_filter_ensures;

    if found.len() > 0 {
        assert(fresh(found[0]));
        assert(found.contains(found[0]));
        node.peers@.lemma_filter_contains_rev(fresh, found[0]);
        assert(node.peers@.contains(found[0]));
    }
}

/// Whether a voter has confirmed the node's leadership since `baseline`: it is
/// the node itself, or a peer that has fetched since.
pub open spec fn has_confirmed(node: &NodeView, id: NodeId, baseline: u64) -> bool {
    ||| id == node.id
    ||| exists|i: int|
        0 <= i < node.peers@.len() && (#[trigger] node.peers@[i]).id == id
            && node.peers@[i].last_fetch_seq > baseline
}

/// Leadership is confirmed only by a majority of distinct voters, each of which
/// has confirmed it since `baseline`.
pub proof fn law_confirmation_is_a_majority(node: &NodeView, set: VoterSet, baseline: u64)
    requires
        node.voter_set == Some(set),
        confirmed(node, baseline),
        node.valid(),
        forall|i: int| 0 <= i < node.peers@.len() ==> (#[trigger] node.peers@[i]).id != node.id,
    ensures
        exists|ids: Seq<NodeId>|
            #![trigger ids.no_duplicates()]
            ids.no_duplicates() && ids.len() >= majority(set@.len()) && 2 * ids.len() > set@.len()
                && forall|k: int|
                0 <= k < ids.len() ==> set@.contains(#[trigger] ids[k]) && has_confirmed(
                    node,
                    ids[k],
                    baseline,
                ),
{
    let voters = set@;
    law_majority_is_more_than_half(voters.len());
    let pick = |p: PeerProgress| voters.contains(p.id) && p.last_fetch_seq > baseline;
    let fresh = fresh_voters(node.peers@, voters, baseline);
    reveal(NodeView::valid);
    assert forall|i: int, j: int| 0 <= i < j < node.peers@.len() implies (
    #[trigger] node.peers@[i]).id != (#[trigger] node.peers@[j]).id by {
        let all = peer_ids(node.peers@);
        assert(all[i] != all[j]);
    }
    lemma_fresh_are_distinct(node.peers@, pick);
    let ids = fresh.map_values(|p: PeerProgress| p.id);
    assert forall|k: int| 0 <= k < ids.len() implies voters.contains(#[trigger] ids[k])
        && has_confirmed(node, ids[k], baseline) && ids[k] != node.id by {
        assert(fresh.contains(fresh[k]));
        node.peers@.lemma_filter_contains_rev(pick, fresh[k]);
        let i = choose|i: int| 0 <= i < node.peers@.len() && node.peers@[i] == fresh[k];
        assert(node.peers@[i].id == ids[k]);
        broadcast use vstd::seq_lib::group_filter_ensures;

        assert(pick(fresh[k]));
    }
    assert(ids.no_duplicates());
    if voters.contains(node.id) {
        let all = ids.push(node.id);
        assert(all.no_duplicates());
        assert forall|k: int| 0 <= k < all.len() implies voters.contains(#[trigger] all[k])
            && has_confirmed(node, all[k], baseline) by {
            if k < ids.len() {
                assert(all[k] == ids[k]);
            }
        }
    }
}

proof fn lemma_fresh_are_distinct(peers: Seq<PeerProgress>, pick: spec_fn(PeerProgress) -> bool)
    requires
        forall|i: int, j: int|
            0 <= i < j < peers.len() ==> (#[trigger] peers[i]).id != (#[trigger] peers[j]).id,
    ensures
        forall|i: int, j: int|
            0 <= i < j < peers.filter(pick).len() ==> (#[trigger] peers.filter(pick)[i]).id != (
            #[trigger] peers.filter(pick)[j]).id,
    decreases peers.len(),
{
    reveal(Seq::filter);
    if peers.len() > 0 {
        let rest = peers.drop_last();
        lemma_fresh_are_distinct(rest, pick);
        let kept = rest.filter(pick);
        if pick(peers.last()) {
            let all = peers.filter(pick);
            assert(all == kept.push(peers.last()));
            assert forall|i: int, j: int| 0 <= i < j < all.len() implies (#[trigger] all[i]).id != (
            #[trigger] all[j]).id by {
                if j == all.len() - 1 {
                    assert(kept.contains(kept[i]));
                    rest.lemma_filter_contains_rev(pick, kept[i]);
                    let n = choose|n: int| 0 <= n < rest.len() && rest[n] == kept[i];
                    assert(peers[n].id != peers[peers.len() - 1].id);
                }
            }
        }
    }
}

/// More than half of the voters suffice: if that many have each confirmed the
/// node's leadership since `baseline`, it is confirmed.
pub proof fn law_more_than_half_confirm(
    node: &NodeView,
    set: VoterSet,
    baseline: u64,
    ids: Seq<NodeId>,
)
    requires
        node.voter_set == Some(set),
        ids.no_duplicates(),
        2 * ids.len() > set@.len(),
        forall|k: int|
            0 <= k < ids.len() ==> set@.contains(#[trigger] ids[k]) && has_confirmed(
                node,
                ids[k],
                baseline,
            ),
    ensures
        confirmed(node, baseline),
{
    broadcast use vstd::seq_lib::seq_to_set_is_finite;

    let voters = set@;
    let pick = |p: PeerProgress| voters.contains(p.id) && p.last_fetch_seq > baseline;
    let fresh = fresh_voters(node.peers@, voters, baseline);
    let known = fresh.map_values(|p: PeerProgress| p.id);
    let all = if voters.contains(node.id) {
        known.push(node.id)
    } else {
        known
    };
    assert forall|id: NodeId| ids.to_set().contains(id) implies all.to_set().contains(id) by {
        let k = choose|k: int| 0 <= k < ids.len() && ids[k] == id;
        assert(voters.contains(ids[k]) && has_confirmed(node, ids[k], baseline));
        if id == node.id {
            assert(all.last() == id);
        } else {
            let i = choose|i: int|
                0 <= i < node.peers@.len() && (#[trigger] node.peers@[i]).id == id
                    && node.peers@[i].last_fetch_seq > baseline;
            let p = node.peers@[i];
            broadcast use vstd::seq_lib::group_filter_ensures;

            assert(pick(p));
            assert(fresh.contains(p));
            let j = choose|j: int| 0 <= j < fresh.len() && fresh[j] == p;
            assert(known[j] == id);
            assert(all[j] == id);
        }
    }
    assert(ids.to_set().subset_of(all.to_set()));
    vstd::set_lib::lemma_len_subset(ids.to_set(), all.to_set());
    ids.unique_seq_to_set();
    all.lemma_cardinality_of_set();
    law_majority_is_more_than_half(voters.len());
}

/// Two nodes that are confirmed as leaders by the same voters are confirmed by
/// one voter in common: whoever it is has confirmed both.
pub proof fn law_confirmed_leaderships_overlap(
    one: &NodeView,
    two: &NodeView,
    first: VoterSet,
    second: VoterSet,
    since_one: u64,
    since_two: u64,
)
    requires
        one.voter_set == Some(first),
        two.voter_set == Some(second),
        first@ == second@,
        one.valid(),
        two.valid(),
        forall|i: int| 0 <= i < one.peers@.len() ==> (#[trigger] one.peers@[i]).id != one.id,
        forall|i: int| 0 <= i < two.peers@.len() ==> (#[trigger] two.peers@[i]).id != two.id,
        confirmed(one, since_one),
        confirmed(two, since_two),
    ensures
        exists|id: NodeId| #[trigger]
            has_confirmed(one, id, since_one) && has_confirmed(two, id, since_two)
                && first@.contains(id),
{
    law_confirmation_is_a_majority(one, first, since_one);
    law_confirmation_is_a_majority(two, second, since_two);
    let a = choose|ids: Seq<NodeId>|
        #![trigger ids.no_duplicates()]
        ids.no_duplicates() && ids.len() >= majority(first@.len()) && 2 * ids.len() > first@.len()
            && forall|k: int|
            0 <= k < ids.len() ==> first@.contains(#[trigger] ids[k]) && has_confirmed(
                one,
                ids[k],
                since_one,
            );
    let b = choose|ids: Seq<NodeId>|
        #![trigger ids.no_duplicates()]
        ids.no_duplicates() && ids.len() >= majority(second@.len()) && 2 * ids.len()
            > second@.len() && forall|k: int|
            0 <= k < ids.len() ==> second@.contains(#[trigger] ids[k]) && has_confirmed(
                two,
                ids[k],
                since_two,
            );
    law_majorities_share_a_voter(first@, a, b);
    let id = choose|id: NodeId| #[trigger]
        a.contains(id) && b.contains(id) && first@.contains(id);
    let i = choose|i: int| 0 <= i < a.len() && a[i] == id;
    let j = choose|j: int| 0 <= j < b.len() && b[j] == id;
    assert(has_confirmed(one, a[i], since_one));
    assert(has_confirmed(two, b[j], since_two));
}

/// A read is answered at once exactly by a leader with an active lease, and then
/// from the state machine. Elsewhere it is sent to the leader.
pub proof fn law_only_a_lease_answers_at_once(
    node: &NodeView,
    waiting: nat,
    query: Seq<u8>,
    reply: ReplyId,
)
    ensures
        node.role is Leader && node.enable_leader_lease && node.has_active_lease ==> admission(
            node,
            waiting,
            query,
            reply,
        ) == ReadAdmission::Told(EffectView::ServeQuery { reply, query }),
        !(node.role is Leader) ==> admission(node, waiting, query, reply) == ReadAdmission::Told(
            EffectView::RefuseQuery { reply, error: ErrorView::NotLeader(node.leader_id) },
        ),
        (admission(node, waiting, query, reply) matches ReadAdmission::Told(e) && e is ServeQuery)
            ==> node.role is Leader && node.enable_leader_lease && node.has_active_lease,
{
}

/// A read that has to wait remembers what was committed and how often the
/// replicas had fetched when it came, and may wait two check-quorum windows. It
/// is turned away only if 1024 reads wait already.
pub proof fn law_waiting_read_remembers_when_it_came(
    node: &NodeView,
    waiting: nat,
    query: Seq<u8>,
    reply: ReplyId,
)
    requires
        node.role is Leader,
        !node.enable_leader_lease || !node.has_active_lease,
    ensures
        waiting >= 1024 ==> admission(node, waiting, query, reply) == ReadAdmission::Told(
            EffectView::RefuseQuery { reply, error: ErrorView::NotLeader(None) },
        ),
        waiting < 1024 ==> (admission(node, waiting, query, reply) matches ReadAdmission::Queued(r)
            && r.query == query && r.reply == reply && r.read_index == node.commit_index
            && r.read_baseline_seq == node.fetch_seq && r.deadline_tick >= node.logical_tick && (
        node.logical_tick + 2 * node.check_quorum_interval_ticks <= u64::MAX ==> r.deadline_tick
            == node.logical_tick + 2 * node.check_quorum_interval_ticks) && (node.logical_tick + 2
            * node.check_quorum_interval_ticks > u64::MAX ==> r.deadline_tick == u64::MAX)),
{
}

/// What becomes of a read at the end of a queue: it waits on exactly while the
/// node leads, its time has not passed, and it is not confirmed or what was
/// committed when it came is not applied. Otherwise it is served, or refused with
/// the leader that the node knows of, or with none if its time has passed.
pub proof fn law_read_has_its_verdict(node: &NodeView, reads: Seq<ReadView>, r: ReadView)
    ensures
        ({
            let leads = node.role is Leader;
            let in_time = node.logical_tick <= r.deadline_tick;
            let ready = confirmed(node, r.read_baseline_seq) && node.last_applied.0
                >= r.read_index.0;
            let told = verdicts(node, reads.push(r));
            let left = waiting_on(node, reads.push(r));
            &&& leads && in_time && !ready ==> left == waiting_on(node, reads).push(r) && told
                == verdicts(node, reads)
            &&& leads && in_time && ready ==> left == waiting_on(node, reads) && told == verdicts(
                node,
                reads,
            ).push(EffectView::ServeQuery { reply: r.reply, query: r.query })
            &&& leads && !in_time ==> left == waiting_on(node, reads) && told == verdicts(
                node,
                reads,
            ).push(
                EffectView::RefuseQuery { reply: r.reply, error: ErrorView::NotLeader(None) },
            )
            &&& !leads ==> left == waiting_on(node, reads) && told == verdicts(node, reads).push(
                EffectView::RefuseQuery {
                    reply: r.reply,
                    error: ErrorView::NotLeader(node.leader_id),
                },
            )
        }),
{
    reveal(Seq::filter);
    assert(reads.push(r).drop_last() =~= reads);
    let say = |x: ReadView| verdict(node, x);
    assert(answered_now(node, reads).push(r).map_values(say) =~= answered_now(node, reads).map_values(
        say,
    ).push(say(r)));
}

/// Reads are linearizable. A read that came to a leader in the state `came` and
/// waited is answered by the node in a later state `now` only if the node leads,
/// everything that was committed when the read came is applied, and more than half
/// of the voters have each fetched since; and if all that holds in time, it is
/// answered.
pub proof fn law_reads_are_linearizable(
    came: &NodeView,
    waiting: nat,
    query: Seq<u8>,
    reply: ReplyId,
    now: &NodeView,
    set: VoterSet,
    ids: Seq<NodeId>,
)
    requires
        admission(came, waiting, query, reply) is Queued,
        now.voter_set == Some(set),
        now.valid(),
        forall|i: int| 0 <= i < now.peers@.len() ==> (#[trigger] now.peers@[i]).id != now.id,
    ensures
        ({
            let r = admission(came, waiting, query, reply)->Queued_0;
            let told = verdicts(now, seq![r]);
            let served = EffectView::ServeQuery { reply, query };
            &&& told == seq![served] ==> {
                &&& now.role is Leader
                &&& now.last_applied.0 >= came.commit_index.0
                &&& exists|by: Seq<NodeId>|
                    #![trigger by.no_duplicates()]
                    by.no_duplicates() && 2 * by.len() > set@.len() && forall|k: int|
                        0 <= k < by.len() ==> set@.contains(#[trigger] by[k]) && has_confirmed(
                            now,
                            by[k],
                            came.fetch_seq,
                        )
            }
            &&& now.role is Leader && now.last_applied.0 >= came.commit_index.0
                && now.logical_tick <= r.deadline_tick && ids.no_duplicates() && 2 * ids.len()
                > set@.len() && (forall|k: int|
                0 <= k < ids.len() ==> set@.contains(#[trigger] ids[k]) && has_confirmed(
                    now,
                    ids[k],
                    came.fetch_seq,
                )) ==> told == seq![served]
        }),
{
    let r = admission(came, waiting, query, reply)->Queued_0;
    let none = Seq::<ReadView>::empty();
    reveal(Seq::filter);
    law_read_has_its_verdict(now, none, r);
    assert(none.push(r) =~= seq![r]);
    assert(verdicts(now, none) =~= Seq::<EffectView>::empty());
    let served = EffectView::ServeQuery { reply, query };
    if verdicts(now, seq![r]) == seq![served] {
        assert(verdicts(now, seq![r])[0] == served);
        assert(confirmed(now, came.fetch_seq));
        law_confirmation_is_a_majority(now, set, came.fetch_seq);
    }
    if ids.no_duplicates() && 2 * ids.len() > set@.len() && (forall|k: int|
        0 <= k < ids.len() ==> set@.contains(#[trigger] ids[k]) && has_confirmed(
            now,
            ids[k],
            came.fetch_seq,
        )) {
        law_more_than_half_confirm(now, set, came.fetch_seq, ids);
    }
}

/// While the voters are not known nothing is confirmed: a leader's reads wait until their time
/// has passed.
pub proof fn law_unknown_voters_confirm_nothing(node: &NodeView, reads: Seq<ReadView>, r: ReadView)
    requires
        node.voter_set is None,
        node.role is Leader,
        node.logical_tick <= r.deadline_tick,
    ensures
        !confirmed(node, r.read_baseline_seq),
        waiting_on(node, reads.push(r)) == waiting_on(node, reads).push(r),
        verdicts(node, reads.push(r)) == verdicts(node, reads),
{
    law_read_has_its_verdict(node, reads, r);
}

} // verus!
