//! Clients that wait for a proposed entry to be committed and applied.
use std::collections::VecDeque;

use vstd::prelude::*;

use crate::error::{clone_err, proposal_view, ErrorView, XRaftError};
use crate::host::{Effect, EffectView, Observation, Outbox, ReplyId};
use crate::types::LogIndex;

verus! {

/// The clients that wait for one entry, in the order in which they came, and
/// the time (in nanoseconds) at which the first of them proposed it.
#[derive(Clone, Debug, PartialEq, Eq)]
pub struct WaiterRow {
    pub index: LogIndex,
    pub replies: Vec<ReplyId>,
    pub proposed_at: u64,
}

/// What a [`WaiterRow`] holds.
#[verifier::ext_equal]
pub struct RowView {
    pub index: LogIndex,
    pub replies: Seq<ReplyId>,
    pub proposed_at: u64,
}

impl View for WaiterRow {
    type V = RowView;

    open spec fn view(&self) -> RowView {
        RowView { index: self.index, replies: self.replies@, proposed_at: self.proposed_at }
    }
}

/// All waiting clients: one row for each entry that is waited for, by ascending
/// index.
#[derive(Clone, Debug)]
pub struct WaiterTable {
    rows: VecDeque<WaiterRow>,
}

impl View for WaiterTable {
    type V = Seq<RowView>;

    closed spec fn view(&self) -> Seq<RowView> {
        self.rows@.map_values(|r: WaiterRow| r@)
    }
}

/// Whether the rows are in ascending order and none is empty.
pub open spec fn rows_wf(rows: Seq<RowView>) -> bool {
    &&& forall|i: int, j: int|
        0 <= i < j < rows.len() ==> (#[trigger] rows[i]).index.0 < (#[trigger] rows[j]).index.0
    &&& forall|i: int| 0 <= i < rows.len() ==> (#[trigger] rows[i]).replies.len() > 0
}

/// The waiting clients of all rows, row by row.
pub open spec fn reply_ids(rows: Seq<RowView>) -> Seq<ReplyId>
    decreases rows.len(),
{
    if rows.len() == 0 {
        Seq::empty()
    } else {
        reply_ids(rows.drop_last()) + rows.last().replies
    }
}

/// The same answer for each of the given clients.
pub open spec fn propose_answers(
    ids: Seq<ReplyId>,
    result: Result<LogIndex, ErrorView>,
) -> Seq<EffectView> {
    Seq::new(ids.len(), |i: int| EffectView::AnswerPropose { reply: ids[i], result })
}

/// The rows once one more client waits for `index`: it joins the row of that
/// index, or a new row is put where the order wants it.
pub open spec fn with_waiter(
    rows: Seq<RowView>,
    index: LogIndex,
    reply: ReplyId,
    now: u64,
) -> Seq<RowView>
    decreases rows.len(),
{
    if rows.len() == 0 || rows.last().index.0 < index.0 {
        rows.push(RowView { index, replies: seq![reply], proposed_at: now })
    } else if rows.last().index == index {
        rows.drop_last().push(
            RowView { replies: rows.last().replies.push(reply), ..rows.last() },
        )
    } else {
        with_waiter(rows.drop_last(), index, reply, now).push(rows.last())
    }
}

/// The rows whose index is not `index`.
pub open spec fn rows_without(rows: Seq<RowView>, index: LogIndex) -> Seq<RowView> {
    rows.filter(|r: RowView| r.index != index)
}

/// The rows whose index is `index`.
pub open spec fn rows_at(rows: Seq<RowView>, index: LogIndex) -> Seq<RowView> {
    rows.filter(|r: RowView| r.index == index)
}

/// Whether `index` lies between `from` and `to`, both included.
pub open spec fn in_span(index: LogIndex, from: LogIndex, to: LogIndex) -> bool {
    from.0 <= index.0 <= to.0
}

/// The rows whose index lies between `from` and `to`.
pub open spec fn rows_within(rows: Seq<RowView>, from: LogIndex, to: LogIndex) -> Seq<RowView> {
    rows.filter(|r: RowView| in_span(r.index, from, to))
}

/// The rows whose index does not lie between `from` and `to`.
pub open spec fn rows_outside(rows: Seq<RowView>, from: LogIndex, to: LogIndex) -> Seq<RowView> {
    rows.filter(|r: RowView| !in_span(r.index, from, to))
}

/// The rows that are left when those of every given index are taken out.
pub open spec fn rows_without_all(rows: Seq<RowView>, indices: Seq<LogIndex>) -> Seq<RowView>
    decreases indices.len(),
{
    if indices.len() == 0 {
        rows
    } else {
        rows_without(rows_without_all(rows, indices.drop_last()), indices.last())
    }
}

/// The clients of the rows of the given indices, in the order of the indices.
pub open spec fn reply_ids_at_all(rows: Seq<RowView>, indices: Seq<LogIndex>) -> Seq<ReplyId>
    decreases indices.len(),
{
    if indices.len() == 0 {
        Seq::empty()
    } else {
        reply_ids_at_all(rows, indices.drop_last()) + reply_ids(
            rows_at(rows_without_all(rows, indices.drop_last()), indices.last()),
        )
    }
}

/// The time between two readings of the clock; zero if it ran backwards.
pub open spec fn elapsed(since: u64, now: u64) -> u64 {
    if now >= since {
        (now - since) as u64
    } else {
        0
    }
}

/// What is told when the entry at `index` is settled with `result`: each of its
/// clients gets the result, and a success is recorded with its latency.
pub open spec fn settled(
    rows: Seq<RowView>,
    index: LogIndex,
    result: Result<LogIndex, ErrorView>,
    now: u64,
) -> Seq<EffectView> {
    propose_answers(reply_ids(rows_at(rows, index)), result) + if result is Ok && rows_at(
        rows,
        index,
    ).len() > 0 {
        seq![
            EffectView::Observe(
                Observation::CommitLatency(elapsed(rows_at(rows, index)[0].proposed_at, now)),
            ),
        ]
    } else {
        seq![]
    }
}

proof fn lemma_filter_step<A>(s: Seq<A>, pred: spec_fn(A) -> bool, n: int)
    requires
        0 <= n < s.len(),
    ensures
        s.take(n + 1).filter(pred) == if pred(s[n]) {
            s.take(n).filter(pred).push(s[n])
        } else {
            s.take(n).filter(pred)
        },
{
    reveal(Seq::filter);
    assert(s.take(n + 1).drop_last() =~= s.take(n));
}

/// Filtering twice is filtering by both conditions at once.
pub proof fn lemma_filter_twice<A>(
    s: Seq<A>,
    first: spec_fn(A) -> bool,
    second: spec_fn(A) -> bool,
    both: spec_fn(A) -> bool,
)
    requires
        forall|x: A| #[trigger] both(x) == (first(x) && second(x)),
    ensures
        s.filter(first).filter(second) == s.filter(both),
    decreases s.len(),
{
    reveal(Seq::filter);
    if s.len() > 0 {
        let rest = s.drop_last();
        lemma_filter_twice(rest, first, second, both);
        assert(both(s.last()) == (first(s.last()) && second(s.last())));
        let kept = rest.filter(first);
        if first(s.last()) {
            assert(kept.push(s.last()).drop_last() =~= kept);
        }
    }
}

proof fn lemma_reply_ids_push(rows: Seq<RowView>, row: RowView)
    ensures
        reply_ids(rows.push(row)) == reply_ids(rows) + row.replies,
{
    assert(rows.push(row).drop_last() =~= rows);
}

proof fn lemma_answers_add(
    a: Seq<ReplyId>,
    b: Seq<ReplyId>,
    result: Result<LogIndex, ErrorView>,
)
    ensures
        propose_answers(a + b, result) == propose_answers(a, result) + propose_answers(b, result),
{
    assert(propose_answers(a + b, result) =~= propose_answers(a, result) + propose_answers(
        b,
        result,
    ));
}

/// A filter keeps the order of rows and adds none.
proof fn lemma_filter_keeps_wf(rows: Seq<RowView>, pred: spec_fn(RowView) -> bool)
    requires
        rows_wf(rows),
    ensures
        rows_wf(rows.filter(pred)),
        rows.len() > 0 && rows.filter(pred).len() > 0 ==> rows.filter(pred).last().index.0
            <= rows.last().index.0,
    decreases rows.len(),
{
    reveal(Seq::filter);
    if rows.len() > 0 {
        let shorter = rows.drop_last();
        lemma_filter_keeps_wf(shorter, pred);
        let kept = shorter.filter(pred);
        if shorter.len() > 0 {
            assert(shorter.last() == rows[rows.len() - 2]);
        } else {
            assert(kept.len() == 0);
        }
        if pred(rows.last()) {
            let all = rows.filter(pred);
            assert(all == kept.push(rows.last()));
            assert forall|i: int, j: int| 0 <= i < j < all.len() implies (#[trigger] all[i]).index.0
                < (#[trigger] all[j]).index.0 by {
                if j == all.len() - 1 {
                    assert(kept[i].index.0 <= kept.last().index.0);
                }
            }
        }
    }
}

/// Answers each of the given clients with the same result.
pub fn answer_all(outbox: &mut Outbox, ids: &Vec<ReplyId>, result: &Result<LogIndex, XRaftError>)
    ensures
        final(outbox)@ == old(outbox)@ + propose_answers(ids@, proposal_view(*result)),
{
    let ghost start = outbox@;
    let mut i: usize = 0;
    assert(start =~= start + propose_answers(ids@.take(0), proposal_view(*result)));
    while i < ids.len()
        invariant
            i <= ids.len(),
            outbox@ == start + propose_answers(ids@.take(i as int), proposal_view(*result)),
        decreases ids.len() - i,
    {
        let copy: Result<LogIndex, XRaftError> = match result {
            Ok(index) => Ok(*index),
            Err(_) => Err(clone_err(result)),
        };
        outbox.push(Effect::AnswerPropose { reply: ids[i], result: copy });
        assert(outbox@ =~= start + propose_answers(ids@.take(i + 1), proposal_view(*result)));
        i = i + 1;
    }
    assert(ids@.take(i as int) =~= ids@);
}

impl WaiterTable {
    /// A table without waiting clients.
    pub fn new() -> (r: WaiterTable)
        ensures
            r@ == Seq::<RowView>::empty(),
            rows_wf(r@),
    {
        let r = WaiterTable { rows: VecDeque::new() };
        assert(r@ =~= Seq::<RowView>::empty());
        r
    }

    /// How many entries are waited for.
    pub fn len(&self) -> (n: usize)
        ensures
            n == self@.len(),
    {
        self.rows.len()
    }

    /// Adds a client that waits for the entry at `index`. Only the first client
    /// of an entry sets the time from which its latency counts.
    pub fn register(&mut self, index: LogIndex, reply: ReplyId, now: u64)
        requires
            rows_wf(old(self)@),
        ensures
            final(self)@ == with_waiter(old(self)@, index, reply, now),
            rows_wf(final(self)@),
    {
        let ghost before = self@;
        let mut behind: VecDeque<WaiterRow> = VecDeque::new();
        let mut place: Option<WaiterRow> = None;
        proof {
            assert(behind@.map_values(|r: WaiterRow| r@) =~= Seq::<RowView>::empty());
            assert(before =~= self@ + behind@.map_values(|r: WaiterRow| r@));
        }
        loop
            invariant_except_break
                rows_wf(before),
                place is None,
                self@ + behind@.map_values(|r: WaiterRow| r@) == before,
                with_waiter(before, index, reply, now) == with_waiter(self@, index, reply, now)
                    + behind@.map_values(|r: WaiterRow| r@),
                forall|k: int|
                    0 <= k < behind@.len() ==> (#[trigger] behind@[k]).index.0 > index.0,
            ensures
                place is Some,
                with_waiter(before, index, reply, now) == self@.push(place->0@) + behind@.map_values(
                    |r: WaiterRow| r@,
                ),
            decreases self@.len(),
        {
            let ghost rows_before = self@;
            let ghost behind_before = behind@.map_values(|r: WaiterRow| r@);
            match self.rows.pop_back() {
                None => {
                    let mut replies: Vec<ReplyId> = Vec::new();
                    replies.push(reply);
                    let row = WaiterRow { index, replies, proposed_at: now };
                    assert(row@ =~= RowView { index, replies: seq![reply], proposed_at: now });
                    place = Some(row);
                    assert(self@ =~= rows_before);
                    break ;
                },
                Some(mut row) => {
                    assert(self@ =~= rows_before.drop_last());
                    assert(row@ == rows_before.last());
                    if row.index.0 < index.0 {
                        self.rows.push_back(row);
                        assert(self@ =~= rows_before);
                        let mut replies: Vec<ReplyId> = Vec::new();
                        replies.push(reply);
                        let fresh = WaiterRow { index, replies, proposed_at: now };
                        assert(fresh@ =~= RowView {
                            index,
                            replies: seq![reply],
                            proposed_at: now,
                        });
                        place = Some(fresh);
                        break ;
                    } else if row.index.0 == index.0 {
                        row.replies.push(reply);
                        assert(row@ =~= RowView {
                            replies: rows_before.last().replies.push(reply),
                            ..rows_before.last()
                        });
                        place = Some(row);
                        break ;
                    } else {
                        behind.push_front(row);
                        assert(behind@.map_values(|r: WaiterRow| r@) =~= seq![rows_before.last()]
                            + behind_before);
                        assert(self@ + behind@.map_values(|r: WaiterRow| r@) =~= before);
                        assert(with_waiter(rows_before, index, reply, now) == with_waiter(
                            self@,
                            index,
                            reply,
                            now,
                        ).push(rows_before.last()));
                        assert(with_waiter(self@, index, reply, now) + behind@.map_values(
                            |r: WaiterRow| r@,
                        ) =~= with_waiter(rows_before, index, reply, now) + behind_before);
                    }
                },
            }
        }
        let ghost head = self@;
        let ghost tail = behind@.map_values(|r: WaiterRow| r@);
        match place {
            Some(row) => {
                self.rows.push_back(row);
                assert(self@ =~= head.push(row@));
            },
            None => {},
        }
        let ghost joined = self@;
        self.rows.append(&mut behind);
        assert(self@ =~= joined + tail);
        proof {
            lemma_with_waiter_wf(before, index, reply, now);
        }
    }

    /// Settles the entry at `index`: its clients get the result, and they no
    /// longer wait.
    pub fn resolve_waiters_at(
        &mut self,
        index: LogIndex,
        result: &Result<LogIndex, XRaftError>,
        now: u64,
        outbox: &mut Outbox,
    )
        requires
            rows_wf(old(self)@),
        ensures
            final(self)@ == rows_without(old(self)@, index),
            rows_wf(final(self)@),
            final(outbox)@ == old(outbox)@ + settled(
                old(self)@,
                index,
                proposal_view(*result),
                now,
            ),
    {
        let ghost rows = self@;
        let ghost start = outbox@;
        let ghost here = |r: RowView| r.index == index;
        let ghost away = |r: RowView| r.index != index;
        let n: usize = self.rows.len();
        let mut i: usize = 0;
        let mut first: Option<u64> = None;
        proof {
            reveal(Seq::filter);
            assert(rows.take(0) =~= Seq::<RowView>::empty());
            assert(self@ =~= rows.skip(0) + rows.take(0).filter(away));
            assert(propose_answers(reply_ids(rows.take(0).filter(here)), proposal_view(*result))
                =~= Seq::<EffectView>::empty());
            assert(start =~= start + propose_answers(
                reply_ids(rows.take(0).filter(here)),
                proposal_view(*result),
            ));
        }
        while i < n
            invariant
                i <= n,
                n == rows.len(),
                here == (|r: RowView| r.index == index),
                away == (|r: RowView| r.index != index),
                self@ == rows.skip(i as int) + rows.take(i as int).filter(away),
                outbox@ == start + propose_answers(
                    reply_ids(rows.take(i as int).filter(here)),
                    proposal_view(*result),
                ),
                match first {
                    Some(t) => rows.take(i as int).filter(here).len() > 0 && rows.take(
                        i as int,
                    ).filter(here)[0].proposed_at == t,
                    None => rows.take(i as int).filter(here).len() == 0,
                },
            decreases n - i,
        {
            let ghost table = self@;
            let ghost kept = rows.take(i as int).filter(away);
            let ghost hit = rows.take(i as int).filter(here);
            proof {
                lemma_filter_step(rows, here, i as int);
                lemma_filter_step(rows, away, i as int);
                assert(table.len() > 0 && table[0] == rows[i as int]);
            }
            match self.rows.pop_front() {
                Some(row) => {
                    assert(self@ =~= table.drop_first());
                    assert(row@ == rows[i as int]);
                    if row.index.0 == index.0 {
                        proof {
                            lemma_reply_ids_push(hit, row@);
                            lemma_answers_add(
                                reply_ids(hit),
                                row@.replies,
                                proposal_view(*result),
                            );
                        }
                        answer_all(outbox, &row.replies, result);
                        assert(outbox@ =~= start + propose_answers(
                            reply_ids(rows.take(i + 1).filter(here)),
                            proposal_view(*result),
                        ));
                        if first.is_none() {
                            first = Some(row.proposed_at);
                        }
                        assert(self@ =~= rows.skip(i + 1) + rows.take(i + 1).filter(away));
                    } else {
                        self.rows.push_back(row);
                        assert(self@ =~= table.drop_first().push(row@));
                        assert(self@ =~= rows.skip(i + 1) + rows.take(i + 1).filter(away));
                    }
                },
                None => {},
            }
            i = i + 1;
        }
        proof {
            assert(rows.take(n as int) =~= rows);
            assert(self@ =~= rows.filter(away));
            lemma_filter_keeps_wf(rows, away);
        }
        if let Ok(_) = result {
            if let Some(t) = first {
                outbox.observe(
                    Observation::CommitLatency(
                        if now >= t {
                            now - t
                        } else {
                            0
                        },
                    ),
                );
            }
        }
        assert(outbox@ =~= start + settled(rows, index, proposal_view(*result), now));
    }

    /// Fails every client that waits for an entry between `from` and `to`.
    pub fn fail_waiters_in_range(
        &mut self,
        from: LogIndex,
        to: LogIndex,
        msg: &String,
        outbox: &mut Outbox,
    )
        requires
            rows_wf(old(self)@),
        ensures
            final(self)@ == rows_outside(old(self)@, from, to),
            rows_wf(final(self)@),
            final(outbox)@ == old(outbox)@ + propose_answers(
                reply_ids(rows_within(old(self)@, from, to)),
                Err(ErrorView::Storage(msg@)),
            ),
    {
        let ghost rows = self@;
        let ghost start = outbox@;
        let ghost within = |r: RowView| in_span(r.index, from, to);
        let ghost outside = |r: RowView| !in_span(r.index, from, to);
        let ghost failed: Result<LogIndex, ErrorView> = Err(ErrorView::Storage(msg@));
        let result: Result<LogIndex, XRaftError> = Err(XRaftError::Storage(msg.clone()));
        let n: usize = self.rows.len();
        let mut i: usize = 0;
        proof {
            reveal(Seq::filter);
            assert(rows.take(0) =~= Seq::<RowView>::empty());
            assert(self@ =~= rows.skip(0) + rows.take(0).filter(outside));
            assert(start =~= start + propose_answers(
                reply_ids(rows.take(0).filter(within)),
                failed,
            ));
        }
        while i < n
            invariant
                i <= n,
                n == rows.len(),
                within == (|r: RowView| in_span(r.index, from, to)),
                outside == (|r: RowView| !in_span(r.index, from, to)),
                proposal_view(result) == failed,
                self@ == rows.skip(i as int) + rows.take(i as int).filter(outside),
                outbox@ == start + propose_answers(
                    reply_ids(rows.take(i as int).filter(within)),
                    failed,
                ),
            decreases n - i,
        {
            let ghost table = self@;
            let ghost hit = rows.take(i as int).filter(within);
            proof {
                lemma_filter_step(rows, within, i as int);
                lemma_filter_step(rows, outside, i as int);
                assert(table.len() > 0 && table[0] == rows[i as int]);
            }
            match self.rows.pop_front() {
                Some(row) => {
                    assert(self@ =~= table.drop_first());
                    assert(row@ == rows[i as int]);
                    if from.0 <= row.index.0 && row.index.0 <= to.0 {
                        proof {
                            lemma_reply_ids_push(hit, row@);
                            lemma_answers_add(reply_ids(hit), row@.replies, failed);
                        }
                        answer_all(outbox, &row.replies, &result);
                        assert(outbox@ =~= start + propose_answers(
                            reply_ids(rows.take(i + 1).filter(within)),
                            failed,
                        ));
                    } else {
                        self.rows.push_back(row);
                        assert(self@ =~= table.drop_first().push(row@));
                    }
                    assert(self@ =~= rows.skip(i + 1) + rows.take(i + 1).filter(outside));
                },
                None => {},
            }
            i = i + 1;
        }
        proof {
            assert(rows.take(n as int) =~= rows);
            assert(self@ =~= rows.filter(outside));
            lemma_filter_keeps_wf(rows, outside);
        }
    }

    /// Fails the clients that wait for any of the given entries.
    pub fn fail_entries(&mut self, indices: &Vec<LogIndex>, msg: &String, outbox: &mut Outbox)
        requires
            rows_wf(old(self)@),
        ensures
            final(self)@ == rows_without_all(old(self)@, indices@),
            rows_wf(final(self)@),
            final(outbox)@ == old(outbox)@ + propose_answers(
                reply_ids_at_all(old(self)@, indices@),
                Err(ErrorView::Storage(msg@)),
            ),
    {
        let ghost rows = self@;
        let ghost start = outbox@;
        let ghost failed: Result<LogIndex, ErrorView> = Err(ErrorView::Storage(msg@));
        let result: Result<LogIndex, XRaftError> = Err(XRaftError::Storage(msg.clone()));
        let mut i: usize = 0;
        proof {
            assert(start =~= start + propose_answers(
                reply_ids_at_all(rows, indices@.take(0)),
                failed,
            ));
        }
        while i < indices.len()
            invariant
                i <= indices.len(),
                proposal_view(result) == failed,
                failed is Err,
                self@ == rows_without_all(rows, indices@.take(i as int)),
                rows_wf(self@),
                outbox@ == start + propose_answers(
                    reply_ids_at_all(rows, indices@.take(i as int)),
                    failed,
                ),
            decreases indices.len() - i,
        {
            let ghost done = indices@.take(i as int);
            let ghost table = self@;
            proof {
                assert(indices@.take(i + 1).drop_last() =~= done);
                lemma_answers_add(
                    reply_ids_at_all(rows, done),
                    reply_ids(rows_at(table, indices@[i as int])),
                    failed,
                );
            }
            self.resolve_waiters_at(indices[i], &result, 0, outbox);
            assert(settled(table, indices@[i as int], failed, 0) =~= propose_answers(
                reply_ids(rows_at(table, indices@[i as int])),
                failed,
            ));
            assert(outbox@ =~= start + propose_answers(
                reply_ids_at_all(rows, indices@.take(i + 1)),
                failed,
            ));
            i = i + 1;
        }
        assert(indices@.take(i as int) =~= indices@);
    }

    /// Gives every waiting client the same result, and leaves none waiting.
    pub fn settle_all(&mut self, result: &Result<LogIndex, XRaftError>, outbox: &mut Outbox)
        ensures
            final(self)@ == Seq::<RowView>::empty(),
            rows_wf(final(self)@),
            final(outbox)@ == old(outbox)@ + propose_answers(
                reply_ids(old(self)@),
                proposal_view(*result),
            ),
    {
        let ghost rows = self@;
        let ghost start = outbox@;
        let ghost mut done: int = 0;
        proof {
            assert(self@ =~= rows.skip(0));
            assert(start =~= start + propose_answers(
                reply_ids(rows.take(0)),
                proposal_view(*result),
            ));
        }
        loop
            invariant_except_break
                0 <= done <= rows.len(),
                self@ == rows.skip(done),
                outbox@ == start + propose_answers(
                    reply_ids(rows.take(done)),
                    proposal_view(*result),
                ),
            ensures
                self@.len() == 0,
                outbox@ == start + propose_answers(reply_ids(rows), proposal_view(*result)),
            decreases self@.len(),
        {
            let ghost table = self@;
            let ghost queue = self.rows@;
            match self.rows.pop_front() {
                None => {
                    assert(self@ =~= table);
                    assert(rows.take(done) =~= rows);
                    break ;
                },
                Some(row) => {
                    proof {
                        assert(self@ =~= table.drop_first());
                        assert(table[0] == queue[0]@);
                        assert(table[0] == rows[done]);
                        assert(rows.take(done + 1) =~= rows.take(done).push(row@));
                        lemma_reply_ids_push(rows.take(done), row@);
                        lemma_answers_add(
                            reply_ids(rows.take(done)),
                            row@.replies,
                            proposal_view(*result),
                        );
                    }
                    answer_all(outbox, &row.replies, result);
                    proof {
                        assert(outbox@ =~= start + propose_answers(
                            reply_ids(rows.take(done + 1)),
                            proposal_view(*result),
                        ));
                        assert(self@ =~= rows.skip(done + 1));
                        done = done + 1;
                    }
                },
            }
        }
        assert(self@ =~= Seq::<RowView>::empty());
    }
}

proof fn lemma_with_waiter_wf(rows: Seq<RowView>, index: LogIndex, reply: ReplyId, now: u64)
    requires
        rows_wf(rows),
    ensures
        rows_wf(with_waiter(rows, index, reply, now)),
        forall|k: int|
            0 <= k < with_waiter(rows, index, reply, now).len() ==> (#[trigger] with_waiter(
                rows,
                index,
                reply,
                now,
            )[k]).index.0 <= if rows.len() > 0 && rows.last().index.0 > index.0 {
                rows.last().index.0
            } else {
                index.0
            },
    decreases rows.len(),
{
    if rows.len() == 0 || rows.last().index.0 < index.0 {
        let out = with_waiter(rows, index, reply, now);
        assert forall|i: int, j: int| 0 <= i < j < out.len() implies (#[trigger] out[i]).index.0 < (
        #[trigger] out[j]).index.0 by {
            if j == out.len() - 1 {
                assert(rows[i].index.0 <= rows.last().index.0);
            }
        }
    } else if rows.last().index == index {
    } else {
        let shorter = rows.drop_last();
        lemma_with_waiter_wf(shorter, index, reply, now);
        let inner = with_waiter(shorter, index, reply, now);
        let out = with_waiter(rows, index, reply, now);
        assert(out == inner.push(rows.last()));
        assert forall|i: int, j: int| 0 <= i < j < out.len() implies (#[trigger] out[i]).index.0 < (
        #[trigger] out[j]).index.0 by {
            if j == out.len() - 1 {
                if shorter.len() > 0 {
                    assert(shorter.last() == rows[rows.len() - 2]);
                }
                assert(inner[i].index.0 < rows.last().index.0);
            }
        }
    }
}

/// An entry's latency counts from the first client that waits for it: a client
/// that joins later does not start the clock anew.
pub proof fn law_first_proposal_starts_the_clock(
    rows: Seq<RowView>,
    index: LogIndex,
    reply: ReplyId,
    now: u64,
    k: int,
)
    requires
        rows_wf(rows),
        0 <= k < rows.len(),
        rows[k].index == index,
    ensures
        with_waiter(rows, index, reply, now) == rows.update(
            k,
            RowView { replies: rows[k].replies.push(reply), ..rows[k] },
        ),
    decreases rows.len(),
{
    let joined = RowView { replies: rows[k].replies.push(reply), ..rows[k] };
    if k == rows.len() - 1 {
        assert(with_waiter(rows, index, reply, now) =~= rows.update(k, joined));
    } else {
        assert(rows[k].index.0 < rows[rows.len() - 1].index.0);
        let rest = rows.drop_last();
        assert(rows_wf(rest));
        law_first_proposal_starts_the_clock(rest, index, reply, now, k);
        assert(rest.update(k, joined).push(rows.last()) =~= rows.update(k, joined));
    }
}

/// Settling an entry answers exactly the clients that wait for it; those of other
/// entries wait on.
pub proof fn law_settling_is_by_entry(rows: Seq<RowView>, index: LogIndex, row: RowView)
    ensures
        rows_without(rows, index).contains(row) <==> rows.contains(row) && row.index != index,
        rows_at(rows, index).contains(row) <==> rows.contains(row) && row.index == index,
{
    let other = |r: RowView| r.index != index;
    let same = |r: RowView| r.index == index;
    broadcast use vstd::seq_lib::group_filter_ensures;

    if rows.filter(other).contains(row) {
        rows.lemma_filter_contains_rev(other, row);
        let i = choose|i: int| 0 <= i < rows.filter(other).len() && rows.filter(other)[i] == row;
        assert(other(rows.filter(other)[i]));
    }
    if rows.filter(same).contains(row) {
        rows.lemma_filter_contains_rev(same, row);
        let i = choose|i: int| 0 <= i < rows.filter(same).len() && rows.filter(same)[i] == row;
        assert(same(rows.filter(same)[i]));
    }
    if rows.contains(row) {
        let i = choose|i: int| 0 <= i < rows.len() && rows[i] == row;
        assert(other(rows[i]) || same(rows[i]));
    }
}

/// The row that a filter keeps.
proof fn lemma_filter_contains(
    rows: Seq<RowView>,
    pred: spec_fn(RowView) -> bool,
    row: RowView,
)
    ensures
        rows.filter(pred).contains(row) <==> rows.contains(row) && pred(row),
{
    broadcast use vstd::seq_lib::group_filter_ensures;

    if rows.filter(pred).contains(row) {
        rows.lemma_filter_contains_rev(pred, row);
        let i = choose|i: int| 0 <= i < rows.filter(pred).len() && rows.filter(pred)[i] == row;
        assert(pred(rows.filter(pred)[i]));
    }
    if rows.contains(row) && pred(row) {
        let i = choose|i: int| 0 <= i < rows.len() && rows[i] == row;
        assert(rows.filter(pred).contains(rows[i]));
    }
}

/// A client that is the first to wait for an entry gets a row of its own, with the
/// time at which it came; every other row stays as it is.
pub proof fn law_first_waiter_gets_a_row(
    rows: Seq<RowView>,
    index: LogIndex,
    reply: ReplyId,
    now: u64,
    row: RowView,
)
    requires
        rows_wf(rows),
        forall|i: int| 0 <= i < rows.len() ==> (#[trigger] rows[i]).index != index,
    ensures
        with_waiter(rows, index, reply, now).contains(row) <==> rows.contains(row) || row
            == (RowView { index, replies: seq![reply], proposed_at: now }),
        with_waiter(rows, index, reply, now).len() == rows.len() + 1,
    decreases rows.len(),
{
    let out = with_waiter(rows, index, reply, now);
    let new = RowView { index, replies: seq![reply], proposed_at: now };
    if rows.len() == 0 || rows.last().index.0 < index.0 {
        lemma_push_contains(rows, new, row);
    } else {
        assert(rows[rows.len() - 1].index != index);
        let rest = rows.drop_last();
        assert(rows_wf(rest));
        assert forall|i: int| 0 <= i < rest.len() implies (#[trigger] rest[i]).index != index by {
            assert(rows[i].index != index);
        }
        law_first_waiter_gets_a_row(rest, index, reply, now, row);
        lemma_push_contains(with_waiter(rest, index, reply, now), rows.last(), row);
        lemma_push_contains(rest, rows.last(), row);
        assert(rest.push(rows.last()) =~= rows);
    }
}

proof fn lemma_push_contains(rows: Seq<RowView>, last: RowView, row: RowView)
    ensures
        rows.push(last).contains(row) <==> rows.contains(row) || row == last,
{
    let all = rows.push(last);
    if rows.contains(row) {
        let i = choose|i: int| 0 <= i < rows.len() && rows[i] == row;
        assert(all[i] == row);
    }
    assert(all[rows.len() as int] == last);
    if all.contains(row) {
        let i = choose|i: int| 0 <= i < all.len() && all[i] == row;
        if i < rows.len() {
            assert(rows[i] == row);
        }
    }
}

/// When an entry is settled, each client of its row gets the result, in the order
/// in which they came; a success is recorded with the time since the first of them
/// came, and nothing else is told. Where nobody waits, nothing is told.
pub proof fn law_settled_clients_get_the_result(
    rows: Seq<RowView>,
    index: LogIndex,
    result: Result<LogIndex, ErrorView>,
    now: u64,
    k: int,
)
    requires
        rows_wf(rows),
    ensures
        (forall|i: int| 0 <= i < rows.len() ==> (#[trigger] rows[i]).index != index) ==> settled(
            rows,
            index,
            result,
            now,
        ).len() == 0,
        0 <= k < rows.len() && rows[k].index == index ==> {
            let told = settled(rows, index, result, now);
            let n = rows[k].replies.len();
            &&& told.len() == n + if result is Ok {
                1int
            } else {
                0
            }
            &&& forall|i: int|
                0 <= i < n ==> #[trigger] told[i] == (EffectView::AnswerPropose {
                    reply: rows[k].replies[i],
                    result,
                })
            &&& result is Ok ==> (told[n as int] matches EffectView::Observe(
                Observation::CommitLatency(took),
            ) && took == if now >= rows[k].proposed_at {
                now - rows[k].proposed_at
            } else {
                0
            })
        },
{
    lemma_row_at(rows, index, k);
    let found = rows_at(rows, index);
    if 0 <= k < rows.len() && rows[k].index == index {
        assert(found =~= seq![rows[k]]);
        assert(found.drop_last() =~= Seq::<RowView>::empty());
        assert(reply_ids(found.drop_last()) =~= Seq::<ReplyId>::empty());
        assert(reply_ids(found) =~= rows[k].replies);
    }
    if forall|i: int| 0 <= i < rows.len() ==> (#[trigger] rows[i]).index != index {
        assert(reply_ids(found) =~= Seq::<ReplyId>::empty());
    }
}

proof fn lemma_row_at(rows: Seq<RowView>, index: LogIndex, k: int)
    requires
        rows_wf(rows),
    ensures
        (forall|i: int| 0 <= i < rows.len() ==> (#[trigger] rows[i]).index != index) ==> rows_at(
            rows,
            index,
        ).len() == 0,
        0 <= k < rows.len() && rows[k].index == index ==> rows_at(rows, index) == seq![rows[k]],
    decreases rows.len(),
{
    reveal(Seq::filter);
    if rows.len() > 0 {
        let rest = rows.drop_last();
        let last = rows.len() - 1;
        assert(rows_wf(rest));
        lemma_row_at(rest, index, k);
        if 0 <= k < rows.len() && rows[k].index == index {
            if k < last {
                assert(rows[k].index.0 < rows[last].index.0);
                assert(rest[k] == rows[k]);
            } else {
                assert forall|i: int| 0 <= i < rest.len() implies (#[trigger] rest[i]).index
                    != index by {
                    assert(rows[i].index.0 < rows[last].index.0);
                }
                assert(rows_at(rows, index) =~= seq![rows[k]]);
            }
        }
        if forall|i: int| 0 <= i < rows.len() ==> (#[trigger] rows[i]).index != index {
            assert(rows[last].index != index);
            assert forall|i: int| 0 <= i < rest.len() implies (#[trigger] rest[i]).index
                != index by {
                assert(rows[i].index != index);
            }
        }
    }
}

/// The clients of some rows are those of each of them.
pub proof fn law_clients_are_those_of_the_rows(rows: Seq<RowView>, reply: ReplyId)
    ensures
        reply_ids(rows).contains(reply) <==> exists|i: int|
            0 <= i < rows.len() && (#[trigger] rows[i]).replies.contains(reply),
    decreases rows.len(),
{
    if rows.len() > 0 {
        let rest = rows.drop_last();
        law_clients_are_those_of_the_rows(rest, reply);
        let before = reply_ids(rest);
        let last = rows.last().replies;
        if reply_ids(rows).contains(reply) {
            let j = choose|j: int| 0 <= j < reply_ids(rows).len() && reply_ids(rows)[j] == reply;
            if j < before.len() {
                assert(before[j] == reply);
                let i = choose|i: int|
                    0 <= i < rest.len() && (#[trigger] rest[i]).replies.contains(reply);
                assert(rows[i].replies.contains(reply));
            } else {
                assert(last[j - before.len()] == reply);
                assert(rows[rows.len() - 1].replies.contains(reply));
            }
        }
        if exists|i: int| 0 <= i < rows.len() && (#[trigger] rows[i]).replies.contains(reply) {
            let i = choose|i: int|
                0 <= i < rows.len() && (#[trigger] rows[i]).replies.contains(reply);
            if i < rest.len() {
                assert(rest[i].replies.contains(reply));
                let j = choose|j: int| 0 <= j < before.len() && before[j] == reply;
                assert(reply_ids(rows)[j] == reply);
            } else {
                let j = choose|j: int| 0 <= j < last.len() && last[j] == reply;
                assert(reply_ids(rows)[before.len() + j] == reply);
            }
        }
    }
}

/// A span of entries is told apart by index: a row is within it exactly if its
/// index is at least the first and at most the last one, and outside otherwise.
pub proof fn law_spans_are_by_index(
    rows: Seq<RowView>,
    from: LogIndex,
    to: LogIndex,
    row: RowView,
)
    ensures
        rows_within(rows, from, to).contains(row) <==> rows.contains(row) && from.0 <= row.index.0
            && row.index.0 <= to.0,
        rows_outside(rows, from, to).contains(row) <==> rows.contains(row) && (row.index.0 < from.0
            || row.index.0 > to.0),
{
    lemma_filter_contains(rows, |r: RowView| in_span(r.index, from, to), row);
    lemma_filter_contains(rows, |r: RowView| !in_span(r.index, from, to), row);
}

/// Giving up on entries leaves the rows of all others: a row is left exactly if its
/// index is none of theirs, and a client is told exactly if it waits for one of
/// them.
pub proof fn law_given_up_entries_are_by_index(
    rows: Seq<RowView>,
    indices: Seq<LogIndex>,
    row: RowView,
    reply: ReplyId,
)
    ensures
        rows_without_all(rows, indices).contains(row) <==> rows.contains(row) && !indices.contains(
            row.index,
        ),
        rows.contains(row) && indices.contains(row.index) && row.replies.contains(reply)
            ==> reply_ids_at_all(rows, indices).contains(reply),
        reply_ids_at_all(rows, indices).contains(reply) ==> exists|i: int|
            0 <= i < rows.len() && (#[trigger] rows[i]).replies.contains(reply)
                && indices.contains(rows[i].index),
    decreases indices.len(),
{
    if indices.len() > 0 {
        let earlier = indices.drop_last();
        let last = indices.last();
        let left = rows_without_all(rows, earlier);
        law_given_up_entries_are_by_index(rows, earlier, row, reply);
        lemma_filter_contains(left, |r: RowView| r.index != last, row);
        lemma_filter_contains(left, |r: RowView| r.index == last, row);
        assert(indices =~= earlier.push(last));
        if indices.contains(row.index) {
            let i = choose|i: int| 0 <= i < indices.len() && indices[i] == row.index;
            if i < earlier.len() {
                assert(earlier[i] == row.index);
            }
        }
        if earlier.contains(row.index) {
            let i = choose|i: int| 0 <= i < earlier.len() && earlier[i] == row.index;
            assert(indices[i] == row.index);
        }
        assert(indices[indices.len() - 1] == last);
        let here = rows_at(left, last);
        let before = reply_ids_at_all(rows, earlier);
        let all = reply_ids_at_all(rows, indices);
        assert(all == before + reply_ids(here));
        law_clients_are_those_of_the_rows(here, reply);
        if rows.contains(row) && indices.contains(row.index) && row.replies.contains(reply) {
            if earlier.contains(row.index) {
                let j = choose|j: int| 0 <= j < before.len() && before[j] == reply;
                assert(all[j] == reply);
            } else {
                assert(row.index == last);
                assert(here.contains(row));
                let i = choose|i: int| 0 <= i < here.len() && here[i] == row;
                assert(here[i].replies.contains(reply));
                let j = choose|j: int|
                    0 <= j < reply_ids(here).len() && reply_ids(here)[j] == reply;
                assert(all[before.len() + j] == reply);
            }
        }
        if all.contains(reply) {
            let j = choose|j: int| 0 <= j < all.len() && all[j] == reply;
            if j < before.len() {
                assert(before[j] == reply);
                let i = choose|i: int|
                    0 <= i < rows.len() && (#[trigger] rows[i]).replies.contains(reply)
                        && earlier.contains(rows[i].index);
                let m = choose|m: int| 0 <= m < earlier.len() && earlier[m] == rows[i].index;
                assert(indices[m] == rows[i].index);
            } else {
                assert(reply_ids(here)[j - before.len()] == reply);
                let i = choose|i: int|
                    0 <= i < here.len() && (#[trigger] here[i]).replies.contains(reply);
                let r = here[i];
                assert(here.contains(r));
                lemma_filter_contains(left, |x: RowView| x.index == last, r);
                law_given_up_entries_are_by_index(rows, earlier, r, reply);
                let m = choose|m: int| 0 <= m < rows.len() && rows[m] == r;
                assert(rows[m].replies.contains(reply));
            }
        }
    }
}

/// Clients come row by row, and within a row in the order in which they came.
pub proof fn law_clients_come_row_by_row(rows: Seq<RowView>, row: RowView)
    ensures
        reply_ids(Seq::<RowView>::empty()).len() == 0,
        reply_ids(rows.push(row)) == reply_ids(rows) + row.replies,
{
    lemma_reply_ids_push(rows, row);
}

} // verus!
