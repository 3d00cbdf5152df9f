//! Applying committed entries to the state machine, and telling the clients
//! that wait for them.
use std::collections::VecDeque;

use vstd::prelude::*;
use vstd::string::*;

use crate::error::{error_text, ErrorView, XRaftError};
use crate::host::{
    answers, is_failure, EffectView, Outbox, Outcome, ReplyId, Request, RequestView,
};
use crate::queue::into_queue;
use crate::text::{decimal, push_decimal};
use crate::types::{index_text, Entry, EntryPayload, LogIndex};
use crate::waiters::{
    in_span, law_clients_are_those_of_the_rows, law_spans_are_by_index, lemma_filter_twice,
    propose_answers, reply_ids, rows_at, rows_outside, rows_wf, rows_within, rows_without,
    settled, RowView, WaiterTable,
};

verus! {

/// What the application of a committed range waits for.
#[derive(Debug)]
pub enum ApplyStage {
    /// The entries from `from` to `to`.
    Range { from: LogIndex, to: LogIndex },
    /// Nothing: the next of the entries can be applied.
    Entries { rest: VecDeque<Entry>, to: LogIndex },
    /// The state machine, which applies the entry at `index`.
    Command { index: LogIndex, rest: VecDeque<Entry>, to: LogIndex },
}

/// What an [`ApplyStage`] holds.
#[verifier::ext_equal]
pub enum ApplyStageView {
    Range { from: LogIndex, to: LogIndex },
    Entries { rest: Seq<Entry>, to: LogIndex },
    Command { index: LogIndex, rest: Seq<Entry>, to: LogIndex },
}

impl View for ApplyStage {
    type V = ApplyStageView;

    open spec fn view(&self) -> ApplyStageView {
        match self {
            ApplyStage::Range { from, to } => ApplyStageView::Range { from: *from, to: *to },
            ApplyStage::Entries { rest, to } => ApplyStageView::Entries { rest: rest@, to: *to },
            ApplyStage::Command { index, rest, to } => ApplyStageView::Command {
                index: *index,
                rest: rest@,
                to: *to,
            },
        }
    }
}

/// What comes next in the application of a committed range.
#[derive(Debug)]
pub enum ApplyNext {
    /// The host is asked for something.
    Ask(ApplyStage, Request),
    /// The next entry can be applied.
    Continue(ApplyStage),
    /// The range is applied.
    Applied,
    /// The range is not applied.
    Failed(XRaftError),
}

/// What an [`ApplyNext`] says.
#[verifier::ext_equal]
pub enum ApplyNextView {
    Ask(ApplyStageView, RequestView),
    Continue(ApplyStageView),
    Applied,
    Failed(ErrorView),
}

impl View for ApplyNext {
    type V = ApplyNextView;

    open spec fn view(&self) -> ApplyNextView {
        match self {
            ApplyNext::Ask(stage, request) => ApplyNextView::Ask(stage@, request@),
            ApplyNext::Continue(stage) => ApplyNextView::Continue(stage@),
            ApplyNext::Applied => ApplyNextView::Applied,
            ApplyNext::Failed(e) => ApplyNextView::Failed(e@),
        }
    }
}

/// Whether an outcome is what a stage waits for.
pub open spec fn apply_expects(stage: ApplyStageView, outcome: Outcome) -> bool {
    match stage {
        ApplyStageView::Range { .. } => outcome is Entries,
        ApplyStageView::Entries { .. } => false,
        ApplyStageView::Command { .. } => outcome is Done,
    }
}

/// How many entries there are from `from` to `to`; a range that ends before it
/// starts counts as one.
pub open spec fn span_len(from: LogIndex, to: LogIndex) -> nat {
    if to.0 >= from.0 {
        (to.0 - from.0 + 1) as nat
    } else {
        1
    }
}

/// `from..=to`.
pub open spec fn span_text(from: LogIndex, to: LogIndex) -> Seq<char> {
    index_text(from) + "..="@ + index_text(to)
}

/// The first position from `i` on at which the entries do not count up from
/// `from`.
pub open spec fn first_gap(entries: Seq<Entry>, from: LogIndex, i: nat) -> Option<nat>
    decreases entries.len() - i,
{
    if i >= entries.len() {
        None
    } else if entries[i as int].index.0 != from.0 + i {
        Some(i)
    } else {
        first_gap(entries, from, i + 1)
    }
}

/// Why the entries are not those from `from` to `to`, if they are not.
pub open spec fn range_fault(entries: Seq<Entry>, from: LogIndex, to: LogIndex) -> Option<
    Seq<char>,
> {
    if entries.len() != span_len(from, to) {
        Some(
            "apply: log_store returned "@ + decimal(entries.len())
                + " entries for committed range "@ + span_text(from, to) + " (expected "@ + decimal(
                span_len(from, to),
            ) + "); committed entries missing — cannot recover without restart"@,
        )
    } else {
        match first_gap(entries, from, 0) {
            Some(i) => Some(
                "apply: log_store returned entry at "@ + index_text(entries[i as int].index)
                    + " where "@ + index_text(LogIndex((from.0 + i) as u64))
                    + " was required (committed range "@ + span_text(from, to)
                    + ") — cannot recover without restart"@,
            ),
            None => None,
        }
    }
}

/// Text of an entry that the state machine did not take.
pub open spec fn apply_fault(index: LogIndex, e: ErrorView) -> Seq<char> {
    "state machine apply at "@ + index_text(index) + " failed: "@ + error_text(e)
}

/// Text of a range that could not be read.
pub open spec fn read_fault(from: LogIndex, to: LogIndex, e: ErrorView) -> Seq<char> {
    "apply: read range "@ + span_text(from, to) + " failed: "@ + error_text(e)
}

/// What a step changes: what comes next, which clients wait on, and what is
/// told.
#[verifier::ext_equal]
pub struct ApplyChange {
    pub next: ApplyNextView,
    pub rows: Seq<RowView>,
    pub told: Seq<EffectView>,
}

/// The range is given up: its clients between `from` and `to` are failed.
pub open spec fn give_up(
    rows: Seq<RowView>,
    from: LogIndex,
    to: LogIndex,
    msg: Seq<char>,
) -> ApplyChange {
    ApplyChange {
        next: ApplyNextView::Failed(ErrorView::Storage(msg)),
        rows: rows_outside(rows, from, to),
        told: propose_answers(
            reply_ids(rows_within(rows, from, to)),
            Err(ErrorView::Storage(msg)),
        ),
    }
}

/// The entry at `index` is applied: its clients learn of it.
pub open spec fn entry_done(
    rows: Seq<RowView>,
    index: LogIndex,
    rest: Seq<Entry>,
    to: LogIndex,
    now: u64,
) -> ApplyChange {
    ApplyChange {
        next: ApplyNextView::Continue(ApplyStageView::Entries { rest, to }),
        rows: rows_without(rows, index),
        told: settled(rows, index, Ok(index), now),
    }
}

/// How the next entry is applied: a command goes to the state machine, anything
/// else is done at once.
pub open spec fn apply_step(
    rest: Seq<Entry>,
    to: LogIndex,
    rows: Seq<RowView>,
    now: u64,
) -> ApplyChange {
    if rest.len() == 0 {
        ApplyChange { next: ApplyNextView::Applied, rows, told: seq![] }
    } else {
        match rest[0].payload {
            EntryPayload::Command(command) => ApplyChange {
                next: ApplyNextView::Ask(
                    ApplyStageView::Command { index: rest[0].index, rest: rest.drop_first(), to },
                    RequestView::Apply { index: rest[0].index, command: command@ },
                ),
                rows,
                told: seq![],
            },
            _ => entry_done(rows, rest[0].index, rest.drop_first(), to, now),
        }
    }
}

/// How the application goes on with an outcome.
pub open spec fn apply_continue(
    stage: ApplyStageView,
    outcome: Outcome,
    rows: Seq<RowView>,
    now: u64,
) -> ApplyChange {
    match (stage, outcome) {
        (ApplyStageView::Range { from, to }, Outcome::Entries(Ok(entries))) => match range_fault(
            entries@,
            from,
            to,
        ) {
            Some(msg) => give_up(rows, from, to, msg),
            None => ApplyChange {
                next: ApplyNextView::Continue(ApplyStageView::Entries { rest: entries@, to }),
                rows,
                told: seq![],
            },
        },
        (ApplyStageView::Range { from, to }, Outcome::Entries(Err(e))) => give_up(
            rows,
            from,
            to,
            read_fault(from, to, e@),
        ),
        (ApplyStageView::Command { index, rest, to }, Outcome::Done(Ok(_))) => entry_done(
            rows,
            index,
            rest,
            to,
            now,
        ),
        (ApplyStageView::Command { index, rest, to }, Outcome::Done(Err(e))) => give_up(
            rows,
            index,
            to,
            apply_fault(index, e@),
        ),
        _ => arbitrary(),
    }
}

/// Begins to apply the committed entries from `from` to `to`.
pub fn begin_apply(from: LogIndex, to: LogIndex) -> (r: (ApplyStage, Request))
    requires
        to.0 < u64::MAX,
    ensures
        r.0@ == (ApplyStageView::Range { from, to }),
        r.1@ == (RequestView::ReadRange { from, end: LogIndex((to.0 + 1) as u64) }),
        forall|o: Outcome| apply_expects(r.0@, o) == #[trigger] answers(r.1@, o),
{
    (ApplyStage::Range { from, to }, Request::ReadRange { from, end: LogIndex(to.0 + 1) })
}

/// Appends `from..=to`.
fn push_span(out: &mut String, from: LogIndex, to: LogIndex)
    ensures
        final(out)@ == old(out)@ + span_text(from, to),
{
    from.push_text(out);
    out.append("..=");
    to.push_text(out);
    assert(out@ =~= old(out)@ + span_text(from, to));
}

/// Why the entries are not those from `from` to `to`, if they are not.
fn check_range(entries: &Vec<Entry>, from: LogIndex, to: LogIndex) -> (r: Option<String>)
    requires
        to.0 < u64::MAX,
    ensures
        match r {
            Some(msg) => range_fault(entries@, from, to) == Some(msg@),
            None => range_fault(entries@, from, to) is None,
        },
{
    let expected: u64 = to.0.saturating_sub(from.0) + 1;
    assert(expected == span_len(from, to));
    if entries.len() as u64 != expected {
        let mut msg = "apply: log_store returned ".to_owned();
        push_decimal(&mut msg, entries.len() as u64);
        msg.append(" entries for committed range ");
        push_span(&mut msg, from, to);
        msg.append(" (expected ");
        push_decimal(&mut msg, expected);
        msg.append("); committed entries missing — cannot recover without restart");
        return Some(msg);
    }
    let mut i: usize = 0;
    while i < entries.len()
        invariant
            i <= entries.len(),
            to.0 < u64::MAX,
            entries@.len() == span_len(from, to),
            first_gap(entries@, from, 0) == first_gap(entries@, from, i as nat),
        decreases entries.len() - i,
    {
        let expected_index: LogIndex = LogIndex(from.0 + i as u64);
        if entries[i].index != expected_index {
            let mut msg = "apply: log_store returned entry at ".to_owned();
            entries[i].index.push_text(&mut msg);
            msg.append(" where ");
            expected_index.push_text(&mut msg);
            msg.append(" was required (committed range ");
            push_span(&mut msg, from, to);
            msg.append(") — cannot recover without restart");
            return Some(msg);
        }
        i = i + 1;
    }
    None
}

/// Gives the range up: fails its clients between `from` and `to`.
fn abandon(
    waiters: &mut WaiterTable,
    from: LogIndex,
    to: LogIndex,
    msg: String,
    outbox: &mut Outbox,
) -> (r: ApplyNext)
    requires
        rows_wf(old(waiters)@),
    ensures
        rows_wf(final(waiters)@),
        r@ == give_up(old(waiters)@, from, to, msg@).next,
        final(waiters)@ == give_up(old(waiters)@, from, to, msg@).rows,
        final(outbox)@ == old(outbox)@ + give_up(old(waiters)@, from, to, msg@).told,
{
    waiters.fail_waiters_in_range(from, to, &msg, outbox);
    ApplyNext::Failed(XRaftError::Storage(msg))
}

/// Applies the next entry.
pub fn step_apply(
    rest: VecDeque<Entry>,
    to: LogIndex,
    waiters: &mut WaiterTable,
    now: u64,
    outbox: &mut Outbox,
) -> (r: ApplyNext)
    requires
        rows_wf(old(waiters)@),
    ensures
        rows_wf(final(waiters)@),
        r@ == apply_step(rest@, to, old(waiters)@, now).next,
        final(waiters)@ == apply_step(rest@, to, old(waiters)@, now).rows,
        final(outbox)@ == old(outbox)@ + apply_step(rest@, to, old(waiters)@, now).told,
        r matches ApplyNext::Ask(stage, request) ==> forall|o: Outcome|
            apply_expects(stage@, o) == #[trigger] answers(request@, o),
{
    let mut rest = rest;
    let ghost all = rest@;
    let ghost start = outbox@;
    assert(start =~= start + Seq::<EffectView>::empty());
    match rest.pop_front() {
        None => ApplyNext::Applied,
        Some(entry) => {
            assert(rest@ =~= all.drop_first());
            match entry.payload {
                EntryPayload::Command(command) => ApplyNext::Ask(
                    ApplyStage::Command { index: entry.index, rest, to },
                    Request::Apply { index: entry.index, command },
                ),
                _ => {
                    waiters.resolve_waiters_at(entry.index, &Ok(entry.index), now, outbox);
                    ApplyNext::Continue(ApplyStage::Entries { rest, to })
                },
            }
        },
    }
}

/// Goes on to apply with an outcome.
pub fn continue_apply(
    stage: ApplyStage,
    outcome: Outcome,
    waiters: &mut WaiterTable,
    now: u64,
    outbox: &mut Outbox,
) -> (r: ApplyNext)
    requires
        rows_wf(old(waiters)@),
        apply_expects(stage@, outcome),
        stage matches ApplyStage::Range { from, to } ==> to.0 < u64::MAX,
    ensures
        rows_wf(final(waiters)@),
        r@ == apply_continue(stage@, outcome, old(waiters)@, now).next,
        final(waiters)@ == apply_continue(stage@, outcome, old(waiters)@, now).rows,
        final(outbox)@ == old(outbox)@ + apply_continue(stage@, outcome, old(waiters)@, now).told,
        r !is Ask,
{
    let ghost start = outbox@;
    assert(start =~= start + Seq::<EffectView>::empty());
    match (stage, outcome) {
        (ApplyStage::Range { from, to }, Outcome::Entries(Ok(entries))) => {
            match check_range(&entries, from, to) {
                Some(msg) => abandon(waiters, from, to, msg, outbox),
                None => ApplyNext::Continue(
                    ApplyStage::Entries { rest: into_queue(entries), to },
                ),
            }
        },
        (ApplyStage::Range { from, to }, Outcome::Entries(Err(e))) => {
            let mut msg = "apply: read range ".to_owned();
            push_span(&mut msg, from, to);
            msg.append(" failed: ");
            msg.append(e.text().as_str());
            abandon(waiters, from, to, msg, outbox)
        },
        (ApplyStage::Command { index, rest, to }, Outcome::Done(Ok(_))) => {
            waiters.resolve_waiters_at(index, &Ok(index), now, outbox);
            ApplyNext::Continue(ApplyStage::Entries { rest, to })
        },
        (ApplyStage::Command { index, rest: _, to }, Outcome::Done(Err(e))) => {
            let mut msg = "state machine apply at ".to_owned();
            index.push_text(&mut msg);
            msg.append(" failed: ");
            msg.append(e.text().as_str());
            abandon(waiters, index, to, msg, outbox)
        },
        _ => {
            assert(false);
            ApplyNext::Applied
        },
    }
}

proof fn lemma_no_gap(entries: Seq<Entry>, from: LogIndex, i: nat)
    ensures
        first_gap(entries, from, i) is None <==> forall|k: int|
            i <= k < entries.len() ==> (#[trigger] entries[k]).index.0 == from.0 + k,
    decreases entries.len() - i,
{
    if i < entries.len() {
        lemma_no_gap(entries, from, i + 1);
        if first_gap(entries, from, i) is None {
            assert forall|k: int| i <= k < entries.len() implies (#[trigger] entries[k]).index.0
                == from.0 + k by {
                if k > i {
                    assert(i + 1 <= k);
                }
            }
        } else if forall|k: int|
            i <= k < entries.len() ==> (#[trigger] entries[k]).index.0 == from.0 + k {
            assert(entries[i as int].index.0 == from.0 + i);
        }
    }
}

/// Whether the entries are those from `from` to `to`, each once and in order.
pub open spec fn is_complete(entries: Seq<Entry>, from: LogIndex, to: LogIndex) -> bool {
    &&& entries.len() == to.0 - from.0 + 1
    &&& forall|k: int| 0 <= k < entries.len() ==> (#[trigger] entries[k]).index.0 == from.0 + k
}

/// Nothing of a committed range is applied unless all of it was read: every
/// index from the first to the last, each once and in order.
pub proof fn law_only_complete_ranges_are_applied(
    from: LogIndex,
    to: LogIndex,
    entries: Vec<Entry>,
    rows: Seq<RowView>,
    now: u64,
)
    requires
        from.0 <= to.0,
    ensures
        apply_continue(
            ApplyStageView::Range { from, to },
            Outcome::Entries(Ok(entries)),
            rows,
            now,
        ).next is Continue <==> is_complete(entries@, from, to),
{
    lemma_no_gap(entries@, from, 0);
}

/// When a range is given up, none of its clients is left waiting.
pub proof fn law_abandoned_clients_are_told(
    rows: Seq<RowView>,
    from: LogIndex,
    to: LogIndex,
    msg: Seq<char>,
)
    ensures
        forall|k: int|
            0 <= k < give_up(rows, from, to, msg).rows.len() ==> !in_span(
                (#[trigger] give_up(rows, from, to, msg).rows[k]).index,
                from,
                to,
            ),
        give_up(rows, from, to, msg).told == propose_answers(
            reply_ids(rows_within(rows, from, to)),
            Err(ErrorView::Storage(msg)),
        ),
{
    let outside = |r: RowView| !in_span(r.index, from, to);
    let left = rows.filter(outside);
    broadcast use vstd::seq_lib::group_filter_ensures;

    assert forall|k: int| 0 <= k < left.len() implies !in_span(
        (#[trigger] left[k]).index,
        from,
        to,
    ) by {
        assert(outside(left[k]));
    }
}

/// A client hears of success only once its entry is applied, and what it hears
/// is the entry's index.
pub proof fn law_success_means_applied(
    index: LogIndex,
    rest: Seq<Entry>,
    to: LogIndex,
    outcome: Outcome,
    rows: Seq<RowView>,
    now: u64,
    k: int,
)
    requires
        outcome is Done,
        ({
            let told = apply_continue(
                ApplyStageView::Command { index, rest, to },
                outcome,
                rows,
                now,
            ).told;
            &&& 0 <= k < told.len()
            &&& told[k] matches EffectView::AnswerPropose { reply, result } && result is Ok
        }),
    ensures
        !is_failure(outcome),
        apply_continue(ApplyStageView::Command { index, rest, to }, outcome, rows, now).told[k]
            matches EffectView::AnswerPropose { reply, result } && result == Ok::<
            LogIndex,
            ErrorView,
        >(index),
{
}

/// Whether an entry carries a command.
pub open spec fn carries_command(e: Entry) -> bool {
    e.payload is Command
}

/// What the state machine is asked for an entry that carries a command.
pub open spec fn command_request(e: Entry) -> RequestView {
    RequestView::Apply { index: e.index, command: e.payload->Command_0@ }
}

/// What the state machine is asked for a range: its commands, each once and in
/// order.
pub open spec fn command_requests(entries: Seq<Entry>) -> Seq<RequestView> {
    entries.filter(|e: Entry| carries_command(e)).map_values(|e: Entry| command_request(e))
}

/// What the clients of applied entries are told, entry by entry, where `clock`
/// shows when each entry was applied.
pub open spec fn applied_told(
    rows: Seq<RowView>,
    entries: Seq<Entry>,
    clock: spec_fn(LogIndex) -> u64,
) -> Seq<EffectView>
    decreases entries.len(),
{
    if entries.len() == 0 {
        seq![]
    } else {
        let index = entries[0].index;
        settled(rows, index, Ok(index), clock(index)) + applied_told(
            rows,
            entries.drop_first(),
            clock,
        )
    }
}

/// Whether the state machine takes what an entry carries.
pub open spec fn is_taken(
    e: Entry,
    machine: spec_fn(LogIndex) -> Result<(), XRaftError>,
) -> bool {
    carries_command(e) ==> machine(e.index) is Ok
}

/// What has come of a whole range: how it ended, which clients wait on, what
/// was told, and what the state machine was asked.
#[verifier::ext_equal]
pub struct ApplyTrace {
    pub end: ApplyNextView,
    pub rows: Seq<RowView>,
    pub told: Seq<EffectView>,
    pub asked: Seq<RequestView>,
}

/// What comes of a range that is applied to a state machine which answers each
/// entry as `machine` says, at the time that `clock` shows.
pub open spec fn apply_run(
    next: ApplyNextView,
    rows: Seq<RowView>,
    machine: spec_fn(LogIndex) -> Result<(), XRaftError>,
    clock: spec_fn(LogIndex) -> u64,
    fuel: nat,
) -> ApplyTrace
    decreases fuel,
{
    match next {
        ApplyNextView::Ask(ApplyStageView::Command { index, rest, to }, request) if fuel > 0 => {
            let change = apply_continue(
                ApplyStageView::Command { index, rest, to },
                Outcome::Done(machine(index)),
                rows,
                clock(index),
            );
            let later = apply_run(change.next, change.rows, machine, clock, (fuel - 1) as nat);
            ApplyTrace {
                told: change.told + later.told,
                asked: seq![request] + later.asked,
                ..later
            }
        },
        ApplyNextView::Continue(ApplyStageView::Entries { rest, to }) if fuel > 0 => {
            let change = apply_step(rest, to, rows, clock(rest[0].index));
            let later = apply_run(change.next, change.rows, machine, clock, (fuel - 1) as nat);
            ApplyTrace { told: change.told + later.told, ..later }
        },
        _ => ApplyTrace { end: next, rows, told: seq![], asked: seq![] },
    }
}

/// A range that was read completely, applied from the beginning.
pub open spec fn range_run(
    from: LogIndex,
    to: LogIndex,
    entries: Vec<Entry>,
    rows: Seq<RowView>,
    machine: spec_fn(LogIndex) -> Result<(), XRaftError>,
    clock: spec_fn(LogIndex) -> u64,
) -> ApplyTrace {
    let read = apply_continue(
        ApplyStageView::Range { from, to },
        Outcome::Entries(Ok(entries)),
        rows,
        clock(from),
    );
    let run = apply_run(read.next, read.rows, machine, clock, 2 * entries@.len() + 1);
    ApplyTrace { told: read.told + run.told, ..run }
}

proof fn lemma_command_requests_front(entries: Seq<Entry>)
    requires
        entries.len() > 0,
    ensures
        command_requests(entries) == if carries_command(entries[0]) {
            seq![command_request(entries[0])] + command_requests(entries.drop_first())
        } else {
            command_requests(entries.drop_first())
        },
{
    let pred = |e: Entry| carries_command(e);
    let head = seq![entries[0]];
    assert(entries =~= head + entries.drop_first());
    Seq::filter_distributes_over_add(head, entries.drop_first(), pred);
    reveal(Seq::filter);
    assert(head.drop_last() =~= Seq::<Entry>::empty());
    assert(head.drop_last().filter(pred) =~= Seq::<Entry>::empty());
    if carries_command(entries[0]) {
        assert(head.filter(pred) =~= head);
        assert(command_requests(entries) =~= seq![command_request(entries[0])]
            + command_requests(entries.drop_first()));
    } else {
        assert(head.filter(pred) =~= Seq::<Entry>::empty());
        assert(command_requests(entries) =~= command_requests(entries.drop_first()));
    }
}

/// Once the clients of an entry are settled, those of another wait as before.
proof fn lemma_others_are_told_the_same(
    rows: Seq<RowView>,
    done: LogIndex,
    entries: Seq<Entry>,
    clock: spec_fn(LogIndex) -> u64,
)
    requires
        forall|k: int| 0 <= k < entries.len() ==> (#[trigger] entries[k]).index != done,
    ensures
        applied_told(rows_without(rows, done), entries, clock) == applied_told(
            rows,
            entries,
            clock,
        ),
    decreases entries.len(),
{
    if entries.len() > 0 {
        let index = entries[0].index;
        let here = |r: RowView| r.index == index;
        lemma_filter_twice(rows, |r: RowView| r.index != done, here, here);
        assert(rows_at(rows_without(rows, done), index) == rows_at(rows, index));
        let rest = entries.drop_first();
        assert forall|k: int| 0 <= k < rest.len() implies (#[trigger] rest[k]).index != done by {
            assert(rest[k] == entries[k + 1]);
        }
        lemma_others_are_told_the_same(rows, done, rest, clock);
    }
}

/// Taking the rows of a range out in two steps.
proof fn lemma_rows_outside_front(rows: Seq<RowView>, from: LogIndex, to: LogIndex)
    requires
        from.0 <= to.0 < u64::MAX,
    ensures
        rows_outside(rows_without(rows, from), LogIndex((from.0 + 1) as u64), to) == rows_outside(
            rows,
            from,
            to,
        ),
{
    let next = LogIndex((from.0 + 1) as u64);
    let first = |r: RowView| r.index != from;
    let second = |r: RowView| !in_span(r.index, next, to);
    let both = |r: RowView| !in_span(r.index, from, to);
    assert forall|r: RowView| #[trigger] both(r) == (first(r) && second(r)) by {
        if r.index.0 == from.0 {
            assert(r.index == from);
        }
    }
    lemma_filter_twice(rows, first, second, both);
}

proof fn lemma_rows_outside_nothing(rows: Seq<RowView>, from: LogIndex, to: LogIndex)
    requires
        from.0 > to.0,
    ensures
        rows_outside(rows, from, to) == rows,
    decreases rows.len(),
{
    reveal(Seq::filter);
    if rows.len() > 0 {
        lemma_rows_outside_nothing(rows.drop_last(), from, to);
        assert(rows.drop_last().push(rows.last()) =~= rows);
    }
}

proof fn lemma_all_taken(
    rest: Seq<Entry>,
    from: LogIndex,
    to: LogIndex,
    rows: Seq<RowView>,
    machine: spec_fn(LogIndex) -> Result<(), XRaftError>,
    clock: spec_fn(LogIndex) -> u64,
    fuel: nat,
)
    requires
        to.0 < u64::MAX,
        is_complete(rest, from, to),
        forall|k: int| 0 <= k < rest.len() ==> is_taken(#[trigger] rest[k], machine),
        fuel >= 2 * rest.len() + 1,
    ensures
        apply_run(
            ApplyNextView::Continue(ApplyStageView::Entries { rest, to }),
            rows,
            machine,
            clock,
            fuel,
        ) == (ApplyTrace {
            end: ApplyNextView::Applied,
            rows: rows_outside(rows, from, to),
            told: applied_told(rows, rest, clock),
            asked: command_requests(rest),
        }),
    decreases rest.len(),
{
    reveal_with_fuel(apply_run, 3);
    let run = apply_run(
        ApplyNextView::Continue(ApplyStageView::Entries { rest, to }),
        rows,
        machine,
        clock,
        fuel,
    );
    if rest.len() == 0 {
        lemma_rows_outside_nothing(rows, from, to);
        reveal(Seq::filter);
        assert(command_requests(rest) =~= seq![]);
        assert(run.told =~= seq![]);
    } else {
        let after = rest.drop_first();
        let next = LogIndex((from.0 + 1) as u64);
        let left = rows_without(rows, from);
        assert(rest[0].index == from);
        assert(is_taken(rest[0], machine));
        assert forall|k: int| 0 <= k < after.len() implies (#[trigger] after[k]).index.0 == next.0
            + k && is_taken(after[k], machine) && after[k].index != from by {
            assert(after[k] == rest[k + 1]);
        }
        let spent: nat = if carries_command(rest[0]) {
            2
        } else {
            1
        };
        lemma_all_taken(after, next, to, left, machine, clock, (fuel - spent) as nat);
        lemma_others_are_told_the_same(rows, from, after, clock);
        lemma_rows_outside_front(rows, from, to);
        lemma_command_requests_front(rest);
        assert(run.told =~= applied_told(rows, rest, clock));
        assert(run.asked =~= command_requests(rest));
    }
}

/// A committed range that was read completely, and whose commands the state
/// machine takes, is applied as a whole: the state machine is asked for exactly
/// the commands of the range, each once and in order; every client of the range
/// hears of its entry, in the order of the entries; and no client of the range
/// waits on.
pub proof fn law_whole_range_is_applied(
    from: LogIndex,
    to: LogIndex,
    entries: Vec<Entry>,
    rows: Seq<RowView>,
    machine: spec_fn(LogIndex) -> Result<(), XRaftError>,
    clock: spec_fn(LogIndex) -> u64,
)
    requires
        from.0 <= to.0 < u64::MAX,
        is_complete(entries@, from, to),
        forall|k: int| 0 <= k < entries@.len() ==> is_taken(#[trigger] entries@[k], machine),
    ensures
        range_run(from, to, entries, rows, machine, clock) == (ApplyTrace {
            end: ApplyNextView::Applied,
            rows: rows_outside(rows, from, to),
            told: applied_told(rows, entries@, clock),
            asked: command_requests(entries@),
        }),
{
    lemma_no_gap(entries@, from, 0);
    lemma_all_taken(
        entries@,
        from,
        to,
        rows,
        machine,
        clock,
        (2 * entries@.len() + 1) as nat,
    );
    assert(range_run(from, to, entries, rows, machine, clock).told =~= applied_told(
        rows,
        entries@,
        clock,
    ));
}

proof fn lemma_taken_until(
    rest: Seq<Entry>,
    from: LogIndex,
    to: LogIndex,
    rows: Seq<RowView>,
    machine: spec_fn(LogIndex) -> Result<(), XRaftError>,
    clock: spec_fn(LogIndex) -> u64,
    stop: int,
    fuel: nat,
)
    requires
        to.0 < u64::MAX,
        is_complete(rest, from, to),
        0 <= stop < rest.len(),
        forall|k: int| 0 <= k < stop ==> is_taken(#[trigger] rest[k], machine),
        !is_taken(rest[stop], machine),
        fuel >= 2 * rest.len() + 1,
    ensures
        ({
            let index = rest[stop].index;
            let msg = apply_fault(index, machine(index)->Err_0@);
            apply_run(
                ApplyNextView::Continue(ApplyStageView::Entries { rest, to }),
                rows,
                machine,
                clock,
                fuel,
            ) == (ApplyTrace {
                end: ApplyNextView::Failed(ErrorView::Storage(msg)),
                rows: rows_outside(rows, from, to),
                told: applied_told(rows, rest.take(stop), clock) + propose_answers(
                    reply_ids(rows_within(rows, index, to)),
                    Err(ErrorView::Storage(msg)),
                ),
                asked: command_requests(rest.take(stop + 1)),
            })
        }),
    decreases rest.len(),
{
    reveal_with_fuel(apply_run, 3);
    let index = rest[stop].index;
    let msg = apply_fault(index, machine(index)->Err_0@);
    let run = apply_run(
        ApplyNextView::Continue(ApplyStageView::Entries { rest, to }),
        rows,
        machine,
        clock,
        fuel,
    );
    assert(rest[0].index == from);
    let tried = rest.take(stop + 1);
    assert(tried[0] == rest[0]);
    lemma_command_requests_front(tried);
    if stop == 0 {
        reveal(Seq::filter);
        assert(tried.drop_first() =~= Seq::<Entry>::empty());
        assert(command_requests(tried.drop_first()) =~= seq![]);
        assert(run.asked =~= command_requests(tried));
        assert(applied_told(rows, rest.take(0), clock) =~= seq![]);
        assert(run.told =~= applied_told(rows, rest.take(0), clock) + propose_answers(
            reply_ids(rows_within(rows, index, to)),
            Err(ErrorView::Storage(msg)),
        ));
    } else {
        let after = rest.drop_first();
        let next = LogIndex((from.0 + 1) as u64);
        let left = rows_without(rows, from);
        assert(is_taken(rest[0], machine));
        assert forall|k: int| 0 <= k < after.len() implies (#[trigger] after[k]).index.0 == next.0
            + k && after[k].index != from && (k < stop - 1 ==> is_taken(after[k], machine)) by {
            assert(after[k] == rest[k + 1]);
        }
        assert(after[stop - 1] == rest[stop]);
        let spent: nat = if carries_command(rest[0]) {
            2
        } else {
            1
        };
        lemma_taken_until(
            after,
            next,
            to,
            left,
            machine,
            clock,
            stop - 1,
            (fuel - spent) as nat,
        );
        let done = rest.take(stop);
        assert(done.drop_first() =~= after.take(stop - 1));
        assert(tried.drop_first() =~= after.take(stop));
        lemma_others_are_told_the_same(rows, from, after.take(stop - 1), clock);
        lemma_rows_outside_front(rows, from, to);
        let within = |r: RowView| in_span(r.index, index, to);
        lemma_filter_twice(rows, |r: RowView| r.index != from, within, within);
        assert(rows_within(left, index, to) == rows_within(rows, index, to));
        assert(done[0] == rest[0]);
        assert(run.told =~= applied_told(rows, done, clock) + propose_answers(
            reply_ids(rows_within(rows, index, to)),
            Err(ErrorView::Storage(msg)),
        ));
        assert(run.asked =~= command_requests(tried));
    }
}

/// A committed range of which the state machine refuses an entry ends there: the
/// state machine is asked for nothing behind that entry; the clients of the
/// entries before it hear of their success; those of the entry and of the rest
/// of the range hear of the error; and no client of the range waits on.
pub proof fn law_refused_entry_ends_the_range(
    from: LogIndex,
    to: LogIndex,
    entries: Vec<Entry>,
    rows: Seq<RowView>,
    machine: spec_fn(LogIndex) -> Result<(), XRaftError>,
    clock: spec_fn(LogIndex) -> u64,
    stop: int,
)
    requires
        from.0 <= to.0 < u64::MAX,
        is_complete(entries@, from, to),
        0 <= stop < entries@.len(),
        forall|k: int| 0 <= k < stop ==> is_taken(#[trigger] entries@[k], machine),
        !is_taken(entries@[stop], machine),
    ensures
        ({
            let index = entries@[stop].index;
            let msg = apply_fault(index, machine(index)->Err_0@);
            range_run(from, to, entries, rows, machine, clock) == (ApplyTrace {
                end: ApplyNextView::Failed(ErrorView::Storage(msg)),
                rows: rows_outside(rows, from, to),
                told: applied_told(rows, entries@.take(stop), clock) + propose_answers(
                    reply_ids(rows_within(rows, index, to)),
                    Err(ErrorView::Storage(msg)),
                ),
                asked: command_requests(entries@.take(stop + 1)),
            })
        }),
{
    lemma_no_gap(entries@, from, 0);
    lemma_taken_until(
        entries@,
        from,
        to,
        rows,
        machine,
        clock,
        stop,
        (2 * entries@.len() + 1) as nat,
    );
    let run = range_run(from, to, entries, rows, machine, clock);
    assert(run.told =~= applied_told(rows, entries@.take(stop), clock) + propose_answers(
        reply_ids(rows_within(rows, entries@[stop].index, to)),
        Err(
            ErrorView::Storage(
                apply_fault(entries@[stop].index, machine(entries@[stop].index)->Err_0@),
            ),
        ),
    ));
}

/// A committed range that cannot be read, or that is not read whole, reaches the state
/// machine in no part: exactly the clients that wait for an entry of it are told of the
/// failure and wait no longer.
pub proof fn law_unread_range_fails_its_own_clients(
    from: LogIndex,
    to: LogIndex,
    outcome: Outcome,
    rows: Seq<RowView>,
    now: u64,
    row: RowView,
    reply: ReplyId,
)
    requires
        from.0 <= to.0,
        match outcome {
            Outcome::Entries(Ok(entries)) => !is_complete(entries@, from, to),
            Outcome::Entries(Err(_)) => true,
            _ => false,
        },
    ensures
        ({
            let c = apply_continue(ApplyStageView::Range { from, to }, outcome, rows, now);
            let inside = from.0 <= row.index.0 <= to.0;
            c.next matches ApplyNextView::Failed(e) && e is Storage && (c.rows.contains(row)
                <==> rows.contains(row) && !inside) && (rows.contains(row) && inside
                && row.replies.contains(reply) ==> c.told.contains(
                EffectView::AnswerPropose { reply, result: Err(e) },
            )) && forall|k: int|
                0 <= k < c.told.len() ==> ((#[trigger] c.told[k])
                    matches EffectView::AnswerPropose { reply: _, result } && result == Err::<
                    LogIndex,
                    ErrorView,
                >(e))
        }),
{
    let c = apply_continue(ApplyStageView::Range { from, to }, outcome, rows, now);
    if let Outcome::Entries(Ok(entries)) = outcome {
        law_only_complete_ranges_are_applied(from, to, entries, rows, now);
    }
    lemma_given_up(rows, from, to, c.next->Failed_0->Storage_0, row, reply);
}

/// What is told when a range is given up.
proof fn lemma_given_up(
    rows: Seq<RowView>,
    from: LogIndex,
    to: LogIndex,
    msg: Seq<char>,
    row: RowView,
    reply: ReplyId,
)
    ensures
        ({
            let c = give_up(rows, from, to, msg);
            let inside = from.0 <= row.index.0 <= to.0;
            &&& c.rows.contains(row) <==> rows.contains(row) && !inside
            &&& rows.contains(row) && inside && row.replies.contains(reply) ==> c.told.contains(
                EffectView::AnswerPropose { reply, result: Err(ErrorView::Storage(msg)) },
            )
        }),
{
    law_spans_are_by_index(rows, from, to, row);
    let within = rows_within(rows, from, to);
    let told = give_up(rows, from, to, msg).told;
    if rows.contains(row) && from.0 <= row.index.0 <= to.0 && row.replies.contains(reply) {
        let i = choose|i: int| 0 <= i < within.len() && within[i] == row;
        assert(within[i].replies.contains(reply));
        law_clients_are_those_of_the_rows(within, reply);
        let ids = reply_ids(within);
        let j = choose|j: int| 0 <= j < ids.len() && ids[j] == reply;
        assert(told[j] == (EffectView::AnswerPropose {
            reply,
            result: Err(ErrorView::Storage(msg)),
        }));
    }
}

/// An entry that the state machine refuses fails exactly the clients that wait for it or for
/// a later entry of the range; nothing more of the range is applied.
pub proof fn law_refused_entry_fails_what_is_left(
    index: LogIndex,
    rest: Seq<Entry>,
    to: LogIndex,
    e: XRaftError,
    rows: Seq<RowView>,
    now: u64,
    row: RowView,
    reply: ReplyId,
)
    ensures
        ({
            let c = apply_continue(
                ApplyStageView::Command { index, rest, to },
                Outcome::Done(Err(e)),
                rows,
                now,
            );
            let msg = "state machine apply at "@ + index_text(index) + " failed: "@ + error_text(e@);
            let inside = index.0 <= row.index.0 <= to.0;
            &&& c.next == ApplyNextView::Failed(ErrorView::Storage(msg))
            &&& c.rows.contains(row) <==> rows.contains(row) && !inside
            &&& rows.contains(row) && inside && row.replies.contains(reply) ==> c.told.contains(
                EffectView::AnswerPropose { reply, result: Err(ErrorView::Storage(msg)) },
            )
        }),
{
    lemma_given_up(rows, index, to, apply_fault(index, e@), row, reply);
}

/// The next entry of a range: a command goes to the state machine, as it stands in the entry
/// and under the entry's index; anything else is done at once. A range without entries left
/// is applied.
pub proof fn law_only_commands_go_to_the_state_machine(
    rest: Seq<Entry>,
    to: LogIndex,
    rows: Seq<RowView>,
    now: u64,
)
    ensures
        ({
            let c = apply_step(rest, to, rows, now);
            &&& c.next is Applied <==> rest.len() == 0
            &&& c.next is Ask <==> rest.len() > 0 && rest[0].payload is Command
            &&& c.next matches ApplyNextView::Ask(stage, request) ==> request
                == (RequestView::Apply {
                index: rest[0].index,
                command: rest[0].payload->Command_0@,
            }) && c.rows == rows && c.told.len() == 0
        }),
{
}

/// A range that ends before it starts is read as the one entry at its start: that entry, and
/// nothing else, is applied.
pub proof fn law_backward_range_is_its_first_entry(
    from: LogIndex,
    to: LogIndex,
    entries: Vec<Entry>,
    rows: Seq<RowView>,
    now: u64,
)
    requires
        to.0 < from.0,
    ensures
        apply_continue(
            ApplyStageView::Range { from, to },
            Outcome::Entries(Ok(entries)),
            rows,
            now,
        ).next is Continue <==> entries@.len() == 1 && entries@[0].index == from,
{
    lemma_no_gap(entries@, from, 0);
    if entries@.len() == 1 {
        assert(first_gap(entries@, from, 0) is None <==> entries@[0].index.0 == from.0);
    }
}

/// What is read of a range is what is applied of it, in the order in which it was read; nobody is
/// told anything before.
pub proof fn law_read_range_is_applied_as_read(
    from: LogIndex,
    to: LogIndex,
    entries: Vec<Entry>,
    rows: Seq<RowView>,
    now: u64,
)
    ensures
        ({
            let c = apply_continue(
                ApplyStageView::Range { from, to },
                Outcome::Entries(Ok(entries)),
                rows,
                now,
            );
            c.next matches ApplyNextView::Continue(stage) ==> stage == (ApplyStageView::Entries {
                rest: entries@,
                to,
            }) && c.rows == rows && c.told.len() == 0
        }),
{
}

/// A range that is not read whole is named, with what was wanted and what came.
pub proof fn law_broken_ranges_are_worded(
    from: LogIndex,
    to: LogIndex,
    entries: Vec<Entry>,
    e: XRaftError,
    rows: Seq<RowView>,
    now: u64,
    i: int,
)
    requires
        from.0 <= to.0,
    ensures
        ({
            let stage = ApplyStageView::Range { from, to };
            let span = index_text(from) + "..="@ + index_text(to);
            let wanted = (to.0 - from.0 + 1) as nat;
            let read = apply_continue(stage, Outcome::Entries(Ok(entries)), rows, now);
            let unread = apply_continue(stage, Outcome::Entries(Err(e)), rows, now);
            &&& unread.next == ApplyNextView::Failed(
                ErrorView::Storage("apply: read range "@ + span + " failed: "@ + error_text(e@)),
            )
            &&& entries@.len() != wanted ==> read.next == ApplyNextView::Failed(
                ErrorView::Storage(
                    "apply: log_store returned "@ + decimal(entries@.len())
                        + " entries for committed range "@ + span + " (expected "@ + decimal(wanted)
                        + "); committed entries missing — cannot recover without restart"@,
                ),
            )
            &&& entries@.len() == wanted && 0 <= i < wanted && entries@[i].index.0 != from.0 + i && (
            forall|j: int| 0 <= j < i ==> (#[trigger] entries@[j]).index.0 == from.0 + j)
                ==> read.next == ApplyNextView::Failed(
                ErrorView::Storage(
                    "apply: log_store returned entry at "@ + index_text(entries@[i].index)
                        + " where "@ + index_text(LogIndex((from.0 + i) as u64))
                        + " was required (committed range "@ + span
                        + ") — cannot recover without restart"@,
                ),
            )
        }),
{
    if entries@.len() == to.0 - from.0 + 1 && 0 <= i < entries@.len() && entries@[i].index.0 != from.0
        + i && (forall|j: int| 0 <= j < i ==> (#[trigger] entries@[j]).index.0 == from.0 + j) {
        lemma_gap_is_at(entries@, from, 0, i as nat);
    }
}

proof fn lemma_gap_is_at(entries: Seq<Entry>, from: LogIndex, i: nat, at: nat)
    requires
        i <= at < entries.len(),
        entries[at as int].index.0 != from.0 + at,
        forall|j: int| i <= j < at ==> (#[trigger] entries[j]).index.0 == from.0 + j,
    ensures
        first_gap(entries, from, i) == Some(at),
    decreases at - i,
{
    if i < at {
        assert(entries[i as int].index.0 == from.0 + i);
        lemma_gap_is_at(entries, from, i + 1, at);
    }
}

} // verus!
