//! What the driver remembers between events.
use vstd::prelude::*;

use crate::host::{Effect, EffectView, Outbox};
use crate::reads::{ReadQueue, ReadView};
use crate::types::NodeView;
use crate::waiters::{rows_wf, RowView, WaiterTable};

verus! {

/// What the driver remembers between events.
#[derive(Debug)]
pub struct DriverState {
    /// The engine's state after the latest call to it.
    pub node: NodeView,
    /// Most entries returned in one fetch response.
    pub max_fetch_batch: usize,
    /// Clients that wait for a proposed entry.
    pub waiters: WaiterTable,
    /// Reads that wait for a confirmation.
    pub reads: ReadQueue,
    /// Why the driver must stop, once it must.
    pub halt_reason: Option<String>,
    /// What the host has not been told yet.
    pub outbox: Outbox,
}

/// What a [`DriverState`] holds.
#[verifier::ext_equal]
pub struct StateView {
    pub node: NodeView,
    pub max_fetch_batch: usize,
    pub rows: Seq<RowView>,
    pub reads: Seq<ReadView>,
    pub halt: Option<Seq<char>>,
    pub told: Seq<EffectView>,
}

impl View for DriverState {
    type V = StateView;

    open spec fn view(&self) -> StateView {
        StateView {
            node: self.node,
            max_fetch_batch: self.max_fetch_batch,
            rows: self.waiters@,
            reads: self.reads@,
            halt: match self.halt_reason {
                Some(s) => Some(s@),
                None => None,
            },
            told: self.outbox@,
        }
    }
}

impl StateView {
    /// Whether the engine's state is valid and the waiting clients are in order.
    pub open spec fn wf(self) -> bool {
        &&& self.node.valid()
        &&& rows_wf(self.rows)
    }

    /// The same state after more has been told.
    pub open spec fn telling(self, effects: Seq<EffectView>) -> StateView {
        StateView { told: self.told + effects, ..self }
    }

    /// The same state with a reason to stop; the first reason stays.
    pub open spec fn halting(self, reason: Seq<char>) -> StateView {
        StateView {
            halt: Some(
                match self.halt {
                    Some(first) => first,
                    None => reason,
                },
            ),
            ..self
        }
    }
}

impl DriverState {
    /// The state of a driver that has just been built around an engine.
    pub fn new(node: NodeView, max_fetch_batch: usize) -> (r: DriverState)
        requires
            node.valid(),
        ensures
            r@ == (StateView {
                node,
                max_fetch_batch,
                rows: Seq::empty(),
                reads: Seq::empty(),
                halt: None,
                told: Seq::empty(),
            }),
            r@.wf(),
    {
        DriverState {
            node,
            max_fetch_batch,
            waiters: WaiterTable::new(),
            reads: ReadQueue::new(),
            halt_reason: None,
            outbox: Outbox::new(),
        }
    }

    /// Tells the host something.
    pub fn tell(&mut self, effect: Effect)
        ensures
            final(self)@ == old(self)@.telling(seq![effect@]),
    {
        self.outbox.push(effect);
        assert(self.outbox@ =~= old(self).outbox@ + seq![effect@]);
    }

    /// Notes a reason to stop, unless there is one already.
    pub fn halt(&mut self, reason: String)
        ensures
            final(self)@ == old(self)@.halting(reason@),
    {
        if self.halt_reason.is_none() {
            self.halt_reason = Some(reason);
        }
    }
}

/// The first reason to stop is the one that counts.
pub proof fn law_first_halt_reason_stays(s: StateView, first: Seq<char>, later: Seq<char>)
    ensures
        s.halting(first).halting(later) == s.halting(first),
        s.halt is Some ==> s.halting(later) == s,
{
}

} // verus!
