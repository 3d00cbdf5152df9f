//! Helpers for double-ended queues.
use std::collections::VecDeque;

use vstd::prelude::*;

verus! {

/// Moves the elements of a vector into a queue.
pub fn into_queue<T>(items: Vec<T>) -> (q: VecDeque<T>)
    ensures
        q@ == items@,
{
    let mut items = items;
    let ghost all = items@;
    let mut q: VecDeque<T> = VecDeque::new();
    assert(all =~= items@ + q@);
    loop
        invariant_except_break
            all == items@ + q@,
        ensures
            q@ == all,
        decreases items@.len(),
    {
        let ghost left = items@;
        let ghost moved = q@;
        match items.pop() {
            Some(e) => {
                q.push_front(e);
                assert(items@ + q@ =~= left + moved);
            },
            None => {
                assert(items@ + q@ =~= q@);
                break ;
            },
        }
    }
    q
}

} // verus!
