//! What callers of a driver receive when they cannot reach it, or when it is
//! gone before it answers.
use vstd::prelude::*;

use crate::error::{ErrorView, XRaftError};

verus! {

/// What became of a call to the driver.
#[derive(Debug)]
pub enum Delivery<T> {
    /// The driver no longer takes events.
    Closed,
    /// The driver took the event and went away without an answer.
    Dropped,
    /// The driver answered.
    Answered(Result<T, XRaftError>),
}

/// Whether a result is exactly the given error.
pub open spec fn fails_with<T>(r: Result<T, XRaftError>, e: ErrorView) -> bool {
    r matches Err(x) && x@ == e
}

/// Whether `r` is what a client that proposes receives.
pub open spec fn client_hears<T>(delivery: Delivery<T>, r: Result<T, XRaftError>) -> bool {
    match delivery {
        Delivery::Closed => fails_with(r, ErrorView::Transport("driver event channel closed"@)),
        Delivery::Dropped => fails_with(r, ErrorView::Shutdown),
        Delivery::Answered(answer) => r == answer,
    }
}

/// Whether `r` is what a client that reads, or an operator, receives.
pub open spec fn reader_hears<T>(delivery: Delivery<T>, r: Result<T, XRaftError>) -> bool {
    match delivery {
        Delivery::Closed | Delivery::Dropped => fails_with(r, ErrorView::Shutdown),
        Delivery::Answered(answer) => r == answer,
    }
}

/// Whether `r` is what another node receives.
pub open spec fn node_hears<T>(delivery: Delivery<T>, r: Result<T, XRaftError>) -> bool {
    match delivery {
        Delivery::Closed => fails_with(r, ErrorView::Transport("driver event channel closed"@)),
        Delivery::Dropped => fails_with(r, ErrorView::Transport("driver dropped reply"@)),
        Delivery::Answered(answer) => r == answer,
    }
}

/// What a client that proposes receives: a driver that takes no more events
/// cannot be reached, and one that goes away is shutting down.
pub fn client_result<T>(delivery: Delivery<T>) -> (r: Result<T, XRaftError>)
    ensures
        match delivery {
            Delivery::Closed => fails_with(r, ErrorView::Transport("driver event channel closed"@)),
            Delivery::Dropped => fails_with(r, ErrorView::Shutdown),
            Delivery::Answered(answer) => r == answer,
        },
        client_hears(delivery, r),
{
    match delivery {
        Delivery::Closed => Err(XRaftError::Transport("driver event channel closed".to_owned())),
        Delivery::Dropped => Err(XRaftError::Shutdown),
        Delivery::Answered(answer) => answer,
    }
}

/// What a client that reads, or an operator that wants a snapshot, receives: a
/// driver that is gone, before it took the event or after, has shut down.
pub fn served_result<T>(delivery: Delivery<T>) -> (r: Result<T, XRaftError>)
    ensures
        match delivery {
            Delivery::Closed | Delivery::Dropped => fails_with(r, ErrorView::Shutdown),
            Delivery::Answered(answer) => r == answer,
        },
        reader_hears(delivery, r),
{
    match delivery {
        Delivery::Closed | Delivery::Dropped => Err(XRaftError::Shutdown),
        Delivery::Answered(answer) => answer,
    }
}

/// What another node receives: a driver that is gone is a failed transport.
pub fn inbound_result<T>(delivery: Delivery<T>) -> (r: Result<T, XRaftError>)
    ensures
        match delivery {
            Delivery::Closed => fails_with(r, ErrorView::Transport("driver event channel closed"@)),
            Delivery::Dropped => fails_with(r, ErrorView::Transport("driver dropped reply"@)),
            Delivery::Answered(answer) => r == answer,
        },
        node_hears(delivery, r),
{
    match delivery {
        Delivery::Closed => Err(XRaftError::Transport("driver event channel closed".to_owned())),
        Delivery::Dropped => Err(XRaftError::Transport("driver dropped reply".to_owned())),
        Delivery::Answered(answer) => answer,
    }
}

/// Whoever the caller is, it receives the driver's answer where there is one, and an error
/// otherwise. A client that proposes can tell whether the driver took its command: an
/// unreachable driver did not, and one that went away may have. One that reads hears of a
/// shutdown either way, and another node of a failed transport.
pub proof fn law_callers_hear_what_became_of_their_calls<T>(
    answer: Result<T, XRaftError>,
    r: Result<T, XRaftError>,
)
    ensures
        client_hears(Delivery::Answered(answer), r) <==> r == answer,
        reader_hears(Delivery::Answered(answer), r) <==> r == answer,
        node_hears(Delivery::Answered(answer), r) <==> r == answer,
        client_hears(Delivery::Closed, r) ==> (r matches Err(e) && e is Transport),
        client_hears(Delivery::Dropped, r) ==> (r matches Err(e) && e is Shutdown),
        reader_hears(Delivery::Closed, r) ==> (r matches Err(e) && e is Shutdown),
        reader_hears(Delivery::Dropped, r) ==> (r matches Err(e) && e is Shutdown),
        node_hears(Delivery::Closed, r) ==> (r matches Err(e) && e is Transport),
        node_hears(Delivery::Dropped, r) ==> (r matches Err(e) && e is Transport),
        !(client_hears(Delivery::Closed, r) && client_hears(Delivery::Dropped, r)),
{
}

} // verus!
