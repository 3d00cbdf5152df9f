//! The reply to an inbound call, as far as the engine's actions have produced
//! it.
use vstd::prelude::*;

use crate::error::{ErrorView, XRaftError};
use crate::message::{FetchResponse, FetchResponseView, PreVoteResponse, VoteResponse};

verus! {

/// What a caller may be answered with. An error stands for a failed action that
/// an answer would depend on; it takes precedence over any answer.
#[derive(Debug)]
pub struct CapturedResponse {
    pub vote: Option<VoteResponse>,
    pub pre_vote: Option<PreVoteResponse>,
    pub fetch: Option<FetchResponse>,
    pub error: Option<XRaftError>,
}

/// What a [`CapturedResponse`] holds.
#[verifier::ext_equal]
pub struct CapturedView {
    pub vote: Option<VoteResponse>,
    pub pre_vote: Option<PreVoteResponse>,
    pub fetch: Option<FetchResponseView>,
    pub error: Option<ErrorView>,
}

impl View for CapturedResponse {
    type V = CapturedView;

    open spec fn view(&self) -> CapturedView {
        CapturedView {
            vote: self.vote,
            pre_vote: self.pre_vote,
            fetch: match self.fetch {
                Some(r) => Some(r@),
                None => None,
            },
            error: match self.error {
                Some(e) => Some(e@),
                None => None,
            },
        }
    }
}

/// Nothing captured.
pub open spec fn nothing_captured() -> CapturedView {
    CapturedView { vote: None, pre_vote: None, fetch: None, error: None }
}

/// The first of two, if it is there.
pub open spec fn first_of<A>(a: Option<A>, b: Option<A>) -> Option<A> {
    if a is Some {
        a
    } else {
        b
    }
}

/// Two captures as one: what the first one has stays.
pub open spec fn merged(a: CapturedView, b: CapturedView) -> CapturedView {
    CapturedView {
        vote: first_of(a.vote, b.vote),
        pre_vote: first_of(a.pre_vote, b.pre_vote),
        fetch: first_of(a.fetch, b.fetch),
        error: first_of(a.error, b.error),
    }
}

impl CapturedResponse {
    /// Nothing captured.
    pub fn empty() -> (r: CapturedResponse)
        ensures
            r@ == nothing_captured(),
    {
        CapturedResponse { vote: None, pre_vote: None, fetch: None, error: None }
    }

    /// Fills what is missing here from `other`.
    pub fn merge(&mut self, other: CapturedResponse)
        ensures
            final(self)@ == merged(old(self)@, other@),
    {
        let CapturedResponse { vote, pre_vote, fetch, error } = other;
        if self.vote.is_none() {
            self.vote = vote;
        }
        if self.pre_vote.is_none() {
            self.pre_vote = pre_vote;
        }
        if self.fetch.is_none() {
            self.fetch = fetch;
        }
        if self.error.is_none() {
            self.error = error;
        }
    }
}

/// Merging keeps what was captured first, is not changed by repetition, and
/// does not depend on how merges are grouped.
pub proof fn law_merge_keeps_the_first(a: CapturedView, b: CapturedView, c: CapturedView)
    ensures
        merged(a, a) == a,
        merged(a, nothing_captured()) == a,
        merged(nothing_captured(), a) == a,
        merged(merged(a, b), c) == merged(a, merged(b, c)),
        a.vote is Some ==> merged(a, b).vote == a.vote,
        a.pre_vote is Some ==> merged(a, b).pre_vote == a.pre_vote,
        a.fetch is Some ==> merged(a, b).fetch == a.fetch,
        a.error is Some ==> merged(a, b).error == a.error,
        merged(a, b).error is None <==> a.error is None && b.error is None,
{
}

} // verus!
