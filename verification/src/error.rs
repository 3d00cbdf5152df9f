//! Errors that callers of the driver receive.
use vstd::prelude::*;
use vstd::string::*;

use crate::text::prefixed;
use crate::types::{node_text, LogIndex, NodeId};

verus! {

/// Error of a driver operation.
#[derive(Clone, Debug, PartialEq, Eq)]
pub enum XRaftError {
    Storage(String),
    Transport(String),
    NotLeader { leader_hint: Option<NodeId> },
    ElectionTimeout,
    InvalidTerm(String),
    LogInconsistency(String),
    Shutdown,
    Config(String),
    CorruptSnapshot(String),
    SnapshotNotFound(String),
    Unsupported(String),
}

/// What an [`XRaftError`] says.
#[verifier::ext_equal]
pub enum ErrorView {
    Storage(Seq<char>),
    Transport(Seq<char>),
    NotLeader(Option<NodeId>),
    ElectionTimeout,
    InvalidTerm(Seq<char>),
    LogInconsistency(Seq<char>),
    Shutdown,
    Config(Seq<char>),
    CorruptSnapshot(Seq<char>),
    SnapshotNotFound(Seq<char>),
    Unsupported(Seq<char>),
}

impl View for XRaftError {
    type V = ErrorView;

    open spec fn view(&self) -> ErrorView {
        match self {
            XRaftError::Storage(s) => ErrorView::Storage(s@),
            XRaftError::Transport(s) => ErrorView::Transport(s@),
            XRaftError::NotLeader { leader_hint } => ErrorView::NotLeader(*leader_hint),
            XRaftError::ElectionTimeout => ErrorView::ElectionTimeout,
            XRaftError::InvalidTerm(s) => ErrorView::InvalidTerm(s@),
            XRaftError::LogInconsistency(s) => ErrorView::LogInconsistency(s@),
            XRaftError::Shutdown => ErrorView::Shutdown,
            XRaftError::Config(s) => ErrorView::Config(s@),
            XRaftError::CorruptSnapshot(s) => ErrorView::CorruptSnapshot(s@),
            XRaftError::SnapshotNotFound(s) => ErrorView::SnapshotNotFound(s@),
            XRaftError::Unsupported(s) => ErrorView::Unsupported(s@),
        }
    }
}

/// The text of an error.
pub open spec fn error_text(e: ErrorView) -> Seq<char> {
    match e {
        ErrorView::Storage(s) => "storage error: "@ + s,
        ErrorView::Transport(s) => "transport error: "@ + s,
        ErrorView::NotLeader(Some(hint)) => "not leader; leader hint: "@ + node_text(hint),
        ErrorView::NotLeader(None) => "not leader; leader unknown"@,
        ErrorView::ElectionTimeout => "election timeout"@,
        ErrorView::InvalidTerm(s) => "invalid term: "@ + s,
        ErrorView::LogInconsistency(s) => "log inconsistency: "@ + s,
        ErrorView::Shutdown => "shutting down"@,
        ErrorView::Config(s) => "configuration error: "@ + s,
        ErrorView::CorruptSnapshot(s) => "corrupt snapshot: "@ + s,
        ErrorView::SnapshotNotFound(s) => "snapshot not found: "@ + s,
        ErrorView::Unsupported(s) => "unsupported: "@ + s,
    }
}

impl XRaftError {
    /// The text of the error.
    pub fn text(&self) -> (r: String)
        ensures
            r@ == error_text(self@),
    {
        match self {
            XRaftError::Storage(s) => prefixed("storage error: ", s.as_str()),
            XRaftError::Transport(s) => prefixed("transport error: ", s.as_str()),
            XRaftError::NotLeader { leader_hint } => match leader_hint {
                Some(hint) => {
                    let mut r = "not leader; leader hint: ".to_owned();
                    hint.push_text(&mut r);
                    r
                },
                None => "not leader; leader unknown".to_owned(),
            },
            XRaftError::ElectionTimeout => "election timeout".to_owned(),
            XRaftError::InvalidTerm(s) => prefixed("invalid term: ", s.as_str()),
            XRaftError::LogInconsistency(s) => prefixed("log inconsistency: ", s.as_str()),
            XRaftError::Shutdown => "shutting down".to_owned(),
            XRaftError::Config(s) => prefixed("configuration error: ", s.as_str()),
            XRaftError::CorruptSnapshot(s) => prefixed("corrupt snapshot: ", s.as_str()),
            XRaftError::SnapshotNotFound(s) => prefixed("snapshot not found: ", s.as_str()),
            XRaftError::Unsupported(s) => prefixed("unsupported: ", s.as_str()),
        }
    }

    /// A copy of the error.
    pub fn duplicate(&self) -> (r: XRaftError)
        ensures
            r@ == self@,
    {
        match self {
            XRaftError::Storage(s) => XRaftError::Storage(s.clone()),
            XRaftError::Transport(s) => XRaftError::Transport(s.clone()),
            XRaftError::NotLeader { leader_hint } => XRaftError::NotLeader {
                leader_hint: *leader_hint,
            },
            XRaftError::ElectionTimeout => XRaftError::ElectionTimeout,
            XRaftError::InvalidTerm(s) => XRaftError::InvalidTerm(s.clone()),
            XRaftError::LogInconsistency(s) => XRaftError::LogInconsistency(s.clone()),
            XRaftError::Shutdown => XRaftError::Shutdown,
            XRaftError::Config(s) => XRaftError::Config(s.clone()),
            XRaftError::CorruptSnapshot(s) => XRaftError::CorruptSnapshot(s.clone()),
            XRaftError::SnapshotNotFound(s) => XRaftError::SnapshotNotFound(s.clone()),
            XRaftError::Unsupported(s) => XRaftError::Unsupported(s.clone()),
        }
    }
}

/// What the result of a proposal says.
pub open spec fn proposal_view(r: Result<LogIndex, XRaftError>) -> Result<LogIndex, ErrorView> {
    match r {
        Ok(i) => Ok(i),
        Err(e) => Err(e@),
    }
}

/// The error of a failed proposal, copied so that it can be handed to several
/// waiters. A successful proposal has no error to copy.
pub fn clone_err(result: &Result<LogIndex, XRaftError>) -> (r: XRaftError)
    ensures
        match proposal_view(*result) {
            Ok(_) => r@ == ErrorView::Transport("internal: clone_err called on Ok"@),
            Err(e) => r@ == e,
        },
{
    match result {
        Ok(_) => XRaftError::Transport("internal: clone_err called on Ok".to_owned()),
        Err(e) => e.duplicate(),
    }
}

} // verus!
