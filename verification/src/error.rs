use vstd::prelude::*;

verus! {

/// The failures this library can report: resolution failures (unknown
/// aliases, malformed segments), failures of the surrounding runtime that
/// callers surface through the same taxonomy, and authorization failures.
#[derive(Debug, Clone, PartialEq, Eq)]
pub enum Error {
    /// A node alias was not present in the address lookup.
    UnknownNode(String),
    /// A project alias was absent from the lookup both before and after the
    /// single permitted cache refresh.
    UnknownProject(String),
    /// An address segment could not be read as the kind its code announces.
    InvalidSegment,
    /// The remote repopulation of the project cache failed.
    RemoteRefreshFailed,
    /// The transport to the relay-hosting node could not be established.
    TransportUnavailable,
    /// A child policy failed while deciding authorization.
    AuthorizationCheckFailed(String),
}

/// The mathematical value of an `Error`: alias and message payloads as
/// character sequences.
pub enum ErrorView {
    UnknownNode(Seq<char>),
    UnknownProject(Seq<char>),
    InvalidSegment,
    RemoteRefreshFailed,
    TransportUnavailable,
    AuthorizationCheckFailed(Seq<char>),
}

impl View for Error {
    type V = ErrorView;

    open spec fn view(&self) -> ErrorView {
        match self {
            Error::UnknownNode(a) => ErrorView::UnknownNode(a@),
            Error::UnknownProject(a) => ErrorView::UnknownProject(a@),
            Error::InvalidSegment => ErrorView::InvalidSegment,
            Error::RemoteRefreshFailed => ErrorView::RemoteRefreshFailed,
            Error::TransportUnavailable => ErrorView::TransportUnavailable,
            Error::AuthorizationCheckFailed(m) => ErrorView::AuthorizationCheckFailed(m@),
        }
    }
}

impl Error {
    /// An owned copy that verified callers know equals the original.
    pub fn dup(&self) -> (r: Error)
        ensures
            r == *self,
    {
        match self {
            Error::UnknownNode(a) => Error::UnknownNode(a.clone()),
            Error::UnknownProject(a) => Error::UnknownProject(a.clone()),
            Error::InvalidSegment => Error::InvalidSegment,
            Error::RemoteRefreshFailed => Error::RemoteRefreshFailed,
            Error::TransportUnavailable => Error::TransportUnavailable,
            Error::AuthorizationCheckFailed(m) => Error::AuthorizationCheckFailed(m.clone()),
        }
    }
}

} // verus!
