//! The failures that constructing or checking a packet view can report.

use vstd::prelude::*;
use vstd::std_specs::convert::FromSpecImpl;

verus! {

/// What went wrong.
#[derive(Debug, PartialEq, Eq, Structural, Clone, Copy)]
pub enum ErrorKind {
    /// The buffer is shorter than the format's layout needs.
    InvalidFormat,
    /// A stored checksum does not match the bytes it covers.
    Checksum,
}

/// A packet error; it carries exactly its kind.
#[derive(Debug, PartialEq, Eq, Structural, Clone, Copy)]
pub struct Error {
    inner: ErrorKind,
}

impl Error {
    /// The error of the given kind.
    pub closed spec fn of(kind: ErrorKind) -> Error {
        Error { inner: kind }
    }

    /// The kind this error carries.
    pub closed spec fn spec_kind(&self) -> ErrorKind {
        self.inner
    }

    /// The kind this error carries.
    #[verifier::when_used_as_spec(spec_kind)]
    pub fn kind(&self) -> (k: ErrorKind)
        ensures
            k == self.kind(),
    {
        self.inner
    }

    /// An error is determined by its kind, and converting a kind yields an
    /// error of that kind.
    pub proof fn lemma_kind(kind: ErrorKind, e: Error)
        ensures
            Error::of(kind).kind() == kind,
            Error::of(e.kind()) == e,
    {
    }
}

impl ErrorKind {
    /// The text that describes every kind of packet error.
    pub fn description(&self) -> (s: &'static str)
        ensures
            s@ == "packet error kind"@,
    {
        "packet error kind"
    }
}

impl From<ErrorKind> for Error {
    fn from(kind: ErrorKind) -> (e: Error) {
        Error { inner: kind }
    }
}

impl FromSpecImpl<ErrorKind> for Error {
    open spec fn obeys_from_spec() -> bool {
        true
    }

    open spec fn from_spec(kind: ErrorKind) -> Error {
        Error::of(kind)
    }
}

} // verus!
