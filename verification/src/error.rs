//! The error kinds that the stores and the name encoder report.

use vstd::prelude::*;

verus! {

/// Why an operation did not succeed.
#[derive(Clone, Copy, Debug, PartialEq, Eq, Structural)]
pub enum ErrorKind {
    /// The requested blog or post does not exist.
    NotFound,
    /// A blog of that name exists already.
    NameTaken,
    /// A post of that title exists already in the blog.
    TitleTaken,
    /// The blog that should own a new post does not exist.
    BlogNotFound,
    /// A directory vanished between two steps of one operation; trying again later may succeed.
    ConcurrentlyDeleted,
    /// The storage failed in a way no operation expects.
    StorageFailure,
    /// A path segment is not the encoding of any byte string.
    InvalidEncoding,
    /// A path segment encodes bytes that are not UTF-8.
    InvalidUtf8,
}

/// An error of the library: its kind and nothing else.
#[derive(Clone, Copy, Debug, PartialEq, Eq, Structural)]
pub struct Error {
    pub kind: ErrorKind,
}

impl Error {
    /// An error of the given kind.
    pub fn new(kind: ErrorKind) -> (e: Error)
        ensures
            e.kind == kind,
    {
        Error { kind }
    }

    /// True for the one kind that a caller may answer by trying again.
    pub open spec fn spec_is_retryable(&self) -> bool {
        self.kind == ErrorKind::ConcurrentlyDeleted
    }

    /// True for the one kind that a caller may answer by trying again.
    #[verifier::when_used_as_spec(spec_is_retryable)]
    pub fn is_retryable(&self) -> (b: bool)
        ensures
            b == self.spec_is_retryable(),
    {
        matches!(self.kind, ErrorKind::ConcurrentlyDeleted)
    }
}

} // verus!
