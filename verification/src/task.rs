//! How a store operation runs: it asks the storage for one thing at a time
//! and decides on each answer what to ask next, or how to finish.

use vstd::prelude::*;
use crate::error::{Error, ErrorKind};
use crate::storage::{Failure, Reply, ReplyView, Request, RequestView};

verus! {

/// What an operation does once an answer has come in.
#[derive(Debug)]
pub enum Step<T, R> {
    /// It goes on as `T` and asks the storage for one more thing.
    Ask(T, Request),
    /// It is over, with this result.
    Finish(R),
}

/// What an operation does once an answer has come in, over views.
pub enum Move<S, R> {
    Ask(S, RequestView),
    Finish(R),
}

/// Why a directory and what belongs in it could not be created.
#[derive(Clone, Copy, Debug, PartialEq, Eq, Structural)]
pub enum DirError {
    /// Something has the path of the directory already.
    AlreadyExists,
    /// The directory was there and vanished before it was filled.
    DeletedDuring,
    /// The directory could not be created.
    CreationFailure(Failure),
    /// The directory was created and could not be filled.
    ClosureFailure(Failure),
}

/// What the answer to "create this directory" means.
pub open spec fn creation_of(reply: ReplyView) -> Result<(), DirError> {
    match reply {
        ReplyView::Done => Ok(()),
        ReplyView::Failed(Failure::AlreadyExists) => Err(DirError::AlreadyExists),
        ReplyView::Failed(failure) => Err(DirError::CreationFailure(failure)),
        _ => Err(DirError::CreationFailure(Failure::Other)),
    }
}

/// What the answer to a request that fills a new directory means.
pub open spec fn closure_of(reply: ReplyView) -> Result<(), DirError> {
    match reply {
        ReplyView::Done => Ok(()),
        ReplyView::Failed(Failure::NotFound) => Err(DirError::DeletedDuring),
        ReplyView::Failed(failure) => Err(DirError::ClosureFailure(failure)),
        _ => Err(DirError::ClosureFailure(Failure::Other)),
    }
}

/// Reads the answer to "create this directory". An answer of the wrong
/// shape counts as a failure of the storage.
pub fn creation_outcome(reply: &Reply) -> (outcome: Result<(), DirError>)
    ensures
        outcome == creation_of(reply@),
{
    match reply {
        Reply::Done => Ok(()),
        Reply::Failed(Failure::AlreadyExists) => Err(DirError::AlreadyExists),
        Reply::Failed(failure) => Err(DirError::CreationFailure(*failure)),
        _ => Err(DirError::CreationFailure(Failure::Other)),
    }
}

/// Reads the answer to a request that fills a new directory. That the
/// directory is missing by then means that someone else removed it.
pub fn closure_outcome(reply: &Reply) -> (outcome: Result<(), DirError>)
    ensures
        outcome == closure_of(reply@),
{
    match reply {
        Reply::Done => Ok(()),
        Reply::Failed(Failure::NotFound) => Err(DirError::DeletedDuring),
        Reply::Failed(failure) => Err(DirError::ClosureFailure(*failure)),
        _ => Err(DirError::ClosureFailure(Failure::Other)),
    }
}

/// The error of a blog that could not be created.
pub open spec fn blog_error_of(error: DirError) -> Error {
    match error {
        DirError::AlreadyExists => Error { kind: ErrorKind::NameTaken },
        DirError::DeletedDuring => Error { kind: ErrorKind::ConcurrentlyDeleted },
        _ => Error { kind: ErrorKind::StorageFailure },
    }
}

/// The error of a post that could not be created.
pub open spec fn post_error_of(error: DirError) -> Error {
    match error {
        DirError::AlreadyExists => Error { kind: ErrorKind::TitleTaken },
        DirError::DeletedDuring => Error { kind: ErrorKind::ConcurrentlyDeleted },
        DirError::CreationFailure(Failure::NotFound) => Error { kind: ErrorKind::BlogNotFound },
        _ => Error { kind: ErrorKind::StorageFailure },
    }
}

/// Says why a blog could not be created.
pub fn blog_error(error: DirError) -> (e: Error)
    ensures
        e == blog_error_of(error),
{
    match error {
        DirError::AlreadyExists => Error::new(ErrorKind::NameTaken),
        DirError::DeletedDuring => Error::new(ErrorKind::ConcurrentlyDeleted),
        _ => Error::new(ErrorKind::StorageFailure),
    }
}

/// Says why a post could not be created. That the directory of the posts is
/// missing means that the blog is.
pub fn post_error(error: DirError) -> (e: Error)
    ensures
        e == post_error_of(error),
{
    match error {
        DirError::AlreadyExists => Error::new(ErrorKind::TitleTaken),
        DirError::DeletedDuring => Error::new(ErrorKind::ConcurrentlyDeleted),
        DirError::CreationFailure(Failure::NotFound) => Error::new(ErrorKind::BlogNotFound),
        _ => Error::new(ErrorKind::StorageFailure),
    }
}

} // verus!
