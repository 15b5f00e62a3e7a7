//! What a store asks of the storage below it, what the storage answers, and
//! a storage that lives in memory.

use vstd::prelude::*;
use crate::path::{PathView, StoragePath};

verus! {

/// Why the storage could not do what it was asked.
#[derive(Clone, Copy, Debug, PartialEq, Eq, Structural)]
pub enum Failure {
    /// The entry, or the directory it should lie in, does not exist.
    NotFound,
    /// An entry of that path exists already.
    AlreadyExists,
    /// Anything else.
    Other,
}

/// One thing a store asks of the storage.
#[derive(Debug)]
pub enum Request {
    /// Create a new directory; fail if anything has that path.
    CreateDir { path: StoragePath },
    /// Create a file or replace its contents.
    WriteFile { path: StoragePath, text: String },
    /// Read a whole file.
    ReadFile { path: StoragePath },
    /// Name the entries of a directory.
    ListDir { path: StoragePath },
}

/// A request, with texts and paths as sequences.
pub enum RequestView {
    CreateDir { path: PathView },
    WriteFile { path: PathView, text: Seq<char> },
    ReadFile { path: PathView },
    ListDir { path: PathView },
}

impl View for Request {
    type V = RequestView;

    open spec fn view(&self) -> RequestView {
        match self {
            Request::CreateDir { path } => RequestView::CreateDir { path: path@ },
            Request::WriteFile { path, text } => RequestView::WriteFile { path: path@, text: text@ },
            Request::ReadFile { path } => RequestView::ReadFile { path: path@ },
            Request::ListDir { path } => RequestView::ListDir { path: path@ },
        }
    }
}

/// The texts of a sequence of strings.
pub open spec fn texts(strings: Seq<String>) -> Seq<Seq<char>> {
    Seq::new(strings.len(), |i: int| strings[i]@)
}

/// What the storage answers.
#[derive(Debug)]
pub enum Reply {
    /// The directory was created, or the file written.
    Done,
    /// The contents of the file.
    Text(String),
    /// The names of the entries of the directory, in the order the storage gives them.
    Entries(Vec<String>),
    /// The request failed.
    Failed(Failure),
}

/// A reply, with texts as sequences.
pub enum ReplyView {
    Done,
    Text(Seq<char>),
    Entries(Seq<Seq<char>>),
    Failed(Failure),
}

impl View for Reply {
    type V = ReplyView;

    open spec fn view(&self) -> ReplyView {
        match self {
            Reply::Done => ReplyView::Done,
            Reply::Text(text) => ReplyView::Text(text@),
            Reply::Entries(names) => ReplyView::Entries(texts(names@)),
            Reply::Failed(failure) => ReplyView::Failed(*failure),
        }
    }
}

} // verus!
