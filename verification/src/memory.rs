//! A storage that lives in memory: the entries a volume would hold, and the
//! answers it would give.

use vstd::prelude::*;
use crate::layout::{blogs_path, blogs_root};
use crate::path::{PathView, StoragePath};
use crate::storage::{texts, Failure, Reply, Request};
use crate::tree::{
    children, has_entry, lemma_absent, lemma_entry_decides, lemma_push_children,
    lemma_push_entry, lemma_rewrite_file, parent_failure, reply_to, tree_after, well_formed,
    EntryView, TreeView,
};

verus! {

/// One entry as the storage keeps it: no contents for a directory.
struct Entry {
    path: StoragePath,
    content: Option<String>,
}

impl View for Entry {
    type V = EntryView;

    closed spec fn view(&self) -> EntryView {
        EntryView {
            path: self.path@,
            content: match self.content {
                Some(text) => Some(text@),
                None => None,
            },
        }
    }
}

/// A storage in memory. It answers requests as a volume would that nobody
/// else writes to, and keeps its entries in the order of their creation.
pub struct Storage {
    entries: Vec<Entry>,
}

impl View for Storage {
    type V = TreeView;

    closed spec fn view(&self) -> TreeView {
        Seq::new(self.entries@.len(), |i: int| self.entries@[i]@)
    }
}

impl Storage {
    /// True of every storage: its entries are well formed.
    #[verifier::type_invariant]
    pub open spec fn wf(&self) -> bool {
        well_formed(self@)
    }

    /// A storage without any entry.
    pub fn empty() -> (storage: Storage)
        ensures
            storage@ == Seq::<EntryView>::empty(),
    {
        let storage = Storage { entries: Vec::new() };
        assert(storage@ =~= Seq::<EntryView>::empty());
        storage
    }

    /// A storage that holds the directory of the blogs and nothing else.
    pub fn new() -> (storage: Storage)
        ensures
            storage@ == seq![EntryView { path: blogs_root(), content: None }],
    {
        let mut entries: Vec<Entry> = Vec::new();
        entries.push(Entry { path: blogs_path(), content: None });
        let storage = Storage { entries };
        assert(storage@ =~= seq![EntryView { path: blogs_root(), content: None }]);
        assert(blogs_root().drop_last().len() == 0);
        storage
    }

    /// The place of the entry of that path.
    fn find(&self, path: &StoragePath) -> (place: Option<usize>)
        ensures
            match place {
                Some(i) => i < self@.len() && self@[i as int].path == path@,
                None => !has_entry(self@, path@),
            },
    {
        let mut i: usize = 0;
        while i < self.entries.len()
            invariant
                0 <= i <= self.entries@.len(),
                forall|j: int| 0 <= j < i ==> (#[trigger] self@[j]).path != path@,
            decreases self.entries@.len() - i,
        {
            if self.entries[i].path.same(path) {
                return Some(i);
            }
            i = i + 1;
        }
        None
    }

    /// Why nothing can be created at the path, if nothing can.
    fn parent_trouble(&self, path: &StoragePath) -> (failure: Option<Failure>)
        requires
            path@.len() > 0,
        ensures
            failure == parent_failure(self@, path@),
    {
        proof {
            use_type_invariant(self);
        }
        let parent = match path.parent() {
            Some(parent) => parent,
            None => {
                return None;
            },
        };
        if parent.len() == 0 {
            return None;
        }
        match self.find(&parent) {
            None => {
                proof {
                    lemma_absent(self@, parent@);
                }
                Some(Failure::NotFound)
            },
            Some(i) => {
                proof {
                    lemma_entry_decides(self@, i as int);
                }
                if self.entries[i].content.is_none() {
                    None
                } else {
                    Some(Failure::Other)
                }
            },
        }
    }

    /// The names of the entries directly below a directory.
    fn names_in(&self, dir: &StoragePath) -> (names: Vec<String>)
        ensures
            texts(names@) == children(self@, dir@),
    {
        let mut names: Vec<String> = Vec::new();
        let mut i: usize = 0;
        assert(texts(names@) =~= children(self@.take(0), dir@));
        while i < self.entries.len()
            invariant
                0 <= i <= self.entries@.len(),
                texts(names@) == children(self@.take(i as int), dir@),
            decreases self.entries@.len() - i,
        {
            let ghost before = texts(names@);
            proof {
                assert(self@.take(i + 1) =~= self@.take(i as int).push(self@[i as int]));
                lemma_push_children(self@.take(i as int), self@[i as int], dir@);
            }
            if self.entries[i].path.is_child_of(dir) {
                match self.entries[i].path.file_name() {
                    Some(name) => names.push(name.to_owned()),
                    None => {},
                }
                assert(texts(names@) =~= before.push(self@[i as int].path.last()));
            }
            i = i + 1;
        }
        assert(self@.take(i as int) =~= self@);
        names
    }

    /// Answers a request without doing what it asks: for a request that
    /// would change the storage, the answer says whether it could be done.
    pub fn answer(&self, request: &Request) -> (reply: Reply)
        ensures
            reply@ == reply_to(self@, request@),
    {
        proof {
            use_type_invariant(self);
        }
        match request {
            Request::CreateDir { path } => {
                if path.len() == 0 {
                    return Reply::Failed(Failure::AlreadyExists);
                }
                match self.find(path) {
                    Some(i) => Reply::Failed(Failure::AlreadyExists),
                    None => match self.parent_trouble(path) {
                        Some(failure) => Reply::Failed(failure),
                        None => Reply::Done,
                    },
                }
            },
            Request::WriteFile { path, text } => {
                if path.len() == 0 {
                    return Reply::Failed(Failure::Other);
                }
                match self.find(path) {
                    Some(i) => {
                        proof {
                            lemma_entry_decides(self@, i as int);
                        }
                        if self.entries[i].content.is_none() {
                            Reply::Failed(Failure::Other)
                        } else {
                            Reply::Done
                        }
                    },
                    None => {
                        proof {
                            lemma_absent(self@, path@);
                        }
                        match self.parent_trouble(path) {
                            Some(failure) => Reply::Failed(failure),
                            None => Reply::Done,
                        }
                    },
                }
            },
            Request::ReadFile { path } => {
                if path.len() == 0 {
                    return Reply::Failed(Failure::Other);
                }
                match self.find(path) {
                    Some(i) => {
                        proof {
                            lemma_entry_decides(self@, i as int);
                        }
                        match &self.entries[i].content {
                            Some(text) => Reply::Text(text.clone()),
                            None => Reply::Failed(Failure::Other),
                        }
                    },
                    None => {
                        proof {
                            lemma_absent(self@, path@);
                        }
                        Reply::Failed(Failure::NotFound)
                    },
                }
            },
            Request::ListDir { path } => {
                if path.len() == 0 {
                    return Reply::Entries(self.names_in(path));
                }
                match self.find(path) {
                    Some(i) => {
                        proof {
                            lemma_entry_decides(self@, i as int);
                        }
                        if self.entries[i].content.is_none() {
                            Reply::Entries(self.names_in(path))
                        } else {
                            Reply::Failed(Failure::Other)
                        }
                    },
                    None => {
                        proof {
                            lemma_absent(self@, path@);
                        }
                        Reply::Failed(Failure::NotFound)
                    },
                }
            },
        }
    }

    /// Does what a request asks and answers it.
    pub fn perform(&mut self, request: Request) -> (reply: Reply)
        ensures
            reply@ == reply_to(old(self)@, request@),
            final(self)@ == tree_after(old(self)@, request@),
    {
        proof {
            use_type_invariant(&*self);
        }
        let reply = self.answer(&request);
        match reply {
            Reply::Done => {},
            _ => {
                return reply;
            },
        }
        let ghost before = self@;
        let place = match &request {
            Request::CreateDir { path } => None,
            Request::WriteFile { path, text } => self.find(path),
            _ => {
                return reply;
            },
        };
        let mut entries: Vec<Entry> = Vec::new();
        std::mem::swap(&mut self.entries, &mut entries);
        let ghost held = Storage { entries };
        assert(held@ =~= before);
        match request {
            Request::CreateDir { path } => {
                proof {
                    lemma_push_entry(before, EntryView { path: path@, content: None });
                }
                entries.push(Entry { path, content: None });
            },
            Request::WriteFile { path, text } => {
                match place {
                    Some(i) => {
                        proof {
                            lemma_entry_decides(before, i as int);
                            lemma_rewrite_file(before, i as int, text@);
                        }
                        entries.set(i, Entry { path, content: Some(text) });
                    },
                    None => {
                        proof {
                            lemma_absent(before, path@);
                            lemma_push_entry(before, EntryView { path: path@, content: Some(text@) });
                        }
                        entries.push(Entry { path, content: Some(text) });
                    },
                }
            },
            _ => {},
        }
        let ghost made = Storage { entries };
        assert(made@ =~= tree_after(before, request@));
        std::mem::swap(&mut self.entries, &mut entries);
        assert(self@ =~= made@);
        reply
    }
}

} // verus!
