//! The entries of a storage as a sequence, and what a storage with these
//! entries answers.

use vstd::prelude::*;
use crate::path::PathView;
use crate::storage::{Failure, ReplyView, RequestView};

verus! {

/// One entry of a storage: a directory, or a file with its contents.
pub struct EntryView {
    pub path: PathView,
    pub content: Option<Seq<char>>,
}

/// The entries of a storage, in the order in which they were created.
pub type TreeView = Seq<EntryView>;

/// True when an entry has that path.
pub open spec fn has_entry(tree: TreeView, path: PathView) -> bool {
    exists|i: int| 0 <= i < tree.len() && (#[trigger] tree[i]).path == path
}

/// True when the path is the root or an entry has it.
pub open spec fn exists_at(tree: TreeView, path: PathView) -> bool {
    path.len() == 0 || has_entry(tree, path)
}

/// True when the path is the root or a directory has it.
pub open spec fn is_dir(tree: TreeView, path: PathView) -> bool {
    path.len() == 0 || exists|i: int|
        0 <= i < tree.len() && (#[trigger] tree[i]).path == path && tree[i].content is None
}

/// True when a file has that path.
pub open spec fn is_file(tree: TreeView, path: PathView) -> bool {
    path.len() > 0 && exists|i: int|
        0 <= i < tree.len() && (#[trigger] tree[i]).path == path && tree[i].content is Some
}

/// The place of the file of that path among the entries.
pub open spec fn file_index(tree: TreeView, path: PathView) -> int
    recommends
        is_file(tree, path),
{
    choose|i: int|
        0 <= i < tree.len() && (#[trigger] tree[i]).path == path && tree[i].content is Some
}

/// The contents of the file of that path.
pub open spec fn file_text(tree: TreeView, path: PathView) -> Seq<char>
    recommends
        is_file(tree, path),
{
    tree[file_index(tree, path)].content->0
}

/// The names of the entries directly below `dir`, oldest first.
pub open spec fn children(tree: TreeView, dir: PathView) -> Seq<Seq<char>>
    decreases tree.len(),
{
    if tree.len() == 0 {
        Seq::empty()
    } else {
        let before = children(tree.drop_last(), dir);
        let path = tree.last().path;
        if path.len() > 0 && path.drop_last() == dir {
            before.push(path.last())
        } else {
            before
        }
    }
}

/// What every storage is: no entry is the root, no two entries share a
/// path, and every entry lies in a directory.
pub open spec fn well_formed(tree: TreeView) -> bool {
    &&& forall|i: int| 0 <= i < tree.len() ==> (#[trigger] tree[i]).path.len() > 0
    &&& forall|i: int, j: int|
        0 <= i < j < tree.len() ==> (#[trigger] tree[i]).path != (#[trigger] tree[j]).path
    &&& forall|i: int|
        0 <= i < tree.len() ==> is_dir(tree, (#[trigger] tree[i]).path.drop_last())
}

/// Why nothing can be created at a path, if nothing can: the directory it
/// should lie in is missing, or is a file.
pub open spec fn parent_failure(tree: TreeView, path: PathView) -> Option<Failure> {
    let parent = path.drop_last();
    if is_dir(tree, parent) {
        None
    } else if has_entry(tree, parent) {
        Some(Failure::Other)
    } else {
        Some(Failure::NotFound)
    }
}

/// The answer of a storage with these entries to a request.
pub open spec fn reply_to(tree: TreeView, request: RequestView) -> ReplyView {
    match request {
        RequestView::CreateDir { path } => {
            if exists_at(tree, path) {
                ReplyView::Failed(Failure::AlreadyExists)
            } else {
                match parent_failure(tree, path) {
                    Some(failure) => ReplyView::Failed(failure),
                    None => ReplyView::Done,
                }
            }
        },
        RequestView::WriteFile { path, text } => {
            if is_dir(tree, path) {
                ReplyView::Failed(Failure::Other)
            } else if is_file(tree, path) {
                ReplyView::Done
            } else {
                match parent_failure(tree, path) {
                    Some(failure) => ReplyView::Failed(failure),
                    None => ReplyView::Done,
                }
            }
        },
        RequestView::ReadFile { path } => {
            if is_file(tree, path) {
                ReplyView::Text(file_text(tree, path))
            } else if is_dir(tree, path) {
                ReplyView::Failed(Failure::Other)
            } else {
                ReplyView::Failed(Failure::NotFound)
            }
        },
        RequestView::ListDir { path } => {
            if is_dir(tree, path) {
                ReplyView::Entries(children(tree, path))
            } else if is_file(tree, path) {
                ReplyView::Failed(Failure::Other)
            } else {
                ReplyView::Failed(Failure::NotFound)
            }
        },
    }
}

/// The entries of a storage after it has answered a request.
pub open spec fn tree_after(tree: TreeView, request: RequestView) -> TreeView {
    if reply_to(tree, request) is Done {
        match request {
            RequestView::CreateDir { path } => tree.push(EntryView { path, content: None }),
            RequestView::WriteFile { path, text } => {
                if is_file(tree, path) {
                    tree.update(file_index(tree, path), EntryView { path, content: Some(text) })
                } else {
                    tree.push(EntryView { path, content: Some(text) })
                }
            },
            _ => tree,
        }
    } else {
        tree
    }
}

/// In a well-formed tree the entry at a place decides what its path is: a
/// directory or a file, and with which contents.
pub proof fn lemma_entry_decides(tree: TreeView, i: int)
    requires
        well_formed(tree),
        0 <= i < tree.len(),
    ensures
        has_entry(tree, tree[i].path),
        exists_at(tree, tree[i].path),
        tree[i].content is None ==> is_dir(tree, tree[i].path) && !is_file(tree, tree[i].path),
        tree[i].content is Some ==> is_file(tree, tree[i].path) && !is_dir(tree, tree[i].path)
            && file_index(tree, tree[i].path) == i && file_text(tree, tree[i].path)
            == tree[i].content->0,
{
    let path = tree[i].path;
    assert forall|j: int| 0 <= j < tree.len() && (#[trigger] tree[j]).path == path implies j
        == i by {
        if j < i {
            assert(tree[j].path != tree[i].path);
        } else if i < j {
            assert(tree[i].path != tree[j].path);
        }
    }
}

/// A path that no entry has is neither a file nor, unless it is the root, a directory.
pub proof fn lemma_absent(tree: TreeView, path: PathView)
    requires
        !has_entry(tree, path),
    ensures
        !is_file(tree, path),
        path.len() > 0 ==> !is_dir(tree, path),
{
}

/// A new entry, put in a directory under a path that nothing has, keeps the
/// tree well formed and leaves every older entry as it was.
pub proof fn lemma_push_entry(tree: TreeView, entry: EntryView)
    requires
        well_formed(tree),
        entry.path.len() > 0,
        !has_entry(tree, entry.path),
        is_dir(tree, entry.path.drop_last()),
    ensures
        well_formed(tree.push(entry)),
        forall|path: PathView| has_entry(tree, path) ==> has_entry(tree.push(entry), path),
        forall|path: PathView| is_dir(tree, path) ==> is_dir(tree.push(entry), path),
        forall|path: PathView| is_file(tree, path) ==> is_file(tree.push(entry), path),
        forall|path: PathView|
            path != entry.path ==> (has_entry(tree.push(entry), path) <==> has_entry(tree, path)),
        forall|path: PathView|
            is_file(tree, path) ==> file_text(tree.push(entry), path) == file_text(tree, path),
        has_entry(tree.push(entry), entry.path),
{
    let after = tree.push(entry);
    assert forall|path: PathView| has_entry(tree, path) implies has_entry(after, path) by {
        let i = choose|i: int| 0 <= i < tree.len() && (#[trigger] tree[i]).path == path;
        assert(after[i].path == path);
    }
    assert forall|path: PathView| is_dir(tree, path) implies is_dir(after, path) by {
        if path.len() > 0 {
            let i = choose|i: int|
                0 <= i < tree.len() && (#[trigger] tree[i]).path == path && tree[i].content is None;
            assert(after[i].path == path && after[i].content is None);
        }
    }
    assert forall|path: PathView| is_file(tree, path) implies is_file(after, path) by {
        let i = choose|i: int|
            0 <= i < tree.len() && (#[trigger] tree[i]).path == path && tree[i].content is Some;
        assert(after[i].path == path && after[i].content is Some);
    }
    assert(after[tree.len() as int].path == entry.path);
    assert forall|i: int, j: int| 0 <= i < j < after.len() implies (#[trigger] after[i]).path != (
    #[trigger] after[j]).path by {
        if j == tree.len() {
            assert(tree[i].path == after[i].path);
        } else {
            assert(tree[i].path != tree[j].path);
        }
    }
    assert forall|i: int| 0 <= i < after.len() implies is_dir(
        after,
        (#[trigger] after[i]).path.drop_last(),
    ) by {
        if i < tree.len() {
            assert(is_dir(tree, tree[i].path.drop_last()));
        }
    }
    assert(well_formed(after));
    assert forall|path: PathView| path != entry.path && has_entry(after, path) implies has_entry(
        tree,
        path,
    ) by {
        let i = choose|i: int| 0 <= i < after.len() && (#[trigger] after[i]).path == path;
        assert(tree[i].path == path);
    }
    assert forall|path: PathView| is_file(tree, path) implies file_text(after, path) == file_text(
        tree,
        path,
    ) by {
        let i = choose|i: int|
            0 <= i < tree.len() && (#[trigger] tree[i]).path == path && tree[i].content is Some;
        lemma_entry_decides(tree, i);
        lemma_entry_decides(after, i);
    }
}

/// The children of a directory after one more entry.
pub proof fn lemma_push_children(tree: TreeView, entry: EntryView, dir: PathView)
    ensures
        children(tree.push(entry), dir) == if entry.path.len() > 0 && entry.path.drop_last()
            == dir {
            children(tree, dir).push(entry.path.last())
        } else {
            children(tree, dir)
        },
{
    assert(tree.push(entry).drop_last() =~= tree);
}

/// New contents for a file keep the tree well formed and change nothing else.
pub proof fn lemma_rewrite_file(tree: TreeView, i: int, text: Seq<char>)
    requires
        well_formed(tree),
        0 <= i < tree.len(),
        tree[i].content is Some,
    ensures
        well_formed(tree.update(i, EntryView { path: tree[i].path, content: Some(text) })),
{
    let after = tree.update(i, EntryView { path: tree[i].path, content: Some(text) });
    assert forall|k: int| 0 <= k < after.len() implies (#[trigger] after[k]).path.len() > 0 by {
        assert(tree[k].path.len() > 0);
    }
    assert forall|k: int, j: int| 0 <= k < j < after.len() implies (#[trigger] after[k]).path != (
    #[trigger] after[j]).path by {
        assert(tree[k].path != tree[j].path);
    }
    assert forall|k: int| 0 <= k < after.len() implies is_dir(
        after,
        (#[trigger] after[k]).path.drop_last(),
    ) by {
        let parent = tree[k].path.drop_last();
        assert(is_dir(tree, parent));
        if parent.len() > 0 {
            let j = choose|j: int|
                0 <= j < tree.len() && (#[trigger] tree[j]).path == parent && tree[j].content is None;
            assert(after[j].path == parent && after[j].content is None);
        }
    }
}

/// Where a directory is missing, nothing lies below it.
pub proof fn lemma_nothing_below(tree: TreeView, dir: PathView, path: PathView)
    requires
        well_formed(tree),
        dir.len() > 0,
        !has_entry(tree, dir),
        dir.is_prefix_of(path),
    ensures
        !has_entry(tree, path),
    decreases path.len(),
{
    if has_entry(tree, path) {
        let i = choose|i: int| 0 <= i < tree.len() && (#[trigger] tree[i]).path == path;
        let parent = path.drop_last();
        assert(is_dir(tree, tree[i].path.drop_last()));
        assert(path != dir);
        assert(dir.len() < path.len()) by {
            assert(path.subrange(0, path.len() as int) =~= path);
        }
        assert(dir.is_prefix_of(parent)) by {
            assert(parent.subrange(0, dir.len() as int) =~= path.subrange(0, dir.len() as int));
        }
        lemma_nothing_below(tree, dir, parent);
    }
}

/// A directory that is missing has no children.
pub proof fn lemma_no_children(tree: TreeView, dir: PathView)
    requires
        well_formed(tree),
        dir.len() > 0,
        !has_entry(tree, dir),
    ensures
        children(tree, dir) == Seq::<Seq<char>>::empty(),
{
    lemma_no_children_among(tree, dir, tree.len() as int);
    assert(tree.take(tree.len() as int) =~= tree);
}

/// A directory that is missing has no children among the oldest entries.
proof fn lemma_no_children_among(tree: TreeView, dir: PathView, count: int)
    requires
        well_formed(tree),
        dir.len() > 0,
        !has_entry(tree, dir),
        0 <= count <= tree.len(),
    ensures
        children(tree.take(count), dir) == Seq::<Seq<char>>::empty(),
    decreases count,
{
    if count > 0 {
        lemma_no_children_among(tree, dir, count - 1);
        assert(tree.take(count).drop_last() =~= tree.take(count - 1));
        assert(tree.take(count).last() == tree[count - 1]);
        assert(is_dir(tree, tree[count - 1].path.drop_last()));
    }
}

} // verus!
