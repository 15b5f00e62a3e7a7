//! The blog store on a storage in memory.

use vstd::prelude::*;
use crate::blog_tasks::{
    CreateBlog, CreateBlogStage, GetBlog, GetBlogStage, ListBlogs, ListBlogsView, Prepare,
};
use crate::encoder::{decoding, encode, encoded};
use crate::error::{Error, ErrorKind};
use crate::layout::{blog_dir, blogs_root, description_file, lemma_blog_layout, posts_dir};
use crate::listing::{lemma_next_named, names_of, next_named};
use crate::memory::Storage;
use crate::model::{
    insert_by_name, lemma_insert_keeps_order, sorted_by_name, text_of, viewed, Blog, BlogList,
    BlogSummaryView, BlogView,
};
use crate::storage::RequestView;
use crate::task::Step;
use crate::tree::{
    children, file_text, has_entry, is_dir, is_file, lemma_absent, lemma_entry_decides,
    lemma_nothing_below, lemma_push_entry, well_formed, EntryView, TreeView,
};

verus! {

/// Whether a storage with these entries can be made ready for blogs: it
/// cannot if a file has the path of their directory.
pub open spec fn preparation(tree: TreeView) -> Result<(), Error> {
    if is_file(tree, blogs_root()) {
        Err(Error { kind: ErrorKind::StorageFailure })
    } else {
        Ok(())
    }
}

/// The entries of a storage after the attempt to make it ready for blogs:
/// the directory of the blogs is new if nothing had its path.
pub open spec fn after_preparation(tree: TreeView) -> TreeView {
    if has_entry(tree, blogs_root()) {
        tree
    } else {
        tree.push(EntryView { path: blogs_root(), content: None })
    }
}

/// Makes a storage ready for blogs: creates the directory of the blogs
/// unless it is there. Blogs that the storage holds stay as they are.
pub fn prepare(store: &mut Storage) -> (result: Result<(), Error>)
    ensures
        result == preparation(old(store)@),
        final(store)@ == after_preparation(old(store)@),
        result is Ok ==> is_dir(final(store)@, blogs_root()),
{
    let ghost before = store@;
    proof {
        use_type_invariant(&*store);
    }
    let (mut task, mut request) = Prepare::start();
    loop
        invariant
            before == old(store)@,
            store.wf(),
            store@ == before,
            match task {
                Prepare::Create => request@ == Prepare::first_request(),
                Prepare::Confirm => {
                    &&& has_entry(before, blogs_root())
                    &&& request@ == (RequestView::ListDir { path: blogs_root() })
                },
            },
        decreases
                match task {
                    Prepare::Create => 2int,
                    Prepare::Confirm => 1int,
                },
    {
        proof {
            let dir = EntryView { path: blogs_root(), content: None };
            assert(blogs_root().drop_last() =~= Seq::<Seq<char>>::empty());
            if has_entry(before, blogs_root()) {
                let i = choose|i: int|
                    0 <= i < before.len() && (#[trigger] before[i]).path == blogs_root();
                lemma_entry_decides(before, i);
            } else {
                lemma_absent(before, blogs_root());
                lemma_push_entry(before, dir);
                lemma_entry_decides(before.push(dir), before.len() as int);
            }
        }
        let reply = store.perform(request);
        proof {
            use_type_invariant(&*store);
        }
        match task.resume(reply) {
            Step::Finish(result) => {
                return result;
            },
            Step::Ask(next, again) => {
                task = next;
                request = again;
            },
        }
    }
}

/// Whether the blog with that segment can be created in a storage with
/// these entries, and if not, why not: the name is taken if something has
/// the path of the blog, and the storage fails if the directory that the
/// blog should lie in is missing.
pub open spec fn blog_creation(tree: TreeView, blog: Seq<char>) -> Result<(), Error> {
    if has_entry(tree, blog_dir(blog)) {
        Err(Error { kind: ErrorKind::NameTaken })
    } else if is_dir(tree, blog_dir(blog).drop_last()) {
        Ok(())
    } else {
        Err(Error { kind: ErrorKind::StorageFailure })
    }
}

/// The entries of a storage with one more blog: its directory, the
/// directory of its posts, and its description where it has one.
pub open spec fn tree_with_blog(
    tree: TreeView,
    blog: Seq<char>,
    description: Option<Seq<char>>,
) -> TreeView {
    let made = tree.push(EntryView { path: blog_dir(blog), content: None }).push(
        EntryView { path: posts_dir(blog), content: None },
    );
    match description {
        Some(text) => made.push(EntryView { path: description_file(blog), content: Some(text) }),
        None => made,
    }
}

/// The entries of a storage after the attempt to create a blog.
pub open spec fn after_blog_creation(
    tree: TreeView,
    blog: Seq<char>,
    description: Option<Seq<char>>,
) -> TreeView {
    if blog_creation(tree, blog) is Ok {
        tree_with_blog(tree, blog, description)
    } else {
        tree
    }
}

/// Creates the blog of that name.
///
/// Fails with `NameTaken` if something has the path of the blog already, and
/// with `StorageFailure` if the directory of the blogs is missing; the
/// storage is then as it was.
pub fn create_blog(store: &mut Storage, name: &str, description: Option<&str>) -> (result: Result<
    (),
    Error,
>)
    ensures
        result == blog_creation(old(store)@, encoded(name@)),
        final(store)@ == after_blog_creation(old(store)@, encoded(name@), text_of(description)),
{
    let segment = encode(name);
    create_blog_at(store, segment.as_str(), description)
}

/// Creates the blog with that segment.
///
/// The empty segment is always taken where blogs can be created: its path
/// is that of the directory of the blogs.
pub fn create_blog_at(store: &mut Storage, blog: &str, description: Option<&str>) -> (result:
    Result<(), Error>)
    ensures
        result == blog_creation(old(store)@, blog@),
        final(store)@ == after_blog_creation(old(store)@, blog@, text_of(description)),
{
    let ghost before = store@;
    let ghost dir = EntryView { path: blog_dir(blog@), content: None };
    let ghost posts = EntryView { path: posts_dir(blog@), content: None };
    proof {
        use_type_invariant(&*store);
    }
    let (mut task, mut request) = CreateBlog::at(blog.to_owned(), description);
    loop
        invariant
            before == old(store)@,
            well_formed(before),
            store.wf(),
            task@.segment == blog@,
            task@.description == text_of(description),
            dir == (EntryView { path: blog_dir(blog@), content: None }),
            posts == (EntryView { path: posts_dir(blog@), content: None }),
            match task@.stage {
                CreateBlogStage::Directory => {
                    &&& store@ == before
                    &&& request@ == task@.first_request()
                },
                CreateBlogStage::Posts => {
                    &&& blog_creation(before, blog@) is Ok
                    &&& store@ == before.push(dir)
                    &&& request@ == (RequestView::CreateDir { path: posts_dir(blog@) })
                },
                CreateBlogStage::Description => {
                    &&& blog_creation(before, blog@) is Ok
                    &&& store@ == before.push(dir).push(posts)
                    &&& task@.description matches Some(text)
                    &&& request@ == (RequestView::WriteFile {
                        path: description_file(blog@),
                        text,
                    })
                },
            },
        decreases
                match task@.stage {
                    CreateBlogStage::Directory => 3int,
                    CreateBlogStage::Posts => 2int,
                    CreateBlogStage::Description => 1int,
                },
    {
        proof {
            lemma_blog_layout(blog@);
            if blog_creation(before, blog@) is Ok {
                lemma_nothing_below(before, blog_dir(blog@), posts_dir(blog@));
                lemma_nothing_below(before, blog_dir(blog@), description_file(blog@));
                lemma_push_entry(before, dir);
                lemma_push_entry(before.push(dir), posts);
                lemma_absent(before.push(dir).push(posts), description_file(blog@));
            }
        }
        let reply = store.perform(request);
        proof {
            use_type_invariant(&*store);
        }
        match task.resume(reply) {
            Step::Finish(result) => {
                return result;
            },
            Step::Ask(next, again) => {
                task = next;
                request = again;
            },
        }
    }
}

/// The blog with that segment as a storage with these entries holds it,
/// under the name given.
///
/// The blog exists when the directory of its posts does. Its description is
/// what the description file holds, and empty where there is none.
pub open spec fn blog_lookup(tree: TreeView, blog: Seq<char>, name: Seq<char>) -> Result<
    BlogView,
    Error,
> {
    let titles = names_of(children(tree, posts_dir(blog)));
    if is_dir(tree, posts_dir(blog)) {
        if is_file(tree, description_file(blog)) {
            Ok(
                BlogView {
                    name,
                    description: file_text(tree, description_file(blog)),
                    posts: titles,
                },
            )
        } else if is_dir(tree, description_file(blog)) {
            Err(Error { kind: ErrorKind::StorageFailure })
        } else {
            Ok(BlogView { name, description: Seq::empty(), posts: titles })
        }
    } else if is_file(tree, posts_dir(blog)) {
        Err(Error { kind: ErrorKind::StorageFailure })
    } else {
        Err(Error { kind: ErrorKind::NotFound })
    }
}

/// Looks up the blog of that name: its description and the titles of its
/// posts.
pub fn get_blog(store: &Storage, name: &str) -> (result: Result<Blog, Error>)
    ensures
        viewed(result) == blog_lookup(store@, encoded(name@), name@),
{
    let segment = encode(name);
    get_blog_at(store, segment.as_str(), name)
}

/// Looks up the blog with that segment, and hands it back under the name
/// given.
pub fn get_blog_at(store: &Storage, blog: &str, name: &str) -> (result: Result<Blog, Error>)
    ensures
        viewed(result) == blog_lookup(store@, blog@, name@),
{
    proof {
        use_type_invariant(store);
    }
    let (mut task, mut request) = GetBlog::at(blog.to_owned(), name.to_owned());
    loop
        invariant
            store.wf(),
            task@.segment == blog@,
            task@.name == name@,
            match task@.stage {
                GetBlogStage::Posts => request@ == task@.first_request(),
                GetBlogStage::Description => {
                    &&& is_dir(store@, posts_dir(blog@))
                    &&& task@.posts == names_of(children(store@, posts_dir(blog@)))
                    &&& request@ == (RequestView::ReadFile { path: description_file(blog@) })
                },
            },
        decreases
                match task@.stage {
                    GetBlogStage::Posts => 2int,
                    GetBlogStage::Description => 1int,
                },
    {
        let reply = store.answer(&request);
        match task.resume(reply) {
            Step::Finish(result) => {
                return result;
            },
            Step::Ask(next, again) => {
                task = next;
                request = again;
            },
        }
    }
}

/// The summaries with the blog of one more directory: a name that stands
/// for no blog name adds nothing, and a description that is no file and is
/// not missing fails the listing.
pub open spec fn with_summary(
    tree: TreeView,
    before: Result<Seq<BlogSummaryView>, Error>,
    segment: Seq<char>,
) -> Result<Seq<BlogSummaryView>, Error> {
    match (before, decoding(segment)) {
        (Err(error), _) => Err(error),
        (Ok(blogs), None) => Ok(blogs),
        (Ok(blogs), Some(name)) => {
            let file = description_file(segment);
            if is_file(tree, file) {
                Ok(
                    insert_by_name(
                        blogs,
                        BlogSummaryView { name, description: file_text(tree, file) },
                    ),
                )
            } else if is_dir(tree, file) {
                Err(Error { kind: ErrorKind::StorageFailure })
            } else {
                Ok(insert_by_name(blogs, BlogSummaryView { name, description: Seq::empty() }))
            }
        },
    }
}

/// The summaries of the blogs whose directories have these names, in the
/// order of the names of the blogs.
pub open spec fn summaries(tree: TreeView, segments: Seq<Seq<char>>) -> Result<
    Seq<BlogSummaryView>,
    Error,
>
    decreases segments.len(),
{
    if segments.len() == 0 {
        Ok(Seq::empty())
    } else {
        with_summary(tree, summaries(tree, segments.drop_last()), segments.last())
    }
}

/// The blogs that a storage with these entries holds.
pub open spec fn blog_listing(tree: TreeView) -> Result<Seq<BlogSummaryView>, Error> {
    if is_dir(tree, blogs_root()) {
        summaries(tree, children(tree, blogs_root()))
    } else {
        Err(Error { kind: ErrorKind::StorageFailure })
    }
}

/// The summaries of the first names with one more name.
pub proof fn lemma_summaries_step(tree: TreeView, segments: Seq<Seq<char>>, index: int)
    requires
        0 <= index < segments.len(),
    ensures
        summaries(tree, segments.take(index + 1)) == with_summary(
            tree,
            summaries(tree, segments.take(index)),
            segments[index],
        ),
{
    assert(segments.take(index + 1).drop_last() =~= segments.take(index));
    assert(segments.take(index + 1).last() == segments[index]);
}

/// Names that stand for no blog name add nothing to the summaries.
pub proof fn lemma_summaries_skip(tree: TreeView, segments: Seq<Seq<char>>, from: int, to: int)
    requires
        0 <= from <= to <= segments.len(),
        forall|k: int| from <= k < to ==> decoding(#[trigger] segments[k]) is None,
    ensures
        summaries(tree, segments.take(to)) == summaries(tree, segments.take(from)),
    decreases to - from,
{
    if from < to {
        lemma_summaries_skip(tree, segments, from, to - 1);
        lemma_summaries_step(tree, segments, to - 1);
    }
}

/// Up to the next name that stands for a blog name the summaries stay as they are.
pub proof fn lemma_summaries_advance(tree: TreeView, segments: Seq<Seq<char>>, from: int)
    requires
        0 <= from <= segments.len(),
    ensures
        from <= next_named(segments, from) <= segments.len(),
        summaries(tree, segments.take(next_named(segments, from))) == summaries(
            tree,
            segments.take(from),
        ),
        next_named(segments, from) < segments.len() ==> decoding(
            segments[next_named(segments, from)],
        ) is Some,
{
    lemma_next_named(segments, from);
    lemma_summaries_skip(tree, segments, from, next_named(segments, from));
}

/// The summaries stand in the order of their names.
pub proof fn lemma_summaries_sorted(tree: TreeView, segments: Seq<Seq<char>>)
    ensures
        summaries(tree, segments) matches Ok(blogs) ==> sorted_by_name(blogs),
    decreases segments.len(),
{
    if segments.len() > 0 {
        lemma_summaries_sorted(tree, segments.drop_last());
        match summaries(tree, segments.drop_last()) {
            Ok(before) => {
                let name = decoding(segments.last())->0;
                let text = file_text(tree, description_file(segments.last()));
                lemma_insert_keeps_order(before, BlogSummaryView { name, description: text });
                lemma_insert_keeps_order(
                    before,
                    BlogSummaryView { name, description: Seq::empty() },
                );
            },
            Err(_) => {},
        }
    }
}

/// A listing that has failed stays failed, whatever follows.
pub proof fn lemma_summaries_fail(tree: TreeView, segments: Seq<Seq<char>>, at: int)
    requires
        0 <= at <= segments.len(),
        summaries(tree, segments.take(at)) is Err,
    ensures
        summaries(tree, segments) == summaries(tree, segments.take(at)),
    decreases segments.len() - at,
{
    if at < segments.len() {
        lemma_summaries_step(tree, segments, at);
        lemma_summaries_fail(tree, segments, at + 1);
    } else {
        assert(segments.take(at) =~= segments);
    }
}

/// Lists the blogs with their descriptions, in the order of their names.
pub fn list_blogs(store: &Storage) -> (result: Result<BlogList, Error>)
    ensures
        viewed(result) == blog_listing(store@),
        result matches Ok(list) ==> sorted_by_name(list@),
{
    proof {
        use_type_invariant(store);
    }
    let (mut task, mut request) = ListBlogs::start();
    let ghost all = children(store@, blogs_root());
    loop
        invariant
            store.wf(),
            all == children(store@, blogs_root()),
            match task@ {
                ListBlogsView::Root => request@ == ListBlogsView::first_request(),
                ListBlogsView::Descriptions { entries, index, name, found } => {
                    &&& is_dir(store@, blogs_root())
                    &&& entries == all
                    &&& 0 <= index < entries.len()
                    &&& decoding(entries[index]) == Some(name)
                    &&& summaries(store@, entries.take(index)) == Ok::<
                        Seq<BlogSummaryView>,
                        Error,
                    >(found)
                    &&& request@ == (RequestView::ReadFile { path: description_file(entries[index]) })
                },
            },
        decreases
                match task@ {
                    ListBlogsView::Root => all.len() as int + 1,
                    ListBlogsView::Descriptions { entries, index, name, found } => entries.len()
                        - index,
                },
    {
        proof {
            lemma_summaries_sorted(store@, all);
            assert(all.take(0) =~= Seq::<Seq<char>>::empty());
            assert(all.take(all.len() as int) =~= all);
            match task@ {
                ListBlogsView::Root => {
                    lemma_summaries_advance(store@, all, 0);
                },
                ListBlogsView::Descriptions { entries, index, name, found } => {
                    lemma_summaries_step(store@, all, index);
                    if summaries(store@, all.take(index + 1)) is Err {
                        lemma_summaries_fail(store@, all, index + 1);
                    } else {
                        lemma_summaries_advance(store@, all, index + 1);
                    }
                },
            }
        }
        let reply = store.answer(&request);
        match task.resume(reply) {
            Step::Finish(result) => {
                return result;
            },
            Step::Ask(next, again) => {
                task = next;
                request = again;
            },
        }
    }
}

/// The names of the blogs, in their order.
pub fn blog_names(store: &Storage) -> (result: Result<Vec<String>, Error>)
    ensures
        match (result, blog_listing(store@)) {
            (Ok(names), Ok(blogs)) => {
                &&& names@.len() == blogs.len()
                &&& forall|i: int| 0 <= i < blogs.len() ==> (#[trigger] names@[i])@ == blogs[i].name
            },
            (Err(error), Err(expected)) => error == expected,
            _ => false,
        },
{
    match list_blogs(store) {
        Ok(list) => Ok(list.names()),
        Err(error) => Err(error),
    }
}

} // verus!
