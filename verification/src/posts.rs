//! The post store on a storage in memory.

use vstd::prelude::*;
use crate::encoder::{encode, encoded};
use crate::error::{Error, ErrorKind};
use crate::layout::{content_file, lemma_post_layout, post_dir, posts_dir};
use crate::listing::names_of;
use crate::memory::Storage;
use crate::model::{viewed, BlogPost, BlogPostView, PostList};
use crate::post_tasks::{CreatePost, CreatePostStage, GetPost, ListPosts};
use crate::storage::RequestView;
use crate::task::Step;
use crate::tree::{
    children, file_text, has_entry, is_dir, is_file, lemma_absent, lemma_nothing_below,
    lemma_push_entry, well_formed, EntryView, TreeView,
};

verus! {

/// Whether the post with that segment can be created in the blog with that
/// segment, in a storage with these entries, and if not, why not: the title
/// is taken if something has the path of the post, and the blog is missing
/// if the directory that the post should lie in is.
pub open spec fn post_creation(tree: TreeView, blog: Seq<char>, post: Seq<char>) -> Result<
    (),
    Error,
> {
    if has_entry(tree, post_dir(blog, post)) {
        Err(Error { kind: ErrorKind::TitleTaken })
    } else if is_dir(tree, post_dir(blog, post).drop_last()) {
        Ok(())
    } else if has_entry(tree, post_dir(blog, post).drop_last()) {
        Err(Error { kind: ErrorKind::StorageFailure })
    } else {
        Err(Error { kind: ErrorKind::BlogNotFound })
    }
}

/// The entries of a storage with one more post: its directory and the file
/// with its body.
pub open spec fn tree_with_post(
    tree: TreeView,
    blog: Seq<char>,
    post: Seq<char>,
    body: Seq<char>,
) -> TreeView {
    tree.push(EntryView { path: post_dir(blog, post), content: None }).push(
        EntryView { path: content_file(blog, post), content: Some(body) },
    )
}

/// The entries of a storage after the attempt to create a post.
pub open spec fn after_post_creation(
    tree: TreeView,
    blog: Seq<char>,
    post: Seq<char>,
    body: Seq<char>,
) -> TreeView {
    if post_creation(tree, blog, post) is Ok {
        tree_with_post(tree, blog, post, body)
    } else {
        tree
    }
}

/// Creates the post of that title in the blog of that name.
///
/// Fails with `TitleTaken` if something has the path of the post already,
/// and with `BlogNotFound` if the blog has no directory of posts; the storage
/// is then as it was.
pub fn create_post(store: &mut Storage, blog: &str, title: &str, body: &str) -> (result: Result<
    (),
    Error,
>)
    ensures
        result == post_creation(old(store)@, encoded(blog@), encoded(title@)),
        final(store)@ == after_post_creation(old(store)@, encoded(blog@), encoded(title@), body@),
{
    let blog = encode(blog);
    let post = encode(title);
    create_post_at(store, blog.as_str(), post.as_str(), body)
}

/// Creates the post with that segment in the blog with that segment.
///
/// The empty segment is always taken in a blog that exists: its path is
/// that of the directory of the posts.
pub fn create_post_at(store: &mut Storage, blog: &str, post: &str, body: &str) -> (result: Result<
    (),
    Error,
>)
    ensures
        result == post_creation(old(store)@, blog@, post@),
        final(store)@ == after_post_creation(old(store)@, blog@, post@, body@),
{
    let ghost before = store@;
    let ghost dir = EntryView { path: post_dir(blog@, post@), content: None };
    proof {
        use_type_invariant(&*store);
    }
    let (mut task, mut request) = CreatePost::at(blog.to_owned(), post.to_owned(), body);
    loop
        invariant
            before == old(store)@,
            well_formed(before),
            store.wf(),
            task@.blog == blog@,
            task@.post == post@,
            task@.body == body@,
            dir == (EntryView { path: post_dir(blog@, post@), content: None }),
            match task@.stage {
                CreatePostStage::Directory => {
                    &&& store@ == before
                    &&& request@ == task@.first_request()
                },
                CreatePostStage::Content => {
                    &&& post_creation(before, blog@, post@) is Ok
                    &&& store@ == before.push(dir)
                    &&& request@ == (RequestView::WriteFile {
                        path: content_file(blog@, post@),
                        text: body@,
                    })
                },
            },
        decreases
                match task@.stage {
                    CreatePostStage::Directory => 2int,
                    CreatePostStage::Content => 1int,
                },
    {
        proof {
            lemma_post_layout(blog@, post@);
            if post_creation(before, blog@, post@) is Ok {
                lemma_nothing_below(before, post_dir(blog@, post@), content_file(blog@, post@));
                lemma_push_entry(before, dir);
                lemma_absent(before.push(dir), content_file(blog@, post@));
            }
        }
        let reply = store.perform(request);
        proof {
            use_type_invariant(&*store);
        }
        match task.resume(reply) {
            Step::Finish(result) => {
                return result;
            },
            Step::Ask(next, again) => {
                task = next;
                request = again;
            },
        }
    }
}

/// The post with that segment as a storage with these entries holds it,
/// under the title given.
pub open spec fn post_lookup(
    tree: TreeView,
    blog: Seq<char>,
    post: Seq<char>,
    title: Seq<char>,
) -> Result<BlogPostView, Error> {
    if is_file(tree, content_file(blog, post)) {
        Ok(BlogPostView { title, content: file_text(tree, content_file(blog, post)) })
    } else if is_dir(tree, content_file(blog, post)) {
        Err(Error { kind: ErrorKind::StorageFailure })
    } else {
        Err(Error { kind: ErrorKind::NotFound })
    }
}

/// Reads the post of that title in the blog of that name.
pub fn get_post(store: &Storage, blog: &str, title: &str) -> (result: Result<BlogPost, Error>)
    ensures
        viewed(result) == post_lookup(store@, encoded(blog@), encoded(title@), title@),
{
    let blog = encode(blog);
    let post = encode(title);
    get_post_at(store, blog.as_str(), post.as_str(), title)
}

/// Reads the post with that segment in the blog with that segment, and
/// hands it back under the title given.
pub fn get_post_at(store: &Storage, blog: &str, post: &str, title: &str) -> (result: Result<
    BlogPost,
    Error,
>)
    ensures
        viewed(result) == post_lookup(store@, blog@, post@, title@),
{
    let (task, request) = GetPost::at(blog, post, title.to_owned());
    task.finish(store.answer(&request))
}

/// The titles of the posts of the blog with that segment as a storage with
/// these entries holds them.
pub open spec fn post_listing(tree: TreeView, blog: Seq<char>) -> Result<Seq<Seq<char>>, Error> {
    if is_dir(tree, posts_dir(blog)) {
        Ok(names_of(children(tree, posts_dir(blog))))
    } else if is_file(tree, posts_dir(blog)) {
        Err(Error { kind: ErrorKind::StorageFailure })
    } else {
        Err(Error { kind: ErrorKind::BlogNotFound })
    }
}

/// Lists the titles of the posts of the blog of that name, in the order in
/// which the storage names their directories. The bodies are not read.
pub fn list_posts(store: &Storage, blog: &str) -> (result: Result<PostList, Error>)
    ensures
        viewed(result) == post_listing(store@, encoded(blog@)),
{
    let blog = encode(blog);
    list_posts_at(store, blog.as_str())
}

/// Lists the titles of the posts of the blog with that segment.
pub fn list_posts_at(store: &Storage, blog: &str) -> (result: Result<PostList, Error>)
    ensures
        viewed(result) == post_listing(store@, blog@),
{
    let (task, request) = ListPosts::at(blog);
    task.finish(store.answer(&request))
}

} // verus!
