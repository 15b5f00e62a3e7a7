//! What holds of the stores from one call to the next.
//!
//! The laws speak of blogs and posts by their segments. They hold of every
//! name and title, whose segments are their encodings.

use vstd::prelude::*;
use crate::blogs::{after_blog_creation, blog_creation, blog_lookup, tree_with_blog};
use crate::error::{Error, ErrorKind};
use crate::layout::{
    blog_dir, content_file, description_file, lemma_blog_layout, lemma_post_layout, post_dir,
    posts_dir,
};
use crate::model::{BlogPostView, BlogView};
use crate::encoder::decoding;
use crate::posts::{
    after_post_creation, post_creation, post_listing, post_lookup, tree_with_post,
};
use crate::tree::{
    children, file_text, has_entry, is_dir, is_file, lemma_absent, lemma_entry_decides,
    lemma_no_children, lemma_nothing_below, lemma_push_children, lemma_push_entry, well_formed,
    EntryView, TreeView,
};

verus! {

/// What a storage holds of a blog that was just created.
proof fn lemma_blog_parts(tree: TreeView, blog: Seq<char>, description: Option<Seq<char>>)
    requires
        well_formed(tree),
        blog_creation(tree, blog) is Ok,
    ensures
        well_formed(tree_with_blog(tree, blog, description)),
        has_entry(tree_with_blog(tree, blog, description), blog_dir(blog)),
        is_dir(tree_with_blog(tree, blog, description), posts_dir(blog)),
        children(tree_with_blog(tree, blog, description), posts_dir(blog)) == Seq::<
            Seq<char>,
        >::empty(),
        !is_dir(tree_with_blog(tree, blog, description), description_file(blog)),
        match description {
            Some(text) => is_file(tree_with_blog(tree, blog, description), description_file(blog))
                && file_text(tree_with_blog(tree, blog, description), description_file(blog))
                == text,
            None => !is_file(tree_with_blog(tree, blog, description), description_file(blog)),
        },
{
    let dir = EntryView { path: blog_dir(blog), content: None };
    let posts = EntryView { path: posts_dir(blog), content: None };
    let one = tree.push(dir);
    let two = one.push(posts);
    lemma_blog_layout(blog);
    lemma_nothing_below(tree, blog_dir(blog), posts_dir(blog));
    lemma_nothing_below(tree, blog_dir(blog), description_file(blog));
    lemma_no_children(tree, posts_dir(blog));
    lemma_push_entry(tree, dir);
    lemma_push_entry(one, posts);
    lemma_push_children(tree, dir, posts_dir(blog));
    lemma_push_children(one, posts, posts_dir(blog));
    lemma_entry_decides(two, two.len() - 1);
    lemma_absent(two, description_file(blog));
    match description {
        Some(text) => {
            let file = EntryView { path: description_file(blog), content: Some(text) };
            let three = two.push(file);
            lemma_push_entry(two, file);
            lemma_push_children(two, file, posts_dir(blog));
            lemma_entry_decides(three, three.len() - 1);
        },
        None => {},
    }
}

/// Creating a blog leaves the storage well formed.
pub proof fn lemma_blog_creation_keeps_well_formed(
    tree: TreeView,
    blog: Seq<char>,
    description: Option<Seq<char>>,
)
    requires
        well_formed(tree),
    ensures
        well_formed(after_blog_creation(tree, blog, description)),
{
    if blog_creation(tree, blog) is Ok {
        lemma_blog_parts(tree, blog, description);
    }
}

/// A blog that was just created has no posts, and the description it was
/// given: the empty one if it was given none.
pub proof fn lemma_new_blog_is_empty(
    tree: TreeView,
    blog: Seq<char>,
    name: Seq<char>,
    description: Option<Seq<char>>,
)
    requires
        well_formed(tree),
        blog_creation(tree, blog) is Ok,
    ensures
        blog_lookup(after_blog_creation(tree, blog, description), blog, name) == Ok::<
            BlogView,
            Error,
        >(
            BlogView {
                name,
                description: match description {
                    Some(text) => text,
                    None => Seq::empty(),
                },
                posts: Seq::empty(),
            },
        ),
{
    lemma_blog_parts(tree, blog, description);
}

/// A name can be given to one blog only: creating a blog of the same name
/// again fails with `NameTaken` and leaves the storage, and with it the
/// first blog, as it was.
pub proof fn lemma_second_blog_is_refused(
    tree: TreeView,
    blog: Seq<char>,
    first: Option<Seq<char>>,
    second: Option<Seq<char>>,
)
    requires
        well_formed(tree),
        blog_creation(tree, blog) is Ok,
    ensures
        blog_creation(after_blog_creation(tree, blog, first), blog) == Err::<(), Error>(
            Error { kind: ErrorKind::NameTaken },
        ),
        after_blog_creation(after_blog_creation(tree, blog, first), blog, second)
            == after_blog_creation(tree, blog, first),
{
    lemma_blog_parts(tree, blog, first);
}

/// What a storage holds of a post that was just created.
proof fn lemma_post_parts(tree: TreeView, blog: Seq<char>, post: Seq<char>, body: Seq<char>)
    requires
        well_formed(tree),
        post_creation(tree, blog, post) is Ok,
    ensures
        well_formed(tree_with_post(tree, blog, post, body)),
        has_entry(tree_with_post(tree, blog, post, body), post_dir(blog, post)),
        is_file(tree_with_post(tree, blog, post, body), content_file(blog, post)),
        file_text(tree_with_post(tree, blog, post, body), content_file(blog, post)) == body,
{
    let dir = EntryView { path: post_dir(blog, post), content: None };
    let file = EntryView { path: content_file(blog, post), content: Some(body) };
    let one = tree.push(dir);
    let two = one.push(file);
    lemma_post_layout(blog, post);
    lemma_nothing_below(tree, post_dir(blog, post), content_file(blog, post));
    lemma_push_entry(tree, dir);
    lemma_push_entry(one, file);
    lemma_entry_decides(two, two.len() - 1);
}

/// Creating a post leaves the storage well formed.
pub proof fn lemma_post_creation_keeps_well_formed(
    tree: TreeView,
    blog: Seq<char>,
    post: Seq<char>,
    body: Seq<char>,
)
    requires
        well_formed(tree),
    ensures
        well_formed(after_post_creation(tree, blog, post, body)),
{
    if post_creation(tree, blog, post) is Ok {
        lemma_post_parts(tree, blog, post, body);
    }
}

/// A post that was just created reads back with the body it was given,
/// character for character.
pub proof fn lemma_new_post_reads_back(
    tree: TreeView,
    blog: Seq<char>,
    post: Seq<char>,
    title: Seq<char>,
    body: Seq<char>,
)
    requires
        well_formed(tree),
        post_creation(tree, blog, post) is Ok,
    ensures
        post_lookup(after_post_creation(tree, blog, post, body), blog, post, title) == Ok::<
            BlogPostView,
            Error,
        >(BlogPostView { title, content: body }),
{
    lemma_post_parts(tree, blog, post, body);
}

/// A post that was just created is listed behind the posts that the blog
/// had before, under the title that its segment stands for.
pub proof fn lemma_new_post_is_listed(
    tree: TreeView,
    blog: Seq<char>,
    post: Seq<char>,
    body: Seq<char>,
)
    requires
        well_formed(tree),
        post_creation(tree, blog, post) is Ok,
        post.len() > 0,
    ensures
        post_listing(tree, blog) is Ok,
        post_listing(after_post_creation(tree, blog, post, body), blog) == Ok::<
            Seq<Seq<char>>,
            Error,
        >(
            match decoding(post) {
                Some(title) => post_listing(tree, blog)->Ok_0.push(title),
                None => post_listing(tree, blog)->Ok_0,
            },
        ),
{
    let dir = EntryView { path: post_dir(blog, post), content: None };
    let file = EntryView { path: content_file(blog, post), content: Some(body) };
    lemma_post_layout(blog, post);
    lemma_nothing_below(tree, post_dir(blog, post), content_file(blog, post));
    lemma_push_entry(tree, dir);
    lemma_push_entry(tree.push(dir), file);
    lemma_push_children(tree, dir, posts_dir(blog));
    lemma_push_children(tree.push(dir), file, posts_dir(blog));
    assert(children(tree, posts_dir(blog)).push(post).drop_last() =~= children(
        tree,
        posts_dir(blog),
    ));
}

/// A title can be given to one post of a blog only: creating a post of the
/// same title again fails with `TitleTaken` and leaves the storage, and
/// with it the first post, as it was.
pub proof fn lemma_second_post_is_refused(
    tree: TreeView,
    blog: Seq<char>,
    post: Seq<char>,
    first: Seq<char>,
    second: Seq<char>,
)
    requires
        well_formed(tree),
        post_creation(tree, blog, post) is Ok,
    ensures
        post_creation(after_post_creation(tree, blog, post, first), blog, post) == Err::<
            (),
            Error,
        >(Error { kind: ErrorKind::TitleTaken }),
        after_post_creation(after_post_creation(tree, blog, post, first), blog, post, second)
            == after_post_creation(tree, blog, post, first),
{
    lemma_post_parts(tree, blog, post, first);
}

/// A post cannot be created in a blog that does not exist: the attempt
/// fails with `BlogNotFound` and leaves the storage as it was.
pub proof fn lemma_post_needs_blog(
    tree: TreeView,
    blog: Seq<char>,
    post: Seq<char>,
    body: Seq<char>,
)
    requires
        well_formed(tree),
        !has_entry(tree, blog_dir(blog)),
    ensures
        post_creation(tree, blog, post) == Err::<(), Error>(
            Error { kind: ErrorKind::BlogNotFound },
        ),
        after_post_creation(tree, blog, post, body) == tree,
{
    lemma_blog_layout(blog);
    lemma_post_layout(blog, post);
    lemma_nothing_below(tree, blog_dir(blog), posts_dir(blog));
    lemma_nothing_below(tree, blog_dir(blog), post_dir(blog, post));
    lemma_absent(tree, posts_dir(blog));
}

} // verus!
