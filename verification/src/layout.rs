//! Where blogs and posts are kept below the storage root.
//!
//! ```text
//! blogs/<blog segment>/description
//! blogs/<blog segment>/posts/<post segment>/content
//! ```
//!
//! The segment of a blog or a post is its encoded name or title.

use vstd::prelude::*;
use crate::encoder::{decode, decoding, encode, encoded, is_encoded_name, is_url_safe_text};
use crate::error::{Error, ErrorKind};
use crate::path::{below, PathView, StoragePath};

verus! {

/// The directory, directly below the root, that holds one directory per blog.
pub open spec fn blogs_root() -> PathView {
    seq!["blogs"@]
}

/// The directory of the blog with that segment.
pub open spec fn blog_dir(blog: Seq<char>) -> PathView {
    below(blogs_root(), blog)
}

/// The file that holds the description of the blog with that segment.
pub open spec fn description_file(blog: Seq<char>) -> PathView {
    blog_dir(blog).push("description"@)
}

/// The directory that holds one directory per post of the blog with that segment.
pub open spec fn posts_dir(blog: Seq<char>) -> PathView {
    blog_dir(blog).push("posts"@)
}

/// Where the post with that segment lies below the directory of its blog.
pub open spec fn post_suffix_of(post: Seq<char>) -> PathView {
    below(seq!["posts"@], post)
}

/// The directory of the post with that segment, in the blog with that segment.
pub open spec fn post_dir(blog: Seq<char>, post: Seq<char>) -> PathView {
    below(posts_dir(blog), post)
}

/// The file that holds the body of the post with that segment.
pub open spec fn content_file(blog: Seq<char>, post: Seq<char>) -> PathView {
    post_dir(blog, post).push("content"@)
}

/// The fixed names of the layout are not empty, and two that lie in one
/// directory differ.
pub proof fn lemma_fixed_names()
    ensures
        "blogs"@.len() > 0,
        "posts"@.len() > 0,
        "description"@.len() > 0,
        "content"@.len() > 0,
        "posts"@ != "description"@,
{
    reveal_strlit("blogs");
    reveal_strlit("posts");
    reveal_strlit("description");
    reveal_strlit("content");
}

/// How the paths of one blog lie to each other.
pub proof fn lemma_blog_layout(blog: Seq<char>)
    ensures
        blogs_root().len() == 1,
        blog_dir(blog).len() > 0,
        blog.len() > 0 ==> blog_dir(blog).drop_last() == blogs_root() && blog_dir(blog).last()
            == blog,
        blog.len() == 0 ==> blog_dir(blog) == blogs_root(),
        posts_dir(blog).drop_last() == blog_dir(blog),
        description_file(blog).drop_last() == blog_dir(blog),
        posts_dir(blog) != description_file(blog),
        posts_dir(blog) != blog_dir(blog),
        description_file(blog) != blog_dir(blog),
        blog_dir(blog).is_prefix_of(posts_dir(blog)),
        blog_dir(blog).is_prefix_of(description_file(blog)),
{
    lemma_fixed_names();
    assert(blogs_root().push(blog).drop_last() =~= blogs_root());
    assert(posts_dir(blog).drop_last() =~= blog_dir(blog));
    assert(description_file(blog).drop_last() =~= blog_dir(blog));
    assert(posts_dir(blog).last() != description_file(blog).last());
}

/// How the paths of one post lie to those of its blog.
pub proof fn lemma_post_layout(blog: Seq<char>, post: Seq<char>)
    ensures
        post.len() > 0 ==> post_dir(blog, post).drop_last() == posts_dir(blog) && post_dir(
            blog,
            post,
        ).last() == post,
        post.len() == 0 ==> post_dir(blog, post) == posts_dir(blog),
        post_dir(blog, post).len() > 0,
        content_file(blog, post).drop_last() == post_dir(blog, post),
        content_file(blog, post) != post_dir(blog, post),
        blog_dir(blog).is_prefix_of(post_dir(blog, post)),
        posts_dir(blog).is_prefix_of(post_dir(blog, post)),
        post_dir(blog, post).is_prefix_of(content_file(blog, post)),
        blog_dir(blog).is_prefix_of(content_file(blog, post)),
        post_dir(blog, post) == blog_dir(blog) + post_suffix_of(post),
{
    lemma_fixed_names();
    lemma_blog_layout(blog);
    assert(posts_dir(blog).push(post).drop_last() =~= posts_dir(blog));
    assert(content_file(blog, post).drop_last() =~= post_dir(blog, post));
    assert(post_dir(blog, post) =~= blog_dir(blog) + post_suffix_of(post));
    assert(posts_dir(blog).is_prefix_of(post_dir(blog, post))) by {
        assert(post_dir(blog, post).subrange(0, posts_dir(blog).len() as int) =~= posts_dir(blog));
    }
    assert(blog_dir(blog).is_prefix_of(post_dir(blog, post))) by {
        assert(post_dir(blog, post).subrange(0, blog_dir(blog).len() as int) =~= blog_dir(blog));
    }
    assert(post_dir(blog, post).is_prefix_of(content_file(blog, post))) by {
        assert(content_file(blog, post).subrange(0, post_dir(blog, post).len() as int)
            =~= post_dir(blog, post));
    }
    assert(blog_dir(blog).is_prefix_of(content_file(blog, post))) by {
        assert(content_file(blog, post).subrange(0, blog_dir(blog).len() as int) =~= blog_dir(
            blog,
        ));
    }
}

/// The directory of the blogs.
pub fn blogs_path() -> (path: StoragePath)
    ensures
        path@ == blogs_root(),
{
    proof {
        lemma_fixed_names();
    }
    let path = StoragePath::root().join("blogs");
    assert(path@ =~= blogs_root());
    path
}

/// The directory of the blog with that segment.
pub fn blog_path(blog: &str) -> (path: StoragePath)
    ensures
        path@ == blog_dir(blog@),
{
    blogs_path().join(blog)
}

/// The file that holds the description of the blog with that segment.
pub fn description_path(blog: &str) -> (path: StoragePath)
    ensures
        path@ == description_file(blog@),
{
    proof {
        lemma_fixed_names();
    }
    blog_path(blog).join("description")
}

/// The directory that holds the posts of the blog with that segment.
pub fn posts_path(blog: &str) -> (path: StoragePath)
    ensures
        path@ == posts_dir(blog@),
{
    proof {
        lemma_fixed_names();
    }
    blog_path(blog).join("posts")
}

/// The directory of the post with that segment, in the blog with that segment.
pub fn post_path(blog: &str, post: &str) -> (path: StoragePath)
    ensures
        path@ == post_dir(blog@, post@),
{
    posts_path(blog).join(post)
}

/// The file that holds the body of the post with that segment.
pub fn content_path(blog: &str, post: &str) -> (path: StoragePath)
    ensures
        path@ == content_file(blog@, post@),
{
    proof {
        lemma_fixed_names();
    }
    post_path(blog, post).join("content")
}

/// The directory of the blog of that name.
pub fn path_for_blog(name: &str) -> (path: StoragePath)
    ensures
        path@ == blog_dir(encoded(name@)),
{
    let segment = encode(name);
    blog_path(segment.as_str())
}

/// Where the post of that title lies below the directory of its blog.
pub fn post_suffix(title: &str) -> (path: StoragePath)
    ensures
        path@ == post_suffix_of(encoded(title@)),
{
    proof {
        lemma_fixed_names();
    }
    let segment = encode(title);
    let posts = StoragePath::root().join("posts");
    assert(posts@ =~= seq!["posts"@]);
    posts.join(segment.as_str())
}

/// The directory that holds the posts of the blog of that name.
pub fn make_posts_path(blog_name: &str) -> (path: StoragePath)
    ensures
        path@ == posts_dir(encoded(blog_name@)),
{
    let segment = encode(blog_name);
    posts_path(segment.as_str())
}

/// The directory of the post of that title, in the blog of that name.
pub fn path_for_post(blog_name: &str, title: &str) -> (path: StoragePath)
    ensures
        path@ == post_dir(encoded(blog_name@), encoded(title@)),
{
    proof {
        lemma_post_layout(encoded(blog_name@), encoded(title@));
    }
    path_for_blog(blog_name).append(&post_suffix(title))
}

/// The name that the last segment of a path stands for.
///
/// The root has no last segment and so stands for no name.
pub fn name_from_path(path: &StoragePath) -> (result: Result<String, Error>)
    ensures
        path@.len() == 0 ==> result == Err::<String, Error>(
            Error { kind: ErrorKind::InvalidEncoding },
        ),
        path@.len() > 0 ==> match result {
            Ok(name) => decoding(path@.last()) == Some(name@),
            Err(e) => {
                &&& !is_encoded_name(path@.last())
                &&& e.kind == ErrorKind::InvalidEncoding <==> !is_url_safe_text(path@.last())
                &&& e.kind == ErrorKind::InvalidUtf8 <==> is_url_safe_text(path@.last())
            },
        },
{
    match path.file_name() {
        Some(segment) => decode(segment),
        None => Err(Error::new(ErrorKind::InvalidEncoding)),
    }
}

} // verus!
