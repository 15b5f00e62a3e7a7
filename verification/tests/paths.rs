use blog_store::error::ErrorKind;
use blog_store::layout::{
    blog_path, blogs_path, content_path, description_path, make_posts_path, name_from_path,
    path_for_blog, path_for_post, post_path, post_suffix, posts_path,
};
use blog_store::path::StoragePath;

#[test]
fn the_root_has_no_segments() {
    assert_eq!(StoragePath::root().segments, Vec::<String>::new());
    assert_eq!(StoragePath::root().len(), 0);
    assert!(StoragePath::root().parent().is_none());
    assert_eq!(StoragePath::root().file_name(), None);
    assert_eq!(StoragePath::root().join("a").parent().unwrap().len(), 0);
}

#[test]
fn join_adds_one_segment() {
    let path = StoragePath::root().join("a").join("b");
    assert_eq!(path.segments, vec!["a", "b"]);
    assert_eq!(path.len(), 2);
    assert_eq!(path.file_name(), Some("b"));
    assert_eq!(path.parent().unwrap().segments, vec!["a"]);
}

#[test]
fn append_adds_all_segments() {
    let path = StoragePath::root().join("a").append(&StoragePath::root().join("b").join("c"));
    assert_eq!(path.segments, vec!["a", "b", "c"]);
    assert_eq!(path.append(&StoragePath::root()).segments, vec!["a", "b", "c"]);
}

#[test]
fn duplicate_is_the_same_path() {
    let path = StoragePath::root().join("a").join("b");
    assert!(path.duplicate().same(&path));
    assert_eq!(path.duplicate().segments, path.segments);
}

#[test]
fn same_compares_segment_by_segment() {
    let path = StoragePath::root().join("a").join("b");
    assert!(path.same(&StoragePath::root().join("a").join("b")));
    assert!(!path.same(&StoragePath::root().join("a")));
    assert!(!path.same(&StoragePath::root().join("a").join("c")));
    assert!(!path.same(&StoragePath::root().join("ab")));
    assert!(StoragePath::root().same(&StoragePath::root()));
}

#[test]
fn is_child_of_asks_for_exactly_one_more_segment() {
    let dir = StoragePath::root().join("a");
    assert!(dir.join("b").is_child_of(&dir));
    assert!(!dir.is_child_of(&dir));
    assert!(!dir.join("b").join("c").is_child_of(&dir));
    assert!(!StoragePath::root().join("x").join("b").is_child_of(&dir));
    assert!(dir.is_child_of(&StoragePath::root()));
    assert!(!StoragePath::root().is_child_of(&StoragePath::root()));
}

#[test]
fn a_blog_lies_below_the_blogs_directory() {
    assert_eq!(blogs_path().segments, vec!["blogs"]);
    assert_eq!(path_for_blog("My Blog").segments, vec!["blogs", "TXkgQmxvZw"]);
    assert_eq!(make_posts_path("My Blog").segments, vec!["blogs", "TXkgQmxvZw", "posts"]);
    assert_eq!(blog_path("TXkgQmxvZw").segments, path_for_blog("My Blog").segments);
    assert_eq!(posts_path("TXkgQmxvZw").segments, make_posts_path("My Blog").segments);
    assert_eq!(description_path("TXkgQmxvZw").segments, vec!["blogs", "TXkgQmxvZw", "description"]);
}

#[test]
fn a_post_lies_below_the_posts_directory_of_its_blog() {
    assert_eq!(post_suffix("Hello, World!").segments, vec!["posts", "SGVsbG8sIFdvcmxkIQ"]);
    assert_eq!(
        path_for_post("My Blog", "Hello, World!").segments,
        vec!["blogs", "TXkgQmxvZw", "posts", "SGVsbG8sIFdvcmxkIQ"]
    );
    assert_eq!(
        post_path("TXkgQmxvZw", "SGVsbG8sIFdvcmxkIQ").segments,
        path_for_post("My Blog", "Hello, World!").segments
    );
    assert_eq!(
        content_path("TXkgQmxvZw", "SGVsbG8sIFdvcmxkIQ").segments,
        vec!["blogs", "TXkgQmxvZw", "posts", "SGVsbG8sIFdvcmxkIQ", "content"]
    );
}

#[test]
fn a_name_with_separators_stays_one_segment() {
    assert_eq!(path_for_blog("../../etc/passwd").len(), 2);
    assert_eq!(path_for_post("a/b", "c/d").len(), 4);
}

#[test]
fn name_from_path_decodes_the_last_segment() {
    assert_eq!(name_from_path(&path_for_blog("My Blog")).unwrap(), "My Blog");
    assert_eq!(name_from_path(&path_for_post("My Blog", "T")).unwrap(), "T");
}

#[test]
fn name_from_path_refuses_what_is_no_name() {
    assert_eq!(name_from_path(&StoragePath::root()).unwrap_err().kind, ErrorKind::InvalidEncoding);
    assert_eq!(name_from_path(&blogs_path().join("!!")).unwrap_err().kind, ErrorKind::InvalidEncoding);
    assert_eq!(name_from_path(&blogs_path().join("_w")).unwrap_err().kind, ErrorKind::InvalidUtf8);
    assert_eq!(
        name_from_path(&make_posts_path("My Blog")).unwrap_err().kind,
        ErrorKind::InvalidEncoding
    );
}

#[test]
fn the_empty_segment_names_the_directory_itself() {
    let dir = StoragePath::root().join("a");
    assert_eq!(dir.join("").segments, vec!["a"]);
    assert_eq!(StoragePath::root().join("").len(), 0);
    assert_eq!(dir.join("").join("b").join("").segments, vec!["a", "b"]);
    assert_eq!(post_suffix("").segments, vec!["posts"]);
    assert_eq!(description_path("").segments, vec!["blogs", "description"]);
    assert_eq!(blog_path("").segments, vec!["blogs"]);
    assert_eq!(post_path("b", "").segments, vec!["blogs", "b", "posts"]);
    assert_eq!(content_path("", "").segments, vec!["blogs", "posts", "content"]);
}
