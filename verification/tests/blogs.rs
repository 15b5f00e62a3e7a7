use blog_store::blogs::{
    blog_names, create_blog, create_blog_at, get_blog, get_blog_at, list_blogs, prepare,
};
use blog_store::encoder::encode;
use blog_store::error::ErrorKind;
use blog_store::layout::{blogs_path, description_path, make_posts_path, path_for_blog};
use blog_store::memory::Storage;
use blog_store::posts::create_post;
use blog_store::storage::{Reply, Request};

#[test]
fn a_new_blog_has_no_posts_and_no_description() {
    let mut store = Storage::new();
    assert_eq!(create_blog(&mut store, "N", None), Ok(()));
    let blog = get_blog(&store, "N").unwrap();
    assert_eq!(blog.name, "N");
    assert_eq!(blog.description, "");
    assert!(blog.posts.items.is_empty());
}

#[test]
fn a_new_blog_has_the_description_it_was_given() {
    let mut store = Storage::new();
    assert_eq!(create_blog(&mut store, "N", Some("about\nN \u{e9}")), Ok(()));
    let blog = get_blog(&store, "N").unwrap();
    assert_eq!(blog.description, "about\nN \u{e9}");
    assert!(blog.posts.items.is_empty());
}

#[test]
fn a_name_is_taken_by_the_first_blog() {
    let mut store = Storage::new();
    assert_eq!(create_blog(&mut store, "N", Some("first")), Ok(()));
    assert_eq!(create_post(&mut store, "N", "T", "B"), Ok(()));
    assert_eq!(create_blog(&mut store, "N", Some("second")).unwrap_err().kind, ErrorKind::NameTaken);
    assert_eq!(create_blog(&mut store, "N", None).unwrap_err().kind, ErrorKind::NameTaken);
    let blog = get_blog(&store, "N").unwrap();
    assert_eq!(blog.description, "first");
    assert_eq!(blog.posts.items.len(), 1);
    assert_eq!(blog.posts.items[0].title, "T");
    assert_eq!(blog_names(&store).unwrap(), vec!["N"]);
}

#[test]
fn a_blog_that_was_never_created_is_not_found() {
    let mut store = Storage::new();
    assert_eq!(get_blog(&store, "N").unwrap_err().kind, ErrorKind::NotFound);
    assert_eq!(create_blog(&mut store, "M", None), Ok(()));
    assert_eq!(get_blog(&store, "N").unwrap_err().kind, ErrorKind::NotFound);
}

#[test]
fn a_blog_names_its_posts_oldest_first() {
    let mut store = Storage::new();
    create_blog(&mut store, "N", None).unwrap();
    create_post(&mut store, "N", "second thoughts", "b").unwrap();
    create_post(&mut store, "N", "a first post", "a").unwrap();
    let blog = get_blog(&store, "N").unwrap();
    let titles: Vec<&str> = blog.posts.items.iter().map(|post| post.title.as_str()).collect();
    assert_eq!(titles, vec!["second thoughts", "a first post"]);
}

#[test]
fn the_listing_holds_exactly_the_blogs_created() {
    let mut store = Storage::new();
    create_blog(&mut store, "a", None).unwrap();
    create_blog(&mut store, "b", None).unwrap();
    let mut names = blog_names(&store).unwrap();
    names.sort();
    assert_eq!(names, vec!["a", "b"]);
    let mut listed: Vec<String> =
        list_blogs(&store).unwrap().items.into_iter().map(|blog| blog.name).collect();
    listed.sort();
    assert_eq!(listed, vec!["a", "b"]);
}

#[test]
fn the_listing_of_a_new_storage_is_empty() {
    let store = Storage::new();
    assert!(list_blogs(&store).unwrap().items.is_empty());
    assert_eq!(blog_names(&store).unwrap(), Vec::<String>::new());
}

#[test]
fn the_listing_gives_the_descriptions() {
    let mut store = Storage::new();
    create_blog(&mut store, "plain", None).unwrap();
    create_blog(&mut store, "described", Some("with words")).unwrap();
    let list = list_blogs(&store).unwrap();
    assert_eq!(list.items.len(), 2);
    assert_eq!(list.items[0].name, "described");
    assert_eq!(list.items[0].description, "with words");
    assert_eq!(list.items[1].name, "plain");
    assert_eq!(list.items[1].description, "");
    assert_eq!(list.names(), vec!["described", "plain"]);
}

#[test]
fn a_summary_prints_as_name_and_description() {
    let mut store = Storage::new();
    create_blog(&mut store, "plain", None).unwrap();
    create_blog(&mut store, "described", Some("with words")).unwrap();
    let list = list_blogs(&store).unwrap();
    assert_eq!(list.items[0].label(), "described: with words");
    assert_eq!(list.items[1].label(), "plain: ");
}

#[test]
fn the_listing_passes_over_what_is_no_blog_name() {
    let mut store = Storage::new();
    create_blog(&mut store, "before", None).unwrap();
    assert!(matches!(
        store.perform(Request::CreateDir { path: blogs_path().join("not base64!") }),
        Reply::Done
    ));
    assert!(matches!(
        store.perform(Request::CreateDir { path: blogs_path().join("_w") }),
        Reply::Done
    ));
    assert!(matches!(
        store.perform(Request::CreateDir { path: blogs_path().join("YQ==") }),
        Reply::Done
    ));
    create_blog(&mut store, "after", Some("d")).unwrap();
    assert_eq!(blog_names(&store).unwrap(), vec!["after", "before"]);
}

#[test]
fn without_the_blogs_directory_the_storage_fails() {
    let mut store = Storage::empty();
    assert_eq!(create_blog(&mut store, "N", None).unwrap_err().kind, ErrorKind::StorageFailure);
    assert_eq!(list_blogs(&store).unwrap_err().kind, ErrorKind::StorageFailure);
    assert_eq!(blog_names(&store).unwrap_err().kind, ErrorKind::StorageFailure);
    assert_eq!(get_blog(&store, "N").unwrap_err().kind, ErrorKind::NotFound);
    assert!(matches!(
        store.answer(&Request::ListDir { path: path_for_blog("N").parent().unwrap().parent().unwrap() }),
        Reply::Entries(names) if names.is_empty()
    ));
}

#[test]
fn a_description_that_is_a_directory_fails_the_storage() {
    let mut store = Storage::new();
    create_blog(&mut store, "N", None).unwrap();
    store.perform(Request::CreateDir { path: description_path(&encode("N")) });
    assert_eq!(get_blog(&store, "N").unwrap_err().kind, ErrorKind::StorageFailure);
    assert_eq!(list_blogs(&store).unwrap_err().kind, ErrorKind::StorageFailure);
}

#[test]
fn a_posts_directory_that_is_a_file_fails_the_storage() {
    let mut store = Storage::new();
    store.perform(Request::CreateDir { path: path_for_blog("N") });
    store.perform(Request::WriteFile { path: make_posts_path("N"), text: String::new() });
    assert_eq!(get_blog(&store, "N").unwrap_err().kind, ErrorKind::StorageFailure);
}

#[test]
fn a_blog_without_posts_directory_is_not_found_but_its_name_is_taken() {
    let mut store = Storage::new();
    store.perform(Request::CreateDir { path: path_for_blog("N") });
    assert_eq!(get_blog(&store, "N").unwrap_err().kind, ErrorKind::NotFound);
    assert_eq!(create_blog(&mut store, "N", None).unwrap_err().kind, ErrorKind::NameTaken);
    assert_eq!(blog_names(&store).unwrap(), vec!["N"]);
}

#[test]
fn names_may_hold_what_paths_may_not() {
    let mut store = Storage::new();
    let names = ["a/b", "..", ".", "nul\0", "\u{65e5}\u{672c}", "con", "a\\b"];
    for name in names {
        assert_eq!(create_blog(&mut store, name, Some(name)), Ok(()));
    }
    let mut sorted = names.to_vec();
    sorted.sort();
    assert_eq!(blog_names(&store).unwrap(), sorted);
    for name in names {
        assert_eq!(get_blog(&store, name).unwrap().description, name);
    }
}

#[test]
fn the_listing_is_in_the_order_of_the_names() {
    let mut store = Storage::new();
    for name in ["b", "ab", "a", "B", "\u{e9}", "z", "aa", "a b"] {
        create_blog(&mut store, name, None).unwrap();
    }
    assert_eq!(
        blog_names(&store).unwrap(),
        vec!["B", "a", "a b", "aa", "ab", "b", "z", "\u{e9}"]
    );
}

#[test]
fn an_empty_storage_is_made_ready_once() {
    let mut store = Storage::empty();
    assert_eq!(prepare(&mut store), Ok(()));
    assert!(list_blogs(&store).unwrap().items.is_empty());
    create_blog(&mut store, "N", Some("d")).unwrap();
    assert_eq!(prepare(&mut store), Ok(()));
    assert_eq!(blog_names(&store).unwrap(), vec!["N"]);
    assert_eq!(get_blog(&store, "N").unwrap().description, "d");
}

#[test]
fn a_new_storage_is_ready() {
    let mut store = Storage::new();
    assert_eq!(prepare(&mut store), Ok(()));
    assert!(matches!(
        store.answer(&Request::ListDir { path: blogs_path().parent().unwrap() }),
        Reply::Entries(names) if names == vec!["blogs"]
    ));
}

#[test]
fn a_storage_with_a_file_for_the_blogs_cannot_be_made_ready() {
    let mut store = Storage::empty();
    store.perform(Request::WriteFile { path: blogs_path(), text: String::new() });
    assert_eq!(prepare(&mut store).unwrap_err().kind, ErrorKind::StorageFailure);
    assert_eq!(create_blog(&mut store, "N", None).unwrap_err().kind, ErrorKind::StorageFailure);
    assert_eq!(list_blogs(&store).unwrap_err().kind, ErrorKind::StorageFailure);
}

#[test]
fn the_empty_name_is_taken_by_the_directory_of_the_blogs() {
    let mut store = Storage::new();
    assert_eq!(create_blog(&mut store, "", Some("d")).unwrap_err().kind, ErrorKind::NameTaken);
    assert_eq!(get_blog(&store, "").unwrap_err().kind, ErrorKind::NotFound);
    assert!(list_blogs(&store).unwrap().items.is_empty());
    assert_eq!(path_for_blog("").segments, blogs_path().segments);
}

#[test]
fn a_blog_is_kept_under_its_segment() {
    let mut store = Storage::new();
    assert_eq!(create_blog_at(&mut store, "TXkgQmxvZw", Some("desc")), Ok(()));
    assert_eq!(get_blog(&store, "My Blog").unwrap().description, "desc");
    assert_eq!(create_blog(&mut store, "My Blog", None).unwrap_err().kind, ErrorKind::NameTaken);
    let blog = get_blog_at(&store, "TXkgQmxvZw", "as named").unwrap();
    assert_eq!(blog.name, "as named");
    assert_eq!(blog.description, "desc");
    assert_eq!(blog_names(&store).unwrap(), vec!["My Blog"]);
}

#[test]
fn a_blog_under_a_segment_that_is_no_name_is_kept_but_not_listed() {
    let mut store = Storage::new();
    assert_eq!(create_blog_at(&mut store, "no name!", Some("d")), Ok(()));
    assert_eq!(create_blog_at(&mut store, "no name!", None).unwrap_err().kind, ErrorKind::NameTaken);
    assert_eq!(get_blog_at(&store, "no name!", "x").unwrap().description, "d");
    assert!(list_blogs(&store).unwrap().items.is_empty());
}

#[test]
fn the_empty_name_makes_the_directory_of_the_blogs_where_it_is_missing() {
    let mut store = Storage::empty();
    assert_eq!(create_blog(&mut store, "", None), Ok(()));
    assert_eq!(prepare(&mut store), Ok(()));
    assert!(list_blogs(&store).unwrap().items.is_empty());
    assert_eq!(create_blog(&mut store, "", None).unwrap_err().kind, ErrorKind::NameTaken);
}
