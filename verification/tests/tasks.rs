use blog_store::blog_tasks::{CreateBlog, GetBlog, ListBlogs, Prepare};
use blog_store::error::{Error, ErrorKind};
use blog_store::post_tasks::{CreatePost, GetPost, ListPosts};
use blog_store::storage::{Failure, Reply, Request};
use blog_store::task::{
    blog_error, closure_outcome, creation_outcome, post_error, DirError, Step,
};

fn asked<T, R: std::fmt::Debug>(step: Step<T, R>) -> (T, Request) {
    match step {
        Step::Ask(task, request) => (task, request),
        Step::Finish(result) => panic!("finished: {:?}", result),
    }
}

fn finished<T, R>(step: Step<T, R>) -> R {
    match step {
        Step::Finish(result) => result,
        Step::Ask(_, request) => panic!("asked: {:?}", request),
    }
}

fn kind<T: std::fmt::Debug>(result: Result<T, Error>) -> ErrorKind {
    result.unwrap_err().kind
}

fn names(entries: &[&str]) -> Reply {
    Reply::Entries(entries.iter().map(|name| name.to_string()).collect())
}

#[test]
fn a_creation_reads_its_answer() {
    assert_eq!(creation_outcome(&Reply::Done), Ok(()));
    assert_eq!(
        creation_outcome(&Reply::Failed(Failure::AlreadyExists)),
        Err(DirError::AlreadyExists)
    );
    assert_eq!(
        creation_outcome(&Reply::Failed(Failure::NotFound)),
        Err(DirError::CreationFailure(Failure::NotFound))
    );
    assert_eq!(
        creation_outcome(&Reply::Failed(Failure::Other)),
        Err(DirError::CreationFailure(Failure::Other))
    );
    assert_eq!(
        creation_outcome(&Reply::Text(String::new())),
        Err(DirError::CreationFailure(Failure::Other))
    );
    assert_eq!(creation_outcome(&names(&[])), Err(DirError::CreationFailure(Failure::Other)));
}

#[test]
fn a_filling_reads_its_answer() {
    assert_eq!(closure_outcome(&Reply::Done), Ok(()));
    assert_eq!(closure_outcome(&Reply::Failed(Failure::NotFound)), Err(DirError::DeletedDuring));
    assert_eq!(
        closure_outcome(&Reply::Failed(Failure::AlreadyExists)),
        Err(DirError::ClosureFailure(Failure::AlreadyExists))
    );
    assert_eq!(
        closure_outcome(&Reply::Failed(Failure::Other)),
        Err(DirError::ClosureFailure(Failure::Other))
    );
    assert_eq!(
        closure_outcome(&Reply::Text(String::new())),
        Err(DirError::ClosureFailure(Failure::Other))
    );
}

#[test]
fn a_blog_names_its_errors() {
    assert_eq!(blog_error(DirError::AlreadyExists).kind, ErrorKind::NameTaken);
    assert_eq!(blog_error(DirError::DeletedDuring).kind, ErrorKind::ConcurrentlyDeleted);
    assert_eq!(
        blog_error(DirError::CreationFailure(Failure::NotFound)).kind,
        ErrorKind::StorageFailure
    );
    assert_eq!(
        blog_error(DirError::CreationFailure(Failure::Other)).kind,
        ErrorKind::StorageFailure
    );
    assert_eq!(
        blog_error(DirError::ClosureFailure(Failure::AlreadyExists)).kind,
        ErrorKind::StorageFailure
    );
}

#[test]
fn a_post_names_its_errors() {
    assert_eq!(post_error(DirError::AlreadyExists).kind, ErrorKind::TitleTaken);
    assert_eq!(post_error(DirError::DeletedDuring).kind, ErrorKind::ConcurrentlyDeleted);
    assert_eq!(
        post_error(DirError::CreationFailure(Failure::NotFound)).kind,
        ErrorKind::BlogNotFound
    );
    assert_eq!(
        post_error(DirError::CreationFailure(Failure::Other)).kind,
        ErrorKind::StorageFailure
    );
    assert_eq!(
        post_error(DirError::ClosureFailure(Failure::Other)).kind,
        ErrorKind::StorageFailure
    );
}

#[test]
fn only_a_concurrent_deletion_is_worth_another_try() {
    assert!(Error::new(ErrorKind::ConcurrentlyDeleted).is_retryable());
    for kind in [
        ErrorKind::NotFound,
        ErrorKind::NameTaken,
        ErrorKind::TitleTaken,
        ErrorKind::BlogNotFound,
        ErrorKind::StorageFailure,
        ErrorKind::InvalidEncoding,
        ErrorKind::InvalidUtf8,
    ] {
        assert!(!Error::new(kind).is_retryable());
    }
}

#[test]
fn a_blog_is_created_in_three_requests() {
    let (task, request) = CreateBlog::start("My Blog", Some("desc"));
    match request {
        Request::CreateDir { path } => assert_eq!(path.segments, vec!["blogs", "TXkgQmxvZw"]),
        other => panic!("{:?}", other),
    }
    let (task, request) = asked(task.resume(Reply::Done));
    match request {
        Request::CreateDir { path } => {
            assert_eq!(path.segments, vec!["blogs", "TXkgQmxvZw", "posts"])
        }
        other => panic!("{:?}", other),
    }
    let (task, request) = asked(task.resume(Reply::Done));
    match request {
        Request::WriteFile { path, text } => {
            assert_eq!(path.segments, vec!["blogs", "TXkgQmxvZw", "description"]);
            assert_eq!(text, "desc");
        }
        other => panic!("{:?}", other),
    }
    assert_eq!(finished(task.resume(Reply::Done)), Ok(()));
}

#[test]
fn a_blog_without_description_is_created_in_two_requests() {
    let (task, _) = CreateBlog::start("N", None);
    let (task, _) = asked(task.resume(Reply::Done));
    assert_eq!(finished(task.resume(Reply::Done)), Ok(()));
}

#[test]
fn a_blog_whose_directory_exists_has_a_taken_name() {
    let (task, _) = CreateBlog::start("N", Some("d"));
    assert_eq!(kind(finished(task.resume(Reply::Failed(Failure::AlreadyExists)))), ErrorKind::NameTaken);
}

#[test]
fn a_blog_that_cannot_be_created_fails_the_storage() {
    for reply in [Failure::NotFound, Failure::Other] {
        let (task, _) = CreateBlog::start("N", Some("d"));
        assert_eq!(kind(finished(task.resume(Reply::Failed(reply)))), ErrorKind::StorageFailure);
    }
    let (task, _) = CreateBlog::start("N", Some("d"));
    assert_eq!(kind(finished(task.resume(names(&[])))), ErrorKind::StorageFailure);
}

#[test]
fn a_blog_that_vanishes_before_its_posts_directory_was_deleted_meanwhile() {
    let (task, _) = CreateBlog::start("N", Some("d"));
    let (task, _) = asked(task.resume(Reply::Done));
    assert_eq!(
        kind(finished(task.resume(Reply::Failed(Failure::NotFound)))),
        ErrorKind::ConcurrentlyDeleted
    );
}

#[test]
fn a_blog_that_vanishes_before_its_description_was_deleted_meanwhile() {
    let (task, _) = CreateBlog::start("N", Some("d"));
    let (task, _) = asked(task.resume(Reply::Done));
    let (task, _) = asked(task.resume(Reply::Done));
    let result = finished(task.resume(Reply::Failed(Failure::NotFound)));
    assert_eq!(result, Err(Error::new(ErrorKind::ConcurrentlyDeleted)));
    assert!(result.unwrap_err().is_retryable());
}

#[test]
fn a_blog_that_cannot_be_filled_fails_the_storage() {
    let (task, _) = CreateBlog::start("N", Some("d"));
    let (task, _) = asked(task.resume(Reply::Done));
    assert_eq!(
        kind(finished(task.resume(Reply::Failed(Failure::AlreadyExists)))),
        ErrorKind::StorageFailure
    );
    let (task, _) = CreateBlog::start("N", Some("d"));
    let (task, _) = asked(task.resume(Reply::Done));
    let (task, _) = asked(task.resume(Reply::Done));
    assert_eq!(kind(finished(task.resume(Reply::Failed(Failure::Other)))), ErrorKind::StorageFailure);
}

#[test]
fn a_blog_is_looked_up_in_two_requests() {
    let (task, request) = GetBlog::start("My Blog");
    match request {
        Request::ListDir { path } => {
            assert_eq!(path.segments, vec!["blogs", "TXkgQmxvZw", "posts"])
        }
        other => panic!("{:?}", other),
    }
    let (task, request) = asked(task.resume(names(&["SGVsbG8sIFdvcmxkIQ", "??", "YQ"])));
    match request {
        Request::ReadFile { path } => {
            assert_eq!(path.segments, vec!["blogs", "TXkgQmxvZw", "description"])
        }
        other => panic!("{:?}", other),
    }
    let blog = finished(task.resume(Reply::Text("desc".to_string()))).unwrap();
    assert_eq!(blog.name, "My Blog");
    assert_eq!(blog.description, "desc");
    let titles: Vec<&str> = blog.posts.items.iter().map(|post| post.title.as_str()).collect();
    assert_eq!(titles, vec!["Hello, World!", "a"]);
}

#[test]
fn a_blog_without_description_file_has_the_empty_description() {
    let (task, _) = GetBlog::start("N");
    let (task, _) = asked(task.resume(names(&[])));
    let blog = finished(task.resume(Reply::Failed(Failure::NotFound))).unwrap();
    assert_eq!(blog.description, "");
    assert!(blog.posts.items.is_empty());
}

#[test]
fn a_blog_without_posts_directory_is_not_found() {
    let (task, _) = GetBlog::start("N");
    assert_eq!(kind(finished(task.resume(Reply::Failed(Failure::NotFound)))), ErrorKind::NotFound);
}

#[test]
fn a_lookup_that_the_storage_fails_is_a_storage_failure() {
    let (task, _) = GetBlog::start("N");
    assert_eq!(kind(finished(task.resume(Reply::Failed(Failure::Other)))), ErrorKind::StorageFailure);
    let (task, _) = GetBlog::start("N");
    assert_eq!(kind(finished(task.resume(Reply::Done))), ErrorKind::StorageFailure);
    let (task, _) = GetBlog::start("N");
    let (task, _) = asked(task.resume(names(&[])));
    assert_eq!(kind(finished(task.resume(Reply::Failed(Failure::Other)))), ErrorKind::StorageFailure);
    let (task, _) = GetBlog::start("N");
    let (task, _) = asked(task.resume(names(&[])));
    assert_eq!(kind(finished(task.resume(names(&[])))), ErrorKind::StorageFailure);
}

#[test]
fn the_blogs_are_listed_one_description_at_a_time() {
    let (task, request) = ListBlogs::start();
    match request {
        Request::ListDir { path } => assert_eq!(path.segments, vec!["blogs"]),
        other => panic!("{:?}", other),
    }
    let (task, request) = asked(task.resume(names(&["!", "eg", "_w", "YQ", "YQ=="])));
    match request {
        Request::ReadFile { path } => assert_eq!(path.segments, vec!["blogs", "eg", "description"]),
        other => panic!("{:?}", other),
    }
    let (task, request) = asked(task.resume(Reply::Text("about z".to_string())));
    match request {
        Request::ReadFile { path } => assert_eq!(path.segments, vec!["blogs", "YQ", "description"]),
        other => panic!("{:?}", other),
    }
    let list = finished(task.resume(Reply::Failed(Failure::NotFound))).unwrap();
    assert_eq!(list.names(), vec!["a", "z"]);
    assert_eq!(list.items[0].description, "");
    assert_eq!(list.items[1].description, "about z");
}

#[test]
fn a_listing_without_blogs_is_over_at_once() {
    let (task, _) = ListBlogs::start();
    assert!(finished(task.resume(names(&[]))).unwrap().items.is_empty());
    let (task, _) = ListBlogs::start();
    assert!(finished(task.resume(names(&["=", "_w"]))).unwrap().items.is_empty());
}

#[test]
fn a_listing_that_the_storage_fails_is_a_storage_failure() {
    for reply in [Failure::NotFound, Failure::Other, Failure::AlreadyExists] {
        let (task, _) = ListBlogs::start();
        assert_eq!(kind(finished(task.resume(Reply::Failed(reply)))), ErrorKind::StorageFailure);
    }
    let (task, _) = ListBlogs::start();
    let (task, _) = asked(task.resume(names(&["YQ", "Yg"])));
    assert_eq!(kind(finished(task.resume(Reply::Failed(Failure::Other)))), ErrorKind::StorageFailure);
    let (task, _) = ListBlogs::start();
    let (task, _) = asked(task.resume(names(&["YQ", "Yg"])));
    assert_eq!(kind(finished(task.resume(Reply::Done))), ErrorKind::StorageFailure);
}

#[test]
fn a_listing_in_a_state_of_its_own_making_ends_without_harm() {
    let task = ListBlogs::Descriptions {
        entries: Vec::new(),
        index: usize::MAX,
        name: "a".to_string(),
        found: blog_store::model::BlogList::new(),
    };
    let list = finished(task.resume(Reply::Text("d".to_string()))).unwrap();
    assert_eq!(list.names(), vec!["a"]);
}

#[test]
fn a_storage_is_made_ready_in_one_request_or_two() {
    let (task, request) = Prepare::start();
    match request {
        Request::CreateDir { path } => assert_eq!(path.segments, vec!["blogs"]),
        other => panic!("{:?}", other),
    }
    assert_eq!(finished(task.resume(Reply::Done)), Ok(()));
    let (task, request) = asked(task.resume(Reply::Failed(Failure::AlreadyExists)));
    assert_eq!(task, Prepare::Confirm);
    match request {
        Request::ListDir { path } => assert_eq!(path.segments, vec!["blogs"]),
        other => panic!("{:?}", other),
    }
    assert_eq!(finished(task.resume(names(&["x"]))), Ok(()));
    assert_eq!(kind(finished(task.resume(Reply::Failed(Failure::Other)))), ErrorKind::StorageFailure);
    assert_eq!(
        kind(finished(Prepare::Create.resume(Reply::Failed(Failure::NotFound)))),
        ErrorKind::StorageFailure
    );
}

#[test]
fn a_post_is_created_in_two_requests() {
    let (task, request) = CreatePost::start("My Blog", "Hello, World!", "body text");
    match request {
        Request::CreateDir { path } => assert_eq!(
            path.segments,
            vec!["blogs", "TXkgQmxvZw", "posts", "SGVsbG8sIFdvcmxkIQ"]
        ),
        other => panic!("{:?}", other),
    }
    let (task, request) = asked(task.resume(Reply::Done));
    match request {
        Request::WriteFile { path, text } => {
            assert_eq!(
                path.segments,
                vec!["blogs", "TXkgQmxvZw", "posts", "SGVsbG8sIFdvcmxkIQ", "content"]
            );
            assert_eq!(text, "body text");
        }
        other => panic!("{:?}", other),
    }
    assert_eq!(finished(task.resume(Reply::Done)), Ok(()));
}

#[test]
fn a_post_that_cannot_be_created_says_why() {
    let (task, _) = CreatePost::start("N", "T", "B");
    assert_eq!(
        kind(finished(task.resume(Reply::Failed(Failure::AlreadyExists)))),
        ErrorKind::TitleTaken
    );
    let (task, _) = CreatePost::start("N", "T", "B");
    assert_eq!(kind(finished(task.resume(Reply::Failed(Failure::NotFound)))), ErrorKind::BlogNotFound);
    let (task, _) = CreatePost::start("N", "T", "B");
    assert_eq!(kind(finished(task.resume(Reply::Failed(Failure::Other)))), ErrorKind::StorageFailure);
    let (task, _) = CreatePost::start("N", "T", "B");
    let (task, _) = asked(task.resume(Reply::Done));
    assert_eq!(
        kind(finished(task.resume(Reply::Failed(Failure::NotFound)))),
        ErrorKind::ConcurrentlyDeleted
    );
    let (task, _) = CreatePost::start("N", "T", "B");
    let (task, _) = asked(task.resume(Reply::Done));
    assert_eq!(kind(finished(task.resume(Reply::Failed(Failure::Other)))), ErrorKind::StorageFailure);
}

#[test]
fn a_post_is_read_in_one_request() {
    let (task, request) = GetPost::start("My Blog", "Hello, World!");
    match request {
        Request::ReadFile { path } => assert_eq!(
            path.segments,
            vec!["blogs", "TXkgQmxvZw", "posts", "SGVsbG8sIFdvcmxkIQ", "content"]
        ),
        other => panic!("{:?}", other),
    }
    let post = task.finish(Reply::Text("body\ntext".to_string())).unwrap();
    assert_eq!(post.title, "Hello, World!");
    assert_eq!(post.content, "body\ntext");
    let (task, _) = GetPost::start("N", "T");
    assert_eq!(kind(task.finish(Reply::Failed(Failure::NotFound))), ErrorKind::NotFound);
    let (task, _) = GetPost::start("N", "T");
    assert_eq!(kind(task.finish(Reply::Failed(Failure::Other))), ErrorKind::StorageFailure);
    let (task, _) = GetPost::start("N", "T");
    assert_eq!(kind(task.finish(Reply::Done)), ErrorKind::StorageFailure);
}

#[test]
fn the_posts_are_listed_in_one_request() {
    let (task, request) = ListPosts::start("My Blog");
    match request {
        Request::ListDir { path } => {
            assert_eq!(path.segments, vec!["blogs", "TXkgQmxvZw", "posts"])
        }
        other => panic!("{:?}", other),
    }
    let list = task.finish(names(&["eg", "", "a b", "YQ"])).unwrap();
    let titles: Vec<&str> = list.items.iter().map(|post| post.title.as_str()).collect();
    assert_eq!(titles, vec!["z", "", "a"]);
    let (task, _) = ListPosts::start("N");
    assert_eq!(kind(task.finish(Reply::Failed(Failure::NotFound))), ErrorKind::BlogNotFound);
    let (task, _) = ListPosts::start("N");
    assert_eq!(kind(task.finish(Reply::Failed(Failure::Other))), ErrorKind::StorageFailure);
    let (task, _) = ListPosts::start("N");
    assert_eq!(kind(task.finish(Reply::Text(String::new()))), ErrorKind::StorageFailure);
}

#[test]
fn a_task_may_begin_at_a_segment() {
    let (_, request) = CreateBlog::at("seg".to_string(), None);
    match request {
        Request::CreateDir { path } => assert_eq!(path.segments, vec!["blogs", "seg"]),
        other => panic!("{:?}", other),
    }
    let (task, request) = GetBlog::at("seg".to_string(), "name".to_string());
    match request {
        Request::ListDir { path } => assert_eq!(path.segments, vec!["blogs", "seg", "posts"]),
        other => panic!("{:?}", other),
    }
    let (task, request) = asked(task.resume(names(&[])));
    match request {
        Request::ReadFile { path } => {
            assert_eq!(path.segments, vec!["blogs", "seg", "description"])
        }
        other => panic!("{:?}", other),
    }
    assert_eq!(finished(task.resume(Reply::Text("d".to_string()))).unwrap().name, "name");
    let (_, request) = CreatePost::at("seg".to_string(), "post".to_string(), "b");
    match request {
        Request::CreateDir { path } => {
            assert_eq!(path.segments, vec!["blogs", "seg", "posts", "post"])
        }
        other => panic!("{:?}", other),
    }
    let (task, request) = GetPost::at("seg", "post", "title".to_string());
    match request {
        Request::ReadFile { path } => {
            assert_eq!(path.segments, vec!["blogs", "seg", "posts", "post", "content"])
        }
        other => panic!("{:?}", other),
    }
    assert_eq!(task.finish(Reply::Text("b".to_string())).unwrap().title, "title");
    let (_, request) = ListPosts::at("seg");
    match request {
        Request::ListDir { path } => assert_eq!(path.segments, vec!["blogs", "seg", "posts"]),
        other => panic!("{:?}", other),
    }
}

#[test]
fn what_a_listing_passes_over_can_be_told() {
    let entries: Vec<String> =
        ["eg", "!", "YQ==", "YQ", "_w", ""].iter().map(|name| name.to_string()).collect();
    assert_eq!(blog_store::listing::passed_over(&entries), vec!["!", "YQ==", "_w"]);
    assert_eq!(blog_store::listing::passed_over(&Vec::new()), Vec::<String>::new());
    let titles = blog_store::listing::decode_titles(&entries);
    let titles: Vec<&str> = titles.items.iter().map(|post| post.title.as_str()).collect();
    assert_eq!(titles, vec!["z", "a", ""]);
}
