//! The post store, one question at a time: creating a post, reading one,
//! and listing the posts of a blog.

use vstd::prelude::*;
use crate::encoder::{encode, encoded};
use crate::error::{Error, ErrorKind};
use crate::layout::{content_file, content_path, post_dir, post_path, posts_dir, posts_path};
use crate::listing::{decode_titles, names_of};
use crate::model::{viewed, BlogPost, BlogPostView, PostList};
use crate::storage::{Failure, Reply, ReplyView, Request, RequestView};
use crate::task::{
    closure_of, closure_outcome, creation_of, creation_outcome, post_error, post_error_of, Move,
    Step,
};

verus! {

/// How far the creation of a post has come: what was asked last.
#[derive(Clone, Copy, Debug, PartialEq, Eq, Structural)]
pub enum CreatePostStage {
    /// The directory of the post.
    Directory,
    /// The file with its body.
    Content,
}

/// The creation of a post, between two requests.
#[derive(Debug)]
pub struct CreatePost {
    /// The segment of the blog: its encoded name.
    pub blog: String,
    /// The segment of the post: its encoded title.
    pub post: String,
    pub body: String,
    pub stage: CreatePostStage,
}

/// The creation of a post, with texts as sequences.
pub struct CreatePostView {
    pub blog: Seq<char>,
    pub post: Seq<char>,
    pub body: Seq<char>,
    pub stage: CreatePostStage,
}

impl View for CreatePost {
    type V = CreatePostView;

    open spec fn view(&self) -> CreatePostView {
        CreatePostView { blog: self.blog@, post: self.post@, body: self.body@, stage: self.stage }
    }
}

impl CreatePostView {
    /// The creation of a post before anything was asked.
    pub open spec fn begin(blog: Seq<char>, post: Seq<char>, body: Seq<char>) -> CreatePostView {
        CreatePostView { blog, post, body, stage: CreatePostStage::Directory }
    }

    /// What the creation asks first: a new directory for the post.
    pub open spec fn first_request(self) -> RequestView {
        RequestView::CreateDir { path: post_dir(self.blog, self.post) }
    }

    /// What the creation does on an answer.
    ///
    /// The directory of the post must be new: if something has its path the
    /// title is taken, and if the directory it should lie in is missing, the
    /// blog is. The body follows; if the post's directory is gone by then, it
    /// was deleted meanwhile.
    pub open spec fn after(self, reply: ReplyView) -> Move<CreatePostView, Result<(), Error>> {
        match self.stage {
            CreatePostStage::Directory => match creation_of(reply) {
                Ok(()) => Move::Ask(
                    CreatePostView { stage: CreatePostStage::Content, ..self },
                    RequestView::WriteFile {
                        path: content_file(self.blog, self.post),
                        text: self.body,
                    },
                ),
                Err(error) => Move::Finish(Err(post_error_of(error))),
            },
            CreatePostStage::Content => match closure_of(reply) {
                Ok(()) => Move::Finish(Ok(())),
                Err(error) => Move::Finish(Err(post_error_of(error))),
            },
        }
    }
}

impl CreatePost {
    /// Begins the creation of the post of that title in the blog of that
    /// name, and says what to ask the storage first.
    pub fn start(blog: &str, title: &str, body: &str) -> (begun: (CreatePost, Request))
        ensures
            begun.0@ == CreatePostView::begin(encoded(blog@), encoded(title@), body@),
            begun.1@ == begun.0@.first_request(),
    {
        Self::at(encode(blog), encode(title), body)
    }

    /// Begins the creation of the post with that segment in the blog with
    /// that segment, and says what to ask the storage first.
    pub fn at(blog: String, post: String, body: &str) -> (begun: (CreatePost, Request))
        ensures
            begun.0@ == CreatePostView::begin(blog@, post@, body@),
            begun.1@ == begun.0@.first_request(),
    {
        let path = post_path(blog.as_str(), post.as_str());
        let task = CreatePost { blog, post, body: body.to_owned(), stage: CreatePostStage::Directory };
        (task, Request::CreateDir { path })
    }

    /// Takes the answer to the last request, and says what to ask next or
    /// how the creation ended.
    pub fn resume(self, reply: Reply) -> (step: Step<CreatePost, Result<(), Error>>)
        ensures
            match self@.after(reply@) {
                Move::Ask(next, request) => step matches Step::Ask(task, asked) && task@ == next
                    && asked@ == request,
                Move::Finish(result) => step matches Step::Finish(ended) && ended == result,
            },
    {
        match self.stage {
            CreatePostStage::Directory => match creation_outcome(&reply) {
                Ok(()) => {
                    let path = content_path(self.blog.as_str(), self.post.as_str());
                    let text = self.body.clone();
                    let next = CreatePost {
                        blog: self.blog,
                        post: self.post,
                        body: self.body,
                        stage: CreatePostStage::Content,
                    };
                    Step::Ask(next, Request::WriteFile { path, text })
                },
                Err(error) => Step::Finish(Err(post_error(error))),
            },
            CreatePostStage::Content => match closure_outcome(&reply) {
                Ok(()) => Step::Finish(Ok(())),
                Err(error) => Step::Finish(Err(post_error(error))),
            },
        }
    }
}

/// The reading of a post, after its body was asked for.
#[derive(Debug)]
pub struct GetPost {
    pub title: String,
}

impl View for GetPost {
    type V = Seq<char>;

    open spec fn view(&self) -> Seq<char> {
        self.title@
    }
}

/// What the reading of a post asks: the file with its body.
pub open spec fn get_post_request(blog: Seq<char>, post: Seq<char>) -> RequestView {
    RequestView::ReadFile { path: content_file(blog, post) }
}

/// How the reading of a post ends on an answer: a post without a body file
/// does not exist.
pub open spec fn get_post_result(title: Seq<char>, reply: ReplyView) -> Result<
    BlogPostView,
    Error,
> {
    match reply {
        ReplyView::Text(text) => Ok(BlogPostView { title, content: text }),
        ReplyView::Failed(Failure::NotFound) => Err(Error { kind: ErrorKind::NotFound }),
        _ => Err(Error { kind: ErrorKind::StorageFailure }),
    }
}

impl GetPost {
    /// Begins the reading of the post of that title in the blog of that
    /// name, and says what to ask the storage.
    pub fn start(blog: &str, title: &str) -> (begun: (GetPost, Request))
        ensures
            begun.0@ == title@,
            begun.1@ == get_post_request(encoded(blog@), encoded(title@)),
    {
        Self::at(encode(blog).as_str(), encode(title).as_str(), title.to_owned())
    }

    /// Begins the reading of the post with that segment in the blog with
    /// that segment, which is handed back under that title, and says what to
    /// ask the storage.
    pub fn at(blog: &str, post: &str, title: String) -> (begun: (GetPost, Request))
        ensures
            begun.0@ == title@,
            begun.1@ == get_post_request(blog@, post@),
    {
        (GetPost { title }, Request::ReadFile { path: content_path(blog, post) })
    }

    /// Takes the answer, and says how the reading ended.
    pub fn finish(self, reply: Reply) -> (result: Result<BlogPost, Error>)
        ensures
            viewed(result) == get_post_result(self@, reply@),
    {
        match reply {
            Reply::Text(content) => Ok(BlogPost { title: self.title, content }),
            Reply::Failed(Failure::NotFound) => Err(Error::new(ErrorKind::NotFound)),
            _ => Err(Error::new(ErrorKind::StorageFailure)),
        }
    }
}

/// The listing of the posts of a blog, after the entries were asked for.
#[derive(Debug)]
pub struct ListPosts;

/// What the listing of the posts of a blog asks: the entries of their directory.
pub open spec fn list_posts_request(blog: Seq<char>) -> RequestView {
    RequestView::ListDir { path: posts_dir(blog) }
}

/// How the listing of the posts ends on an answer: where their directory
/// is missing, the blog is.
pub open spec fn list_posts_result(reply: ReplyView) -> Result<Seq<Seq<char>>, Error> {
    match reply {
        ReplyView::Entries(names) => Ok(names_of(names)),
        ReplyView::Failed(Failure::NotFound) => Err(Error { kind: ErrorKind::BlogNotFound }),
        _ => Err(Error { kind: ErrorKind::StorageFailure }),
    }
}

impl ListPosts {
    /// Begins the listing of the posts of the blog of that name, and says
    /// what to ask the storage.
    pub fn start(blog: &str) -> (begun: (ListPosts, Request))
        ensures
            begun.1@ == list_posts_request(encoded(blog@)),
    {
        Self::at(encode(blog).as_str())
    }

    /// Begins the listing of the posts of the blog with that segment, and
    /// says what to ask the storage.
    pub fn at(blog: &str) -> (begun: (ListPosts, Request))
        ensures
            begun.1@ == list_posts_request(blog@),
    {
        (ListPosts, Request::ListDir { path: posts_path(blog) })
    }

    /// Takes the answer, and says how the listing ended.
    pub fn finish(self, reply: Reply) -> (result: Result<PostList, Error>)
        ensures
            viewed(result) == list_posts_result(reply@),
    {
        match reply {
            Reply::Entries(names) => Ok(decode_titles(&names)),
            Reply::Failed(Failure::NotFound) => Err(Error::new(ErrorKind::BlogNotFound)),
            _ => Err(Error::new(ErrorKind::StorageFailure)),
        }
    }
}

} // verus!
