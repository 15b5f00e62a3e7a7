//! The blog store, one question at a time: creating a blog, looking one up,
//! and listing them all.

use vstd::prelude::*;
use crate::encoder::{decode, decoding, encode, encoded};
use crate::error::{Error, ErrorKind};
use crate::layout::{
    blog_dir, blog_path, blogs_path, blogs_root, description_file, description_path, posts_dir,
    posts_path,
};
use crate::listing::{decode_titles, names_of, next_named};
use crate::model::{
    insert_by_name, string_of, text_of, viewed, Blog, BlogList, BlogSummary, BlogSummaryView,
    BlogView, PostList,
};
use crate::storage::{texts, Failure, Reply, ReplyView, Request, RequestView};
use crate::task::{
    blog_error, blog_error_of, closure_of, closure_outcome, creation_of, creation_outcome,
    DirError, Move, Step,
};

verus! {

/// Making a storage ready for blogs, between two requests. The value says
/// what was asked last.
#[derive(Clone, Copy, Debug, PartialEq, Eq, Structural)]
pub enum Prepare {
    /// A new directory for the blogs.
    Create,
    /// The entries of what has the path of that directory already.
    Confirm,
}

impl Prepare {
    /// What is asked first: a new directory for the blogs.
    pub open spec fn first_request() -> RequestView {
        RequestView::CreateDir { path: blogs_root() }
    }

    /// What follows on an answer.
    ///
    /// If something has the path of the directory already, its entries are
    /// asked for: only a directory has entries. What they are does not matter.
    pub open spec fn after(self, reply: ReplyView) -> Move<Prepare, Result<(), Error>> {
        match self {
            Prepare::Create => match creation_of(reply) {
                Ok(()) => Move::Finish(Ok(())),
                Err(DirError::AlreadyExists) => Move::Ask(
                    Prepare::Confirm,
                    RequestView::ListDir { path: blogs_root() },
                ),
                Err(_) => Move::Finish(Err(Error { kind: ErrorKind::StorageFailure })),
            },
            Prepare::Confirm => match reply {
                ReplyView::Entries(_) => Move::Finish(Ok(())),
                _ => Move::Finish(Err(Error { kind: ErrorKind::StorageFailure })),
            },
        }
    }

    /// Begins to make a storage ready, and says what to ask it first.
    pub fn start() -> (begun: (Prepare, Request))
        ensures
            begun.0 == Prepare::Create,
            begun.1@ == Prepare::first_request(),
    {
        (Prepare::Create, Request::CreateDir { path: blogs_path() })
    }

    /// Takes the answer to the last request, and says what to ask next or
    /// whether the storage is ready.
    pub fn resume(self, reply: Reply) -> (step: Step<Prepare, Result<(), Error>>)
        ensures
            match self.after(reply@) {
                Move::Ask(next, request) => step matches Step::Ask(task, asked) && task == next
                    && asked@ == request,
                Move::Finish(result) => step matches Step::Finish(ended) && ended == result,
            },
    {
        match self {
            Prepare::Create => match creation_outcome(&reply) {
                Ok(()) => Step::Finish(Ok(())),
                Err(DirError::AlreadyExists) => Step::Ask(
                    Prepare::Confirm,
                    Request::ListDir { path: blogs_path() },
                ),
                Err(_) => Step::Finish(Err(Error::new(ErrorKind::StorageFailure))),
            },
            Prepare::Confirm => match reply {
                Reply::Entries(_) => Step::Finish(Ok(())),
                _ => Step::Finish(Err(Error::new(ErrorKind::StorageFailure))),
            },
        }
    }
}

/// How far the creation of a blog has come: what was asked last.
#[derive(Clone, Copy, Debug, PartialEq, Eq, Structural)]
pub enum CreateBlogStage {
    /// The directory of the blog.
    Directory,
    /// The directory of its posts.
    Posts,
    /// The file with its description.
    Description,
}

/// The creation of a blog, between two requests.
#[derive(Debug)]
pub struct CreateBlog {
    /// The segment of the blog: its encoded name.
    pub segment: String,
    pub description: Option<String>,
    pub stage: CreateBlogStage,
}

/// The creation of a blog, with texts as sequences.
pub struct CreateBlogView {
    pub segment: Seq<char>,
    pub description: Option<Seq<char>>,
    pub stage: CreateBlogStage,
}

impl View for CreateBlog {
    type V = CreateBlogView;

    open spec fn view(&self) -> CreateBlogView {
        CreateBlogView {
            segment: self.segment@,
            description: string_of(self.description),
            stage: self.stage,
        }
    }
}

impl CreateBlogView {
    /// The creation of a blog before anything was asked.
    pub open spec fn begin(segment: Seq<char>, description: Option<Seq<char>>) -> CreateBlogView {
        CreateBlogView { segment, description, stage: CreateBlogStage::Directory }
    }

    /// What the creation asks first: a new directory for the blog.
    pub open spec fn first_request(self) -> RequestView {
        RequestView::CreateDir { path: blog_dir(self.segment) }
    }

    /// What the creation does on an answer.
    ///
    /// The directory of the blog must be new: if something has its path the
    /// name is taken. The directory of the posts and the description follow;
    /// if the blog's directory is gone by then, it was deleted meanwhile.
    pub open spec fn after(self, reply: ReplyView) -> Move<CreateBlogView, Result<(), Error>> {
        match self.stage {
            CreateBlogStage::Directory => match creation_of(reply) {
                Ok(()) => Move::Ask(
                    CreateBlogView { stage: CreateBlogStage::Posts, ..self },
                    RequestView::CreateDir { path: posts_dir(self.segment) },
                ),
                Err(error) => Move::Finish(Err(blog_error_of(error))),
            },
            CreateBlogStage::Posts => match closure_of(reply) {
                Ok(()) => match self.description {
                    Some(text) => Move::Ask(
                        CreateBlogView { stage: CreateBlogStage::Description, ..self },
                        RequestView::WriteFile { path: description_file(self.segment), text },
                    ),
                    None => Move::Finish(Ok(())),
                },
                Err(error) => Move::Finish(Err(blog_error_of(error))),
            },
            CreateBlogStage::Description => match closure_of(reply) {
                Ok(()) => Move::Finish(Ok(())),
                Err(error) => Move::Finish(Err(blog_error_of(error))),
            },
        }
    }
}

impl CreateBlog {
    /// Begins the creation of the blog of that name, and says what to ask
    /// the storage first.
    pub fn start(name: &str, description: Option<&str>) -> (begun: (CreateBlog, Request))
        ensures
            begun.0@ == CreateBlogView::begin(encoded(name@), text_of(description)),
            begun.1@ == begun.0@.first_request(),
    {
        Self::at(encode(name), description)
    }

    /// Begins the creation of the blog with that segment, and says what to
    /// ask the storage first.
    pub fn at(segment: String, description: Option<&str>) -> (begun: (CreateBlog, Request))
        ensures
            begun.0@ == CreateBlogView::begin(segment@, text_of(description)),
            begun.1@ == begun.0@.first_request(),
    {
        let description = match description {
            Some(text) => Some(text.to_owned()),
            None => None,
        };
        let path = blog_path(segment.as_str());
        (CreateBlog { segment, description, stage: CreateBlogStage::Directory }, Request::CreateDir { path })
    }

    /// Takes the answer to the last request, and says what to ask next or
    /// how the creation ended.
    pub fn resume(self, reply: Reply) -> (step: Step<CreateBlog, Result<(), Error>>)
        ensures
            match self@.after(reply@) {
                Move::Ask(next, request) => step matches Step::Ask(task, asked) && task@ == next
                    && asked@ == request,
                Move::Finish(result) => step matches Step::Finish(ended) && ended == result,
            },
    {
        match self.stage {
            CreateBlogStage::Directory => match creation_outcome(&reply) {
                Ok(()) => {
                    let path = posts_path(self.segment.as_str());
                    let next = CreateBlog {
                        segment: self.segment,
                        description: self.description,
                        stage: CreateBlogStage::Posts,
                    };
                    Step::Ask(next, Request::CreateDir { path })
                },
                Err(error) => Step::Finish(Err(blog_error(error))),
            },
            CreateBlogStage::Posts => match closure_outcome(&reply) {
                Ok(()) => match &self.description {
                    Some(text) => {
                        let path = description_path(self.segment.as_str());
                        let text = text.clone();
                        let next = CreateBlog {
                            segment: self.segment,
                            description: self.description,
                            stage: CreateBlogStage::Description,
                        };
                        Step::Ask(next, Request::WriteFile { path, text })
                    },
                    None => Step::Finish(Ok(())),
                },
                Err(error) => Step::Finish(Err(blog_error(error))),
            },
            CreateBlogStage::Description => match closure_outcome(&reply) {
                Ok(()) => Step::Finish(Ok(())),
                Err(error) => Step::Finish(Err(blog_error(error))),
            },
        }
    }
}

/// How far the lookup of a blog has come: what was asked last.
#[derive(Clone, Copy, Debug, PartialEq, Eq, Structural)]
pub enum GetBlogStage {
    /// The entries of the directory of its posts.
    Posts,
    /// The file with its description.
    Description,
}

/// The lookup of a blog, between two requests.
#[derive(Debug)]
pub struct GetBlog {
    /// The segment of the blog: its encoded name.
    pub segment: String,
    /// The name under which the blog is handed back.
    pub name: String,
    pub stage: GetBlogStage,
    /// The titles found so far.
    pub posts: PostList,
}

/// The lookup of a blog, with texts as sequences.
pub struct GetBlogView {
    pub segment: Seq<char>,
    pub name: Seq<char>,
    pub stage: GetBlogStage,
    pub posts: Seq<Seq<char>>,
}

impl View for GetBlog {
    type V = GetBlogView;

    open spec fn view(&self) -> GetBlogView {
        GetBlogView {
            segment: self.segment@,
            name: self.name@,
            stage: self.stage,
            posts: self.posts@,
        }
    }
}

impl GetBlogView {
    /// The lookup of a blog before anything was asked.
    pub open spec fn begin(segment: Seq<char>, name: Seq<char>) -> GetBlogView {
        GetBlogView { segment, name, stage: GetBlogStage::Posts, posts: Seq::empty() }
    }

    /// What the lookup asks first: the entries of the directory of the posts.
    pub open spec fn first_request(self) -> RequestView {
        RequestView::ListDir { path: posts_dir(self.segment) }
    }

    /// What the lookup does on an answer.
    ///
    /// A blog whose directory of posts is missing does not exist. A blog
    /// without a description file has the empty description.
    pub open spec fn after(self, reply: ReplyView) -> Move<GetBlogView, Result<BlogView, Error>> {
        match self.stage {
            GetBlogStage::Posts => match reply {
                ReplyView::Entries(names) => Move::Ask(
                    GetBlogView { stage: GetBlogStage::Description, posts: names_of(names), ..self },
                    RequestView::ReadFile { path: description_file(self.segment) },
                ),
                ReplyView::Failed(Failure::NotFound) => Move::Finish(
                    Err(Error { kind: ErrorKind::NotFound }),
                ),
                _ => Move::Finish(Err(Error { kind: ErrorKind::StorageFailure })),
            },
            GetBlogStage::Description => match reply {
                ReplyView::Text(text) => Move::Finish(
                    Ok(BlogView { name: self.name, description: text, posts: self.posts }),
                ),
                ReplyView::Failed(Failure::NotFound) => Move::Finish(
                    Ok(BlogView { name: self.name, description: Seq::empty(), posts: self.posts }),
                ),
                _ => Move::Finish(Err(Error { kind: ErrorKind::StorageFailure })),
            },
        }
    }
}

impl GetBlog {
    /// Begins the lookup of the blog of that name, and says what to ask the
    /// storage first.
    pub fn start(name: &str) -> (begun: (GetBlog, Request))
        ensures
            begun.0@ == GetBlogView::begin(encoded(name@), name@),
            begun.1@ == begun.0@.first_request(),
    {
        Self::at(encode(name), name.to_owned())
    }

    /// Begins the lookup of the blog with that segment, which is handed back
    /// under that name, and says what to ask the storage first.
    pub fn at(segment: String, name: String) -> (begun: (GetBlog, Request))
        ensures
            begun.0@ == GetBlogView::begin(segment@, name@),
            begun.1@ == begun.0@.first_request(),
    {
        let posts = PostList { items: Vec::new() };
        assert(posts@ =~= Seq::<Seq<char>>::empty());
        let path = posts_path(segment.as_str());
        (GetBlog { segment, name, stage: GetBlogStage::Posts, posts }, Request::ListDir { path })
    }

    /// Takes the answer to the last request, and says what to ask next or
    /// how the lookup ended.
    pub fn resume(self, reply: Reply) -> (step: Step<GetBlog, Result<Blog, Error>>)
        ensures
            match self@.after(reply@) {
                Move::Ask(next, request) => step matches Step::Ask(task, asked) && task@ == next
                    && asked@ == request,
                Move::Finish(result) => step matches Step::Finish(ended) && viewed(ended)
                    == result,
            },
    {
        match self.stage {
            GetBlogStage::Posts => match reply {
                Reply::Entries(names) => {
                    let posts = decode_titles(&names);
                    let path = description_path(self.segment.as_str());
                    let next = GetBlog {
                        segment: self.segment,
                        name: self.name,
                        stage: GetBlogStage::Description,
                        posts,
                    };
                    Step::Ask(next, Request::ReadFile { path })
                },
                Reply::Failed(Failure::NotFound) => Step::Finish(
                    Err(Error::new(ErrorKind::NotFound)),
                ),
                _ => Step::Finish(Err(Error::new(ErrorKind::StorageFailure))),
            },
            GetBlogStage::Description => match reply {
                Reply::Text(description) => Step::Finish(
                    Ok(Blog { name: self.name, description, posts: self.posts }),
                ),
                Reply::Failed(Failure::NotFound) => Step::Finish(
                    Ok(Blog { name: self.name, description: String::new(), posts: self.posts }),
                ),
                _ => Step::Finish(Err(Error::new(ErrorKind::StorageFailure))),
            },
        }
    }
}

/// The listing of the blogs, between two requests.
#[derive(Debug)]
pub enum ListBlogs {
    /// The entries of the directory of the blogs were asked for.
    Root,
    /// The description of one blog was asked for.
    Descriptions {
        /// The entries of the directory of the blogs.
        entries: Vec<String>,
        /// The place of the entry whose description was asked for.
        index: usize,
        /// The name that entry stands for.
        name: String,
        /// The blogs before that entry, in the order of their names.
        found: BlogList,
    },
}

/// The listing of the blogs, with texts as sequences.
pub enum ListBlogsView {
    Root,
    Descriptions {
        entries: Seq<Seq<char>>,
        index: int,
        name: Seq<char>,
        found: Seq<BlogSummaryView>,
    },
}

impl View for ListBlogs {
    type V = ListBlogsView;

    open spec fn view(&self) -> ListBlogsView {
        match self {
            ListBlogs::Root => ListBlogsView::Root,
            ListBlogs::Descriptions { entries, index, name, found } => ListBlogsView::Descriptions {
                entries: texts(entries@),
                index: *index as int,
                name: name@,
                found: found@,
            },
        }
    }
}

impl ListBlogsView {
    /// What the listing asks first: the entries of the directory of the blogs.
    pub open spec fn first_request() -> RequestView {
        RequestView::ListDir { path: blogs_root() }
    }

    /// What the listing does with the entries from `from` on: it asks for
    /// the description of the first that stands for a name, and is over if
    /// none does.
    pub open spec fn proceed(
        entries: Seq<Seq<char>>,
        from: int,
        found: Seq<BlogSummaryView>,
    ) -> Move<ListBlogsView, Result<Seq<BlogSummaryView>, Error>> {
        let index = next_named(entries, from);
        if index < entries.len() {
            Move::Ask(
                ListBlogsView::Descriptions {
                    entries,
                    index,
                    name: decoding(entries[index])->0,
                    found,
                },
                RequestView::ReadFile { path: description_file(entries[index]) },
            )
        } else {
            Move::Finish(Ok(found))
        }
    }

    /// What the listing does on an answer.
    ///
    /// A blog without a description file has the empty description. Any
    /// other failure of the storage ends the listing. Each blog is put where
    /// its name belongs among those found before it.
    pub open spec fn after(self, reply: ReplyView) -> Move<
        ListBlogsView,
        Result<Seq<BlogSummaryView>, Error>,
    > {
        match self {
            ListBlogsView::Root => match reply {
                ReplyView::Entries(names) => Self::proceed(names, 0, Seq::empty()),
                _ => Move::Finish(Err(Error { kind: ErrorKind::StorageFailure })),
            },
            ListBlogsView::Descriptions { entries, index, name, found } => match reply {
                ReplyView::Text(text) => Self::proceed(
                    entries,
                    index + 1,
                    insert_by_name(found, BlogSummaryView { name, description: text }),
                ),
                ReplyView::Failed(Failure::NotFound) => Self::proceed(
                    entries,
                    index + 1,
                    insert_by_name(found, BlogSummaryView { name, description: Seq::empty() }),
                ),
                _ => Move::Finish(Err(Error { kind: ErrorKind::StorageFailure })),
            },
        }
    }
}

impl ListBlogs {
    /// Begins the listing of the blogs, and says what to ask the storage first.
    pub fn start() -> (begun: (ListBlogs, Request))
        ensures
            begun.0@ == ListBlogsView::Root,
            begun.1@ == ListBlogsView::first_request(),
    {
        (ListBlogs::Root, Request::ListDir { path: blogs_path() })
    }

    /// Goes on to the next entry that stands for a name.
    fn proceed(entries: Vec<String>, from: usize, found: BlogList) -> (step: Step<
        ListBlogs,
        Result<BlogList, Error>,
    >)
        requires
            from <= entries@.len(),
        ensures
            match ListBlogsView::proceed(texts(entries@), from as int, found@) {
                Move::Ask(next, request) => step matches Step::Ask(task, asked) && task@ == next
                    && asked@ == request,
                Move::Finish(result) => step matches Step::Finish(ended) && viewed(ended)
                    == result,
            },
    {
        let mut index: usize = from;
        while index < entries.len()
            invariant
                from <= index <= entries@.len(),
                next_named(texts(entries@), from as int) == next_named(
                    texts(entries@),
                    index as int,
                ),
            decreases entries@.len() - index,
        {
            match decode(entries[index].as_str()) {
                Ok(name) => {
                    let path = description_path(entries[index].as_str());
                    return Step::Ask(
                        ListBlogs::Descriptions { entries, index, name, found },
                        Request::ReadFile { path },
                    );
                },
                Err(_) => {},
            }
            index = index + 1;
        }
        Step::Finish(Ok(found))
    }

    /// Takes the answer to the last request, and says what to ask next or
    /// how the listing ended.
    pub fn resume(self, reply: Reply) -> (step: Step<ListBlogs, Result<BlogList, Error>>)
        ensures
            match self@.after(reply@) {
                Move::Ask(next, request) => step matches Step::Ask(task, asked) && task@ == next
                    && asked@ == request,
                Move::Finish(result) => step matches Step::Finish(ended) && viewed(ended)
                    == result,
            },
    {
        match self {
            ListBlogs::Root => match reply {
                Reply::Entries(names) => {
                    Self::proceed(names, 0, BlogList::new())
                },
                _ => Step::Finish(Err(Error::new(ErrorKind::StorageFailure))),
            },
            ListBlogs::Descriptions { entries, index, name, found } => {
                let description = match reply {
                    Reply::Text(text) => text,
                    Reply::Failed(Failure::NotFound) => String::new(),
                    _ => {
                        return Step::Finish(Err(Error::new(ErrorKind::StorageFailure)));
                    },
                };
                let mut found = found;
                found.insert(BlogSummary { name, description });
                if index < entries.len() {
                    Self::proceed(entries, index + 1, found)
                } else {
                    Step::Finish(Ok(found))
                }
            },
        }
    }
}

} // verus!
