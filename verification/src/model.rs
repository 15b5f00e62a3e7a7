//! What the stores hand back: blogs, posts, and lists of them.

use vstd::prelude::*;
use vstd::string::StringExecFns;
use crate::error::Error;
use crate::order::{lemma_name_le_total, lemma_name_le_transitive, name_le, text_le};

verus! {

/// A blog as a listing shows it: its name and its description.
#[derive(Debug)]
pub struct BlogSummary {
    pub name: String,
    /// Empty where the blog has no description.
    pub description: String,
}

/// A blog summary, with texts as sequences.
pub struct BlogSummaryView {
    pub name: Seq<char>,
    pub description: Seq<char>,
}

impl View for BlogSummary {
    type V = BlogSummaryView;

    open spec fn view(&self) -> BlogSummaryView {
        BlogSummaryView { name: self.name@, description: self.description@ }
    }
}

impl BlogSummary {
    /// The line a listing prints for the blog: name, colon, description.
    pub fn label(&self) -> (line: String)
        ensures
            line@ == self.name@ + ": "@ + self.description@,
    {
        let mut line = self.name.clone();
        line.append(": ");
        line.append(self.description.as_str());
        line
    }
}

/// The blogs of a storage, in the order in which the storage names them.
#[derive(Debug)]
pub struct BlogList {
    pub items: Vec<BlogSummary>,
}

impl View for BlogList {
    type V = Seq<BlogSummaryView>;

    open spec fn view(&self) -> Seq<BlogSummaryView> {
        Seq::new(self.items@.len(), |i: int| self.items@[i]@)
    }
}

/// True when the blogs stand in the order of their names.
pub open spec fn sorted_by_name(blogs: Seq<BlogSummaryView>) -> bool {
    forall|i: int, j: int|
        0 <= i < j < blogs.len() ==> name_le((#[trigger] blogs[i]).name, (#[trigger] blogs[j]).name)
}

/// Where a blog of that name belongs in a list: behind the last blog whose
/// name does not come after it.
pub open spec fn place_by_name(blogs: Seq<BlogSummaryView>, name: Seq<char>) -> int
    decreases blogs.len(),
{
    if blogs.len() == 0 {
        0
    } else if name_le(blogs.last().name, name) {
        blogs.len() as int
    } else {
        place_by_name(blogs.drop_last(), name)
    }
}

/// The list with one more blog, put where its name belongs.
pub open spec fn insert_by_name(
    blogs: Seq<BlogSummaryView>,
    blog: BlogSummaryView,
) -> Seq<BlogSummaryView> {
    blogs.insert(place_by_name(blogs, blog.name), blog)
}

/// What lies before and behind the place where a name belongs.
pub proof fn lemma_place_by_name(blogs: Seq<BlogSummaryView>, name: Seq<char>)
    ensures
        0 <= place_by_name(blogs, name) <= blogs.len(),
        place_by_name(blogs, name) > 0 ==> name_le(
            blogs[place_by_name(blogs, name) - 1].name,
            name,
        ),
        forall|k: int|
            place_by_name(blogs, name) <= k < blogs.len() ==> !name_le(
                (#[trigger] blogs[k]).name,
                name,
            ),
    decreases blogs.len(),
{
    if blogs.len() > 0 && !name_le(blogs.last().name, name) {
        lemma_place_by_name(blogs.drop_last(), name);
        assert forall|k: int| place_by_name(blogs, name) <= k < blogs.len() implies !name_le(
            (#[trigger] blogs[k]).name,
            name,
        ) by {
            if k < blogs.len() - 1 {
                assert(blogs.drop_last()[k] == blogs[k]);
            }
        }
    }
}

/// A list in the order of its names stays in that order when a blog is put
/// where its name belongs.
pub proof fn lemma_insert_keeps_order(blogs: Seq<BlogSummaryView>, blog: BlogSummaryView)
    requires
        sorted_by_name(blogs),
    ensures
        sorted_by_name(insert_by_name(blogs, blog)),
        insert_by_name(blogs, blog).to_multiset() == blogs.to_multiset().insert(blog),
{
    let place = place_by_name(blogs, blog.name);
    let after = insert_by_name(blogs, blog);
    lemma_place_by_name(blogs, blog.name);
    assert forall|i: int, j: int| 0 <= i < j < after.len() implies name_le(
        (#[trigger] after[i]).name,
        (#[trigger] after[j]).name,
    ) by {
        if j < place {
            assert(name_le(blogs[i].name, blogs[j].name));
        } else if j == place {
            if i < place - 1 {
                assert(name_le(blogs[i].name, blogs[place - 1].name));
                lemma_name_le_transitive(blogs[i].name, blogs[place - 1].name, blog.name);
            }
        } else if i == place {
            assert(!name_le(blogs[j - 1].name, blog.name));
            lemma_name_le_total(blogs[j - 1].name, blog.name);
        } else if i < place {
            assert(name_le(blogs[i].name, blogs[j - 1].name));
        } else {
            assert(name_le(blogs[i - 1].name, blogs[j - 1].name));
        }
    }
    vstd::seq_lib::to_multiset_insert(blogs, place, blog);
}

impl BlogList {
    /// The list without any blog.
    pub fn new() -> (list: BlogList)
        ensures
            list@ == Seq::<BlogSummaryView>::empty(),
    {
        let list = BlogList { items: Vec::new() };
        assert(list@ =~= Seq::<BlogSummaryView>::empty());
        list
    }

    /// Puts one more blog into the list, where its name belongs.
    pub fn insert(&mut self, blog: BlogSummary)
        ensures
            final(self)@ == insert_by_name(old(self)@, blog@),
    {
        let mut place: usize = self.items.len();
        assert(self@.take(place as int) =~= self@);
        while place > 0
            invariant
                0 <= place <= self.items@.len(),
                *self == *old(self),
                place_by_name(self@, blog@.name) == place_by_name(
                    self@.take(place as int),
                    blog@.name,
                ),
            ensures
                place_by_name(self@, blog@.name) == place,
            decreases place,
        {
            assert(self@.take(place as int).last() == self@[place - 1]);
            if text_le(self.items[place - 1].name.as_str(), blog.name.as_str()) {
                break ;
            }
            assert(self@.take(place as int).drop_last() =~= self@.take(place - 1));
            place = place - 1;
        }
        let ghost before = self@;
        self.items.insert(place, blog);
        assert(self@ =~= before.insert(place as int, blog@));
    }

    /// The names of the blogs, in the order of the list.
    pub fn names(&self) -> (names: Vec<String>)
        ensures
            names@.len() == self@.len(),
            forall|i: int| 0 <= i < self@.len() ==> (#[trigger] names@[i])@ == self@[i].name,
    {
        let mut names: Vec<String> = Vec::new();
        let mut i: usize = 0;
        while i < self.items.len()
            invariant
                0 <= i <= self.items@.len(),
                names@.len() == i,
                forall|j: int| 0 <= j < i ==> (#[trigger] names@[j])@ == self@[j].name,
            decreases self.items@.len() - i,
        {
            names.push(self.items[i].name.clone());
            i = i + 1;
        }
        names
    }
}

/// A post as a listing shows it: its title, without the body.
#[derive(Debug)]
pub struct PostSummary {
    pub title: String,
}

impl View for PostSummary {
    type V = Seq<char>;

    open spec fn view(&self) -> Seq<char> {
        self.title@
    }
}

/// The posts of a blog, in the order in which the storage names them.
#[derive(Debug)]
pub struct PostList {
    pub items: Vec<PostSummary>,
}

impl View for PostList {
    type V = Seq<Seq<char>>;

    open spec fn view(&self) -> Seq<Seq<char>> {
        Seq::new(self.items@.len(), |i: int| self.items@[i]@)
    }
}

/// A blog: its name, its description, and the titles of its posts.
#[derive(Debug)]
pub struct Blog {
    pub name: String,
    /// Empty where the blog has no description.
    pub description: String,
    pub posts: PostList,
}

/// A blog, with texts as sequences.
pub struct BlogView {
    pub name: Seq<char>,
    pub description: Seq<char>,
    pub posts: Seq<Seq<char>>,
}

impl View for Blog {
    type V = BlogView;

    open spec fn view(&self) -> BlogView {
        BlogView { name: self.name@, description: self.description@, posts: self.posts@ }
    }
}

/// A post: its title and its body.
#[derive(Debug)]
pub struct BlogPost {
    pub title: String,
    pub content: String,
}

/// A post, with texts as sequences.
pub struct BlogPostView {
    pub title: Seq<char>,
    pub content: Seq<char>,
}

impl View for BlogPost {
    type V = BlogPostView;

    open spec fn view(&self) -> BlogPostView {
        BlogPostView { title: self.title@, content: self.content@ }
    }
}

/// A result, with the value it carries taken by its view.
pub open spec fn viewed<T: View>(result: Result<T, Error>) -> Result<T::V, Error> {
    match result {
        Ok(value) => Ok(value@),
        Err(error) => Err(error),
    }
}

/// A text that may be missing, as a sequence.
pub open spec fn text_of(text: Option<&str>) -> Option<Seq<char>> {
    match text {
        Some(text) => Some(text@),
        None => None,
    }
}

/// A string that may be missing, as a sequence.
pub open spec fn string_of(text: Option<String>) -> Option<Seq<char>> {
    match text {
        Some(text) => Some(text@),
        None => None,
    }
}

} // verus!
