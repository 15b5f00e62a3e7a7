//! From the entries of a directory to names: every entry is decoded, and
//! one that stands for no name is passed over.

use vstd::prelude::*;
use crate::encoder::{decode, decoding};
use crate::model::{PostList, PostSummary};
use crate::storage::texts;

verus! {

/// The names that the segments stand for, in their order. A segment that
/// stands for no name is left out.
pub open spec fn names_of(segments: Seq<Seq<char>>) -> Seq<Seq<char>>
    decreases segments.len(),
{
    if segments.len() == 0 {
        Seq::empty()
    } else {
        let before = names_of(segments.drop_last());
        match decoding(segments.last()) {
            Some(name) => before.push(name),
            None => before,
        }
    }
}

/// The place of the first segment, from `from` on, that stands for a name;
/// the number of segments if there is none.
pub open spec fn next_named(segments: Seq<Seq<char>>, from: int) -> int
    decreases segments.len() - from,
{
    if from >= segments.len() {
        segments.len() as int
    } else if decoding(segments[from]) is Some {
        from
    } else {
        next_named(segments, from + 1)
    }
}

/// Up to the next segment that stands for a name, no segment stands for one.
pub proof fn lemma_next_named(segments: Seq<Seq<char>>, from: int)
    requires
        0 <= from <= segments.len(),
    ensures
        from <= next_named(segments, from) <= segments.len(),
        next_named(segments, from) < segments.len() ==> decoding(
            segments[next_named(segments, from)],
        ) is Some,
        forall|k: int| from <= k < next_named(segments, from) ==> decoding(#[trigger] segments[k])
            is None,
    decreases segments.len() - from,
{
    if from < segments.len() && decoding(segments[from]) is None {
        lemma_next_named(segments, from + 1);
    }
}

/// Segments that stand for no name add nothing to the names.
pub proof fn lemma_names_skip(segments: Seq<Seq<char>>, from: int, to: int)
    requires
        0 <= from <= to <= segments.len(),
        forall|k: int| from <= k < to ==> decoding(#[trigger] segments[k]) is None,
    ensures
        names_of(segments.take(to)) == names_of(segments.take(from)),
    decreases to - from,
{
    if from < to {
        lemma_names_skip(segments, from, to - 1);
        assert(segments.take(to).drop_last() =~= segments.take(to - 1));
        assert(segments.take(to).last() == segments[to - 1]);
    }
}

/// The segments that stand for no name, in their order.
pub open spec fn unnamed_of(segments: Seq<Seq<char>>) -> Seq<Seq<char>>
    decreases segments.len(),
{
    if segments.len() == 0 {
        Seq::empty()
    } else {
        let before = unnamed_of(segments.drop_last());
        match decoding(segments.last()) {
            Some(_) => before,
            None => before.push(segments.last()),
        }
    }
}

/// The entries of a directory that a listing passes over: those that stand
/// for no name. Whoever keeps a log can say so there.
pub fn passed_over(segments: &Vec<String>) -> (unnamed: Vec<String>)
    ensures
        texts(unnamed@) == unnamed_of(texts(segments@)),
{
    let mut unnamed: Vec<String> = Vec::new();
    let mut i: usize = 0;
    let ghost all = texts(segments@);
    assert(all.take(0) =~= Seq::<Seq<char>>::empty());
    assert(texts(unnamed@) =~= unnamed_of(all.take(0)));
    while i < segments.len()
        invariant
            0 <= i <= segments@.len(),
            all == texts(segments@),
            texts(unnamed@) == unnamed_of(all.take(i as int)),
        decreases segments@.len() - i,
    {
        let ghost before = texts(unnamed@);
        proof {
            assert(all.take(i + 1).drop_last() =~= all.take(i as int));
            assert(all.take(i + 1).last() == segments@[i as int]@);
        }
        match decode(segments[i].as_str()) {
            Ok(_) => {},
            Err(_) => {
                unnamed.push(segments[i].clone());
                assert(texts(unnamed@) =~= before.push(segments@[i as int]@));
            },
        }
        i = i + 1;
    }
    assert(all.take(i as int) =~= all);
    unnamed
}

/// The titles that the entries of a directory of posts stand for.
pub fn decode_titles(segments: &Vec<String>) -> (list: PostList)
    ensures
        list@ == names_of(texts(segments@)),
{
    let mut items: Vec<PostSummary> = Vec::new();
    let mut i: usize = 0;
    let ghost all = texts(segments@);
    assert(all.take(0) =~= Seq::<Seq<char>>::empty());
    assert((PostList { items })@ =~= names_of(all.take(0)));
    while i < segments.len()
        invariant
            0 <= i <= segments@.len(),
            all == texts(segments@),
            (PostList { items })@ == names_of(all.take(i as int)),
        decreases segments@.len() - i,
    {
        let ghost before = (PostList { items })@;
        proof {
            assert(all.take(i + 1).drop_last() =~= all.take(i as int));
            assert(all.take(i + 1).last() == segments@[i as int]@);
        }
        match decode(segments[i].as_str()) {
            Ok(title) => {
                items.push(PostSummary { title });
                assert((PostList { items })@ =~= before.push(title@));
            },
            Err(_) => {},
        }
        i = i + 1;
    }
    assert(all.take(i as int) =~= all);
    PostList { items }
}

} // verus!
