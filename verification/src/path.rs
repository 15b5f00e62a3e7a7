//! Paths below the storage root, segment by segment.

use vstd::prelude::*;
use crate::text::same_text;

verus! {

/// A path below the storage root, as the sequence of its segments.
pub type PathView = Seq<Seq<char>>;

/// A path below the storage root. The empty path is the root itself.
#[derive(Debug)]
pub struct StoragePath {
    pub segments: Vec<String>,
}

impl View for StoragePath {
    type V = PathView;

    open spec fn view(&self) -> PathView {
        Seq::new(self.segments@.len(), |i: int| self.segments@[i]@)
    }
}

/// What a segment names in a directory. The empty segment names the
/// directory itself, as it does in a path on disk.
pub open spec fn below(dir: PathView, segment: Seq<char>) -> PathView {
    if segment.len() == 0 {
        dir
    } else {
        dir.push(segment)
    }
}

impl StoragePath {
    /// The storage root.
    pub fn root() -> (path: StoragePath)
        ensures
            path@ == Seq::<Seq<char>>::empty(),
    {
        let path = StoragePath { segments: Vec::new() };
        assert(path@ =~= Seq::<Seq<char>>::empty());
        path
    }

    /// The number of segments.
    pub fn len(&self) -> (n: usize)
        ensures
            n == self@.len(),
    {
        self.segments.len()
    }

    /// A copy of this path.
    pub fn duplicate(&self) -> (copy: StoragePath)
        ensures
            copy@ == self@,
    {
        let mut segments: Vec<String> = Vec::new();
        let mut i: usize = 0;
        while i < self.segments.len()
            invariant
                0 <= i <= self.segments@.len(),
                segments@.len() == i,
                forall|j: int| 0 <= j < i ==> segments@[j]@ == self.segments@[j]@,
            decreases self.segments@.len() - i,
        {
            segments.push(self.segments[i].clone());
            i = i + 1;
        }
        let copy = StoragePath { segments };
        assert(copy@ =~= self@);
        copy
    }

    /// What a segment names in this directory: this path with one more
    /// segment, or, for the empty segment, this path.
    pub fn join(&self, segment: &str) -> (path: StoragePath)
        ensures
            path@ == below(self@, segment@),
    {
        let mut path = self.duplicate();
        if !segment.is_empty() {
            path.segments.push(segment.to_owned());
            assert(path@ =~= self@.push(segment@));
        }
        path
    }

    /// This path followed by the segments of another.
    pub fn append(&self, suffix: &StoragePath) -> (path: StoragePath)
        ensures
            path@ == self@ + suffix@,
    {
        let mut path = self.duplicate();
        let mut i: usize = 0;
        while i < suffix.segments.len()
            invariant
                0 <= i <= suffix.segments@.len(),
                path@ == self@ + suffix@.take(i as int),
            decreases suffix.segments@.len() - i,
        {
            let ghost before = path@;
            path.segments.push(suffix.segments[i].clone());
            assert(path@ =~= before.push(suffix@[i as int]));
            assert(suffix@.take(i + 1) =~= suffix@.take(i as int).push(suffix@[i as int]));
            assert(path@ =~= self@ + suffix@.take(i + 1));
            i = i + 1;
        }
        assert(suffix@.take(i as int) =~= suffix@);
        path
    }

    /// True when both paths have the same segments.
    pub fn same(&self, other: &StoragePath) -> (same: bool)
        ensures
            same == (self@ == other@),
    {
        if self.segments.len() != other.segments.len() {
            assert(self@.len() != other@.len());
            return false;
        }
        let mut i: usize = 0;
        while i < self.segments.len()
            invariant
                self.segments@.len() == other.segments@.len(),
                0 <= i <= self.segments@.len(),
                forall|j: int| 0 <= j < i ==> self@[j] == other@[j],
            decreases self.segments@.len() - i,
        {
            if !same_text(self.segments[i].as_str(), other.segments[i].as_str()) {
                assert(self@[i as int] != other@[i as int]);
                return false;
            }
            i = i + 1;
        }
        assert(self@ =~= other@);
        true
    }

    /// True when this path is `dir` with one more segment.
    pub fn is_child_of(&self, dir: &StoragePath) -> (child: bool)
        ensures
            child == (self@.len() > 0 && self@.drop_last() == dir@),
    {
        if self.segments.len() == 0 || self.segments.len() - 1 != dir.segments.len() {
            assert(self@.len() > 0 ==> self@.drop_last().len() != dir@.len());
            return false;
        }
        let mut i: usize = 0;
        while i < dir.segments.len()
            invariant
                self.segments@.len() == dir.segments@.len() + 1,
                0 <= i <= dir.segments@.len(),
                forall|j: int| 0 <= j < i ==> self@[j] == dir@[j],
            decreases dir.segments@.len() - i,
        {
            if !same_text(self.segments[i].as_str(), dir.segments[i].as_str()) {
                assert(self@.drop_last()[i as int] != dir@[i as int]);
                return false;
            }
            i = i + 1;
        }
        assert(self@.drop_last() =~= dir@);
        true
    }

    /// The directory that the path lies in: the path without its last
    /// segment. The root lies in no directory.
    pub fn parent(&self) -> (dir: Option<StoragePath>)
        ensures
            match dir {
                Some(dir) => self@.len() > 0 && dir@ == self@.drop_last(),
                None => self@.len() == 0,
            },
    {
        if self.segments.len() == 0 {
            return None;
        }
        let kept: usize = self.segments.len() - 1;
        let mut segments: Vec<String> = Vec::new();
        let mut i: usize = 0;
        while i < kept
            invariant
                kept + 1 == self.segments@.len(),
                0 <= i <= kept,
                segments@.len() == i,
                forall|j: int| 0 <= j < i ==> segments@[j]@ == self.segments@[j]@,
            decreases kept - i,
        {
            segments.push(self.segments[i].clone());
            i = i + 1;
        }
        let dir = StoragePath { segments };
        assert(dir@ =~= self@.drop_last());
        Some(dir)
    }

    /// The last segment. The root has none.
    pub fn file_name(&self) -> (name: Option<&str>)
        ensures
            match name {
                Some(name) => self@.len() > 0 && name@ == self@.last(),
                None => self@.len() == 0,
            },
    {
        if self.segments.len() == 0 {
            None
        } else {
            Some(self.segments[self.segments.len() - 1].as_str())
        }
    }
}

} // verus!
