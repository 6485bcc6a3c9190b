//! The list of bookmarks, as the store holds them: no two of them have
//! the same path.

use crate::fe::model::{bookmarked, distinct_paths, saved_all, with_bookmark, without_bookmark};
use crate::fe::model::{lemma_saved_all_distinct, lemma_with_bookmark_distinct};
use crate::fe::model::lemma_without_bookmark_distinct;
use crate::path::FsPath;
use crate::utils::dir::{BookmarkView, QuickAccessEntry};
use vstd::prelude::*;

verus! {

/// The values of the bookmarks that a vector holds, in order.
pub open spec fn bookmark_views(bookmarks: Seq<QuickAccessEntry>) -> Seq<BookmarkView> {
    Seq::new(bookmarks.len(), |i: int| bookmarks[i]@)
}

/// Whether `current_path` is bookmarked.
pub fn is_favorited(current_path: &FsPath, quick_access: &Vec<QuickAccessEntry>) -> (favorited:
    bool)
    ensures
        favorited == bookmarked(bookmark_views(quick_access@), current_path@),
{
    let ghost bookmarks = bookmark_views(quick_access@);
    let mut i: usize = 0;
    while i < quick_access.len()
        invariant
            i <= quick_access.len(),
            bookmarks == bookmark_views(quick_access@),
            forall|j: int| 0 <= j < i ==> (#[trigger] bookmarks[j]).path != current_path@,
        decreases quick_access.len() - i,
    {
        if quick_access[i].path.same_as(current_path) {
            assert(bookmarks[i as int].path == current_path@);
            return true;
        }
        i += 1;
    }
    false
}

/// The bookmarks of `quick_access` without that of `path`, in their
/// order.
pub fn without(quick_access: &Vec<QuickAccessEntry>, path: &FsPath) -> (kept: Vec<QuickAccessEntry>)
    ensures
        bookmark_views(kept@) == without_bookmark(bookmark_views(quick_access@), path@),
{
    let ghost all = bookmark_views(quick_access@);
    let ghost other = |bookmark: BookmarkView| bookmark.path != path@;
    let mut kept: Vec<QuickAccessEntry> = Vec::new();
    let mut i: usize = 0;
    proof {
        reveal(Seq::filter);
        assert(all.take(0) =~= Seq::empty());
        assert(bookmark_views(kept@) =~= all.take(0).filter(other));
    }
    while i < quick_access.len()
        invariant
            i <= quick_access.len(),
            all == bookmark_views(quick_access@),
            other == |bookmark: BookmarkView| bookmark.path != path@,
            bookmark_views(kept@) == all.take(i as int).filter(other),
        decreases quick_access.len() - i,
    {
        let ghost before = bookmark_views(kept@);
        proof {
            assert(all.take(i + 1) =~= all.take(i as int).push(all[i as int]));
            all.take(i as int).lemma_filter_push(all[i as int], other);
        }
        if !quick_access[i].path.same_as(path) {
            kept.push(quick_access[i].clone());
            assert(bookmark_views(kept@) =~= before.push(all[i as int]));
        }
        i += 1;
    }
    assert(all.take(i as int) =~= all);
    kept
}

/// The list of bookmarks.
pub struct Bookmarks {
    list: Vec<QuickAccessEntry>,
}

impl View for Bookmarks {
    type V = Seq<BookmarkView>;

    closed spec fn view(&self) -> Seq<BookmarkView> {
        bookmark_views(self.list@)
    }
}

impl Bookmarks {
    #[verifier::type_invariant]
    spec fn distinct(self) -> bool {
        distinct_paths(self@)
    }

    /// The bookmarks of `given`, saved one after the other: of several
    /// with one path the last stays.
    pub fn new(given: Vec<QuickAccessEntry>) -> (bookmarks: Bookmarks)
        ensures
            bookmarks@ == saved_all(bookmark_views(given@)),
    {
        let ghost all = bookmark_views(given@);
        let mut list: Vec<QuickAccessEntry> = Vec::new();
        let mut i: usize = 0;
        assert(all.take(0) =~= Seq::empty());
        assert(bookmark_views(list@) =~= saved_all(all.take(0)));
        while i < given.len()
            invariant
                i <= given.len(),
                all == bookmark_views(given@),
                bookmark_views(list@) == saved_all(all.take(i as int)),
            decreases given.len() - i,
        {
            proof {
                assert(all.take(i + 1).drop_last() =~= all.take(i as int));
                assert(all.take(i + 1).last() == given@[i as int]@);
            }
            let mut kept = without(&list, &given[i].path);
            let ghost before = bookmark_views(kept@);
            kept.push(given[i].clone());
            assert(bookmark_views(kept@) =~= before.push(given@[i as int]@));
            list = kept;
            i += 1;
        }
        proof {
            assert(all.take(i as int) =~= all);
            lemma_saved_all_distinct(all);
        }
        Bookmarks { list }
    }

    /// The bookmarks, in their order. No two of them have the same
    /// path.
    pub fn entries(&self) -> (entries: &Vec<QuickAccessEntry>)
        ensures
            bookmark_views(entries@) == self@,
            distinct_paths(self@),
    {
        proof {
            use_type_invariant(self);
        }
        &self.list
    }

    /// Whether `path` is bookmarked.
    pub fn contains(&self, path: &FsPath) -> (found: bool)
        ensures
            found == bookmarked(self@, path@),
    {
        is_favorited(path, &self.list)
    }

    /// Saves `bookmark`: it takes the place of one with the same path
    /// and stands last.
    pub fn save(&mut self, bookmark: QuickAccessEntry)
        ensures
            final(self)@ == with_bookmark(old(self)@, bookmark@),
    {
        proof {
            use_type_invariant(&*self);
            lemma_with_bookmark_distinct(self@, bookmark@);
        }
        let mut kept = without(&self.list, &bookmark.path);
        let ghost before = bookmark_views(kept@);
        kept.push(bookmark);
        assert(bookmark_views(kept@) =~= before.push(bookmark@));
        self.list = kept;
    }

    /// Removes the bookmark of `path`. The others stay, in their order.
    pub fn remove(&mut self, path: &FsPath)
        ensures
            final(self)@ == without_bookmark(old(self)@, path@),
    {
        proof {
            use_type_invariant(&*self);
            lemma_without_bookmark_distinct(self@, path@);
        }
        let kept = without(&self.list, path);
        self.list = kept;
    }
}

} // verus!
