//! The listing of the directory being browsed and what is shown of it,
//! kept in order under the active sort at all times.

use crate::utils::dir::{entry_views, DirSorting, EntryView, FeEntry, SortOrder};
use crate::utils::sort::{dirs_first, displayed, ordered, sorted_entries};
use crate::utils::sort::{filter_entries, sort_entries};
use crate::utils::sort::{lemma_displayed_ordered, lemma_ordered_dirs_first};
use vstd::prelude::*;

verus! {

/// The listing, what is shown of it, and the sort that both are in
/// order under.
pub struct Listing {
    dir_sorting: DirSorting,
    entries: Vec<FeEntry>,
    display_entries: Vec<FeEntry>,
}

/// The mathematical value of a [`Listing`].
pub struct ListingView {
    pub dir_sorting: DirSorting,
    pub entries: Seq<EntryView>,
    pub display_entries: Seq<EntryView>,
}

impl ListingView {
    /// Whether the listing and what is shown of it are in order under
    /// the sort.
    pub open spec fn wf(self) -> bool {
        &&& ordered(self.entries, self.dir_sorting)
        &&& ordered(self.display_entries, self.dir_sorting)
    }

    /// The listing replaced by `listed`, put in order under the sort,
    /// with what is shown selected by `search`.
    pub open spec fn with_listing(self, listed: Seq<EntryView>, search: Seq<u8>) -> ListingView {
        let entries = sorted_entries(listed, self.dir_sorting);
        ListingView {
            dir_sorting: self.dir_sorting,
            entries,
            display_entries: displayed(entries, search),
        }
    }

    /// The listing put in order under `sort`, with what is shown selected
    /// by `search`.
    pub open spec fn update_sorting(self, sort: DirSorting, search: Seq<u8>) -> ListingView {
        (ListingView { dir_sorting: sort, ..self }).with_listing(self.entries, search)
    }

    /// The listing with what is shown selected by `search`.
    pub open spec fn update_search(self, search: Seq<u8>) -> ListingView {
        ListingView { display_entries: displayed(self.entries, search), ..self }
    }
}

impl View for Listing {
    type V = ListingView;

    closed spec fn view(&self) -> ListingView {
        ListingView {
            dir_sorting: self.dir_sorting,
            entries: entry_views(self.entries@),
            display_entries: entry_views(self.display_entries@),
        }
    }
}

impl Listing {
    #[verifier::type_invariant]
    spec fn in_order(self) -> bool {
        self@.wf()
    }

    /// A listing that holds nothing, sorted by name and ascending.
    pub fn new() -> (listing: Listing)
        ensures
            listing@ == (ListingView {
                dir_sorting: DirSorting::FileNameAlphabetically(SortOrder::Asc),
                entries: Seq::empty(),
                display_entries: Seq::empty(),
            }),
    {
        let entries: Vec<FeEntry> = Vec::new();
        let display_entries: Vec<FeEntry> = Vec::new();
        assert(entry_views(entries@) =~= Seq::empty());
        assert(entry_views(display_entries@) =~= Seq::empty());
        Listing {
            dir_sorting: DirSorting::FileNameAlphabetically(SortOrder::Asc),
            entries,
            display_entries,
        }
    }

    /// The sort.
    pub fn dir_sorting(&self) -> (sort: DirSorting)
        ensures
            sort == self@.dir_sorting,
    {
        self.dir_sorting
    }

    /// The listing. It is in order under the sort, with every directory
    /// ahead of every file.
    pub fn entries(&self) -> (entries: &Vec<FeEntry>)
        ensures
            entry_views(entries@) == self@.entries,
            ordered(self@.entries, self@.dir_sorting),
            dirs_first(self@.entries),
    {
        proof {
            use_type_invariant(self);
            lemma_ordered_dirs_first(self@.entries, self@.dir_sorting);
        }
        &self.entries
    }

    /// What is shown of the listing. It is in order under the sort, with
    /// every directory ahead of every file.
    pub fn display_entries(&self) -> (entries: &Vec<FeEntry>)
        ensures
            entry_views(entries@) == self@.display_entries,
            ordered(self@.display_entries, self@.dir_sorting),
            dirs_first(self@.display_entries),
    {
        proof {
            use_type_invariant(self);
            lemma_ordered_dirs_first(self@.display_entries, self@.dir_sorting);
        }
        &self.display_entries
    }

    /// Replaces the listing by `listed`, put in order under the sort, and
    /// selects what is shown by `search`.
    pub fn replace(&mut self, listed: Vec<FeEntry>, search: &[u8])
        ensures
            final(self)@ == old(self)@.with_listing(entry_views(listed@), search@),
    {
        proof {
            use_type_invariant(&*self);
        }
        let sorted = sort_entries(listed, &self.dir_sorting);
        let shown = filter_entries(&sorted, search);
        proof {
            lemma_displayed_ordered(entry_views(sorted@), search@, self.dir_sorting);
        }
        self.entries = sorted;
        self.display_entries = shown;
    }

    /// Puts the listing in order under `sort` and selects what is shown
    /// by `search`.
    pub fn update_sorting(&mut self, sort: DirSorting, search: &[u8])
        ensures
            final(self)@ == old(self)@.update_sorting(sort, search@),
    {
        proof {
            use_type_invariant(&*self);
        }
        let mut listed: Vec<FeEntry> = Vec::new();
        assert(ordered(entry_views(listed@), self.dir_sorting));
        std::mem::swap(&mut listed, &mut self.entries);
        let sorted = sort_entries(listed, &sort);
        let shown = filter_entries(&sorted, search);
        proof {
            lemma_displayed_ordered(entry_views(sorted@), search@, sort);
        }
        *self = Listing { dir_sorting: sort, entries: sorted, display_entries: shown };
    }

    /// Selects what is shown by `search`.
    pub fn update_search(&mut self, search: &[u8])
        ensures
            final(self)@ == old(self)@.update_search(search@),
    {
        proof {
            use_type_invariant(&*self);
            lemma_displayed_ordered(self@.entries, search@, self.dir_sorting);
        }
        let shown = filter_entries(&self.entries, search);
        self.display_entries = shown;
    }
}

} // verus!
