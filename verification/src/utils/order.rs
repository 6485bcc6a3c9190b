//! The order of entries under a sort, and what holds of it.

use crate::text::{bytes_lt, lex_lt};
use crate::text::{lemma_lex_asymmetric, lemma_lex_total, lemma_lex_transitive};
use crate::utils::dir::{DirSorting, EntryKind, EntryView, FeEntry, KindView, SortOrder};
use std::cmp::Ordering;
use vstd::prelude::*;

verus! {

/// Whether `a` comes strictly before `b` under `sorting`.
///
/// A directory comes before a file whatever the sort. Two files are
/// ordered by the field that the key names. Two directories are ordered by
/// name where the key is the name, and not at all otherwise. A descending
/// sort orders two entries of one kind the other way round.
pub open spec fn precedes(a: EntryView, b: EntryView, sorting: DirSorting) -> bool {
    match (a.kind, b.kind) {
        (KindView::Dir, KindView::File(_)) => true,
        (KindView::File(_), KindView::Dir) => false,
        (KindView::File(fa), KindView::File(fb)) => match sorting {
            DirSorting::FileNameAlphabetically(SortOrder::Asc) => lex_lt(a.name, b.name),
            DirSorting::FileNameAlphabetically(SortOrder::Desc) => lex_lt(b.name, a.name),
            DirSorting::FileSize(SortOrder::Asc) => fa.size < fb.size,
            DirSorting::FileSize(SortOrder::Desc) => fb.size < fa.size,
            DirSorting::LastModified(SortOrder::Asc) => fa.modified < fb.modified,
            DirSorting::LastModified(SortOrder::Desc) => fb.modified < fa.modified,
        },
        (KindView::Dir, KindView::Dir) => match sorting {
            DirSorting::FileNameAlphabetically(SortOrder::Asc) => lex_lt(a.name, b.name),
            DirSorting::FileNameAlphabetically(SortOrder::Desc) => lex_lt(b.name, a.name),
            _ => false,
        },
    }
}

/// Whether `sorting` ranks `a` and `b` alike: neither comes before the
/// other.
pub open spec fn ranks_alike(a: EntryView, b: EntryView, sorting: DirSorting) -> bool {
    !precedes(a, b, sorting) && !precedes(b, a, sorting)
}

/// The order of `a` relative to `b` under `sorting`.
pub open spec fn entry_order(a: EntryView, b: EntryView, sorting: DirSorting) -> Ordering {
    if precedes(a, b, sorting) {
        Ordering::Less
    } else if precedes(b, a, sorting) {
        Ordering::Greater
    } else {
        Ordering::Equal
    }
}

/// The order that says the opposite of `order`.
pub open spec fn opposite(order: Ordering) -> Ordering {
    match order {
        Ordering::Less => Ordering::Greater,
        Ordering::Equal => Ordering::Equal,
        Ordering::Greater => Ordering::Less,
    }
}

/// Whether `a` comes strictly before `b` under `sorting`.
pub fn entry_precedes(a: &FeEntry, b: &FeEntry, sorting: &DirSorting) -> (before: bool)
    ensures
        before == precedes(a@, b@, *sorting),
{
    match (&a.entry_type, &b.entry_type) {
        (EntryKind::Dir(_), EntryKind::File(_)) => true,
        (EntryKind::File(_), EntryKind::Dir(_)) => false,
        (EntryKind::File(a_file), EntryKind::File(b_file)) => match sorting {
            DirSorting::FileNameAlphabetically(SortOrder::Asc) => bytes_lt(
                a.name.as_slice(),
                b.name.as_slice(),
            ),
            DirSorting::FileNameAlphabetically(SortOrder::Desc) => bytes_lt(
                b.name.as_slice(),
                a.name.as_slice(),
            ),
            DirSorting::FileSize(SortOrder::Asc) => a_file.size < b_file.size,
            DirSorting::FileSize(SortOrder::Desc) => b_file.size < a_file.size,
            DirSorting::LastModified(SortOrder::Asc) => a_file.modified < b_file.modified,
            DirSorting::LastModified(SortOrder::Desc) => b_file.modified < a_file.modified,
        },
        (EntryKind::Dir(_), EntryKind::Dir(_)) => match sorting {
            DirSorting::FileNameAlphabetically(SortOrder::Asc) => bytes_lt(
                a.name.as_slice(),
                b.name.as_slice(),
            ),
            DirSorting::FileNameAlphabetically(SortOrder::Desc) => bytes_lt(
                b.name.as_slice(),
                a.name.as_slice(),
            ),
            _ => false,
        },
    }
}

/// The order of `a` relative to `b` under `sorting`.
pub fn compare_entries(a: &FeEntry, b: &FeEntry, sorting: &DirSorting) -> (order: Ordering)
    ensures
        order == entry_order(a@, b@, *sorting),
{
    if entry_precedes(a, b, sorting) {
        Ordering::Less
    } else if entry_precedes(b, a, sorting) {
        Ordering::Greater
    } else {
        Ordering::Equal
    }
}

/// No two entries come each before the other, and no entry comes before
/// itself.
pub proof fn lemma_precedes_asymmetric(a: EntryView, b: EntryView, sorting: DirSorting)
    ensures
        !(precedes(a, b, sorting) && precedes(b, a, sorting)),
{
    lemma_lex_asymmetric(a.name, b.name);
}

/// Coming before is transitive.
pub proof fn lemma_precedes_transitive(
    a: EntryView,
    b: EntryView,
    c: EntryView,
    sorting: DirSorting,
)
    requires
        precedes(a, b, sorting),
        precedes(b, c, sorting),
    ensures
        precedes(a, c, sorting),
{
    if a.kind is Dir == c.kind is Dir {
        if lex_lt(a.name, b.name) && lex_lt(b.name, c.name) {
            lemma_lex_transitive(a.name, b.name, c.name);
        }
        if lex_lt(c.name, b.name) && lex_lt(b.name, a.name) {
            lemma_lex_transitive(c.name, b.name, a.name);
        }
    }
}

/// Being ranked alike is transitive, so the entries fall into classes
/// that the sort keeps apart.
pub proof fn lemma_ranks_alike_transitive(
    a: EntryView,
    b: EntryView,
    c: EntryView,
    sorting: DirSorting,
)
    requires
        ranks_alike(a, b, sorting),
        ranks_alike(b, c, sorting),
    ensures
        ranks_alike(a, c, sorting),
{
    lemma_lex_total(a.name, b.name);
    lemma_lex_total(b.name, c.name);
}

/// The order of two entries is antisymmetric: seen from the other side
/// it is the opposite.
pub proof fn lemma_entry_order_antisymmetric(a: EntryView, b: EntryView, sorting: DirSorting)
    ensures
        entry_order(a, b, sorting) == opposite(entry_order(b, a, sorting)),
{
    lemma_precedes_asymmetric(a, b, sorting);
}

/// The order of entries is transitive, both where it is strict and where
/// it ranks entries alike.
pub proof fn lemma_entry_order_transitive(
    a: EntryView,
    b: EntryView,
    c: EntryView,
    sorting: DirSorting,
)
    requires
        entry_order(a, b, sorting) == entry_order(b, c, sorting),
    ensures
        entry_order(a, c, sorting) == entry_order(a, b, sorting),
{
    lemma_precedes_asymmetric(a, b, sorting);
    lemma_precedes_asymmetric(b, c, sorting);
    lemma_precedes_asymmetric(a, c, sorting);
    if precedes(a, b, sorting) {
        lemma_precedes_transitive(a, b, c, sorting);
    } else if precedes(b, a, sorting) {
        lemma_precedes_transitive(c, b, a, sorting);
    } else {
        lemma_ranks_alike_transitive(a, b, c, sorting);
    }
}

/// For two entries of one kind, the order under a sort is the opposite of
/// the order under the same key in the other direction.
pub proof fn lemma_entry_order_reverses(a: EntryView, b: EntryView, sorting: DirSorting)
    requires
        a.is_dir() == b.is_dir(),
    ensures
        entry_order(a, b, sorting) == opposite(entry_order(a, b, sorting.reversed())),
{
    lemma_precedes_asymmetric(a, b, sorting);
}

/// A directory is ordered before a file under every sort.
pub proof fn lemma_dir_before_file(a: EntryView, b: EntryView, sorting: DirSorting)
    requires
        a.is_dir(),
        !b.is_dir(),
    ensures
        entry_order(a, b, sorting) == Ordering::Less,
        entry_order(b, a, sorting) == Ordering::Greater,
{
}

/// Of three entries, the first cannot come before the third unless it
/// comes before the second or the second before the third.
pub proof fn lemma_precedes_splits(a: EntryView, b: EntryView, c: EntryView, sorting: DirSorting)
    requires
        precedes(a, c, sorting),
    ensures
        precedes(a, b, sorting) || precedes(b, c, sorting),
{
    lemma_lex_total(a.name, b.name);
    lemma_lex_total(b.name, c.name);
    if lex_lt(a.name, c.name) && !lex_lt(a.name, b.name) && a.name != b.name {
        lemma_lex_transitive(b.name, a.name, c.name);
    }
    if lex_lt(c.name, a.name) && !lex_lt(b.name, a.name) && a.name != b.name {
        lemma_lex_transitive(c.name, a.name, b.name);
    }
}

} // verus!
