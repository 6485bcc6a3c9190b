//! Listings in order: the sorted form of a listing, and what a search
//! shows of it.

use crate::text::{bytes_contains, contains_bytes, occurs_at};
use crate::utils::dir::{entry_views, DirSorting, EntryView, FeEntry};
use crate::seqs::{lemma_filter_insert, lemma_filter_none};
use crate::utils::order::{entry_precedes, precedes, ranks_alike};
use crate::utils::order::{lemma_precedes_asymmetric, lemma_precedes_splits};
use crate::utils::order::lemma_ranks_alike_transitive;
use vstd::prelude::*;

verus! {

/// Whether a listing is in order: no entry comes before one that stands
/// ahead of it.
pub open spec fn ordered(entries: Seq<EntryView>, sorting: DirSorting) -> bool {
    forall|i: int, j: int|
        0 <= i < j < entries.len() ==> !precedes(
            #[trigger] entries[j],
            #[trigger] entries[i],
            sorting,
        )
}

/// Whether every directory of a listing stands ahead of every file.
pub open spec fn dirs_first(entries: Seq<EntryView>) -> bool {
    forall|i: int, j: int|
        0 <= i < j < entries.len() && (#[trigger] entries[j]).is_dir() ==> (
        #[trigger] entries[i]).is_dir()
}

/// Where `entry` goes into the ordered listing `into`: behind the
/// entries at its head that come before it.
pub open spec fn insert_point(entry: EntryView, into: Seq<EntryView>, sorting: DirSorting) -> nat
    decreases into.len(),
{
    if into.len() > 0 && precedes(into.first(), entry, sorting) {
        1 + insert_point(entry, into.drop_first(), sorting)
    } else {
        0
    }
}

/// The listing `sorted` with the entries of `rest` inserted, the last
/// one first, each at its insert point.
pub open spec fn sorted_onto(
    rest: Seq<EntryView>,
    sorted: Seq<EntryView>,
    sorting: DirSorting,
) -> Seq<EntryView>
    decreases rest.len(),
{
    if rest.len() == 0 {
        sorted
    } else {
        sorted_onto(
            rest.drop_last(),
            sorted.insert(insert_point(rest.last(), sorted, sorting) as int, rest.last()),
            sorting,
        )
    }
}

/// The listing in order under `sorting`. Entries that the sort ranks
/// alike keep the order in which they were listed.
pub open spec fn sorted_entries(entries: Seq<EntryView>, sorting: DirSorting) -> Seq<EntryView> {
    sorted_onto(entries, Seq::empty(), sorting)
}

/// The insert point lies within the listing, with the entries that come
/// before `entry` ahead of it and an entry that does not right at it.
pub proof fn lemma_insert_point(entry: EntryView, into: Seq<EntryView>, sorting: DirSorting)
    ensures
        insert_point(entry, into, sorting) <= into.len(),
        forall|i: int|
            0 <= i < insert_point(entry, into, sorting) ==> precedes(
                #[trigger] into[i],
                entry,
                sorting,
            ),
        insert_point(entry, into, sorting) < into.len() ==> !precedes(
            into[insert_point(entry, into, sorting) as int],
            entry,
            sorting,
        ),
    decreases into.len(),
{
    if into.len() > 0 && precedes(into.first(), entry, sorting) {
        let tail = into.drop_first();
        lemma_insert_point(entry, tail, sorting);
        let p = insert_point(entry, tail, sorting) as int;
        assert forall|i: int| 0 <= i < p + 1 implies precedes(
            #[trigger] into[i],
            entry,
            sorting,
        ) by {
            if i > 0 {
                assert(into[i] == tail[i - 1]);
            }
        }
        if p + 1 < into.len() {
            assert(into[p + 1] == tail[p]);
        }
    }
}

/// Inserting an entry at its insert point keeps an ordered listing
/// ordered.
pub proof fn lemma_insert_keeps_ordered(entry: EntryView, into: Seq<EntryView>, sorting: DirSorting)
    requires
        ordered(into, sorting),
    ensures
        ordered(into.insert(insert_point(entry, into, sorting) as int, entry), sorting),
{
    lemma_insert_point(entry, into, sorting);
    let p = insert_point(entry, into, sorting) as int;
    let out = into.insert(p, entry);
    assert forall|i: int, j: int| 0 <= i < j < out.len() implies !precedes(
        #[trigger] out[j],
        #[trigger] out[i],
        sorting,
    ) by {
        if j == p {
            assert(out[i] == into[i]);
            lemma_precedes_asymmetric(into[i], entry, sorting);
        } else if i == p {
            assert(out[j] == into[j - 1]);
            if j - 1 > p {
                assert(!precedes(into[j - 1], into[p], sorting));
                if precedes(into[j - 1], entry, sorting) {
                    lemma_precedes_splits(into[j - 1], into[p], entry, sorting);
                }
            }
        } else {
            let oi = if i < p { i } else { i - 1 };
            let oj = if j < p { j } else { j - 1 };
            assert(out[i] == into[oi]);
            assert(out[j] == into[oj]);
        }
    }
}

/// Sorting onto an ordered listing gives an ordered listing that holds
/// the entries of both.
pub proof fn lemma_sorted_onto(rest: Seq<EntryView>, sorted: Seq<EntryView>, sorting: DirSorting)
    requires
        ordered(sorted, sorting),
    ensures
        ordered(sorted_onto(rest, sorted, sorting), sorting),
        sorted_onto(rest, sorted, sorting).to_multiset() == rest.to_multiset().add(
            sorted.to_multiset(),
        ),
        sorted_onto(rest, sorted, sorting).len() == rest.len() + sorted.len(),
    decreases rest.len(),
{
    broadcast use vstd::seq_lib::group_to_multiset_ensures;

    if rest.len() == 0 {
        assert(rest.to_multiset() =~= vstd::multiset::Multiset::empty());
        assert(rest.to_multiset().add(sorted.to_multiset()) =~= sorted.to_multiset());
    } else {
        let entry = rest.last();
        let p = insert_point(entry, sorted, sorting) as int;
        lemma_insert_point(entry, sorted, sorting);
        lemma_insert_keeps_ordered(entry, sorted, sorting);
        lemma_sorted_onto(rest.drop_last(), sorted.insert(p, entry), sorting);
        assert(rest.drop_last().push(entry) =~= rest);
        assert(rest.drop_last().to_multiset().add(sorted.insert(p, entry).to_multiset())
            =~= rest.to_multiset().add(sorted.to_multiset()));
    }
}

/// A sorted listing is in order, and it is a rearrangement of what was
/// listed: it holds every entry as often as the listing does.
pub proof fn lemma_sorted_entries(entries: Seq<EntryView>, sorting: DirSorting)
    ensures
        ordered(sorted_entries(entries, sorting), sorting),
        sorted_entries(entries, sorting).to_multiset() == entries.to_multiset(),
        sorted_entries(entries, sorting).len() == entries.len(),
{
    broadcast use vstd::seq_lib::group_to_multiset_ensures;

    lemma_sorted_onto(entries, Seq::empty(), sorting);
    assert(Seq::<EntryView>::empty().to_multiset() =~= vstd::multiset::Multiset::empty());
    assert(entries.to_multiset().add(Seq::<EntryView>::empty().to_multiset())
        =~= entries.to_multiset());
}

/// Sorting onto a listing keeps the entries that rank like `like` in
/// the order in which they stood: those of `rest` ahead of those of
/// `sorted`.
pub proof fn lemma_sorted_onto_is_stable(
    rest: Seq<EntryView>,
    sorted: Seq<EntryView>,
    sorting: DirSorting,
    like: EntryView,
)
    ensures
        sorted_onto(rest, sorted, sorting).filter(|e: EntryView| ranks_alike(e, like, sorting))
            == rest.filter(|e: EntryView| ranks_alike(e, like, sorting)) + sorted.filter(
            |e: EntryView| ranks_alike(e, like, sorting),
        ),
    decreases rest.len(),
{
    reveal(Seq::filter);
    let alike = |e: EntryView| ranks_alike(e, like, sorting);
    if rest.len() == 0 {
        assert(rest.filter(alike) + sorted.filter(alike) =~= sorted.filter(alike));
    } else {
        let entry = rest.last();
        let at = insert_point(entry, sorted, sorting) as int;
        lemma_insert_point(entry, sorted, sorting);
        lemma_filter_insert(sorted, at, entry, alike);
        lemma_sorted_onto_is_stable(rest.drop_last(), sorted.insert(at, entry), sorting, like);
        if alike(entry) {
            // The entries ahead of the insert point come strictly before
            // the entry, so none of them ranks like it.
            let ahead = sorted.take(at);
            assert forall|i: int| 0 <= i < ahead.len() implies !alike(#[trigger] ahead[i]) by {
                assert(ahead[i] == sorted[i]);
                assert(precedes(sorted[i], entry, sorting));
                if alike(ahead[i]) {
                    lemma_ranks_alike_transitive(ahead[i], like, entry, sorting);
                }
            }
            lemma_filter_none(ahead, alike);
            assert(rest.filter(alike) =~= rest.drop_last().filter(alike).push(entry));
            assert(rest.drop_last().filter(alike) + (Seq::<EntryView>::empty() + seq![entry]
                + sorted.skip(at).filter(alike)) =~= rest.drop_last().filter(alike).push(entry)
                + sorted.skip(at).filter(alike));
            assert(sorted.filter(alike) =~= sorted.skip(at).filter(alike));
        } else {
            assert(sorted.take(at).filter(alike) + Seq::<EntryView>::empty() + sorted.skip(
                at,
            ).filter(alike) =~= sorted.filter(alike));
        }
    }
}

/// Sorting is stable: the entries that the sort ranks alike stand in the
/// sorted listing in the order in which they were listed. Together with
/// the order of the sorted listing this fixes the place of every entry.
pub proof fn lemma_sorted_is_stable(entries: Seq<EntryView>, sorting: DirSorting, like: EntryView)
    ensures
        sorted_entries(entries, sorting).filter(|e: EntryView| ranks_alike(e, like, sorting))
            == entries.filter(|e: EntryView| ranks_alike(e, like, sorting)),
{
    reveal(Seq::filter);
    let alike = |e: EntryView| ranks_alike(e, like, sorting);
    lemma_sorted_onto_is_stable(entries, Seq::empty(), sorting, like);
    assert(entries.filter(alike) + Seq::<EntryView>::empty().filter(alike) =~= entries.filter(
        alike,
    ));
}

/// In a listing that is in order, every directory stands ahead of every
/// file, whatever the sort.
pub proof fn lemma_ordered_dirs_first(entries: Seq<EntryView>, sorting: DirSorting)
    requires
        ordered(entries, sorting),
    ensures
        dirs_first(entries),
{
    assert forall|i: int, j: int|
        0 <= i < j < entries.len() && (#[trigger] entries[j]).is_dir() implies (
    #[trigger] entries[i]).is_dir() by {
        assert(!precedes(entries[j], entries[i], sorting));
    }
}

/// A listing that is in order is its own sorted form.
pub proof fn lemma_sorted_onto_ordered(
    rest: Seq<EntryView>,
    sorted: Seq<EntryView>,
    sorting: DirSorting,
)
    requires
        ordered(rest + sorted, sorting),
    ensures
        sorted_onto(rest, sorted, sorting) == rest + sorted,
    decreases rest.len(),
{
    if rest.len() == 0 {
        assert(rest + sorted =~= sorted);
    } else {
        let entry = rest.last();
        let all = rest + sorted;
        let at = rest.len() - 1;
        assert(all[at] == entry);
        if sorted.len() > 0 && precedes(sorted.first(), entry, sorting) {
            assert(all[at + 1] == sorted.first());
        }
        assert(insert_point(entry, sorted, sorting) == 0);
        assert(rest.drop_last() + sorted.insert(0, entry) =~= all);
        lemma_sorted_onto_ordered(rest.drop_last(), sorted.insert(0, entry), sorting);
    }
}

/// Sorting a sorted listing changes nothing.
pub proof fn lemma_sorted_twice(entries: Seq<EntryView>, sorting: DirSorting)
    ensures
        sorted_entries(sorted_entries(entries, sorting), sorting) == sorted_entries(
            entries,
            sorting,
        ),
{
    lemma_sorted_entries(entries, sorting);
    let once = sorted_entries(entries, sorting);
    assert(once + Seq::<EntryView>::empty() =~= once);
    lemma_sorted_onto_ordered(once, Seq::empty(), sorting);
}

/// The listing with `entry` inserted at its insert point.
pub open spec fn inserted(into: Seq<EntryView>, entry: EntryView, sorting: DirSorting) -> Seq<
    EntryView,
> {
    into.insert(insert_point(entry, into, sorting) as int, entry)
}

/// Two listings merged into one: at each step the first entry of the
/// left listing is taken, unless the first entry of the right listing
/// comes strictly before it.
pub open spec fn merged(left: Seq<EntryView>, right: Seq<EntryView>, sorting: DirSorting) -> Seq<
    EntryView,
>
    decreases left.len() + right.len(),
{
    if left.len() == 0 {
        right
    } else if right.len() == 0 {
        left
    } else if precedes(right.first(), left.first(), sorting) {
        seq![right.first()] + merged(left, right.drop_first(), sorting)
    } else {
        seq![left.first()] + merged(left.drop_first(), right, sorting)
    }
}

/// An entry is inserted either ahead of the listing or behind its first
/// entry, into the rest.
pub proof fn lemma_inserted_unfolds(into: Seq<EntryView>, entry: EntryView, sorting: DirSorting)
    ensures
        inserted(into, entry, sorting) == (if into.len() > 0 && precedes(
            into.first(),
            entry,
            sorting,
        ) {
            seq![into.first()] + inserted(into.drop_first(), entry, sorting)
        } else {
            seq![entry] + into
        }),
{
    lemma_insert_point(entry, into, sorting);
    if into.len() > 0 && precedes(into.first(), entry, sorting) {
        lemma_insert_point(entry, into.drop_first(), sorting);
        assert(inserted(into, entry, sorting) =~= seq![into.first()] + inserted(
            into.drop_first(),
            entry,
            sorting,
        ));
    } else {
        assert(inserted(into, entry, sorting) =~= seq![entry] + into);
    }
}

/// Inserting into the left listing before a merge gives what inserting
/// into the merged listing gives.
pub proof fn lemma_inserted_merged(
    left: Seq<EntryView>,
    right: Seq<EntryView>,
    entry: EntryView,
    sorting: DirSorting,
)
    ensures
        inserted(merged(left, right, sorting), entry, sorting) == merged(
            inserted(left, entry, sorting),
            right,
            sorting,
        ),
    decreases left.len() + right.len(),
{
    let both = merged(left, right, sorting);
    let widened = inserted(left, entry, sorting);
    lemma_inserted_unfolds(left, entry, sorting);
    lemma_inserted_unfolds(both, entry, sorting);
    if right.len() == 0 {
        assert(widened.len() > 0);
    } else if left.len() == 0 {
        // The entry alone is merged with the right listing.
        let r = right.first();
        assert(widened =~= seq![entry]);
        assert(widened.first() == entry);
        assert(widened.drop_first() =~= Seq::<EntryView>::empty());
        if precedes(r, entry, sorting) {
            lemma_inserted_merged(left, right.drop_first(), entry, sorting);
            lemma_inserted_unfolds(left, entry, sorting);
            assert(merged(left, right.drop_first(), sorting) == right.drop_first());
            assert(both.first() == r);
            assert(both.drop_first() == right.drop_first());
        } else {
            assert(merged(widened.drop_first(), right, sorting) == right);
        }
    } else {
        let l = left.first();
        let r = right.first();
        if precedes(r, l, sorting) {
            let rest = merged(left, right.drop_first(), sorting);
            assert(both.first() == r);
            assert(both.drop_first() =~= rest);
            if precedes(r, entry, sorting) {
                lemma_inserted_merged(left, right.drop_first(), entry, sorting);
                assert(widened.len() > 0);
                if precedes(l, entry, sorting) {
                    assert(widened.first() == l);
                } else {
                    assert(widened.first() == entry);
                }
                assert(precedes(r, widened.first(), sorting));
            } else {
                if precedes(l, entry, sorting) {
                    crate::utils::order::lemma_precedes_transitive(r, l, entry, sorting);
                }
                assert(widened.first() == entry);
                assert(widened.drop_first() =~= left);
            }
        } else {
            let rest = merged(left.drop_first(), right, sorting);
            assert(both.first() == l);
            assert(both.drop_first() =~= rest);
            if precedes(l, entry, sorting) {
                lemma_inserted_merged(left.drop_first(), right, entry, sorting);
                assert(widened.first() == l);
                assert(widened.drop_first() =~= inserted(left.drop_first(), entry, sorting));
            } else {
                if precedes(r, entry, sorting) {
                    lemma_precedes_splits(r, l, entry, sorting);
                }
                assert(widened.first() == entry);
                assert(widened.drop_first() =~= left);
            }
        }
    }
}

/// Sorting onto the left listing before a merge gives what sorting onto
/// the merged listing gives.
pub proof fn lemma_sorted_onto_merged(
    rest: Seq<EntryView>,
    left: Seq<EntryView>,
    right: Seq<EntryView>,
    sorting: DirSorting,
)
    ensures
        sorted_onto(rest, merged(left, right, sorting), sorting) == merged(
            sorted_onto(rest, left, sorting),
            right,
            sorting,
        ),
    decreases rest.len(),
{
    if rest.len() > 0 {
        lemma_inserted_merged(left, right, rest.last(), sorting);
        lemma_sorted_onto_merged(
            rest.drop_last(),
            inserted(left, rest.last(), sorting),
            right,
            sorting,
        );
    }
}

/// Sorting two listings onto a third, one behind the other, is sorting
/// the second onto it and the first onto what that gives.
pub proof fn lemma_sorted_onto_concat(
    first: Seq<EntryView>,
    second: Seq<EntryView>,
    sorted: Seq<EntryView>,
    sorting: DirSorting,
)
    ensures
        sorted_onto(first + second, sorted, sorting) == sorted_onto(
            first,
            sorted_onto(second, sorted, sorting),
            sorting,
        ),
    decreases second.len(),
{
    if second.len() == 0 {
        assert(first + second =~= first);
    } else {
        let all = first + second;
        assert(all.last() == second.last());
        assert(all.drop_last() =~= first + second.drop_last());
        lemma_sorted_onto_concat(
            first,
            second.drop_last(),
            inserted(sorted, second.last(), sorting),
            sorting,
        );
    }
}

/// The sorted form of two listings, one behind the other, is the merge
/// of their sorted forms.
pub proof fn lemma_sorted_concat(first: Seq<EntryView>, second: Seq<EntryView>, sorting: DirSorting)
    ensures
        sorted_entries(first + second, sorting) == merged(
            sorted_entries(first, sorting),
            sorted_entries(second, sorting),
            sorting,
        ),
{
    let right = sorted_entries(second, sorting);
    lemma_sorted_onto_concat(first, second, Seq::empty(), sorting);
    assert(merged(Seq::empty(), right, sorting) == right);
    lemma_sorted_onto_merged(first, Seq::empty(), right, sorting);
}

/// A listing of one entry or none is its own sorted form.
pub proof fn lemma_sorted_short(entries: Seq<EntryView>, sorting: DirSorting)
    requires
        entries.len() <= 1,
    ensures
        sorted_entries(entries, sorting) == entries,
{
    if entries.len() == 1 {
        assert(entries.drop_last() =~= Seq::<EntryView>::empty());
        assert(Seq::<EntryView>::empty().insert(0, entries.last()) =~= entries);
        assert(sorted_onto(entries.drop_last(), entries, sorting) == entries);
    } else {
        assert(entries =~= Seq::<EntryView>::empty());
    }
}

/// The entries of `entries` in the opposite order.
fn reversed(entries: Vec<FeEntry>) -> (turned: Vec<FeEntry>)
    ensures
        entry_views(turned@) == entry_views(entries@).reverse(),
{
    let ghost all = entry_views(entries@);
    let mut rest = entries;
    let mut turned: Vec<FeEntry> = Vec::new();
    while rest.len() > 0
        invariant
            rest.len() <= all.len(),
            entry_views(rest@) == all.take(rest.len() as int),
            turned.len() == all.len() - rest.len(),
            forall|i: int|
                0 <= i < turned.len() ==> (#[trigger] turned@[i])@ == all[all.len() - 1 - i],
        decreases rest.len(),
    {
        let ghost before = entry_views(rest@);
        let entry = rest.pop().unwrap();
        assert(entry@ == before[before.len() - 1]);
        assert(entry_views(rest@) =~= all.take(rest.len() as int));
        turned.push(entry);
    }
    assert(entry_views(turned@) =~= all.reverse());
    turned
}

/// The merge of two listings: at each step the first entry of the left
/// listing is taken, unless the first entry of the right listing comes
/// strictly before it.
fn merge(left: Vec<FeEntry>, right: Vec<FeEntry>, sorting: &DirSorting) -> (out: Vec<FeEntry>)
    ensures
        entry_views(out@) == merged(entry_views(left@), entry_views(right@), *sorting),
{
    let ghost whole = merged(entry_views(left@), entry_views(right@), *sorting);
    let ghost mut ahead_left = entry_views(left@);
    let ghost mut ahead_right = entry_views(right@);
    // The listings are turned round, so that their first entries are the
    // ones that can be taken off.
    let mut left = reversed(left);
    let mut right = reversed(right);
    let mut out: Vec<FeEntry> = Vec::new();
    assert(entry_views(out@) + whole =~= whole);
    while left.len() > 0 || right.len() > 0
        invariant
            entry_views(left@) == ahead_left.reverse(),
            entry_views(right@) == ahead_right.reverse(),
            entry_views(out@) + merged(ahead_left, ahead_right, *sorting) == whole,
        decreases left.len() + right.len(),
    {
        let ghost done = entry_views(out@);
        let ghost turned_left = entry_views(left@);
        let ghost turned_right = entry_views(right@);
        proof {
            assert(ahead_left.len() == turned_left.len());
            assert(ahead_right.len() == turned_right.len());
            if left.len() > 0 {
                assert(turned_left[turned_left.len() - 1] == ahead_left.first());
                assert(turned_left.drop_last() =~= ahead_left.drop_first().reverse());
            }
            if right.len() > 0 {
                assert(turned_right[turned_right.len() - 1] == ahead_right.first());
                assert(turned_right.drop_last() =~= ahead_right.drop_first().reverse());
            }
        }
        let from_right = if left.len() == 0 {
            true
        } else if right.len() == 0 {
            false
        } else {
            entry_precedes(&right[right.len() - 1], &left[left.len() - 1], sorting)
        };
        if from_right {
            let entry = right.pop().unwrap();
            out.push(entry);
            proof {
                assert(entry@ == ahead_right.first());
                assert(entry_views(right@) =~= turned_right.drop_last());
                assert(entry_views(out@) =~= done.push(ahead_right.first()));
                if ahead_left.len() == 0 {
                    assert(merged(ahead_left, ahead_right.drop_first(), *sorting)
                        == ahead_right.drop_first());
                    assert(ahead_right =~= seq![ahead_right.first()] + ahead_right.drop_first());
                }
                assert(done.push(ahead_right.first()) + merged(
                    ahead_left,
                    ahead_right.drop_first(),
                    *sorting,
                ) =~= done + merged(ahead_left, ahead_right, *sorting));
                ahead_right = ahead_right.drop_first();
            }
        } else {
            let entry = left.pop().unwrap();
            out.push(entry);
            proof {
                assert(entry@ == ahead_left.first());
                assert(entry_views(left@) =~= turned_left.drop_last());
                assert(entry_views(out@) =~= done.push(ahead_left.first()));
                if ahead_right.len() == 0 {
                    assert(ahead_left =~= seq![ahead_left.first()] + ahead_left.drop_first());
                    assert(merged(ahead_left.drop_first(), ahead_right, *sorting)
                        =~= ahead_left.drop_first());
                }
                assert(done.push(ahead_left.first()) + merged(
                    ahead_left.drop_first(),
                    ahead_right,
                    *sorting,
                ) =~= done + merged(ahead_left, ahead_right, *sorting));
                ahead_left = ahead_left.drop_first();
            }
        }
    }
    proof {
        assert(ahead_left.len() == 0 && ahead_right.len() == 0);
        assert(entry_views(out@) + merged(ahead_left, ahead_right, *sorting) =~= entry_views(out@));
    }
    out
}

/// Puts a listing in order under `sorting`. Entries that the sort ranks
/// alike keep the order in which they were listed, and every directory
/// ends up ahead of every file.
pub fn sort_entries(entries: Vec<FeEntry>, sorting: &DirSorting) -> (sorted: Vec<FeEntry>)
    ensures
        entry_views(sorted@) == sorted_entries(entry_views(entries@), *sorting),
        ordered(entry_views(sorted@), *sorting),
        dirs_first(entry_views(sorted@)),
        entry_views(sorted@).to_multiset() == entry_views(entries@).to_multiset(),
        sorted.len() == entries.len(),
    decreases entries.len(),
{
    let ghost listed = entry_views(entries@);
    proof {
        lemma_sorted_entries(listed, *sorting);
        lemma_ordered_dirs_first(sorted_entries(listed, *sorting), *sorting);
    }
    if entries.len() <= 1 {
        proof {
            lemma_sorted_short(listed, *sorting);
        }
        return entries;
    }
    let mut first = entries;
    let half: usize = first.len() / 2;
    let second = first.split_off(half);
    proof {
        assert(entry_views(first@) + entry_views(second@) =~= listed);
        lemma_sorted_concat(entry_views(first@), entry_views(second@), *sorting);
    }
    let first = sort_entries(first, sorting);
    let second = sort_entries(second, sorting);
    let sorted = merge(first, second, sorting);
    assert(entry_views(sorted@).len() == sorted.len());
    sorted
}

/// The entries of a listing whose names hold `text`, in the order of the
/// listing. The match is byte for byte, so it is sensitive to case.
pub open spec fn displayed(entries: Seq<EntryView>, text: Seq<u8>) -> Seq<EntryView> {
    entries.filter(|entry: EntryView| contains_bytes(entry.name, text))
}

/// Every name holds the empty text, so a search for it shows the whole
/// listing.
pub proof fn lemma_displayed_all(entries: Seq<EntryView>)
    ensures
        displayed(entries, Seq::empty()) == entries,
{
    let shown = |entry: EntryView| contains_bytes(entry.name, Seq::<u8>::empty());
    assert forall|i: int| 0 <= i < entries.len() implies shown(#[trigger] entries[i]) by {
        assert(entries[i].name.subrange(0, 0) =~= Seq::<u8>::empty());
        assert(occurs_at(entries[i].name, Seq::empty(), 0));
    }
    crate::seqs::lemma_filter_all(entries, shown);
}

/// Leaving entries out of a listing that is in order leaves it in
/// order.
pub proof fn lemma_filter_keeps_ordered(
    entries: Seq<EntryView>,
    keep: spec_fn(EntryView) -> bool,
    sorting: DirSorting,
)
    requires
        ordered(entries, sorting),
    ensures
        ordered(entries.filter(keep), sorting),
    decreases entries.len(),
{
    reveal(Seq::filter);
    if entries.len() > 0 {
        let head = entries.drop_last();
        assert(ordered(head, sorting)) by {
            assert forall|i: int, j: int| 0 <= i < j < head.len() implies !precedes(
                #[trigger] head[j],
                #[trigger] head[i],
                sorting,
            ) by {
                assert(head[i] == entries[i] && head[j] == entries[j]);
            }
        }
        lemma_filter_keeps_ordered(head, keep, sorting);
        let kept = head.filter(keep);
        if keep(entries.last()) {
            let out = kept.push(entries.last());
            assert forall|i: int, j: int| 0 <= i < j < out.len() implies !precedes(
                #[trigger] out[j],
                #[trigger] out[i],
                sorting,
            ) by {
                if j == kept.len() {
                    assert(kept.contains(kept[i]));
                    head.lemma_filter_contains_rev(keep, kept[i]);
                    let k = choose|k: int| 0 <= k < head.len() && head[k] == kept[i];
                    assert(entries[k] == kept[i]);
                    assert(!precedes(entries[entries.len() - 1], entries[k], sorting));
                } else {
                    assert(out[i] == kept[i] && out[j] == kept[j]);
                }
            }
        }
    }
}

/// What a search shows of a listing that is in order is in order, with
/// every directory ahead of every file.
pub proof fn lemma_displayed_ordered(entries: Seq<EntryView>, text: Seq<u8>, sorting: DirSorting)
    requires
        ordered(entries, sorting),
    ensures
        ordered(displayed(entries, text), sorting),
        dirs_first(displayed(entries, text)),
{
    lemma_filter_keeps_ordered(
        entries,
        |entry: EntryView| contains_bytes(entry.name, text),
        sorting,
    );
    lemma_ordered_dirs_first(displayed(entries, text), sorting);
}

/// The entries of a listing whose names hold `text`, in the order of the
/// listing.
pub fn filter_entries(entries: &Vec<FeEntry>, text: &[u8]) -> (shown: Vec<FeEntry>)
    ensures
        entry_views(shown@) == displayed(entry_views(entries@), text@),
{
    let ghost all = entry_views(entries@);
    let ghost keep = |entry: EntryView| contains_bytes(entry.name, text@);
    let mut shown: Vec<FeEntry> = Vec::new();
    let mut i: usize = 0;
    proof {
        reveal(Seq::filter);
        assert(all.take(0) =~= Seq::empty());
        assert(entry_views(shown@) =~= all.take(0).filter(keep));
    }
    while i < entries.len()
        invariant
            i <= entries.len(),
            all == entry_views(entries@),
            keep == |entry: EntryView| contains_bytes(entry.name, text@),
            entry_views(shown@) == all.take(i as int).filter(keep),
        decreases entries.len() - i,
    {
        let ghost before = entry_views(shown@);
        proof {
            assert(all.take(i + 1) =~= all.take(i as int).push(all[i as int]));
            all.take(i as int).lemma_filter_push(all[i as int], keep);
        }
        if bytes_contains(entries[i].name.as_slice(), text) {
            shown.push(entries[i].clone());
            assert(entry_views(shown@) =~= before.push(all[i as int]));
        }
        i += 1;
    }
    assert(all.take(i as int) =~= all);
    shown
}

} // verus!
