//! Names for new entries, kept clear of the names already there.

use crate::text::{bytes_clone, bytes_eq, suffixed, with_suffix};
use crate::text::lemma_suffixed_injective;
use crate::utils::dir::{entry_views, EntryView, FeEntry};
use vstd::prelude::*;

verus! {

/// The names of the entries of a listing, in order.
pub open spec fn entry_names(entries: Seq<EntryView>) -> Seq<Seq<u8>> {
    Seq::new(entries.len(), |i: int| entries[i].name)
}

/// The first number from `k` on whose suffix gives `base` a name that is
/// not among `names`. The search ends at the latest one past the count of
/// `names`, where a free suffix is certain.
pub open spec fn free_suffix(base: Seq<u8>, names: Seq<Seq<u8>>, k: nat) -> nat
    decreases names.len() + 2 - k,
{
    if k <= names.len() + 1 && names.contains(suffixed(base, k)) {
        free_suffix(base, names, k + 1)
    } else {
        k
    }
}

/// The name that a new entry gets where `base` is asked for: `base`
/// itself where no entry has it, and otherwise `base` with the lowest
/// suffix from 2 on that gives a name no entry has.
pub open spec fn valid_new_name(base: Seq<u8>, names: Seq<Seq<u8>>) -> Seq<u8> {
    if names.contains(base) {
        suffixed(base, free_suffix(base, names, 2))
    } else {
        base
    }
}

/// Where every suffix from 2 to `top` gives a name among `names`, there
/// are at least as many names as suffixes.
pub proof fn lemma_suffixes_taken(base: Seq<u8>, names: Seq<Seq<u8>>, top: nat)
    requires
        forall|j: nat| 2 <= j <= top ==> names.contains(#[trigger] suffixed(base, j)),
    ensures
        top <= names.len() + 1,
    decreases top,
{
    if top >= 2 {
        let name = suffixed(base, top);
        assert(names.contains(name));
        let i = choose|i: int| 0 <= i < names.len() && names[i] == name;
        let others = names.remove(i);
        assert forall|j: nat| 2 <= j <= top - 1 implies others.contains(
            #[trigger] suffixed(base, j),
        ) by {
            let other = suffixed(base, j);
            assert(names.contains(other));
            let m = choose|m: int| 0 <= m < names.len() && names[m] == other;
            if m == i {
                lemma_suffixed_injective(base, j, top);
            } else if m < i {
                assert(others[m] == other);
            } else {
                assert(others[m - 1] == other);
            }
        }
        lemma_suffixes_taken(base, others, (top - 1) as nat);
    }
}

/// The free suffix found from `k` on is free, and no suffix between `k`
/// and it is, provided that every suffix from 2 up to `k` is taken.
pub proof fn lemma_free_suffix(base: Seq<u8>, names: Seq<Seq<u8>>, k: nat)
    requires
        k >= 2,
        forall|j: nat| 2 <= j < k ==> names.contains(#[trigger] suffixed(base, j)),
    ensures
        free_suffix(base, names, k) >= k,
        !names.contains(suffixed(base, free_suffix(base, names, k))),
        forall|j: nat|
            2 <= j < free_suffix(base, names, k) ==> names.contains(#[trigger] suffixed(base, j)),
    decreases names.len() + 2 - k,
{
    if names.contains(suffixed(base, k)) {
        lemma_suffixes_taken(base, names, k);
        lemma_free_suffix(base, names, k + 1);
    }
}

/// The name that a new entry gets is one that no entry has. Where `base`
/// is taken, its suffix is the lowest free one: every suffix from 2 up to
/// it gives a name that an entry has, so repeated collisions count up
/// from 2 without a gap.
pub proof fn lemma_valid_new_name(base: Seq<u8>, names: Seq<Seq<u8>>)
    ensures
        !names.contains(valid_new_name(base, names)),
        !names.contains(base) ==> valid_new_name(base, names) == base,
        names.contains(base) ==> {
            let k = free_suffix(base, names, 2);
            &&& k >= 2
            &&& valid_new_name(base, names) == suffixed(base, k)
            &&& forall|j: nat| 2 <= j < k ==> names.contains(#[trigger] suffixed(base, j))
        },
{
    lemma_free_suffix(base, names, 2);
}

/// Whether an entry of the listing has the name `name`.
pub fn is_name_taken(name: &[u8], entries: &Vec<FeEntry>) -> (taken: bool)
    ensures
        taken == entry_names(entry_views(entries@)).contains(name@),
{
    let ghost names = entry_names(entry_views(entries@));
    let mut i: usize = 0;
    while i < entries.len()
        invariant
            i <= entries.len(),
            names == entry_names(entry_views(entries@)),
            forall|j: int| 0 <= j < i ==> names[j] != name@,
        decreases entries.len() - i,
    {
        if bytes_eq(entries[i].name.as_slice(), name) {
            assert(names[i as int] == name@);
            return true;
        }
        i += 1;
    }
    false
}

/// A name for a new entry that is clear of the names in the listing:
/// `new_file_name` itself where it is free, and otherwise
/// `new_file_name` with `-2` appended, or `-3` where that is taken too,
/// and so on.
pub fn get_valid_new_file(new_file_name: &[u8], entries: &Vec<FeEntry>) -> (valid_name: Vec<u8>)
    ensures
        valid_name@ == valid_new_name(new_file_name@, entry_names(entry_views(entries@))),
        !entry_names(entry_views(entries@)).contains(valid_name@),
{
    let ghost names = entry_names(entry_views(entries@));
    proof {
        lemma_valid_new_name(new_file_name@, names);
    }
    if !is_name_taken(new_file_name, entries) {
        return bytes_clone(new_file_name);
    }
    let mut counter: u128 = 2;
    let mut valid_name = with_suffix(new_file_name, counter);
    assert(names.len() == entries.len());
    while is_name_taken(valid_name.as_slice(), entries)
        invariant
            names == entry_names(entry_views(entries@)),
            names.len() <= usize::MAX,
            2 <= counter <= names.len() + 2,
            valid_name@ == suffixed(new_file_name@, counter as nat),
            free_suffix(new_file_name@, names, 2) == free_suffix(
                new_file_name@,
                names,
                counter as nat,
            ),
            forall|j: nat|
                2 <= j < counter ==> names.contains(#[trigger] suffixed(new_file_name@, j)),
        decreases names.len() + 2 - counter,
    {
        proof {
            lemma_suffixes_taken(new_file_name@, names, counter as nat);
        }
        counter += 1;
        valid_name = with_suffix(new_file_name, counter);
    }
    valid_name
}

} // verus!
