//! Byte strings: the raw form of file names, and the operations the
//! explorer needs on them.

use vstd::prelude::*;

verus! {

/// The first index at or after `i` where `a` and `b` differ, or where one
/// of them ends.
pub open spec fn first_diff(a: Seq<u8>, b: Seq<u8>, i: int) -> int
    decreases a.len() - i,
{
    if 0 <= i < a.len() && i < b.len() && a[i] == b[i] {
        first_diff(a, b, i + 1)
    } else {
        i
    }
}

/// Lexicographic order on byte strings: `a` comes strictly before `b`.
pub open spec fn lex_lt(a: Seq<u8>, b: Seq<u8>) -> bool {
    let k = first_diff(a, b, 0);
    k < b.len() && (k == a.len() || a[k] < b[k])
}

/// `first_diff` stops at the first position where the two strings stop
/// agreeing, and nowhere else.
pub proof fn lemma_first_diff(a: Seq<u8>, b: Seq<u8>, i: int)
    requires
        0 <= i <= a.len(),
        i <= b.len(),
    ensures
        i <= first_diff(a, b, i) <= a.len(),
        first_diff(a, b, i) <= b.len(),
        forall|j: int| i <= j < first_diff(a, b, i) ==> a[j] == b[j],
        first_diff(a, b, i) < a.len() && first_diff(a, b, i) < b.len() ==> a[first_diff(a, b, i)]
            != b[first_diff(a, b, i)],
    decreases a.len() - i,
{
    if i < a.len() && i < b.len() && a[i] == b[i] {
        lemma_first_diff(a, b, i + 1);
    }
}

/// Any position that looks like the first difference is the first
/// difference.
pub proof fn lemma_first_diff_unique(a: Seq<u8>, b: Seq<u8>, k: int)
    requires
        0 <= k <= a.len(),
        k <= b.len(),
        forall|j: int| 0 <= j < k ==> a[j] == b[j],
        k < a.len() && k < b.len() ==> a[k] != b[k],
    ensures
        first_diff(a, b, 0) == k,
{
    lemma_first_diff(a, b, 0);
}

/// No byte string comes before itself.
pub proof fn lemma_lex_irreflexive(a: Seq<u8>)
    ensures
        !lex_lt(a, a),
{
    lemma_first_diff_unique(a, a, a.len() as int);
}

/// Two byte strings are never each before the other.
pub proof fn lemma_lex_asymmetric(a: Seq<u8>, b: Seq<u8>)
    ensures
        !(lex_lt(a, b) && lex_lt(b, a)),
{
    lemma_first_diff(a, b, 0);
    lemma_first_diff_unique(b, a, first_diff(a, b, 0));
}

/// Of two different byte strings one comes before the other.
pub proof fn lemma_lex_total(a: Seq<u8>, b: Seq<u8>)
    ensures
        lex_lt(a, b) || lex_lt(b, a) || a == b,
{
    lemma_first_diff(a, b, 0);
    lemma_first_diff_unique(b, a, first_diff(a, b, 0));
    if !lex_lt(a, b) && !lex_lt(b, a) {
        assert(a =~= b);
    }
}

/// The lexicographic order is transitive.
pub proof fn lemma_lex_transitive(a: Seq<u8>, b: Seq<u8>, c: Seq<u8>)
    requires
        lex_lt(a, b),
        lex_lt(b, c),
    ensures
        lex_lt(a, c),
{
    lemma_first_diff(a, b, 0);
    lemma_first_diff(b, c, 0);
    let k1 = first_diff(a, b, 0);
    let k2 = first_diff(b, c, 0);
    let k = if k1 <= k2 { k1 } else { k2 };
    lemma_first_diff_unique(a, c, k);
}

/// The bytes of an optional byte string.
pub open spec fn opt_bytes_view(bytes: Option<Vec<u8>>) -> Option<Seq<u8>> {
    match bytes {
        Some(bytes) => Some(bytes@),
        None => None,
    }
}

/// Whether `a` and `b` hold the same bytes.
pub fn bytes_eq(a: &[u8], b: &[u8]) -> (same: bool)
    ensures
        same == (a@ == b@),
{
    if a.len() != b.len() {
        return false;
    }
    let mut i: usize = 0;
    while i < a.len()
        invariant
            a.len() == b.len(),
            i <= a.len(),
            forall|j: int| 0 <= j < i ==> a@[j] == b@[j],
        decreases a.len() - i,
    {
        if a[i] != b[i] {
            return false;
        }
        i += 1;
    }
    assert(a@ =~= b@);
    true
}

/// Whether `a` comes strictly before `b` in lexicographic order.
pub fn bytes_lt(a: &[u8], b: &[u8]) -> (before: bool)
    ensures
        before == lex_lt(a@, b@),
{
    let mut i: usize = 0;
    while i < a.len() && i < b.len() && a[i] == b[i]
        invariant
            i <= a.len(),
            i <= b.len(),
            first_diff(a@, b@, 0) == first_diff(a@, b@, i as int),
        decreases a.len() - i,
    {
        i += 1;
    }
    i < b.len() && (i == a.len() || a[i] < b[i])
}

/// A copy of `a`.
pub fn bytes_clone(a: &[u8]) -> (copy: Vec<u8>)
    ensures
        copy@ == a@,
{
    let mut copy: Vec<u8> = Vec::new();
    let mut i: usize = 0;
    while i < a.len()
        invariant
            i <= a.len(),
            copy@ == a@.subrange(0, i as int),
        decreases a.len() - i,
    {
        copy.push(a[i]);
        i += 1;
    }
    assert(a@.subrange(0, a.len() as int) =~= a@);
    copy
}

/// Whether `needle` occurs in `hay` starting at position `i`.
pub open spec fn occurs_at(hay: Seq<u8>, needle: Seq<u8>, i: int) -> bool {
    0 <= i && i + needle.len() <= hay.len() && hay.subrange(i, i + needle.len()) == needle
}

/// Whether `needle` occurs somewhere in `hay` as a contiguous run of
/// bytes. The comparison is byte for byte, so it is sensitive to case.
pub open spec fn contains_bytes(hay: Seq<u8>, needle: Seq<u8>) -> bool {
    exists|i: int| occurs_at(hay, needle, i)
}

/// Whether `needle` occurs in `hay` starting at position `start`.
fn matches_at(hay: &[u8], needle: &[u8], start: usize) -> (found: bool)
    requires
        start + needle@.len() <= hay@.len(),
    ensures
        found == occurs_at(hay@, needle@, start as int),
{
    assert(hay@.len() == hay.len());
    let mut j: usize = 0;
    while j < needle.len()
        invariant
            j <= needle.len(),
            start + needle@.len() <= hay@.len() <= usize::MAX,
            forall|k: int| 0 <= k < j ==> hay@[start + k] == needle@[k],
        decreases needle.len() - j,
    {
        if hay[start + j] != needle[j] {
            assert(hay@.subrange(start as int, start + needle@.len())[j as int] == hay@[start + j]);
            return false;
        }
        j += 1;
    }
    assert(hay@.subrange(start as int, start + needle@.len()) =~= needle@);
    true
}

/// Whether `needle` occurs somewhere in `hay`.
pub fn bytes_contains(hay: &[u8], needle: &[u8]) -> (found: bool)
    ensures
        found == contains_bytes(hay@, needle@),
{
    if needle.len() > hay.len() {
        return false;
    }
    let last: usize = hay.len() - needle.len();
    let mut i: usize = 0;
    while i < last
        invariant
            last + needle@.len() == hay@.len(),
            i <= last,
            forall|k: int| 0 <= k < i ==> !occurs_at(hay@, needle@, k),
        decreases last - i,
    {
        if matches_at(hay, needle, i) {
            return true;
        }
        i += 1;
    }
    matches_at(hay, needle, last)
}

/// The byte `-`, which separates a name from its numeric suffix.
pub const DASH: u8 = 45;

/// The byte `0`, the first of the ten decimal digits.
pub const ZERO: u8 = 48;

/// The decimal digits of `n`, most significant first, without leading
/// zeros.
pub open spec fn decimal(n: nat) -> Seq<u8>
    decreases n,
{
    if n < 10 {
        seq![(ZERO + n) as u8]
    } else {
        decimal(n / 10).push((ZERO + n % 10) as u8)
    }
}

/// The number that a string of decimal digits stands for.
pub open spec fn decimal_value(digits: Seq<u8>) -> nat
    decreases digits.len(),
{
    if digits.len() == 0 {
        0
    } else {
        (decimal_value(digits.drop_last()) * 10 + (digits.last() - ZERO)) as nat
    }
}

/// Reading the digits of a number gives the number back.
pub proof fn lemma_decimal_value(n: nat)
    ensures
        decimal_value(decimal(n)) == n,
        decimal(n).len() >= 1,
    decreases n,
{
    if n < 10 {
        let d = seq![(ZERO + n) as u8];
        assert(d.drop_last() =~= Seq::<u8>::empty());
        assert(decimal_value(d.drop_last()) == 0);
    } else {
        lemma_decimal_value(n / 10);
        let d = decimal(n / 10).push((ZERO + n % 10) as u8);
        assert(d.drop_last() =~= decimal(n / 10));
    }
}

/// Different numbers have different digits.
pub proof fn lemma_decimal_injective(a: nat, b: nat)
    requires
        decimal(a) == decimal(b),
    ensures
        a == b,
{
    lemma_decimal_value(a);
    lemma_decimal_value(b);
}

/// The decimal digits of `n`.
pub fn decimal_digits(n: u128) -> (digits: Vec<u8>)
    ensures
        digits@ == decimal(n as nat),
    decreases n,
{
    if n < 10 {
        let mut digits: Vec<u8> = Vec::new();
        digits.push(ZERO + (n as u8));
        assert(digits@ =~= decimal(n as nat));
        digits
    } else {
        let mut digits = decimal_digits(n / 10);
        digits.push(ZERO + ((n % 10) as u8));
        digits
    }
}

/// The name `base` with the numeric suffix `k`: a dash and the digits of
/// `k` appended.
pub open spec fn suffixed(base: Seq<u8>, k: nat) -> Seq<u8> {
    base.push(DASH) + decimal(k)
}

/// Different suffixes give different names.
pub proof fn lemma_suffixed_injective(base: Seq<u8>, a: nat, b: nat)
    requires
        suffixed(base, a) == suffixed(base, b),
    ensures
        a == b,
{
    let cut = base.len() + 1;
    assert(suffixed(base, a).skip(cut as int) =~= decimal(a));
    assert(suffixed(base, b).skip(cut as int) =~= decimal(b));
    lemma_decimal_injective(a, b);
}

/// The name `base` with the numeric suffix `k`.
pub fn with_suffix(base: &[u8], k: u128) -> (name: Vec<u8>)
    ensures
        name@ == suffixed(base@, k as nat),
{
    let mut name = bytes_clone(base);
    name.push(DASH);
    let mut digits = decimal_digits(k);
    name.append(&mut digits);
    name
}

} // verus!
