//! Searching in character sequences.

use vstd::prelude::*;
use vstd::string::*;

verus! {

/// `needle` occurs in `hay` as a contiguous run of characters.
pub open spec fn is_substring(needle: Seq<char>, hay: Seq<char>) -> bool {
    exists|k: int| occurs_at(needle, hay, k)
}

/// `needle` occurs in `hay` starting at index `k`.
pub open spec fn occurs_at(needle: Seq<char>, hay: Seq<char>, k: int) -> bool {
    &&& 0 <= k
    &&& k + needle.len() <= hay.len()
    &&& hay.subrange(k, k + needle.len()) == needle
}

/// `text` holds no line break.
pub open spec fn has_no_break(text: Seq<char>) -> bool {
    forall|i: int| 0 <= i < text.len() ==> text[i] != '\n'
}

/// Least index at or after `from` at which `s` holds `c`, or `s.len()` when
/// there is none.
pub open spec fn position(s: Seq<char>, c: char, from: int) -> int
    decreases s.len() - from,
{
    if from < 0 || from >= s.len() {
        s.len() as int
    } else if s[from] == c {
        from
    } else {
        position(s, c, from + 1)
    }
}

/// `position` names the first occurrence: it lies between `from` and the
/// end, nothing before it is `c`, and where it is an index it holds `c`.
pub proof fn lemma_position_is_first(s: Seq<char>, c: char, from: int)
    requires
        0 <= from <= s.len(),
    ensures
        from <= position(s, c, from) <= s.len(),
        position(s, c, from) < s.len() ==> s[position(s, c, from)] == c,
        forall|j: int| from <= j < position(s, c, from) ==> s[j] != c,
    decreases s.len() - from,
{
    if from < s.len() && s[from] != c {
        lemma_position_is_first(s, c, from + 1);
    }
}

/// The characters of a string, in order.
pub fn chars_of(s: &str) -> (v: Vec<char>)
    ensures
        v@ == s@,
{
    let mut v: Vec<char> = Vec::new();
    for c in it: s.chars()
        invariant
            v@ == it.seq().take(it.index()),
            it.seq() == s@,
    {
        v.push(c);
    }
    v
}

/// Index of the first `c` in `s` at or after `from`; the length of `s` when
/// there is none.
pub fn find_char(s: &Vec<char>, c: char, from: usize) -> (i: usize)
    ensures
        i == position(s@, c, from as int),
{
    let mut i: usize = from;
    while i < s.len() && s[i] != c
        invariant
            from <= i,
            position(s@, c, i as int) == position(s@, c, from as int),
        decreases s.len() - i,
    {
        i += 1;
    }
    if i < s.len() {
        i
    } else {
        s.len()
    }
}

/// Whether `needle` stands in `hay` at index `k`.
pub fn matches_at(hay: &Vec<char>, needle: &Vec<char>, k: usize) -> (m: bool)
    ensures
        m == occurs_at(needle@, hay@, k as int),
{
    if needle.len() > hay.len() || k > hay.len() - needle.len() {
        return false;
    }
    let ghost window = hay@.subrange(k as int, k + needle.len());
    let mut j: usize = 0;
    while j < needle.len()
        invariant
            j <= needle.len(),
            k + needle.len() <= hay.len(),
            window == hay@.subrange(k as int, k + needle.len()),
            forall|t: int| 0 <= t < j ==> window[t] == needle@[t],
        decreases needle.len() - j,
    {
        if hay[k + j] != needle[j] {
            return false;
        }
        j += 1;
    }
    assert(window =~= needle@);
    true
}

/// Whether `needle` occurs anywhere in `hay`. The empty sequence occurs in
/// every sequence.
pub fn contains(hay: &Vec<char>, needle: &Vec<char>) -> (found: bool)
    ensures
        found == is_substring(needle@, hay@),
{
    if needle.len() > hay.len() {
        return false;
    }
    let last: usize = hay.len() - needle.len();
    let mut k: usize = 0;
    loop
        invariant
            last == hay.len() - needle.len(),
            k <= last,
            forall|j: int| 0 <= j < k ==> !occurs_at(needle@, hay@, j),
        decreases last - k,
    {
        if matches_at(hay, needle, k) {
            return true;
        }
        if k == last {
            return false;
        }
        k += 1;
    }
}

} // verus!
