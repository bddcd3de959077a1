//! Substring search over sequences of characters.
//!
//! A text is modelled as the sequence of its characters, the view of `str`
//! and `String`. The search is the plain one: try each offset from the left.

use vstd::prelude::*;

verus! {

/// `needle` stands in `hay` at offset `at`.
pub open spec fn occurs_at(hay: Seq<char>, needle: Seq<char>, at: int) -> bool {
    &&& 0 <= at
    &&& at + needle.len() <= hay.len()
    &&& hay.subrange(at, at + needle.len()) == needle
}

/// `needle` is a substring of `hay`. The empty text is a substring of every text.
pub open spec fn occurs_in(hay: Seq<char>, needle: Seq<char>) -> bool {
    exists|at: int| occurs_at(hay, needle, at)
}

/// `at` is the leftmost offset at which `needle` stands in `hay`.
pub open spec fn is_first_occurrence(hay: Seq<char>, needle: Seq<char>, at: int) -> bool {
    &&& occurs_at(hay, needle, at)
    &&& forall|earlier: int| 0 <= earlier < at ==> !occurs_at(hay, needle, earlier)
}

/// The leftmost offset at which `needle` stands in `hay`, where it is a
/// substring of `hay`; an arbitrary number where it is not.
pub open spec fn first_occurrence(hay: Seq<char>, needle: Seq<char>) -> int {
    choose|at: int| is_first_occurrence(hay, needle, at)
}

/// What stands in `hay` before offset `at`.
pub open spec fn before(hay: Seq<char>, at: int) -> Seq<char> {
    hay.subrange(0, at)
}

/// What stands in `hay` behind the `len` characters that start at offset `at`.
pub open spec fn behind(hay: Seq<char>, at: int, len: nat) -> Seq<char> {
    hay.subrange(at + len, hay.len() as int)
}

/// There is at most one leftmost occurrence.
pub proof fn lemma_first_occurrence_unique(hay: Seq<char>, needle: Seq<char>, a: int, b: int)
    requires
        is_first_occurrence(hay, needle, a),
        is_first_occurrence(hay, needle, b),
    ensures
        a == b,
{
}

/// Below any occurrence there is a leftmost one.
proof fn lemma_leftmost_below(hay: Seq<char>, needle: Seq<char>, at: int) -> (first: int)
    requires
        occurs_at(hay, needle, at),
    ensures
        is_first_occurrence(hay, needle, first),
        first <= at,
    decreases at,
{
    if exists|earlier: int| 0 <= earlier < at && occurs_at(hay, needle, earlier) {
        let earlier = choose|earlier: int| 0 <= earlier < at && occurs_at(hay, needle, earlier);
        lemma_leftmost_below(hay, needle, earlier)
    } else {
        at
    }
}

/// A substring has a leftmost occurrence, and `first_occurrence` names it.
pub proof fn lemma_first_occurrence(hay: Seq<char>, needle: Seq<char>)
    requires
        occurs_in(hay, needle),
    ensures
        is_first_occurrence(hay, needle, first_occurrence(hay, needle)),
{
    let at = choose|at: int| occurs_at(hay, needle, at);
    let first = lemma_leftmost_below(hay, needle, at);
}

/// Cutting a text around an occurrence and joining the three pieces gives the text back.
pub proof fn lemma_split_rejoins(hay: Seq<char>, needle: Seq<char>, at: int)
    requires
        occurs_at(hay, needle, at),
    ensures
        before(hay, at) + needle + behind(hay, at, needle.len()) == hay,
{
    assert(before(hay, at) + needle + behind(hay, at, needle.len()) =~= hay);
}

/// Copies the characters of `s` into a vector.
pub fn chars_of(s: &str) -> (chars: Vec<char>)
    ensures
        chars@ == s@,
{
    let mut chars: Vec<char> = Vec::new();
    for c in it: s.chars()
        invariant
            it.seq() == s@,
            chars@ == it.seq().take(it.index()),
    {
        chars.push(c);
    }
    chars
}

/// Tells whether `needle` stands in `hay` at offset `at`.
fn matches_at(hay: &[char], needle: &[char], at: usize) -> (found: bool)
    requires
        at + needle@.len() <= hay@.len(),
    ensures
        found == occurs_at(hay@, needle@, at as int),
{
    let len: usize = needle.len();
    let end: usize = hay.len();
    let mut i: usize = 0;
    while i < len
        invariant
            len == needle@.len(),
            end == hay@.len(),
            i <= len,
            at + len <= end,
            forall|j: int| 0 <= j < i ==> hay@[at + j] == needle@[j],
        decreases len - i,
    {
        if hay[at + i] != needle[i] {
            proof {
                let window = hay@.subrange(at as int, at + len);
                assert(window[i as int] == hay@[at + i]);
            }
            return false;
        }
        i += 1;
    }
    assert(hay@.subrange(at as int, at + needle@.len()) =~= needle@);
    true
}

/// Finds the leftmost occurrence of `needle` in `hay`.
///
/// An empty `needle` is found at offset 0 of every `hay`, the empty one too.
pub fn find(hay: &[char], needle: &[char]) -> (position: Option<usize>)
    ensures
        position is Some <==> occurs_in(hay@, needle@),
        position matches Some(at) ==> is_first_occurrence(hay@, needle@, at as int),
{
    if needle.len() > hay.len() {
        return None;
    }
    let last: usize = hay.len() - needle.len();
    let mut at: usize = 0;
    loop
        invariant
            last == hay@.len() - needle@.len(),
            at <= last,
            forall|earlier: int| 0 <= earlier < at ==> !occurs_at(hay@, needle@, earlier),
        decreases last - at,
    {
        if matches_at(hay, needle, at) {
            return Some(at);
        }
        if at == last {
            return None;
        }
        at += 1;
    }
}

} // verus!
