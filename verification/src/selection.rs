//! Which keyword wins on a line.
//!
//! Among the keywords that occur in the line the longest wins, its length
//! counted in bytes of UTF-8. Where several of that length occur, the one
//! that stands first in the list of keywords wins.

use crate::text::{chars_of, find, is_first_occurrence, occurs_in};
use vstd::prelude::*;
use vstd::utf8::encode_utf8;

verus! {

/// The length of `text` in bytes of UTF-8, which is what `str::len` counts.
pub open spec fn byte_len(text: Seq<char>) -> nat {
    encode_utf8(text).len()
}

/// Some keyword occurs in `line`.
pub open spec fn matches_any(keywords: Seq<Seq<char>>, line: Seq<char>) -> bool {
    exists|i: int| 0 <= i < keywords.len() && occurs_in(line, #[trigger] keywords[i])
}

/// `keywords[index]` wins among the first `count` keywords: it occurs in
/// `line`, none of them that occurs in `line` is longer, and none before it
/// that occurs in `line` is as long.
pub open spec fn is_selected_among(
    keywords: Seq<Seq<char>>,
    line: Seq<char>,
    index: int,
    count: int,
) -> bool {
    &&& 0 <= index < count <= keywords.len()
    &&& occurs_in(line, keywords[index])
    &&& forall|j: int|
        0 <= j < count && occurs_in(line, #[trigger] keywords[j]) ==> byte_len(keywords[j])
            <= byte_len(keywords[index])
    &&& forall|j: int|
        0 <= j < index && occurs_in(line, #[trigger] keywords[j]) ==> byte_len(keywords[j])
            < byte_len(keywords[index])
}

/// `keywords[index]` wins on `line`.
pub open spec fn is_selected(keywords: Seq<Seq<char>>, line: Seq<char>, index: int) -> bool {
    is_selected_among(keywords, line, index, keywords.len() as int)
}

/// The index of the keyword that wins on `line`, where some keyword occurs
/// in `line`; an arbitrary number where none does.
pub open spec fn selected(keywords: Seq<Seq<char>>, line: Seq<char>) -> int {
    choose|index: int| is_selected(keywords, line, index)
}

/// At most one keyword wins.
pub proof fn lemma_selected_unique(keywords: Seq<Seq<char>>, line: Seq<char>, a: int, b: int)
    requires
        is_selected(keywords, line, a),
        is_selected(keywords, line, b),
    ensures
        a == b,
{
}

/// Among the first `count` keywords either none occurs in `line` or one wins.
proof fn lemma_winner_among(
    keywords: Seq<Seq<char>>,
    line: Seq<char>,
    count: int,
) -> (winner: Option<int>)
    requires
        0 <= count <= keywords.len(),
    ensures
        winner matches Some(index) ==> is_selected_among(keywords, line, index, count),
        winner is None ==> forall|j: int| 0 <= j < count ==> !occurs_in(line, #[trigger] keywords[j]),
    decreases count,
{
    if count == 0 {
        None
    } else {
        let earlier = lemma_winner_among(keywords, line, count - 1);
        let newcomer = count - 1;
        if !occurs_in(line, keywords[newcomer]) {
            earlier
        } else {
            match earlier {
                Some(index) if byte_len(keywords[newcomer]) <= byte_len(keywords[index]) => earlier,
                _ => Some(newcomer),
            }
        }
    }
}

/// Where some keyword occurs in the line, one wins, and `selected` names it.
pub proof fn lemma_selected(keywords: Seq<Seq<char>>, line: Seq<char>)
    requires
        matches_any(keywords, line),
    ensures
        is_selected(keywords, line, selected(keywords, line)),
{
    let winner = lemma_winner_among(keywords, line, keywords.len() as int);
    assert(winner is Some);
    assert(is_selected(keywords, line, winner->0));
}

/// Picks the keyword that wins on `line` and finds where it first stands.
///
/// Returns the keyword's index in `keywords` and the offset of its leftmost
/// occurrence in `line`, counted in characters, or `None` where no keyword
/// occurs in `line`.
pub fn longest_match(keywords: &Vec<String>, line: &[char]) -> (choice: Option<(usize, usize)>)
    ensures
        choice is Some <==> matches_any(keywords.deep_view(), line@),
        choice matches Some((index, at)) ==> is_selected(
            keywords.deep_view(),
            line@,
            index as int,
        ),
        choice matches Some((index, at)) ==> is_first_occurrence(
            line@,
            keywords.deep_view()[index as int],
            at as int,
        ),
{
    let ghost texts = keywords.deep_view();
    let count: usize = keywords.len();
    let mut choice: Option<(usize, usize)> = None;
    let mut longest: usize = 0;
    for k in 0..count
        invariant
            texts == keywords.deep_view(),
            count == texts.len(),
            choice is None ==> forall|j: int| 0 <= j < k ==> !occurs_in(line@, #[trigger] texts[j]),
            choice matches Some((index, at)) ==> {
                &&& is_selected_among(texts, line@, index as int, k as int)
                &&& is_first_occurrence(line@, texts[index as int], at as int)
                &&& longest == byte_len(texts[index as int])
            },
    {
        let keyword: &str = keywords[k].as_str();
        assert(keyword@ == texts[k as int]);
        let word: Vec<char> = chars_of(keyword);
        if let Some(at) = find(line, word.as_slice()) {
            let size: usize = keyword.as_bytes().len();
            if choice.is_none() || size > longest {
                choice = Some((k, at));
                longest = size;
            }
        }
    }
    choice
}

} // verus!
