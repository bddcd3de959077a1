//! What holds of every highlighted line, proved from the definition of
//! [`highlighted`].

use crate::highlighter::{highlighted, DefaultHighlighter};
use crate::selection::{
    byte_len, is_selected, lemma_selected, lemma_selected_unique, matches_any, selected,
};
use crate::style::{emphasized, plain};
use crate::styled_text::{raw_text, Segments};
use crate::text::{
    before, behind, first_occurrence, is_first_occurrence, lemma_first_occurrence,
    lemma_first_occurrence_unique, lemma_split_rejoins, occurs_in,
};
use nu_ansi_term::{Color, Style};
use vstd::prelude::*;

verus! {

/// A single segment holds its own text.
pub proof fn lemma_raw_text_of_one(segment: (Style, Seq<char>))
    ensures
        raw_text(seq![segment]) == segment.1,
{
    let segments: Segments = seq![segment];
    assert(segments.drop_last() =~= Segments::empty());
    assert(raw_text(segments.drop_last()) =~= Seq::<char>::empty());
    assert(raw_text(segments) =~= segment.1);
}

/// Three segments hold their texts joined from left to right.
pub proof fn lemma_raw_text_of_three(
    first: (Style, Seq<char>),
    second: (Style, Seq<char>),
    third: (Style, Seq<char>),
)
    ensures
        raw_text(seq![first, second, third]) == first.1 + second.1 + third.1,
{
    let three: Segments = seq![first, second, third];
    let two: Segments = seq![first, second];
    let one: Segments = seq![first];
    assert(three.drop_last() =~= two);
    assert(two.drop_last() =~= one);
    lemma_raw_text_of_one(first);
    assert(raw_text(two) == raw_text(one) + second.1);
    assert(raw_text(three) == raw_text(two) + third.1);
}

/// Where some keyword occurs in the line, the result is the line cut in
/// three around the leftmost occurrence of the keyword that wins.
pub proof fn lemma_highlighted_match(
    keywords: Seq<Seq<char>>,
    match_color: Color,
    notmatch_color: Color,
    neutral_color: Color,
    line: Seq<char>,
)
    requires
        matches_any(keywords, line),
    ensures
        ({
            let keyword = keywords[selected(keywords, line)];
            let at = first_occurrence(line, keyword);
            &&& is_selected(keywords, line, selected(keywords, line))
            &&& is_first_occurrence(line, keyword, at)
            &&& before(line, at) + keyword + behind(line, at, keyword.len()) == line
            &&& highlighted(keywords, match_color, notmatch_color, neutral_color, line) == seq![
                (plain(neutral_color), before(line, at)),
                (plain(match_color), keyword),
                (emphasized(neutral_color), behind(line, at, keyword.len())),
            ]
        }),
{
    lemma_selected(keywords, line);
    let keyword = keywords[selected(keywords, line)];
    lemma_first_occurrence(line, keyword);
    lemma_split_rejoins(line, keyword, first_occurrence(line, keyword));
}

/// The texts of the segments, joined in order, are the line: nothing is
/// lost, added or moved, whatever the keywords and colours.
pub proof fn lemma_raw_text_of_highlighted(
    keywords: Seq<Seq<char>>,
    match_color: Color,
    notmatch_color: Color,
    neutral_color: Color,
    line: Seq<char>,
)
    ensures
        raw_text(highlighted(keywords, match_color, notmatch_color, neutral_color, line)) == line,
{
    if matches_any(keywords, line) {
        lemma_highlighted_match(keywords, match_color, notmatch_color, neutral_color, line);
        let keyword = keywords[selected(keywords, line)];
        let at = first_occurrence(line, keyword);
        lemma_raw_text_of_three(
            (plain(neutral_color), before(line, at)),
            (plain(match_color), keyword),
            (emphasized(neutral_color), behind(line, at, keyword.len())),
        );
    } else if keywords.len() == 0 {
        lemma_raw_text_of_one((plain(neutral_color), line));
    } else {
        lemma_raw_text_of_one((plain(notmatch_color), line));
    }
}

/// Without keywords the result is the whole line as one segment in the
/// neutral colour, whatever the line holds.
pub proof fn lemma_no_keywords(
    keywords: Seq<Seq<char>>,
    match_color: Color,
    notmatch_color: Color,
    neutral_color: Color,
    line: Seq<char>,
)
    requires
        keywords.len() == 0,
    ensures
        highlighted(keywords, match_color, notmatch_color, neutral_color, line) == seq![
            (plain(neutral_color), line),
        ],
{
}

/// With keywords of which none occurs in the line, the result is the whole
/// line as one segment in the not-match colour.
pub proof fn lemma_no_match(
    keywords: Seq<Seq<char>>,
    match_color: Color,
    notmatch_color: Color,
    neutral_color: Color,
    line: Seq<char>,
)
    requires
        keywords.len() > 0,
        forall|i: int| 0 <= i < keywords.len() ==> !occurs_in(line, #[trigger] keywords[i]),
    ensures
        highlighted(keywords, match_color, notmatch_color, neutral_color, line) == seq![
            (plain(notmatch_color), line),
        ],
{
}

/// Where the keyword at `index` occurs in the line and every other text
/// among the keywords that occurs in the line is shorter, the result is
/// three segments: what stands before the leftmost occurrence of that
/// keyword, the keyword, and what stands behind it; joined they are the line.
pub proof fn lemma_unique_longest_match(
    keywords: Seq<Seq<char>>,
    match_color: Color,
    notmatch_color: Color,
    neutral_color: Color,
    line: Seq<char>,
    index: int,
)
    requires
        0 <= index < keywords.len(),
        occurs_in(line, keywords[index]),
        forall|j: int|
            0 <= j < keywords.len() && occurs_in(line, #[trigger] keywords[j]) && keywords[j]
                != keywords[index] ==> byte_len(keywords[j]) < byte_len(keywords[index]),
    ensures
        ({
            let keyword = keywords[index];
            let at = first_occurrence(line, keyword);
            &&& is_first_occurrence(line, keyword, at)
            &&& before(line, at) + keyword + behind(line, at, keyword.len()) == line
            &&& highlighted(keywords, match_color, notmatch_color, neutral_color, line) == seq![
                (plain(neutral_color), before(line, at)),
                (plain(match_color), keyword),
                (emphasized(neutral_color), behind(line, at, keyword.len())),
            ]
        }),
{
    lemma_highlighted_match(keywords, match_color, notmatch_color, neutral_color, line);
    assert(keywords[selected(keywords, line)] == keywords[index]);
}

/// The keyword in the match segment is at least as long as every keyword
/// that occurs in the line: one that has a longer rival in the line never wins.
pub proof fn lemma_winner_is_longest(
    keywords: Seq<Seq<char>>,
    match_color: Color,
    notmatch_color: Color,
    neutral_color: Color,
    line: Seq<char>,
    rival: int,
)
    requires
        0 <= rival < keywords.len(),
        occurs_in(line, keywords[rival]),
    ensures
        ({
            let segments = highlighted(keywords, match_color, notmatch_color, neutral_color, line);
            &&& segments.len() == 3
            &&& segments[1].0 == plain(match_color)
            &&& segments[1].1 == keywords[selected(keywords, line)]
            &&& byte_len(segments[1].1) >= byte_len(keywords[rival])
        }),
{
    lemma_highlighted_match(keywords, match_color, notmatch_color, neutral_color, line);
}

/// Of two keywords of different lengths that both occur in the line, the
/// longer is the one in the match segment, in whichever order the two were
/// configured and wherever they stand in the line.
pub proof fn lemma_longer_of_two_wins(
    shorter: Seq<char>,
    longer: Seq<char>,
    match_color: Color,
    notmatch_color: Color,
    neutral_color: Color,
    line: Seq<char>,
)
    requires
        occurs_in(line, shorter),
        occurs_in(line, longer),
        byte_len(shorter) < byte_len(longer),
    ensures
        ({
            let at = first_occurrence(line, longer);
            let segments = seq![
                (plain(neutral_color), before(line, at)),
                (plain(match_color), longer),
                (emphasized(neutral_color), behind(line, at, longer.len())),
            ];
            &&& highlighted(
                seq![shorter, longer],
                match_color,
                notmatch_color,
                neutral_color,
                line,
            ) == segments
            &&& highlighted(
                seq![longer, shorter],
                match_color,
                notmatch_color,
                neutral_color,
                line,
            ) == segments
        }),
{
    let ascending = seq![shorter, longer];
    let descending = seq![longer, shorter];
    assert(ascending[1] == longer && ascending[0] == shorter);
    assert(descending[0] == longer && descending[1] == shorter);
    lemma_unique_longest_match(ascending, match_color, notmatch_color, neutral_color, line, 1);
    lemma_unique_longest_match(descending, match_color, notmatch_color, neutral_color, line, 0);
}

/// Where the empty keyword is configured and no other keyword occurs in the
/// line, the line is cut at its start: an empty segment in the neutral
/// colour, the empty keyword in the match colour, and the whole line in the
/// neutral colour and bold.
pub proof fn lemma_empty_keyword(
    keywords: Seq<Seq<char>>,
    match_color: Color,
    notmatch_color: Color,
    neutral_color: Color,
    line: Seq<char>,
    index: int,
)
    requires
        0 <= index < keywords.len(),
        keywords[index].len() == 0,
        forall|j: int|
            0 <= j < keywords.len() && occurs_in(line, #[trigger] keywords[j]) ==> keywords[j].len()
                == 0,
    ensures
        highlighted(keywords, match_color, notmatch_color, neutral_color, line) == seq![
            (plain(neutral_color), Seq::<char>::empty()),
            (plain(match_color), Seq::<char>::empty()),
            (emphasized(neutral_color), line),
        ],
{
    let nothing = Seq::<char>::empty();
    assert(keywords[index] =~= nothing);
    assert(line.subrange(0, 0) =~= nothing);
    assert(is_first_occurrence(line, nothing, 0));
    assert forall|j: int|
        0 <= j < keywords.len() && occurs_in(line, #[trigger] keywords[j]) implies keywords[j]
        == keywords[index] by {
        assert(keywords[j] =~= nothing);
    }
    lemma_unique_longest_match(
        keywords,
        match_color,
        notmatch_color,
        neutral_color,
        line,
        index,
    );
    lemma_first_occurrence_unique(line, nothing, 0, first_occurrence(line, nothing));
    assert(before(line, 0) =~= nothing);
    assert(behind(line, 0, 0) =~= line);
}

/// The index that position `j` had before the keyword at `gap` was taken out.
spec fn past_gap(j: int, gap: int) -> int {
    if j < gap {
        j
    } else {
        j + 1
    }
}

/// A keyword that stands in the list a second time, behind an equal one,
/// changes no result: taking the later one out leaves every line's
/// segments as they were.
pub proof fn lemma_repeated_keyword_is_ignored(
    keywords: Seq<Seq<char>>,
    match_color: Color,
    notmatch_color: Color,
    neutral_color: Color,
    line: Seq<char>,
    first: int,
    again: int,
)
    requires
        0 <= first < again < keywords.len(),
        keywords[first] == keywords[again],
    ensures
        highlighted(keywords.remove(again), match_color, notmatch_color, neutral_color, line)
            == highlighted(keywords, match_color, notmatch_color, neutral_color, line),
{
    let fewer = keywords.remove(again);
    assert forall|j: int| 0 <= j < fewer.len() implies #[trigger] fewer[j] == keywords[past_gap(
        j,
        again,
    )] by {}
    if matches_any(keywords, line) {
        lemma_selected(keywords, line);
        let winner = selected(keywords, line);
        assert(winner != again);
        let moved = if winner < again {
            winner
        } else {
            winner - 1
        };
        assert(past_gap(moved, again) == winner);
        assert(is_selected(fewer, line, moved));
        lemma_selected(fewer, line);
        lemma_selected_unique(fewer, line, moved, selected(fewer, line));
    } else {
        if matches_any(fewer, line) {
            let j = choose|j: int| 0 <= j < fewer.len() && occurs_in(line, #[trigger] fewer[j]);
            assert(occurs_in(line, keywords[past_gap(j, again)]));
        }
        assert(fewer[first] == keywords[first]);
    }
}

/// After the colours of a highlighter have been replaced, what it returns
/// for a line is decided by its keywords and the new colours alone: the
/// colours it had before leave no trace.
pub proof fn lemma_recoloured(
    earlier: DefaultHighlighter,
    later: DefaultHighlighter,
    match_color: Color,
    notmatch_color: Color,
    neutral_color: Color,
    line: Seq<char>,
)
    requires
        later.keywords() == earlier.keywords(),
        later.match_color() == match_color,
        later.notmatch_color() == notmatch_color,
        later.neutral_color() == neutral_color,
    ensures
        later.spec_highlight(line) == highlighted(
            earlier.keywords(),
            match_color,
            notmatch_color,
            neutral_color,
            line,
        ),
{
}

} // verus!
