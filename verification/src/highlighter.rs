//! The highlighter: a list of keywords, three colours, and the rule that
//! turns a line into styled segments.

use crate::laws::lemma_raw_text_of_highlighted;
use crate::selection::{lemma_selected_unique, longest_match, matches_any, selected};
use crate::style::{emphasized, plain};
use crate::styled_text::{raw_text, Segments, StyledText};
use crate::text::{
    before, behind, chars_of, first_occurrence, lemma_first_occurrence_unique, occurs_at,
};
use nu_ansi_term::{Color, Style};
use vstd::prelude::*;
use vstd::string::StrSliceExecFns;

verus! {

/// The colour of the keyword found in a line, unless another is set.
pub const DEFAULT_BUFFER_MATCH_COLOR: Color = Color::Green;

/// The colour of the text around the keyword, and of a line when no keyword
/// is known, unless another is set.
pub const DEFAULT_BUFFER_NEUTRAL_COLOR: Color = Color::White;

/// The colour of a line in which no known keyword occurs, unless another is set.
pub const DEFAULT_BUFFER_NOTMATCH_COLOR: Color = Color::Red;

/// The segments into which `line` is cut, given the keywords in the order
/// in which they were configured and the three colours.
///
/// - Where some keyword occurs in the line, the winner is the longest such
///   keyword, lengths counted in bytes of UTF-8; of several with that length
///   the one configured first. The line is cut around the winner's leftmost
///   occurrence into three segments: what stands before it in the neutral
///   colour, the keyword in the match colour, and what stands behind it in
///   the neutral colour and bold. The first and the last may be empty. An
///   empty keyword occurs in every line, at its start.
/// - Where no keyword is configured, the line is one segment in the neutral colour.
/// - Where keywords are configured and none occurs in the line, the line is
///   one segment in the not-match colour.
pub open spec fn highlighted(
    keywords: Seq<Seq<char>>,
    match_color: Color,
    notmatch_color: Color,
    neutral_color: Color,
    line: Seq<char>,
) -> Segments {
    if matches_any(keywords, line) {
        let keyword = keywords[selected(keywords, line)];
        let at = first_occurrence(line, keyword);
        seq![
            (plain(neutral_color), before(line, at)),
            (plain(match_color), keyword),
            (emphasized(neutral_color), behind(line, at, keyword.len())),
        ]
    } else if keywords.len() == 0 {
        seq![(plain(neutral_color), line)]
    } else {
        seq![(plain(notmatch_color), line)]
    }
}

/// Turns the line being edited into styled text. Whatever the styles, the
/// segments returned hold the line's text, piece by piece from left to right.
pub trait Highlighter {
    /// Cuts `line` into styled segments.
    fn highlight(&self, line: &str) -> (styled: StyledText)
        ensures
            raw_text(styled@) == line@,
    ;
}

/// A highlighter that marks one known keyword in the line.
///
/// It holds the keywords it was made with and three colours. The keywords
/// never change; the colours can be replaced as a group. Of the keywords
/// that occur in a line the longest is marked, and of several equally long
/// ones the one that was given first.
pub struct DefaultHighlighter {
    external_commands: Vec<String>,
    match_color: Color,
    notmatch_color: Color,
    neutral_color: Color,
}

impl DefaultHighlighter {
    /// The keywords, in the order in which they were given.
    pub closed spec fn keywords(&self) -> Seq<Seq<char>> {
        self.external_commands.deep_view()
    }

    /// The colour of the keyword found.
    pub closed spec fn match_color(&self) -> Color {
        self.match_color
    }

    /// The colour of a line in which no keyword occurs.
    pub closed spec fn notmatch_color(&self) -> Color {
        self.notmatch_color
    }

    /// The colour of the text around the keyword.
    pub closed spec fn neutral_color(&self) -> Color {
        self.neutral_color
    }

    /// What `highlight` returns for `line`.
    pub open spec fn spec_highlight(&self, line: Seq<char>) -> Segments {
        highlighted(
            self.keywords(),
            self.match_color(),
            self.notmatch_color(),
            self.neutral_color(),
            line,
        )
    }

    /// A highlighter for the keywords `external_commands`, with the default
    /// colours. The same keyword may be given more than once; the order
    /// matters only between keywords of equal length.
    pub fn new(external_commands: Vec<String>) -> (highlighter: DefaultHighlighter)
        ensures
            highlighter.keywords() == external_commands.deep_view(),
            highlighter.match_color() == Color::Green,
            highlighter.notmatch_color() == Color::Red,
            highlighter.neutral_color() == Color::White,
    {
        DefaultHighlighter {
            external_commands,
            match_color: DEFAULT_BUFFER_MATCH_COLOR,
            notmatch_color: DEFAULT_BUFFER_NOTMATCH_COLOR,
            neutral_color: DEFAULT_BUFFER_NEUTRAL_COLOR,
        }
    }

    /// Replaces the three colours. The keywords stay as they are, and every
    /// line highlighted from now on is painted in the new colours alone.
    pub fn change_colors(
        &mut self,
        match_color: Color,
        notmatch_color: Color,
        neutral_color: Color,
    )
        ensures
            final(self).keywords() == old(self).keywords(),
            final(self).match_color() == match_color,
            final(self).notmatch_color() == notmatch_color,
            final(self).neutral_color() == neutral_color,
            forall|line: Seq<char>| #[trigger]
                final(self).spec_highlight(line) == highlighted(
                    old(self).keywords(),
                    match_color,
                    notmatch_color,
                    neutral_color,
                    line,
                ),
    {
        self.match_color = match_color;
        self.notmatch_color = notmatch_color;
        self.neutral_color = neutral_color;
    }
}

impl Highlighter for DefaultHighlighter {
    fn highlight(&self, line: &str) -> (styled: StyledText)
        ensures
            styled@ == self.spec_highlight(line@),
    {
        let mut styled = StyledText::new();
        let chars: Vec<char> = chars_of(line);
        match longest_match(&self.external_commands, chars.as_slice()) {
            Some((index, at)) => {
                let keyword: &String = &self.external_commands[index];
                let width: usize = keyword.as_str().unicode_len();
                proof {
                    let keywords = self.keywords();
                    assert(keyword@ == keywords[index as int]);
                    assert(occurs_at(line@, keyword@, at as int));
                    lemma_selected_unique(keywords, line@, index as int, selected(keywords, line@));
                    lemma_first_occurrence_unique(
                        line@,
                        keyword@,
                        at as int,
                        first_occurrence(line@, keyword@),
                    );
                }
                let prefix: &str = line.substring_char(0, at);
                let suffix: &str = line.substring_char(at + width, chars.len());
                styled.push((Style::new().fg(self.neutral_color), prefix.to_owned()));
                styled.push((Style::new().fg(self.match_color), keyword.clone()));
                styled.push((Style::new().bold().fg(self.neutral_color), suffix.to_owned()));
            },
            None => {
                if self.external_commands.is_empty() {
                    styled.push((Style::new().fg(self.neutral_color), line.to_owned()));
                } else {
                    styled.push((Style::new().fg(self.notmatch_color), line.to_owned()));
                }
            },
        }
        assert(styled@ =~= self.spec_highlight(line@));
        proof {
            lemma_raw_text_of_highlighted(
                self.keywords(),
                self.match_color(),
                self.notmatch_color(),
                self.neutral_color(),
                line@,
            );
        }
        styled
    }
}

impl Default for DefaultHighlighter {
    /// A highlighter without keywords, with the default colours.
    fn default() -> (highlighter: DefaultHighlighter)
        ensures
            highlighter.keywords() == Seq::<Seq<char>>::empty(),
            highlighter.match_color() == Color::Green,
            highlighter.notmatch_color() == Color::Red,
            highlighter.neutral_color() == Color::White,
    {
        let highlighter = DefaultHighlighter::new(Vec::new());
        assert(highlighter.keywords() =~= Seq::<Seq<char>>::empty());
        highlighter
    }
}

} // verus!
