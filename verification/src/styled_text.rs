//! A line of text cut into styled segments.

use nu_ansi_term::Style;
use vstd::prelude::*;
use vstd::string::StringExecFns;

verus! {

/// The segments of a line in spec code: each a style and the characters it applies to.
pub type Segments = Seq<(Style, Seq<char>)>;

/// The texts of `segments` joined from left to right, styles dropped.
pub open spec fn raw_text(segments: Segments) -> Seq<char>
    decreases segments.len(),
{
    if segments.len() == 0 {
        Seq::empty()
    } else {
        raw_text(segments.drop_last()) + segments.last().1
    }
}

/// A line of text as a run of segments, each painted in a style of its own.
/// The segments stand in the order in which they are to be written; a
/// segment may be empty.
pub struct StyledText {
    /// The segments, leftmost first.
    pub buffer: Vec<(Style, String)>,
}

impl View for StyledText {
    type V = Segments;

    open spec fn view(&self) -> Segments {
        Seq::new(self.buffer@.len(), |i: int| (self.buffer@[i].0, self.buffer@[i].1@))
    }
}

impl StyledText {
    /// A line without segments.
    pub fn new() -> (styled: StyledText)
        ensures
            styled@ == Segments::empty(),
    {
        let styled = StyledText { buffer: Vec::new() };
        assert(styled@ =~= Segments::empty());
        styled
    }

    /// Adds `styled_string` as the rightmost segment.
    pub fn push(&mut self, styled_string: (Style, String))
        ensures
            final(self)@ == old(self)@.push((styled_string.0, styled_string.1@)),
    {
        self.buffer.push(styled_string);
        assert(self@ =~= old(self)@.push((styled_string.0, styled_string.1@)));
    }

    /// The text of the whole line, styles dropped.
    pub fn raw_string(&self) -> (raw: String)
        ensures
            raw@ == raw_text(self@),
    {
        let mut raw = String::new();
        let count: usize = self.buffer.len();
        for i in 0..count
            invariant
                count == self@.len(),
                count == self.buffer@.len(),
                raw@ == raw_text(self@.take(i as int)),
        {
            proof {
                let upto = self@.take(i + 1);
                assert(upto.drop_last() =~= self@.take(i as int));
                assert(upto.last() == self@[i as int]);
            }
            raw.append(self.buffer[i].1.as_str());
        }
        assert(self@.take(count as int) =~= self@);
        raw
    }
}

} // verus!
