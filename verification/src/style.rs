//! The colour and style values of `nu_ansi_term`, and what the three
//! constructors used by the highlighter return.

use nu_ansi_term::{Color, Style};
use vstd::prelude::*;

verus! {

/// `nu_ansi_term::Color`, with its variants visible to the verifier.
#[verifier::external_type_specification]
pub struct ExColor(nu_ansi_term::Color);

/// `nu_ansi_term::Style`, with its public fields visible to the verifier.
#[verifier::external_type_specification]
pub struct ExStyle(nu_ansi_term::Style);

/// The style that has no colour and no property set.
pub open spec fn unstyled() -> Style {
    Style {
        foreground: None,
        background: None,
        is_bold: false,
        is_dimmed: false,
        is_italic: false,
        is_underline: false,
        is_blink: false,
        is_reverse: false,
        is_hidden: false,
        is_strikethrough: false,
        prefix_with_reset: false,
    }
}

/// The style whose only setting is the foreground colour `color`.
pub open spec fn plain(color: Color) -> Style {
    Style { foreground: Some(color), ..unstyled() }
}

/// The bold style whose foreground colour is `color`.
pub open spec fn emphasized(color: Color) -> Style {
    Style { foreground: Some(color), is_bold: true, ..unstyled() }
}

/// `Style::new` of `nu_ansi_term`: assumed to return the style with nothing
/// set, which is what `Style::default()` builds field by field.
pub assume_specification[ Style::new ]() -> (style: Style)
    ensures
        style == unstyled(),
;

/// `Style::bold` of `nu_ansi_term`: assumed to return a copy of the style
/// with `is_bold` set and every other field unchanged.
pub assume_specification[ Style::bold ](style: &Style) -> (bold: Style)
    ensures
        bold == (Style { is_bold: true, ..*style }),
;

/// `Style::fg` of `nu_ansi_term`: assumed to return a copy of the style
/// with the foreground colour replaced and every other field unchanged.
pub assume_specification[ Style::fg ](style: &Style, foreground: Color) -> (colored: Style)
    ensures
        colored == (Style { foreground: Some(foreground), ..*style }),
;

} // verus!
