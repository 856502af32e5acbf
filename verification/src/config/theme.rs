//! Theme types of the `[tui.theme]` configuration table.
//!
//! Colors are written as strings, either a name (`"cyan"`, `"default"`) or
//! a hex value (`"#RRGGBB"`).

use crate::text::{is_hex_digit, hex_digit, strip_prefix, strip_prefix_of};
use vstd::prelude::*;
use vstd::string::*;

verus! {

/// A single theme color value.
///
/// In configuration it is a string:
/// - `Named`: `"cyan"`, `"light_blue"`, `"default"` and the like;
/// - `Hex`: `"#RRGGBB"`, with exactly six hex digits.
#[derive(Debug, Clone, PartialEq, Eq)]
pub enum ThemeColor {
    /// A named terminal color keyword.
    Named(String),
    /// A six-digit hex color (`#RRGGBB`).
    Hex(String),
}

/// The text starts with `#`.
pub open spec fn is_hex_form(text: Seq<char>) -> bool {
    strip_prefix_of(text, '#') is Some
}

/// The text is `#` followed by exactly six hex digits.
pub open spec fn is_valid_hex_color(text: Seq<char>) -> bool {
    &&& text.len() == 7
    &&& text[0] == '#'
    &&& forall|i: int| 1 <= i < 7 ==> is_hex_digit(#[trigger] text[i])
}

/// The message that rejects `text` as a hex color.
pub open spec fn invalid_hex_message(text: Seq<char>) -> Seq<char> {
    text + " is not a valid hex color"@
}

impl ThemeColor {
    /// The string that stands for this color in configuration.
    pub open spec fn text(self) -> Seq<char> {
        match self {
            ThemeColor::Named(value) => value@,
            ThemeColor::Hex(value) => value@,
        }
    }

    /// Reads a color from its configuration string.
    ///
    /// A string that starts with `#` must be a valid hex color and is kept
    /// as `Hex`; it is rejected otherwise, with a message that names it. Any
    /// other string, the empty one too, is a `Named` color.
    pub fn parse(value: String) -> (r: Result<ThemeColor, String>)
        ensures
            match r {
                Ok(ThemeColor::Hex(kept)) => kept@ == value@ && is_valid_hex_color(value@),
                Ok(ThemeColor::Named(kept)) => kept@ == value@ && !is_hex_form(value@),
                Err(message) => is_hex_form(value@) && !is_valid_hex_color(value@) && message@
                    == invalid_hex_message(value@),
            },
    {
        match strip_prefix(value.as_str(), '#') {
            Some(hex) => {
                if all_hex_digits(hex, 6) {
                    proof {
                        assert forall|i: int| 1 <= i < 7 implies is_hex_digit(
                            #[trigger] value@[i],
                        ) by {
                            assert(value@[i] == hex@[i - 1]);
                        }
                    }
                    Ok(ThemeColor::Hex(value))
                } else {
                    proof {
                        if is_valid_hex_color(value@) {
                            assert forall|i: int| 0 <= i < 6 implies is_hex_digit(
                                #[trigger] hex@[i],
                            ) by {
                                assert(hex@[i] == value@[i + 1]);
                            }
                        }
                    }
                    let mut message = value;
                    message.append(" is not a valid hex color");
                    Err(message)
                }
            },
            None => Ok(ThemeColor::Named(value)),
        }
    }

    /// The configuration string of this color.
    pub fn as_str(&self) -> (text: &str)
        ensures
            text@ == self.text(),
    {
        match self {
            ThemeColor::Named(value) => value.as_str(),
            ThemeColor::Hex(value) => value.as_str(),
        }
    }
}

/// Tests whether `s` consists of exactly `count` hex digits.
pub fn all_hex_digits(s: &str, count: usize) -> (all: bool)
    ensures
        all == (s@.len() == count && forall|i: int| 0 <= i < s@.len() ==> is_hex_digit(
            #[trigger] s@[i],
        )),
{
    let n = s.unicode_len();
    if n != count {
        return false;
    }
    let mut i: usize = 0;
    while i < n
        invariant
            n == s@.len(),
            i <= n,
            forall|k: int| 0 <= k < i ==> is_hex_digit(#[trigger] s@[k]),
        decreases n - i,
    {
        if hex_digit(s.get_char(i)).is_none() {
            return false;
        }
        i = i + 1;
    }
    true
}

/// Palette-level color overrides applied on top of the selected built-in theme.
#[derive(Debug, Clone, PartialEq, Eq)]
pub struct ThemePalette {
    /// General accent color used for key highlights.
    pub accent: Option<ThemeColor>,
    /// Success/positive color.
    pub success: Option<ThemeColor>,
    /// Error/negative color.
    pub error: Option<ThemeColor>,
    /// Brand color used for command labels and emphasis.
    pub brand: Option<ThemeColor>,
    /// Informational color.
    pub info: Option<ThemeColor>,
    /// Optional explicit background for message blocks.
    pub message_bg: Option<ThemeColor>,
    /// Optional explicit background for selected rows and areas.
    pub selection_bg: Option<ThemeColor>,
}

impl Default for ThemePalette {
    /// A palette that overrides nothing.
    fn default() -> (palette: Self)
        ensures
            palette.accent is None,
            palette.success is None,
            palette.error is None,
            palette.brand is None,
            palette.info is None,
            palette.message_bg is None,
            palette.selection_bg is None,
    {
        ThemePalette {
            accent: None,
            success: None,
            error: None,
            brand: None,
            info: None,
            message_bg: None,
            selection_bg: None,
        }
    }
}

/// Style overrides for a specific text component.
#[derive(Debug, Clone, PartialEq, Eq)]
pub struct ThemeStyle {
    /// Optional foreground color override.
    pub fg: Option<ThemeColor>,
    /// Optional background color override.
    pub bg: Option<ThemeColor>,
    /// Add bold text.
    pub bold: bool,
    /// Add dim text.
    pub dim: bool,
    /// Add italic text.
    pub italic: bool,
    /// Add underlined text.
    pub underlined: bool,
}

impl Default for ThemeStyle {
    /// A style that overrides nothing.
    fn default() -> (style: Self)
        ensures
            style.fg is None,
            style.bg is None,
            !style.bold,
            !style.dim,
            !style.italic,
            !style.underlined,
    {
        ThemeStyle { fg: None, bg: None, bold: false, dim: false, italic: false, underlined: false }
    }
}

} // verus!
