//! Built-in themes and the parsing of theme colors.
//!
//! A theme is selected by its kebab-case name. Each built-in theme but the
//! default one carries a palette of `#RRGGBB` colors.

use crate::config::theme::ThemeColor;
use crate::text::{hex_digit, hex_value, is_hex_digit, str_eq};
use vstd::prelude::*;
use vstd::string::*;

pub mod styles;

verus! {

/// Built-in themes that a configuration can select by name.
#[derive(Debug, Clone, Copy, PartialEq, Eq, Structural)]
pub enum BuiltinTheme {
    /// The default dark palette of the terminal's own colors.
    Default,
    /// Tokyo-night-inspired dark palette.
    Ocean,
    /// Rose Pine dark palette.
    RosePine,
    /// Solarized dark palette.
    Solarized,
    /// Catppuccin Latte-inspired light palette.
    CatppuccinLight,
    /// Everforest Light-inspired palette.
    EverforestLight,
    /// Ayu Light-inspired palette.
    AyuLight,
}

/// Every built-in theme, in the order of declaration.
pub open spec fn builtin_themes() -> Seq<BuiltinTheme> {
    seq![
        BuiltinTheme::Default,
        BuiltinTheme::Ocean,
        BuiltinTheme::RosePine,
        BuiltinTheme::Solarized,
        BuiltinTheme::CatppuccinLight,
        BuiltinTheme::EverforestLight,
        BuiltinTheme::AyuLight,
    ]
}

impl BuiltinTheme {
    /// The kebab-case name of the theme.
    pub open spec fn name_of(self) -> Seq<char> {
        match self {
            BuiltinTheme::Default => "default"@,
            BuiltinTheme::Ocean => "ocean"@,
            BuiltinTheme::RosePine => "rose-pine"@,
            BuiltinTheme::Solarized => "solarized"@,
            BuiltinTheme::CatppuccinLight => "catppuccin-light"@,
            BuiltinTheme::EverforestLight => "everforest-light"@,
            BuiltinTheme::AyuLight => "ayu-light"@,
        }
    }

    /// The kebab-case name of the theme.
    pub fn name(self) -> (name: &'static str)
        ensures
            name@ == self.name_of(),
    {
        match self {
            BuiltinTheme::Default => "default",
            BuiltinTheme::Ocean => "ocean",
            BuiltinTheme::RosePine => "rose-pine",
            BuiltinTheme::Solarized => "solarized",
            BuiltinTheme::CatppuccinLight => "catppuccin-light",
            BuiltinTheme::EverforestLight => "everforest-light",
            BuiltinTheme::AyuLight => "ayu-light",
        }
    }

    /// Finds the theme with exactly this kebab-case name.
    pub fn from_name(name: &str) -> (found: Option<Self>)
        ensures
            match found {
                Some(theme) => theme.name_of() == name@,
                None => forall|theme: BuiltinTheme| theme.name_of() != name@,
            },
    {
        if str_eq(name, "default") {
            Some(BuiltinTheme::Default)
        } else if str_eq(name, "ocean") {
            Some(BuiltinTheme::Ocean)
        } else if str_eq(name, "rose-pine") {
            Some(BuiltinTheme::RosePine)
        } else if str_eq(name, "solarized") {
            Some(BuiltinTheme::Solarized)
        } else if str_eq(name, "catppuccin-light") {
            Some(BuiltinTheme::CatppuccinLight)
        } else if str_eq(name, "everforest-light") {
            Some(BuiltinTheme::EverforestLight)
        } else if str_eq(name, "ayu-light") {
            Some(BuiltinTheme::AyuLight)
        } else {
            None
        }
    }

    /// Whether the theme is made for a dark terminal; `None` for the
    /// default theme, which follows the terminal.
    pub fn is_dark(self) -> (dark: Option<bool>)
        ensures
            dark == match self {
                BuiltinTheme::Default => None,
                BuiltinTheme::Ocean | BuiltinTheme::RosePine | BuiltinTheme::Solarized => Some(
                    true,
                ),
                BuiltinTheme::CatppuccinLight
                | BuiltinTheme::EverforestLight
                | BuiltinTheme::AyuLight => Some(false),
            },
    {
        match self {
            BuiltinTheme::Default => None,
            BuiltinTheme::Ocean | BuiltinTheme::RosePine | BuiltinTheme::Solarized => Some(true),
            BuiltinTheme::CatppuccinLight
            | BuiltinTheme::EverforestLight
            | BuiltinTheme::AyuLight => Some(false),
        }
    }
}

/// The colors of a built-in theme, as red, green and blue components.
#[derive(Clone, Copy, Debug, PartialEq, Eq)]
pub struct BuiltinPalette {
    pub accent: (u8, u8, u8),
    pub success: (u8, u8, u8),
    pub error: (u8, u8, u8),
    pub brand: (u8, u8, u8),
    pub info: (u8, u8, u8),
    pub message_bg: Option<(u8, u8, u8)>,
    pub selection_bg: Option<(u8, u8, u8)>,
}

impl BuiltinPalette {
    /// The palette of pure terminal colors, used when a theme has none.
    pub fn fallback() -> (palette: Self)
        ensures
            palette == (BuiltinPalette {
                accent: (0, 255, 255),
                success: (0, 255, 0),
                error: (255, 0, 0),
                brand: (255, 0, 255),
                info: (135, 206, 250),
                message_bg: None,
                selection_bg: None,
            }),
    {
        BuiltinPalette {
            accent: (0, 255, 255),
            success: (0, 255, 0),
            error: (255, 0, 0),
            brand: (255, 0, 255),
            info: (135, 206, 250),
            message_bg: None,
            selection_bg: None,
        }
    }
}

/// The value of two characters read as a hexadecimal number: two hex
/// digits, or a plus sign and one hex digit.
pub open spec fn hex_pair_value(high: char, low: char) -> Option<u8> {
    if high == '+' {
        if is_hex_digit(low) {
            Some(hex_value(low) as u8)
        } else {
            None
        }
    } else if is_hex_digit(high) && is_hex_digit(low) {
        Some((16 * hex_value(high) + hex_value(low)) as u8)
    } else {
        None
    }
}

/// The components of a `#RRGGBB` text.
pub open spec fn hex_triplet(text: Seq<char>) -> Option<(u8, u8, u8)> {
    if text.len() == 7 && text[0] == '#' {
        match (
            hex_pair_value(text[1], text[2]),
            hex_pair_value(text[3], text[4]),
            hex_pair_value(text[5], text[6]),
        ) {
            (Some(r), Some(g), Some(b)) => Some((r, g, b)),
            _ => None,
        }
    } else {
        None
    }
}

/// Reads two characters as a hexadecimal number.
pub fn parse_hex_pair(high: char, low: char) -> (value: Option<u8>)
    ensures
        value == hex_pair_value(high, low),
{
    match hex_digit(low) {
        Some(l) => {
            if high == '+' {
                Some(l)
            } else {
                match hex_digit(high) {
                    Some(h) => Some(16 * h + l),
                    None => None,
                }
            }
        },
        None => None,
    }
}

/// Parses a `#RRGGBB` value into its red, green and blue components.
pub fn parse_hex_triplet(hex: &str) -> (rgb: Option<(u8, u8, u8)>)
    ensures
        rgb == hex_triplet(hex@),
{
    if hex.unicode_len() != 7 || hex.get_char(0) != '#' {
        return None;
    }
    let r = parse_hex_pair(hex.get_char(1), hex.get_char(2));
    let g = parse_hex_pair(hex.get_char(3), hex.get_char(4));
    let b = parse_hex_pair(hex.get_char(5), hex.get_char(6));
    match (r, g, b) {
        (Some(r), Some(g), Some(b)) => Some((r, g, b)),
        _ => None,
    }
}

/// Converts a `#RRGGBB` literal into components; black when the literal is
/// not a hex color.
pub fn hex_rgb(hex: &str) -> (rgb: (u8, u8, u8))
    ensures
        rgb == match hex_triplet(hex@) {
            Some(found) => found,
            None => (0u8, 0u8, 0u8),
        },
{
    match parse_hex_triplet(hex) {
        Some(found) => found,
        None => (0, 0, 0),
    }
}

/// The palette of each built-in theme; the default theme has none.
pub open spec fn palette_of(builtin: BuiltinTheme) -> Option<BuiltinPalette> {
    match builtin {
        BuiltinTheme::Default => None,
        BuiltinTheme::Ocean => Some(
            BuiltinPalette {
                accent: (0x7a, 0xa2, 0xf7),
                success: (0x9e, 0xce, 0x6a),
                error: (0xf7, 0x76, 0x8e),
                brand: (0xbb, 0x9a, 0xf7),
                info: (0x7d, 0xcf, 0xff),
                message_bg: Some((0x1a, 0x1b, 0x26)),
                selection_bg: Some((0x28, 0x34, 0x57)),
            },
        ),
        BuiltinTheme::RosePine => Some(
            BuiltinPalette {
                accent: (0x9c, 0xcf, 0xd8),
                success: (0x31, 0x74, 0x8f),
                error: (0xeb, 0x6f, 0x92),
                brand: (0xc4, 0xa7, 0xe7),
                info: (0xf6, 0xc1, 0x77),
                message_bg: Some((0x19, 0x17, 0x24)),
                selection_bg: Some((0x26, 0x23, 0x3a)),
            },
        ),
        BuiltinTheme::Solarized => Some(
            BuiltinPalette {
                accent: (0x26, 0x8b, 0xd2),
                success: (0x85, 0x99, 0x00),
                error: (0xdc, 0x32, 0x2f),
                brand: (0xd3, 0x36, 0x82),
                info: (0x2a, 0xa1, 0x98),
                message_bg: Some((0x00, 0x2b, 0x36)),
                selection_bg: Some((0x07, 0x36, 0x42)),
            },
        ),
        BuiltinTheme::CatppuccinLight => Some(
            BuiltinPalette {
                accent: (0x1e, 0x66, 0xf5),
                success: (0x40, 0xa0, 0x2b),
                error: (0xd2, 0x0f, 0x39),
                brand: (0x88, 0x39, 0xef),
                info: (0x20, 0x9f, 0xb5),
                message_bg: Some((0xef, 0xf1, 0xf5)),
                selection_bg: Some((0xcc, 0xd0, 0xda)),
            },
        ),
        BuiltinTheme::EverforestLight => Some(
            BuiltinPalette {
                accent: (0x3a, 0x94, 0xc5),
                success: (0x8d, 0xa1, 0x01),
                error: (0xf8, 0x55, 0x52),
                brand: (0xdf, 0x69, 0xba),
                info: (0x35, 0xa7, 0x7c),
                message_bg: Some((0xf8, 0xf5, 0xe4)),
                selection_bg: Some((0xf2, 0xef, 0xdf)),
            },
        ),
        BuiltinTheme::AyuLight => Some(
            BuiltinPalette {
                accent: (0x36, 0xa3, 0xd9),
                success: (0x86, 0xb3, 0x00),
                error: (0xff, 0x33, 0x33),
                brand: (0xa3, 0x7a, 0xcc),
                info: (0x4c, 0xbf, 0x99),
                message_bg: Some((0xfa, 0xfa, 0xfa)),
                selection_bg: Some((0xf0, 0xee, 0xe4)),
            },
        ),
    }
}

/// Looks up the palette of a built-in theme.
pub fn builtin_palette(builtin: BuiltinTheme) -> (palette: Option<BuiltinPalette>)
    ensures
        palette == palette_of(builtin),
{
    match builtin {
        BuiltinTheme::Default => None,
        BuiltinTheme::Ocean => {
            proof {
                reveal_strlit("#7aa2f7");
                reveal_strlit("#9ece6a");
                reveal_strlit("#f7768e");
                reveal_strlit("#bb9af7");
                reveal_strlit("#7dcfff");
                reveal_strlit("#1a1b26");
                reveal_strlit("#283457");
            }
            Some(
                BuiltinPalette {
                    accent: hex_rgb("#7aa2f7"),
                    success: hex_rgb("#9ece6a"),
                    error: hex_rgb("#f7768e"),
                    brand: hex_rgb("#bb9af7"),
                    info: hex_rgb("#7dcfff"),
                    message_bg: Some(hex_rgb("#1a1b26")),
                    selection_bg: Some(hex_rgb("#283457")),
                },
            )
        },
        BuiltinTheme::RosePine => {
            proof {
                reveal_strlit("#9ccfd8");
                reveal_strlit("#31748f");
                reveal_strlit("#eb6f92");
                reveal_strlit("#c4a7e7");
                reveal_strlit("#f6c177");
                reveal_strlit("#191724");
                reveal_strlit("#26233a");
            }
            Some(
                BuiltinPalette {
                    accent: hex_rgb("#9ccfd8"),
                    success: hex_rgb("#31748f"),
                    error: hex_rgb("#eb6f92"),
                    brand: hex_rgb("#c4a7e7"),
                    info: hex_rgb("#f6c177"),
                    message_bg: Some(hex_rgb("#191724")),
                    selection_bg: Some(hex_rgb("#26233a")),
                },
            )
        },
        BuiltinTheme::Solarized => {
            proof {
                reveal_strlit("#268bd2");
                reveal_strlit("#859900");
                reveal_strlit("#dc322f");
                reveal_strlit("#d33682");
                reveal_strlit("#2aa198");
                reveal_strlit("#002b36");
                reveal_strlit("#073642");
            }
            Some(
                BuiltinPalette {
                    accent: hex_rgb("#268bd2"),
                    success: hex_rgb("#859900"),
                    error: hex_rgb("#dc322f"),
                    brand: hex_rgb("#d33682"),
                    info: hex_rgb("#2aa198"),
                    message_bg: Some(hex_rgb("#002b36")),
                    selection_bg: Some(hex_rgb("#073642")),
                },
            )
        },
        BuiltinTheme::CatppuccinLight => {
            proof {
                reveal_strlit("#1e66f5");
                reveal_strlit("#40a02b");
                reveal_strlit("#d20f39");
                reveal_strlit("#8839ef");
                reveal_strlit("#209fb5");
                reveal_strlit("#eff1f5");
                reveal_strlit("#ccd0da");
            }
            Some(
                BuiltinPalette {
                    accent: hex_rgb("#1e66f5"),
                    success: hex_rgb("#40a02b"),
                    error: hex_rgb("#d20f39"),
                    brand: hex_rgb("#8839ef"),
                    info: hex_rgb("#209fb5"),
                    message_bg: Some(hex_rgb("#eff1f5")),
                    selection_bg: Some(hex_rgb("#ccd0da")),
                },
            )
        },
        BuiltinTheme::EverforestLight => {
            proof {
                reveal_strlit("#3a94c5");
                reveal_strlit("#8da101");
                reveal_strlit("#f85552");
                reveal_strlit("#df69ba");
                reveal_strlit("#35a77c");
                reveal_strlit("#f8f5e4");
                reveal_strlit("#f2efdf");
            }
            Some(
                BuiltinPalette {
                    accent: hex_rgb("#3a94c5"),
                    success: hex_rgb("#8da101"),
                    error: hex_rgb("#f85552"),
                    brand: hex_rgb("#df69ba"),
                    info: hex_rgb("#35a77c"),
                    message_bg: Some(hex_rgb("#f8f5e4")),
                    selection_bg: Some(hex_rgb("#f2efdf")),
                },
            )
        },
        BuiltinTheme::AyuLight => {
            proof {
                reveal_strlit("#36a3d9");
                reveal_strlit("#86b300");
                reveal_strlit("#ff3333");
                reveal_strlit("#a37acc");
                reveal_strlit("#4cbf99");
                reveal_strlit("#fafafa");
                reveal_strlit("#f0eee4");
            }
            Some(
                BuiltinPalette {
                    accent: hex_rgb("#36a3d9"),
                    success: hex_rgb("#86b300"),
                    error: hex_rgb("#ff3333"),
                    brand: hex_rgb("#a37acc"),
                    info: hex_rgb("#4cbf99"),
                    message_bg: Some(hex_rgb("#fafafa")),
                    selection_bg: Some(hex_rgb("#f0eee4")),
                },
            )
        },
    }
}

/// Returns the kebab-case names of every built-in theme, in the order of
/// declaration.
pub fn builtin_theme_names() -> (names: Vec<&'static str>)
    ensures
        names@.len() == builtin_themes().len(),
        forall|i: int| 0 <= i < names@.len() ==> (#[trigger] names@[i])@ == builtin_themes()[i].name_of(),
{
    let mut names: Vec<&'static str> = Vec::new();
    names.push(BuiltinTheme::Default.name());
    names.push(BuiltinTheme::Ocean.name());
    names.push(BuiltinTheme::RosePine.name());
    names.push(BuiltinTheme::Solarized.name());
    names.push(BuiltinTheme::CatppuccinLight.name());
    names.push(BuiltinTheme::EverforestLight.name());
    names.push(BuiltinTheme::AyuLight.name());
    names
}

/// A color keyword of the terminal's own palette.
#[derive(Debug, Clone, Copy, PartialEq, Eq, Structural)]
pub enum NamedColor {
    Black,
    Red,
    Green,
    Yellow,
    Blue,
    Magenta,
    Cyan,
    Gray,
    DarkGray,
    LightRed,
    LightGreen,
    LightYellow,
    LightBlue,
    LightMagenta,
    LightCyan,
    White,
    /// The terminal's default color.
    Reset,
}

/// The color that a keyword names; `None` for an unsupported keyword.
pub open spec fn named_color_of(name: Seq<char>) -> Option<NamedColor> {
    if name == "black"@ {
        Some(NamedColor::Black)
    } else if name == "red"@ {
        Some(NamedColor::Red)
    } else if name == "green"@ {
        Some(NamedColor::Green)
    } else if name == "yellow"@ {
        Some(NamedColor::Yellow)
    } else if name == "blue"@ {
        Some(NamedColor::Blue)
    } else if name == "magenta"@ {
        Some(NamedColor::Magenta)
    } else if name == "cyan"@ {
        Some(NamedColor::Cyan)
    } else if name == "gray"@ {
        Some(NamedColor::Gray)
    } else if name == "grey"@ {
        Some(NamedColor::Gray)
    } else if name == "dark_gray"@ {
        Some(NamedColor::DarkGray)
    } else if name == "light_red"@ {
        Some(NamedColor::LightRed)
    } else if name == "light_green"@ {
        Some(NamedColor::LightGreen)
    } else if name == "light_yellow"@ {
        Some(NamedColor::LightYellow)
    } else if name == "light_blue"@ {
        Some(NamedColor::LightBlue)
    } else if name == "light_magenta"@ {
        Some(NamedColor::LightMagenta)
    } else if name == "light_cyan"@ {
        Some(NamedColor::LightCyan)
    } else if name == "white"@ {
        Some(NamedColor::White)
    } else if name == "default"@ {
        Some(NamedColor::Reset)
    } else {
        None
    }
}

/// Resolves a color keyword used in `ThemeColor::Named`.
pub fn resolve_named_color(name: &str) -> (color: Option<NamedColor>)
    ensures
        color == named_color_of(name@),
{
    if str_eq(name, "black") {
        Some(NamedColor::Black)
    } else if str_eq(name, "red") {
        Some(NamedColor::Red)
    } else if str_eq(name, "green") {
        Some(NamedColor::Green)
    } else if str_eq(name, "yellow") {
        Some(NamedColor::Yellow)
    } else if str_eq(name, "blue") {
        Some(NamedColor::Blue)
    } else if str_eq(name, "magenta") {
        Some(NamedColor::Magenta)
    } else if str_eq(name, "cyan") {
        Some(NamedColor::Cyan)
    } else if str_eq(name, "gray") {
        Some(NamedColor::Gray)
    } else if str_eq(name, "grey") {
        Some(NamedColor::Gray)
    } else if str_eq(name, "dark_gray") {
        Some(NamedColor::DarkGray)
    } else if str_eq(name, "light_red") {
        Some(NamedColor::LightRed)
    } else if str_eq(name, "light_green") {
        Some(NamedColor::LightGreen)
    } else if str_eq(name, "light_yellow") {
        Some(NamedColor::LightYellow)
    } else if str_eq(name, "light_blue") {
        Some(NamedColor::LightBlue)
    } else if str_eq(name, "light_magenta") {
        Some(NamedColor::LightMagenta)
    } else if str_eq(name, "light_cyan") {
        Some(NamedColor::LightCyan)
    } else if str_eq(name, "white") {
        Some(NamedColor::White)
    } else if str_eq(name, "default") {
        Some(NamedColor::Reset)
    } else {
        None
    }
}

/// A configured color, resolved to a terminal keyword or to components.
#[derive(Debug, Clone, Copy, PartialEq, Eq, Structural)]
pub enum ResolvedColor {
    Named(NamedColor),
    Rgb(u8, u8, u8),
}

/// The color that a configured value stands for; `None` for an unknown
/// keyword or a text that is not a hex color.
pub open spec fn resolved_color_of(color: ThemeColor) -> Option<ResolvedColor> {
    match color {
        ThemeColor::Named(name) => match named_color_of(name@) {
            Some(named) => Some(ResolvedColor::Named(named)),
            None => None,
        },
        ThemeColor::Hex(hex) => match hex_triplet(hex@) {
            Some((r, g, b)) => Some(ResolvedColor::Rgb(r, g, b)),
            None => None,
        },
    }
}

/// Resolves a configured `ThemeColor`. An invalid hex value counts as missing.
pub fn resolve_theme_color(color: &ThemeColor) -> (resolved: Option<ResolvedColor>)
    ensures
        resolved == resolved_color_of(*color),
{
    match color {
        ThemeColor::Named(name) => match resolve_named_color(name.as_str()) {
            Some(named) => Some(ResolvedColor::Named(named)),
            None => None,
        },
        ThemeColor::Hex(hex) => match parse_hex_triplet(hex.as_str()) {
            Some((r, g, b)) => Some(ResolvedColor::Rgb(r, g, b)),
            None => None,
        },
    }
}

/// Where the colors of a theme come from, before overrides are applied.
#[derive(Debug, Clone, Copy, PartialEq, Eq)]
pub enum ThemePlan {
    /// The default theme of the terminal's own colors.
    DefaultTheme,
    /// The palette of a built-in theme as it is.
    Palette(BuiltinPalette),
    /// The palette of a built-in theme, to be adapted for a terminal of
    /// the other polarity.
    Adapted(BuiltinPalette),
}

/// The plan for a built-in theme without regard to the terminal.
pub open spec fn plain_plan(builtin: BuiltinTheme) -> ThemePlan {
    match palette_of(builtin) {
        Some(palette) => ThemePlan::Palette(palette),
        None => ThemePlan::DefaultTheme,
    }
}

/// The plan for a built-in theme on a terminal that is dark or light: the
/// palette as it is where theme and terminal agree, and the palette to
/// adapt where they do not. The default theme follows the terminal.
pub open spec fn terminal_plan(builtin: BuiltinTheme, terminal_is_dark: bool) -> ThemePlan {
    match palette_of(builtin) {
        Some(palette) => if (builtin == BuiltinTheme::Ocean || builtin == BuiltinTheme::RosePine
            || builtin == BuiltinTheme::Solarized) == terminal_is_dark {
            ThemePlan::Palette(palette)
        } else {
            ThemePlan::Adapted(palette)
        },
        None => ThemePlan::DefaultTheme,
    }
}

/// Plans a built-in theme without regard to the terminal.
pub fn plan_builtin(builtin: BuiltinTheme) -> (plan: ThemePlan)
    ensures
        plan == plain_plan(builtin),
{
    match builtin_palette(builtin) {
        Some(palette) => ThemePlan::Palette(palette),
        None => ThemePlan::DefaultTheme,
    }
}

/// Plans a built-in theme for a terminal that is dark or light.
pub fn plan_builtin_with_terminal(builtin: BuiltinTheme, terminal_is_dark: bool) -> (plan:
    ThemePlan)
    ensures
        plan == terminal_plan(builtin, terminal_is_dark),
{
    let palette = match builtin_palette(builtin) {
        Some(palette) => palette,
        None => {
            return ThemePlan::DefaultTheme;
        },
    };
    let builtin_is_dark = match builtin.is_dark() {
        Some(dark) => dark,
        None => {
            return ThemePlan::DefaultTheme;
        },
    };
    if builtin_is_dark == terminal_is_dark {
        ThemePlan::Palette(palette)
    } else {
        ThemePlan::Adapted(palette)
    }
}

/// The plan of a built-in theme for a terminal whose polarity may be known.
pub open spec fn plan_for(builtin: BuiltinTheme, terminal_is_dark: Option<bool>) -> ThemePlan {
    match terminal_is_dark {
        Some(dark) => terminal_plan(builtin, dark),
        None => plain_plan(builtin),
    }
}

/// The plan of a configured theme. A built-in theme is adapted to the
/// terminal only if the configuration overrides neither palette nor
/// styles and the polarity of the terminal is known. No name, or an
/// unknown one, selects the default theme.
pub open spec fn configured_plan(
    builtin: Option<BuiltinTheme>,
    has_palette: bool,
    has_styles: bool,
    terminal_is_dark: Option<bool>,
) -> ThemePlan {
    match builtin {
        Some(theme) => if !has_palette && !has_styles && terminal_is_dark is Some {
            terminal_plan(theme, terminal_is_dark->0)
        } else {
            plain_plan(theme)
        },
        None => ThemePlan::DefaultTheme,
    }
}

/// Plans the theme of a configuration. Returns the plan and whether the
/// configuration names a theme that does not exist.
pub fn plan_theme(
    name: Option<&str>,
    has_palette: bool,
    has_styles: bool,
    terminal_is_dark: Option<bool>,
) -> (out: (ThemePlan, bool))
    ensures
        exists|builtin: Option<BuiltinTheme>|
            {
                &&& match (name, builtin) {
                    (Some(text), Some(theme)) => theme.name_of() == text@,
                    (Some(text), None) => forall|theme: BuiltinTheme| theme.name_of() != text@,
                    (None, found) => found is None,
                }
                &&& out.0 == #[trigger] configured_plan(
                    builtin,
                    has_palette,
                    has_styles,
                    terminal_is_dark,
                )
                &&& out.1 == (name is Some && builtin is None)
            },
{
    let builtin = match name {
        Some(text) => BuiltinTheme::from_name(text),
        None => None,
    };
    let unknown = name.is_some() && builtin.is_none();
    // Only a built-in theme without overrides is adapted to the terminal.
    let should_adapt = builtin.is_some() && !has_palette && !has_styles;
    let plan = match builtin {
        Some(theme) => {
            if should_adapt {
                match terminal_is_dark {
                    Some(dark) => plan_builtin_with_terminal(theme, dark),
                    None => plan_builtin(theme),
                }
            } else {
                plan_builtin(theme)
            }
        },
        None => ThemePlan::DefaultTheme,
    };
    proof {
        assert(plan == configured_plan(builtin, has_palette, has_styles, terminal_is_dark));
    }
    (plan, unknown)
}

/// Plans a built-in theme by its name for a terminal whose polarity may
/// be known; `None` for a name that selects no theme.
pub fn plan_builtin_theme_for_terminal(name: &str, terminal_is_dark: Option<bool>) -> (plan:
    Option<ThemePlan>)
    ensures
        match plan {
            Some(found) => exists|theme: BuiltinTheme|
                theme.name_of() == name@ && found == #[trigger] plan_for(theme, terminal_is_dark),
            None => forall|theme: BuiltinTheme| theme.name_of() != name@,
        },
{
    match BuiltinTheme::from_name(name) {
        Some(theme) => {
            let plan = match terminal_is_dark {
                Some(dark) => plan_builtin_with_terminal(theme, dark),
                None => plan_builtin(theme),
            };
            proof {
                assert(theme.name_of() == name@ && plan == plan_for(theme, terminal_is_dark));
            }
            Some(plan)
        },
        None => None,
    }
}

} // verus!
