//! The list from which a built-in theme is picked.

use crate::text::str_eq;
use crate::theme::{builtin_themes, BuiltinTheme};
use vstd::prelude::*;
use vstd::string::*;

verus! {

/// One entry of the list.
pub struct ThemePickerItem {
    pub name: &'static str,
    /// Whether the theme is the one in use.
    pub is_current: bool,
    /// Whether choosing the entry closes the list.
    pub dismiss_on_select: bool,
}

/// What the list shows.
pub struct ThemePickerParams {
    pub title: &'static str,
    pub subtitle: &'static str,
    /// A warning below the list, shown while the configuration overrides
    /// colors or styles.
    pub footer_note: Option<&'static str>,
    pub items: Vec<ThemePickerItem>,
}

/// Lists the built-in themes in the order of their declaration.
pub fn builtin_theme_list() -> (themes: Vec<BuiltinTheme>)
    ensures
        themes@ == builtin_themes(),
{
    let mut themes: Vec<BuiltinTheme> = Vec::new();
    themes.push(BuiltinTheme::Default);
    themes.push(BuiltinTheme::Ocean);
    themes.push(BuiltinTheme::RosePine);
    themes.push(BuiltinTheme::Solarized);
    themes.push(BuiltinTheme::CatppuccinLight);
    themes.push(BuiltinTheme::EverforestLight);
    themes.push(BuiltinTheme::AyuLight);
    proof {
        assert(themes@ =~= builtin_themes());
    }
    themes
}

/// Builds the list: one entry for each built-in theme, in the order of
/// their declaration, with the theme named `current_name` marked as the
/// one in use; and a warning if picking a theme replaces overrides.
pub fn build_theme_picker_params(current_name: Option<&str>, has_overrides: bool) -> (params:
    ThemePickerParams)
    ensures
        params.title@ == "Select Theme"@,
        params.subtitle@ == "Use the arrow keys to navigate and Enter to select a theme."@,
        match params.footer_note {
            Some(note) => has_overrides && note@
                == "Note: selecting a theme will replace your custom palette/style overrides."@,
            None => !has_overrides,
        },
        params.items@.len() == builtin_themes().len(),
        forall|i: int|
            0 <= i < params.items@.len() ==> {
                let item = #[trigger] params.items@[i];
                &&& item.name@ == builtin_themes()[i].name_of()
                &&& item.dismiss_on_select
                &&& item.is_current == match current_name {
                    Some(name) => name@ == builtin_themes()[i].name_of(),
                    None => false,
                }
            },
{
    let themes = builtin_theme_list();
    let mut items: Vec<ThemePickerItem> = Vec::new();
    let mut i: usize = 0;
    while i < themes.len()
        invariant
            i <= themes@.len(),
            themes@ == builtin_themes(),
            items@.len() == i,
            forall|k: int|
                0 <= k < i ==> {
                    let item = #[trigger] items@[k];
                    &&& item.name@ == builtin_themes()[k].name_of()
                    &&& item.dismiss_on_select
                    &&& item.is_current == match current_name {
                        Some(name) => name@ == builtin_themes()[k].name_of(),
                        None => false,
                    }
                },
        decreases themes@.len() - i,
    {
        let name = themes[i].name();
        let is_current = match current_name {
            Some(current) => str_eq(current, name),
            None => false,
        };
        items.push(ThemePickerItem { name, is_current, dismiss_on_select: true });
        i = i + 1;
    }
    let footer_note = if has_overrides {
        Some("Note: selecting a theme will replace your custom palette/style overrides.")
    } else {
        None
    };
    ThemePickerParams {
        title: "Select Theme",
        subtitle: "Use the arrow keys to navigate and Enter to select a theme.",
        footer_note,
        items,
    }
}

/// The theme at a position of the list, for the preview that follows the
/// highlight.
pub fn theme_at(idx: usize) -> (theme: Option<BuiltinTheme>)
    ensures
        theme == if idx < builtin_themes().len() {
            Some(builtin_themes()[idx as int])
        } else {
            None
        },
{
    let themes = builtin_theme_list();
    if idx < themes.len() {
        Some(themes[idx])
    } else {
        None
    }
}

} // verus!
