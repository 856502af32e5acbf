use codex_tui::config::theme::all_hex_digits;
use codex_tui::config::theme::ThemeColor;
use codex_tui::config::theme::ThemePalette;
use codex_tui::config::theme::ThemeStyle;
use codex_tui::theme::builtin_palette;
use codex_tui::theme::builtin_theme_names;
use codex_tui::theme::hex_rgb;
use codex_tui::theme::parse_hex_pair;
use codex_tui::theme::parse_hex_triplet;
use codex_tui::theme::plan_builtin;
use codex_tui::theme::plan_builtin_theme_for_terminal;
use codex_tui::theme::plan_theme;
use codex_tui::theme::resolve_named_color;
use codex_tui::theme::resolve_theme_color;
use codex_tui::theme::styles::apply_component_styles;
use codex_tui::theme::styles::apply_palette_overrides;
use codex_tui::theme::styles::apply_style_override;
use codex_tui::theme::styles::apply_style_overrides;
use codex_tui::theme::styles::build_theme;
use codex_tui::theme::styles::build_theme_from_palette;
use codex_tui::theme::styles::resolve_theme_values;
use codex_tui::theme::styles::ComponentOverrides;
use codex_tui::theme::styles::ComponentStyle;
use codex_tui::theme::styles::ThemeValues;
use codex_tui::theme::BuiltinPalette;
use codex_tui::theme_picker::build_theme_picker_params;
use codex_tui::theme_picker::theme_at;
use codex_tui::theme::BuiltinTheme;
use codex_tui::theme::NamedColor;
use codex_tui::theme::ResolvedColor;
use codex_tui::theme::ThemePlan;

fn deser(s: &str) -> Result<ThemeColor, String> {
    ThemeColor::parse(s.to_string())
}

#[test]
fn hex_color_6_digit() {
    assert_eq!(deser("#ff00aa").unwrap(), ThemeColor::Hex("#ff00aa".into()));
}

#[test]
fn named_color() {
    assert_eq!(deser("red").unwrap(), ThemeColor::Named("red".into()));
}

#[test]
fn named_color_multi_word() {
    assert_eq!(
        deser("dark-blue").unwrap(),
        ThemeColor::Named("dark-blue".into())
    );
}

#[test]
fn invalid_hex_too_short() {
    let err = deser("#ab").unwrap_err();
    assert!(err.to_string().contains("is not a valid hex color"));
}

#[test]
fn invalid_hex_too_long() {
    let err = deser("#ff00aabb").unwrap_err();
    assert!(err.to_string().contains("is not a valid hex color"));
}

#[test]
fn invalid_hex_5_chars() {
    let err = deser("#abcde").unwrap_err();
    assert!(err.to_string().contains("is not a valid hex color"));
}

#[test]
fn hex_hash_only() {
    let err = deser("#").unwrap_err();
    assert!(err.to_string().contains("is not a valid hex color"));
}

#[test]
fn invalid_hex_non_hex_digit() {
    let err = deser("#zzzzzz").unwrap_err();
    assert!(err.to_string().contains("is not a valid hex color"));
}

#[test]
fn empty_string_is_named() {
    assert_eq!(deser("").unwrap(), ThemeColor::Named("".into()));
}

#[test]
fn invalid_hex_message_names_the_value() {
    assert_eq!(deser("#12345g").unwrap_err(), "#12345g is not a valid hex color");
    assert_eq!(deser("#ÀBCDEF").unwrap_err(), "#ÀBCDEF is not a valid hex color");
    assert_eq!(deser("#ABCdef").unwrap().as_str(), "#ABCdef");
    assert_eq!(deser("cyan").unwrap().as_str(), "cyan");
    assert!(all_hex_digits("09afAF", 6));
    assert!(!all_hex_digits("09afA", 6));
    assert!(!all_hex_digits("09afAG", 6));
}

#[test]
fn defaults_override_nothing() {
    let palette = ThemePalette::default();
    assert_eq!(palette.accent, None);
    assert_eq!(palette.selection_bg, None);
    let style = ThemeStyle::default();
    assert_eq!(
        style,
        ThemeStyle {
            fg: None,
            bg: None,
            bold: false,
            dim: false,
            italic: false,
            underlined: false,
        }
    );
}

#[test]
fn builtin_themes_have_kebab_case_names() {
    assert_eq!(
        builtin_theme_names(),
        vec![
            "default",
            "ocean",
            "rose-pine",
            "solarized",
            "catppuccin-light",
            "everforest-light",
            "ayu-light",
        ]
    );
    for name in builtin_theme_names() {
        assert_eq!(BuiltinTheme::from_name(name).unwrap().name(), name);
    }
    assert_eq!(BuiltinTheme::from_name("Ocean"), None);
    assert_eq!(BuiltinTheme::from_name("rose_pine"), None);
    assert_eq!(BuiltinTheme::from_name(""), None);
    assert_eq!(BuiltinTheme::Default.is_dark(), None);
    assert_eq!(BuiltinTheme::Solarized.is_dark(), Some(true));
    assert_eq!(BuiltinTheme::AyuLight.is_dark(), Some(false));
}

#[test]
fn hex_triplets_parse_as_std_parses_their_pairs() {
    assert_eq!(parse_hex_triplet("#7aa2f7"), Some((0x7a, 0xa2, 0xf7)));
    assert_eq!(parse_hex_triplet("#FFFFFF"), Some((255, 255, 255)));
    assert_eq!(parse_hex_triplet("#000000"), Some((0, 0, 0)));
    assert_eq!(parse_hex_triplet("7aa2f7"), None);
    assert_eq!(parse_hex_triplet("#7aa2f"), None);
    assert_eq!(parse_hex_triplet("#7aa2f7f"), None);
    assert_eq!(parse_hex_triplet("#7aa2fg"), None);
    assert_eq!(parse_hex_triplet(""), None);
    assert_eq!(parse_hex_triplet("#+f+f+f"), Some((15, 15, 15)));
    assert_eq!(hex_rgb("#283457"), (0x28, 0x34, 0x57));
    assert_eq!(hex_rgb("nonsense"), (0, 0, 0));
    let ascii: Vec<char> = (0x20u8..0x7f).map(|b| b as char).collect();
    for high in &ascii {
        for low in &ascii {
            let text: String = [*high, *low].iter().collect();
            assert_eq!(
                parse_hex_pair(*high, *low),
                u8::from_str_radix(&text, 16).ok(),
                "{text:?}"
            );
        }
    }
}

#[test]
fn builtin_palettes_hold_their_colors() {
    assert_eq!(builtin_palette(BuiltinTheme::Default), None);
    let ocean = builtin_palette(BuiltinTheme::Ocean).unwrap();
    assert_eq!(ocean.accent, (0x7a, 0xa2, 0xf7));
    assert_eq!(ocean.info, (0x7d, 0xcf, 0xff));
    assert_eq!(ocean.selection_bg, Some((0x28, 0x34, 0x57)));
    let ayu = builtin_palette(BuiltinTheme::AyuLight).unwrap();
    assert_eq!(ayu.error, (0xff, 0x33, 0x33));
    assert_eq!(ayu.message_bg, Some((0xfa, 0xfa, 0xfa)));
    let fallback = BuiltinPalette::fallback();
    assert_eq!(fallback.info, (135, 206, 250));
    assert_eq!(fallback.message_bg, None);
}

#[test]
fn color_keywords_resolve() {
    assert_eq!(resolve_named_color("grey"), Some(NamedColor::Gray));
    assert_eq!(resolve_named_color("gray"), Some(NamedColor::Gray));
    assert_eq!(resolve_named_color("default"), Some(NamedColor::Reset));
    assert_eq!(resolve_named_color("light_cyan"), Some(NamedColor::LightCyan));
    assert_eq!(resolve_named_color("Red"), None);
    assert_eq!(resolve_named_color("dark-blue"), None);
    assert_eq!(
        resolve_theme_color(&ThemeColor::Named("red".into())),
        Some(ResolvedColor::Named(NamedColor::Red))
    );
    assert_eq!(
        resolve_theme_color(&ThemeColor::Hex("#0a0b0c".into())),
        Some(ResolvedColor::Rgb(10, 11, 12))
    );
    assert_eq!(resolve_theme_color(&ThemeColor::Hex("#nothex".into())), None);
    assert_eq!(resolve_theme_color(&ThemeColor::Named("mauve".into())), None);
}

#[test]
fn adapts_dark_theme_on_light_terminal() {
    let (plan, unknown) = plan_theme(Some("ocean"), false, false, Some(false));
    assert!(!unknown);
    match plan {
        ThemePlan::Adapted(palette) => {
            assert!(palette.message_bg.is_some());
            assert!(palette.selection_bg.is_some());
        }
        other => panic!("expected an adapted palette, got {other:?}"),
    }
}

#[test]
fn adapts_light_theme_on_dark_terminal() {
    let (plan, _) = plan_theme(Some("catppuccin-light"), false, false, Some(true));
    match plan {
        ThemePlan::Adapted(palette) => {
            assert!(palette.message_bg.is_some());
            assert!(palette.selection_bg.is_some());
        }
        other => panic!("expected an adapted palette, got {other:?}"),
    }
}

#[test]
fn skips_adaptation_when_palette_overrides() {
    let (plan, _) = plan_theme(Some("ocean"), true, false, Some(false));
    match plan {
        ThemePlan::Palette(palette) => {
            assert!(palette.message_bg.is_some());
            assert!(palette.selection_bg.is_some());
        }
        other => panic!("expected the palette as it is, got {other:?}"),
    }
    let palette = ThemePalette {
        accent: Some(ThemeColor::Named("red".to_string())),
        ..ThemePalette::default()
    };
    let theme = resolve_theme_values(plan, &Some(palette), &None);
    assert!(theme.message_bg.is_some());
    assert!(theme.selection_bg.is_some());
    assert_eq!(theme.accent, ResolvedColor::Named(NamedColor::Red));
    assert_eq!(theme.message_bg, Some(ResolvedColor::Rgb(0x1a, 0x1b, 0x26)));
}

#[test]
fn theme_plans_follow_name_and_terminal() {
    let ocean = builtin_palette(BuiltinTheme::Ocean).unwrap();
    assert_eq!(plan_theme(None, false, false, Some(true)), (ThemePlan::DefaultTheme, false));
    assert_eq!(plan_theme(Some("nope"), false, false, None), (ThemePlan::DefaultTheme, true));
    assert_eq!(plan_theme(Some("default"), false, false, Some(true)).0, ThemePlan::DefaultTheme);
    assert_eq!(plan_theme(Some("ocean"), false, false, Some(true)).0, ThemePlan::Palette(ocean));
    assert_eq!(plan_theme(Some("ocean"), false, false, None).0, ThemePlan::Palette(ocean));
    assert_eq!(plan_theme(Some("ocean"), false, true, Some(false)).0, ThemePlan::Palette(ocean));
    assert_eq!(plan_builtin(BuiltinTheme::Default), ThemePlan::DefaultTheme);
    assert_eq!(
        plan_builtin_theme_for_terminal("ocean", Some(false)),
        Some(ThemePlan::Adapted(ocean))
    );
    assert_eq!(
        plan_builtin_theme_for_terminal("ocean", None),
        Some(ThemePlan::Palette(ocean))
    );
    assert_eq!(plan_builtin_theme_for_terminal("nope", None), None);
}

#[test]
fn theme_picker_lists_every_builtin_theme() {
    let params = build_theme_picker_params(Some("solarized"), true);
    assert_eq!(params.title, "Select Theme");
    assert_eq!(
        params.footer_note,
        Some("Note: selecting a theme will replace your custom palette/style overrides.")
    );
    let names: Vec<&str> = params.items.iter().map(|item| item.name).collect();
    assert_eq!(names, builtin_theme_names());
    let current: Vec<&str> = params
        .items
        .iter()
        .filter(|item| item.is_current)
        .map(|item| item.name)
        .collect();
    assert_eq!(current, vec!["solarized"]);
    assert!(params.items.iter().all(|item| item.dismiss_on_select));
    let params = build_theme_picker_params(None, false);
    assert_eq!(params.footer_note, None);
    assert!(params.items.iter().all(|item| !item.is_current));
    assert_eq!(theme_at(1), Some(BuiltinTheme::Ocean));
    assert_eq!(theme_at(7), None);
}

fn fg(color: ResolvedColor) -> ComponentStyle {
    ComponentStyle { fg: Some(color), bg: None, bold: false, dim: false, italic: false, underlined: false }
}

fn named(color: NamedColor) -> ResolvedColor {
    ResolvedColor::Named(color)
}

#[test]
fn the_default_theme_uses_the_colors_of_the_terminal() {
    let theme = ThemeValues::default_theme();
    let expected = ThemeValues {
        accent: named(NamedColor::Cyan),
        success: named(NamedColor::Green),
        error: named(NamedColor::Red),
        brand: named(NamedColor::Magenta),
        info: named(NamedColor::LightBlue),
        message_bg: None,
        selection_bg: None,
        markdown_code: fg(named(NamedColor::Cyan)),
        markdown_link: ComponentStyle { underlined: true, ..fg(named(NamedColor::Cyan)) },
        markdown_blockquote: fg(named(NamedColor::Green)),
        diff_added: fg(named(NamedColor::Green)),
        diff_removed: fg(named(NamedColor::Red)),
    };
    assert_eq!(theme, expected);
    assert_eq!(ThemeValues::from_builtin(BuiltinTheme::Default), expected);
    assert_eq!(ThemeValues::from_plan(ThemePlan::DefaultTheme), expected);
    assert_eq!(resolve_theme_values(ThemePlan::DefaultTheme, &None, &None), expected);
    assert_eq!(theme.accent_style(), fg(named(NamedColor::Cyan)));
    assert_eq!(theme.success_style(), fg(named(NamedColor::Green)));
    assert_eq!(theme.error_style(), fg(named(NamedColor::Red)));
    assert_eq!(theme.brand_style(), fg(named(NamedColor::Magenta)));
    assert_eq!(theme.info_style(), fg(named(NamedColor::LightBlue)));
    assert_eq!(theme.success_bold(), ComponentStyle { bold: true, ..fg(named(NamedColor::Green)) });
    assert_eq!(theme.error_bold(), ComponentStyle { bold: true, ..fg(named(NamedColor::Red)) });
    assert_eq!(theme.brand_bold(), ComponentStyle { bold: true, ..fg(named(NamedColor::Magenta)) });
}

#[test]
fn built_in_themes_take_their_palette() {
    let theme = ThemeValues::from_builtin(BuiltinTheme::Solarized);
    assert_eq!(theme.accent, ResolvedColor::Rgb(0x26, 0x8b, 0xd2));
    assert_eq!(theme.success, ResolvedColor::Rgb(0x85, 0x99, 0x00));
    assert_eq!(theme.error, ResolvedColor::Rgb(0xdc, 0x32, 0x2f));
    assert_eq!(theme.brand, ResolvedColor::Rgb(0xd3, 0x36, 0x82));
    assert_eq!(theme.info, ResolvedColor::Rgb(0x2a, 0xa1, 0x98));
    assert_eq!(theme.message_bg, Some(ResolvedColor::Rgb(0x00, 0x2b, 0x36)));
    assert_eq!(theme.selection_bg, Some(ResolvedColor::Rgb(0x07, 0x36, 0x42)));
    assert_eq!(theme.markdown_code, fg(theme.accent));
    assert_eq!(theme.markdown_link, ComponentStyle { underlined: true, ..fg(theme.accent) });
    assert_eq!(theme.markdown_blockquote, fg(theme.success));
    assert_eq!(theme.diff_added, fg(theme.success));
    assert_eq!(theme.diff_removed, fg(theme.error));

    let palette = builtin_palette(BuiltinTheme::Solarized).unwrap();
    assert_eq!(build_theme_from_palette(palette), theme);
    assert_eq!(ThemeValues::from_plan(ThemePlan::Palette(palette)), theme);
    assert_eq!(ThemeValues::from_plan(ThemePlan::Adapted(palette)), theme);
    let fallback = build_theme_from_palette(BuiltinPalette::fallback());
    assert_eq!(fallback.info, ResolvedColor::Rgb(135, 206, 250));
    assert_eq!(fallback.message_bg, None);
    assert_eq!(
        build_theme(
            theme.accent,
            theme.success,
            theme.error,
            theme.brand,
            theme.info,
            theme.message_bg,
            theme.selection_bg
        ),
        theme
    );
}

#[test]
fn palette_overrides_replace_the_colors_that_resolve() {
    let base = ThemeValues::from_builtin(BuiltinTheme::Ocean);
    let palette = ThemePalette {
        accent: Some(ThemeColor::Named("yellow".into())),
        success: Some(ThemeColor::Hex("#010203".into())),
        error: Some(ThemeColor::Hex("#12345".into())),
        brand: Some(ThemeColor::Named("mauve".into())),
        info: None,
        message_bg: Some(ThemeColor::Named("default".into())),
        selection_bg: Some(ThemeColor::Hex("#zzzzzz".into())),
    };
    let mut theme = base;
    apply_palette_overrides(&mut theme, &palette);
    assert_eq!(theme.accent, named(NamedColor::Yellow));
    assert_eq!(theme.success, ResolvedColor::Rgb(1, 2, 3));
    assert_eq!(theme.error, base.error);
    assert_eq!(theme.brand, base.brand);
    assert_eq!(theme.info, base.info);
    assert_eq!(theme.message_bg, Some(named(NamedColor::Reset)));
    assert_eq!(theme.selection_bg, base.selection_bg);
    assert_eq!(theme.markdown_code, base.markdown_code);
    assert_eq!(theme.diff_added, base.diff_added);

    apply_component_styles(&mut theme);
    assert_eq!(theme.markdown_code, fg(named(NamedColor::Yellow)));
    assert_eq!(
        theme.markdown_link,
        ComponentStyle { underlined: true, ..fg(named(NamedColor::Yellow)) }
    );
    assert_eq!(theme.markdown_blockquote, fg(ResolvedColor::Rgb(1, 2, 3)));
    assert_eq!(theme.diff_added, fg(ResolvedColor::Rgb(1, 2, 3)));
    assert_eq!(theme.diff_removed, fg(base.error));
    assert_eq!(resolve_theme_values(ThemePlan::Palette(builtin_palette(BuiltinTheme::Ocean).unwrap()), &Some(palette), &None), theme);

    let mut same = base;
    apply_palette_overrides(&mut same, &ThemePalette::default());
    assert_eq!(same, base);
}

#[test]
fn style_overrides_add_to_the_style_of_a_component() {
    let base = ComponentStyle { underlined: true, ..fg(named(NamedColor::Cyan)) };
    assert_eq!(apply_style_override(base, &ThemeStyle::default()), base);
    let style = ThemeStyle {
        fg: Some(ThemeColor::Hex("#ff0080".into())),
        bg: Some(ThemeColor::Named("black".into())),
        bold: true,
        dim: false,
        italic: true,
        underlined: false,
    };
    assert_eq!(
        apply_style_override(base, &style),
        ComponentStyle {
            fg: Some(ResolvedColor::Rgb(255, 0, 128)),
            bg: Some(named(NamedColor::Black)),
            bold: true,
            dim: false,
            italic: true,
            underlined: true,
        }
    );
    let unresolved = ThemeStyle {
        fg: Some(ThemeColor::Named("mauve".into())),
        bg: Some(ThemeColor::Hex("#12".into())),
        dim: true,
        ..ThemeStyle::default()
    };
    assert_eq!(apply_style_override(base, &unresolved), ComponentStyle { dim: true, ..base });
}

#[test]
fn configured_styles_come_after_the_palette() {
    let palette = ThemePalette {
        accent: Some(ThemeColor::Named("yellow".into())),
        error: Some(ThemeColor::Named("light_red".into())),
        ..ThemePalette::default()
    };
    let overrides = ComponentOverrides {
        markdown_code: Some(ThemeStyle { bold: true, ..ThemeStyle::default() }),
        markdown_link: None,
        markdown_blockquote: Some(ThemeStyle {
            fg: Some(ThemeColor::Named("white".into())),
            ..ThemeStyle::default()
        }),
        diff_added: None,
        diff_removed: Some(ThemeStyle {
            bg: Some(ThemeColor::Hex("#200000".into())),
            ..ThemeStyle::default()
        }),
    };
    let theme = resolve_theme_values(ThemePlan::DefaultTheme, &Some(palette.clone()), &Some(overrides.clone()));
    assert_eq!(theme.accent, named(NamedColor::Yellow));
    assert_eq!(theme.markdown_code, ComponentStyle { bold: true, ..fg(named(NamedColor::Yellow)) });
    assert_eq!(
        theme.markdown_link,
        ComponentStyle { underlined: true, ..fg(named(NamedColor::Yellow)) }
    );
    assert_eq!(theme.markdown_blockquote, fg(named(NamedColor::White)));
    assert_eq!(theme.diff_added, fg(named(NamedColor::Green)));
    assert_eq!(
        theme.diff_removed,
        ComponentStyle { bg: Some(ResolvedColor::Rgb(0x20, 0, 0)), ..fg(named(NamedColor::LightRed)) }
    );

    let mut by_hand = ThemeValues::default_theme();
    apply_palette_overrides(&mut by_hand, &palette);
    apply_component_styles(&mut by_hand);
    apply_style_overrides(&mut by_hand, &overrides);
    assert_eq!(by_hand, theme);

    let styled = resolve_theme_values(ThemePlan::DefaultTheme, &None, &Some(overrides));
    assert_eq!(styled.accent, named(NamedColor::Cyan));
    assert_eq!(styled.markdown_code, ComponentStyle { bold: true, ..fg(named(NamedColor::Cyan)) });
}
