use codex_tui::keymap::bindings::conflict_contexts;
use codex_tui::keymap::bindings::default_bindings;
use codex_tui::keymap::bindings::tui_keybinding_actions;
use codex_tui::keymap::bindings::validate_conflicts;
use codex_tui::keymap::bindings::KeybindingValue;
use codex_tui::keymap::bindings::KeybindingsToml;
use codex_tui::keymap::bindings::TextAreaKeymap;
use codex_tui::keymap::bindings::TuiKeymap;
use codex_tui::keymap::chord::all_modifier_variants;
use codex_tui::keymap::chord::ascii_case_variants;
use codex_tui::keymap::chord::ctrl_char_fallback;
use codex_tui::keymap::chord::ctrl_char_to_letter;
use codex_tui::keymap::chord::format_keybinding;
use codex_tui::keymap::chord::format_keycode_display;
use codex_tui::keymap::chord::parse_function_key;
use codex_tui::keymap::chord::parse_key_chord;
use codex_tui::keymap::chord::parse_keycode;
use codex_tui::keymap::chord::parse_named_punct;
use codex_tui::keymap::chord::parse_u8;
use codex_tui::keymap::chord::u8_to_string;
use codex_tui::keymap::chord::KeyBindingSet;
use codex_tui::keymap::format_action_list;
use codex_tui::keymap::keys::KeyCode;
use codex_tui::keymap::keys::KeyEvent;
use codex_tui::keymap::keys::KeyEventKind;
use codex_tui::keymap::keys::KeyModifiers;
use codex_tui::keymap::keys::MediaKeyCode;
use codex_tui::keymap::KeymapError;
use std::collections::HashSet;

fn keybindings(pairs: &[(&str, &str)]) -> KeybindingsToml {
    let mut rows = Vec::new();
    for (action, chord) in pairs {
        rows.push((
            (*action).to_string(),
            KeybindingValue::Single((*chord).to_string()),
        ));
    }
    KeybindingsToml(rows)
}

fn assert_conflict(err: KeymapError, context: &str, expected_actions: &[&str]) {
    match err {
        KeymapError::Conflict {
            context: actual_context,
            actions,
            ..
        } => {
            assert_eq!(actual_context, context);
            let actual: HashSet<String> = actions.into_iter().collect();
            let expected: HashSet<String> = expected_actions
                .iter()
                .map(|action| (*action).to_string())
                .collect();
            assert_eq!(actual, expected);
        }
        other => panic!("expected conflict, got {other:?}"),
    }
}

fn expect_err(result: Result<TuiKeymap, KeymapError>, message: &str) -> KeymapError {
    match result {
        Ok(_) => panic!("{message}"),
        Err(err) => err,
    }
}

#[test]
fn conflicts_detect_ctrl_case_insensitive_chords() {
    let keybindings = keybindings(&[
        ("chat_quit_or_interrupt_primary", "Ctrl+C"),
        ("chat_quit_or_interrupt_secondary", "Ctrl+c"),
    ]);

    let err = expect_err(
        TuiKeymap::from_keybindings(Some(&keybindings), false, false),
        "should detect conflict for ctrl case variants",
    );

    assert_conflict(
        err,
        "chat",
        &[
            "chat_quit_or_interrupt_primary",
            "chat_quit_or_interrupt_secondary",
        ],
    );
}

#[test]
fn conflicts_detect_shift_tab_backtab_equivalence() {
    let keybindings = keybindings(&[("popup_accept", "Shift+Tab"), ("popup_cancel", "BackTab")]);

    let err = expect_err(
        TuiKeymap::from_keybindings(Some(&keybindings), false, false),
        "should detect conflict for shift-tab/backtab",
    );

    assert_conflict(err, "popup", &["popup_accept", "popup_cancel"]);
}

#[test]
fn conflicts_detect_ctrl_char_fallbacks() {
    let keybindings = keybindings(&[("text_line_start", "Ctrl+A"), ("text_line_end", "\u{0001}")]);

    let err = expect_err(
        TuiKeymap::from_keybindings(Some(&keybindings), false, false),
        "should detect conflict for ctrl-char fallback",
    );

    assert_conflict(err, "text", &["text_line_start", "text_line_end"]);
}

#[test]
fn space_and_shift_space_are_distinct() {
    let space = parse_key_chord("Space").expect("space should parse");
    let shift_space = parse_key_chord("Shift+Space").expect("shift+space should parse");

    assert!(space.matches(KeyEvent::new(KeyCode::Char(' '), KeyModifiers::none())));
    assert!(!space.matches(KeyEvent::new(KeyCode::Char(' '), KeyModifiers::shift())));
    assert!(shift_space.matches(KeyEvent::new(KeyCode::Char(' '), KeyModifiers::shift())));
    assert!(!shift_space.matches(KeyEvent::new(KeyCode::Char(' '), KeyModifiers::none())));
}

#[test]
fn default_keymaps_are_valid_for_every_terminal() {
    for enhanced in [false, true] {
        for wsl in [false, true] {
            let keymap = TuiKeymap::defaults(enhanced, wsl).expect("defaults should be valid");
            assert_eq!(keymap.bindings.len(), 134);
            assert!(validate_conflicts(&keymap).is_ok());
        }
    }
    let keymap = TuiKeymap::defaults(false, true).unwrap();
    let paste = keymap.get("chat_paste_image").unwrap();
    assert_eq!(paste.0, vec![parse_key_chord("Ctrl+Alt+V").unwrap()]);
    let keymap = TuiKeymap::defaults(true, false).unwrap();
    let newline = keymap.get("composer_newline").unwrap();
    assert_eq!(newline.0, vec![parse_key_chord("Shift+Enter").unwrap()]);
    assert!(keymap.get("no_such_action").is_none());
}

#[test]
fn default_chords_parse_as_std_would_read_them() {
    for binding in default_bindings(true, false) {
        for chord in &binding.chords {
            assert!(parse_key_chord(chord).is_ok(), "{chord}");
        }
    }
}

#[test]
fn action_list_matches_default_bindings_and_contexts() {
    let actions = tui_keybinding_actions();
    assert_eq!(actions.len(), 134);
    assert_eq!(actions[0], "global_suspend");
    assert_eq!(actions[133], "trust_confirm");
    let names: Vec<&str> = default_bindings(false, false)
        .iter()
        .map(|b| b.action)
        .collect();
    assert_eq!(names, actions);
    let contexts = conflict_contexts();
    assert_eq!(contexts.len(), 22);
    assert_eq!(contexts[0].name, "global");
    assert_eq!(contexts[21].name, "trust_directory");
    for context in &contexts {
        for action in &context.actions {
            assert!(actions.contains(action), "{action}");
        }
    }
    let listed: HashSet<&str> = contexts
        .iter()
        .flat_map(|c| c.actions.iter().copied())
        .collect();
    assert_eq!(listed.len(), 134);
}

#[test]
fn unknown_action_is_rejected_first() {
    let keybindings = keybindings(&[("popup_up", "not a chord"), ("no_such_action", "Ctrl+C")]);
    let err = expect_err(
        TuiKeymap::from_keybindings(Some(&keybindings), false, false),
        "unknown action",
    );
    assert_eq!(err.message(), "unknown keybinding action 'no_such_action'");
}

#[test]
fn invalid_chord_names_action_and_chord() {
    let keybindings = KeybindingsToml(vec![(
        "popup_up".to_string(),
        KeybindingValue::Multiple(vec!["Up".to_string(), "Ctrl+nope".to_string()]),
    )]);
    let err = expect_err(
        TuiKeymap::from_keybindings(Some(&keybindings), false, false),
        "invalid chord",
    );
    assert_eq!(
        err.message(),
        "invalid keybinding 'Ctrl+nope' for 'popup_up': unknown key 'nope'"
    );
}

#[test]
fn later_binding_of_an_action_wins() {
    let keybindings = keybindings(&[("popup_up", "Ctrl+Q"), ("popup_up", "Ctrl+R")]);
    let keymap = TuiKeymap::from_keybindings(Some(&keybindings), false, false).unwrap();
    assert_eq!(
        keymap.get("popup_up").unwrap().0,
        vec![parse_key_chord("Ctrl+R").unwrap()]
    );
    assert_eq!(keymap.get("popup_down").unwrap().0.len(), 2);
}

#[test]
fn conflict_message_names_chord_and_actions() {
    let keybindings = keybindings(&[("popup_accept", "Shift+Tab"), ("popup_cancel", "Shift+Tab")]);
    let err = expect_err(
        TuiKeymap::from_keybindings(Some(&keybindings), false, false),
        "conflict",
    );
    assert_eq!(
        err.message(),
        "keybinding conflict in popup: Shift+Tab used by popup_accept and popup_cancel"
    );
}

#[test]
fn chord_errors_read_as_documented() {
    assert_eq!(parse_key_chord("   ").unwrap_err(), "empty key chord");
    assert_eq!(parse_key_chord("Ctrl++").unwrap_err(), "empty chord segment");
    assert_eq!(
        parse_key_chord("a+b").unwrap_err(),
        "multiple non-modifier keys in chord"
    );
    assert_eq!(parse_key_chord("Ctrl+Shift").unwrap_err(), "missing key in chord");
    assert_eq!(parse_key_chord("Ctrl+nope").unwrap_err(), "unknown key 'nope'");
}

#[test]
fn chords_read_names_in_any_case() {
    let chord = parse_key_chord(" ctrl + ALT + PgUp ").unwrap();
    assert_eq!(chord.key, KeyCode::PageUp);
    assert!(chord.modifiers.control && chord.modifiers.alt);
    assert!(!chord.modifiers.shift && !chord.modifiers.super_key);
    assert_eq!(chord.fallback, None);
    let chord = parse_key_chord("Cmd+Plus").unwrap();
    assert_eq!(chord.key, KeyCode::Char('+'));
    assert!(chord.modifiers.super_key);
    assert_eq!(parse_key_chord("F12").unwrap().key, KeyCode::F(12));
    assert_eq!(parse_key_chord("f").unwrap().key, KeyCode::Char('f'));
    assert_eq!(parse_key_chord("Q").unwrap().key, KeyCode::Char('Q'));
    assert_eq!(parse_key_chord("é").unwrap().key, KeyCode::Char('é'));
}

#[test]
fn control_letter_has_control_character_fallback() {
    let chord = parse_key_chord("Ctrl+a").unwrap();
    assert_eq!(chord.fallback, Some(KeyCode::Char('\u{1}')));
    assert!(chord.matches(KeyEvent::new(KeyCode::Char('\u{1}'), KeyModifiers::none())));
    assert!(chord.matches(KeyEvent::new(KeyCode::Char('A'), KeyModifiers::control())));
    assert!(chord.matches(KeyEvent::new(
        KeyCode::Char('A'),
        KeyModifiers::control().with(KeyModifiers::shift())
    )));
    assert!(!chord.matches(KeyEvent::new(KeyCode::Char('a'), KeyModifiers::none())));
    assert_eq!(
        ctrl_char_fallback(KeyCode::Char('z'), KeyModifiers::control()),
        Some(KeyCode::Char('\u{1a}'))
    );
    assert_eq!(
        ctrl_char_fallback(
            KeyCode::Char('z'),
            KeyModifiers::control().with(KeyModifiers::alt())
        ),
        None
    );
    assert_eq!(ctrl_char_fallback(KeyCode::Char('1'), KeyModifiers::control()), None);
    assert_eq!(ctrl_char_fallback(KeyCode::Enter, KeyModifiers::control()), None);
}

#[test]
fn shift_tab_and_back_tab_stand_for_each_other() {
    let shift_tab = parse_key_chord("Shift+Tab").unwrap();
    assert!(shift_tab.matches(KeyEvent::new(KeyCode::BackTab, KeyModifiers::none())));
    assert!(shift_tab.matches(KeyEvent::new(KeyCode::BackTab, KeyModifiers::shift())));
    let back_tab = parse_key_chord("BackTab").unwrap();
    assert!(back_tab.matches(KeyEvent::new(KeyCode::Tab, KeyModifiers::shift())));
    assert!(!back_tab.matches(KeyEvent::new(KeyCode::Tab, KeyModifiers::none())));
}

#[test]
fn binding_set_finds_first_matching_chord() {
    let set = KeyBindingSet(vec![
        parse_key_chord("Up").unwrap(),
        parse_key_chord("Ctrl+P").unwrap(),
        parse_key_chord("k").unwrap(),
    ]);
    let event = KeyEvent::new(KeyCode::Char('p'), KeyModifiers::control());
    assert!(set.matches(event));
    assert_eq!(set.match_chord(event), Some(&set.0[1]));
    let release = KeyEvent {
        kind: KeyEventKind::Release,
        ..KeyEvent::new(KeyCode::Char('k'), KeyModifiers::none())
    };
    assert_eq!(set.match_chord(release), Some(&set.0[2]));
    assert!(!set.matches(KeyEvent::new(KeyCode::Down, KeyModifiers::none())));
    assert!(!KeyBindingSet::empty().matches(event));
}

#[test]
fn conflict_keys_hold_each_press_once() {
    let keys = parse_key_chord("Ctrl+c").unwrap().conflict_keys();
    let shifted = KeyModifiers::control().with(KeyModifiers::shift());
    let expected: HashSet<_> = [
        (KeyModifiers::control(), KeyCode::Char('c')),
        (shifted, KeyCode::Char('c')),
        (KeyModifiers::control(), KeyCode::Char('C')),
        (shifted, KeyCode::Char('C')),
        (KeyModifiers::none(), KeyCode::Char('\u{3}')),
    ]
    .into_iter()
    .collect();
    assert_eq!(keys.len(), 5);
    assert_eq!(keys.into_iter().collect::<HashSet<_>>(), expected);

    let keys = parse_key_chord("Shift+Tab").unwrap().conflict_keys();
    assert_eq!(keys.len(), 17);
    assert_eq!(keys.iter().filter(|k| k.1 == KeyCode::BackTab).count(), 16);

    let keys = parse_key_chord("BackTab").unwrap().conflict_keys();
    assert_eq!(
        keys,
        vec![
            (KeyModifiers::none(), KeyCode::BackTab),
            (KeyModifiers::shift(), KeyCode::Tab)
        ]
    );
    assert_eq!(
        parse_key_chord("Ctrl+1").unwrap().conflict_keys().len(),
        2
    );
    assert_eq!(parse_key_chord("1").unwrap().conflict_keys().len(), 1);
}

#[test]
fn modifier_variants_count_in_binary() {
    let variants = all_modifier_variants();
    assert_eq!(variants.len(), 16);
    assert_eq!(variants[0], KeyModifiers::none());
    assert_eq!(variants[1], KeyModifiers::shift());
    assert_eq!(variants[2], KeyModifiers::control());
    assert_eq!(variants[4], KeyModifiers::alt());
    assert_eq!(variants[8], KeyModifiers::super_key());
    assert_eq!(
        variants[15],
        KeyModifiers::shift()
            .with(KeyModifiers::control())
            .with(KeyModifiers::alt())
            .with(KeyModifiers::super_key())
    );
    assert_eq!(variants.iter().collect::<HashSet<_>>().len(), 16);
    assert_eq!(ascii_case_variants('q'), ['q', 'Q']);
    assert_eq!(ascii_case_variants('Q'), ['q', 'Q']);
    assert_eq!(ascii_case_variants('1'), ['1', '1']);
}

#[test]
fn keys_read_as_they_display() {
    assert_eq!(format_keycode_display(KeyCode::BackTab), "Backtab");
    assert_eq!(format_keycode_display(KeyCode::Char(' ')), "Space");
    assert_eq!(format_keycode_display(KeyCode::Char('q')), "Q");
    assert_eq!(format_keycode_display(KeyCode::Char('?')), "?");
    assert_eq!(format_keycode_display(KeyCode::F(7)), "F7");
    assert_eq!(format_keycode_display(KeyCode::F(255)), "F255");
    assert_eq!(format_keycode_display(KeyCode::CapsLock), "CapsLock");
    assert_eq!(
        format_keycode_display(KeyCode::Media(MediaKeyCode::TrackNext)),
        "Media(TrackNext)"
    );
    assert_eq!(
        format_keybinding(
            KeyModifiers::super_key()
                .with(KeyModifiers::shift())
                .with(KeyModifiers::alt())
                .with(KeyModifiers::control()),
            KeyCode::Enter
        ),
        "Ctrl+Alt+Shift+Super+Enter"
    );
    assert_eq!(
        format_keybinding(KeyModifiers::none(), KeyCode::Char('\u{3}')),
        "Ctrl+C"
    );
    assert_eq!(format_keybinding(KeyModifiers::none(), KeyCode::Char('c')), "C");
    assert_eq!(ctrl_char_to_letter('\u{1}'), Some('A'));
    assert_eq!(ctrl_char_to_letter('\u{1a}'), Some('Z'));
    assert_eq!(ctrl_char_to_letter('\u{1b}'), None);
    assert_eq!(ctrl_char_to_letter('\u{0}'), None);
}

#[test]
fn numbers_parse_as_std_parses_them() {
    let samples = [
        "", "+", "0", "7", "007", "255", "256", "0255", "+12", "++1", "-1", "1a", " 1", "99999",
        "000000000000000000001", "٣",
    ];
    for text in samples {
        assert_eq!(parse_u8(text), text.parse::<u8>().ok(), "{text:?}");
    }
    for n in 0..=255u8 {
        assert_eq!(u8_to_string(n), n.to_string());
        assert_eq!(parse_u8(&n.to_string()), Some(n));
    }
    assert_eq!(parse_function_key("f12"), Some(KeyCode::F(12)));
    assert_eq!(parse_function_key("f"), None);
    assert_eq!(parse_function_key("f256"), None);
    assert_eq!(parse_function_key("g1"), None);
}

#[test]
fn key_names_and_punctuation() {
    assert_eq!(parse_keycode("Return"), Ok(KeyCode::Enter));
    assert_eq!(parse_keycode("ESCAPE"), Ok(KeyCode::Esc));
    assert_eq!(parse_keycode("pgdn"), Ok(KeyCode::PageDown));
    assert_eq!(parse_keycode("Dot"), Ok(KeyCode::Char('.')));
    assert_eq!(parse_keycode("doublequote"), Ok(KeyCode::Char('"')));
    assert_eq!(parse_keycode("ab"), Err("unknown key 'ab'".to_string()));
    assert_eq!(parse_named_punct("backslash"), Some('\\'));
    assert_eq!(parse_named_punct("Plus"), None);
}

#[test]
fn action_lists_read_as_english() {
    let names = |items: &[&str]| items.iter().map(|s| s.to_string()).collect::<Vec<_>>();
    assert_eq!(format_action_list(&names(&[])), "");
    assert_eq!(format_action_list(&names(&["a"])), "a");
    assert_eq!(format_action_list(&names(&["a", "b"])), "a and b");
    assert_eq!(format_action_list(&names(&["a", "b", "c"])), "a, b, and c");
    assert_eq!(
        format_action_list(&names(&["a", "b", "c", "d"])),
        "a, b, c, and d"
    );
    assert_eq!(
        KeymapError::UnknownAction("x".to_string()).message(),
        "unknown keybinding action 'x'"
    );
}

#[test]
fn text_area_keymap_takes_text_actions() {
    let tui = TuiKeymap::defaults(true, false).unwrap();
    let text = TextAreaKeymap::from_tui(&tui);
    assert_eq!(text.newline.0, tui.get("text_newline").unwrap().0);
    assert_eq!(text.line_end.0, tui.get("text_line_end").unwrap().0);
    assert_eq!(text.word_left.0.len(), 3);
    let defaults = TextAreaKeymap::default_for_text().unwrap();
    assert_eq!(defaults.newline.0, text.newline.0);
    assert_eq!(defaults.yank.0, text.yank.0);
}
