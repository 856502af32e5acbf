use codex_tui::cwd_prompt::CwdKeys;
use codex_tui::cwd_prompt::CwdPromptAction;
use codex_tui::cwd_prompt::CwdPromptScreen;
use codex_tui::cwd_prompt::CwdSelection;
use codex_tui::keymap::bindings::TuiKeymap;
use codex_tui::keymap::keys::KeyCode;
use codex_tui::keymap::keys::KeyEvent;
use codex_tui::keymap::keys::KeyEventKind;
use codex_tui::keymap::keys::KeyModifiers;
use codex_tui::onboarding::trust_directory::guidance;
use codex_tui::onboarding::trust_directory::option_label;
use codex_tui::onboarding::trust_directory::TrustDirectorySelection;
use codex_tui::onboarding::trust_directory::TrustDirectoryWidget;
use codex_tui::onboarding::trust_directory::TrustKeys;

fn test_keymap() -> TuiKeymap {
    TuiKeymap::defaults(false, false).expect("default keybindings should be valid")
}

fn new_prompt() -> CwdPromptScreen {
    CwdPromptScreen::new(
        CwdPromptAction::Resume,
        "/Users/example/current".to_string(),
        "/Users/example/session".to_string(),
        CwdKeys::from_tui(&test_keymap()),
    )
}

fn new_widget(highlighted: TrustDirectorySelection) -> TrustDirectoryWidget {
    TrustDirectoryWidget {
        is_git_repo: false,
        selection: None,
        highlighted,
        error: None,
        keys: TrustKeys::from_tui(&test_keymap()),
    }
}

#[test]
fn cwd_prompt_selects_session_by_default() {
    let mut screen = new_prompt();
    screen.handle_key(KeyEvent::new(KeyCode::Enter, KeyModifiers::none()));
    assert_eq!(screen.selection(), Some(CwdSelection::Session));
}

#[test]
fn cwd_prompt_can_select_current() {
    let mut screen = new_prompt();
    screen.handle_key(KeyEvent::new(KeyCode::Down, KeyModifiers::none()));
    screen.handle_key(KeyEvent::new(KeyCode::Enter, KeyModifiers::none()));
    assert_eq!(screen.selection(), Some(CwdSelection::Current));
}

#[test]
fn cwd_prompt_redraws_when_something_changes() {
    let mut screen = new_prompt();
    assert!(!screen.is_done());
    assert!(!screen.handle_key(KeyEvent::new(KeyCode::Char('x'), KeyModifiers::none())));
    assert!(screen.handle_key(KeyEvent::new(KeyCode::Char('k'), KeyModifiers::none())));
    assert_eq!(screen.highlighted, CwdSelection::Current);
    let release = KeyEvent {
        kind: KeyEventKind::Release,
        ..KeyEvent::new(KeyCode::Enter, KeyModifiers::none())
    };
    assert!(!screen.handle_key(release));
    assert_eq!(screen.selection(), None);
    // Leaving the screen chooses the session directory.
    assert!(screen.handle_key(KeyEvent::new(KeyCode::Char('c'), KeyModifiers::control())));
    assert_eq!(screen.selection(), Some(CwdSelection::Session));
    assert_eq!(screen.highlighted, CwdSelection::Session);
    assert!(screen.is_done());

    let mut screen = new_prompt();
    assert!(screen.handle_key(KeyEvent::new(KeyCode::Char('2'), KeyModifiers::none())));
    assert_eq!(screen.selection(), Some(CwdSelection::Current));
}

#[test]
fn cwd_prompt_words() {
    assert_eq!(CwdPromptAction::Resume.verb(), "resume");
    assert_eq!(CwdPromptAction::Fork.verb(), "fork");
    assert_eq!(CwdPromptAction::Resume.past_participle(), "resumed");
    assert_eq!(CwdPromptAction::Fork.past_participle(), "forked");
    assert_eq!(CwdSelection::Current.next(), CwdSelection::Session);
    assert_eq!(CwdSelection::Session.next(), CwdSelection::Current);
    assert_eq!(CwdSelection::Current.prev(), CwdSelection::Session);
    assert_eq!(CwdSelection::Session.prev(), CwdSelection::Current);
}

#[test]
fn release_event_does_not_change_selection() {
    let mut widget = new_widget(TrustDirectorySelection::DontTrust);

    let release = KeyEvent {
        kind: KeyEventKind::Release,
        ..KeyEvent::new(KeyCode::Enter, KeyModifiers::none())
    };
    assert_eq!(widget.handle_key_event(release), None);
    assert_eq!(widget.selection, None);

    let press = KeyEvent::new(KeyCode::Enter, KeyModifiers::none());
    let choice = widget.handle_key_event(press).expect("enter confirms");
    widget.record_choice(choice, ".", None);
    assert_eq!(widget.selection, Some(TrustDirectorySelection::DontTrust));
}

#[test]
fn trust_choice_is_recorded_with_its_failure() {
    let mut widget = new_widget(TrustDirectorySelection::Trust);
    assert!(!widget.is_complete());
    assert_eq!(
        widget.handle_key_event(KeyEvent::new(KeyCode::Down, KeyModifiers::none())),
        None
    );
    assert_eq!(widget.highlighted, TrustDirectorySelection::DontTrust);
    assert_eq!(
        widget.handle_key_event(KeyEvent::new(KeyCode::Char('y'), KeyModifiers::none())),
        Some(TrustDirectorySelection::Trust)
    );
    widget.record_choice(TrustDirectorySelection::Trust, "/repo", Some("read-only"));
    assert!(widget.is_complete());
    assert_eq!(widget.highlighted, TrustDirectorySelection::DontTrust);
    assert_eq!(
        widget.error.as_deref(),
        Some("Failed to set trust for /repo: read-only")
    );

    let mut widget = new_widget(TrustDirectorySelection::Trust);
    assert_eq!(
        widget.handle_key_event(KeyEvent::new(KeyCode::Char('n'), KeyModifiers::none())),
        Some(TrustDirectorySelection::DontTrust)
    );
    widget.record_choice(TrustDirectorySelection::DontTrust, "/repo", Some("denied"));
    assert_eq!(widget.highlighted, TrustDirectorySelection::DontTrust);
    assert_eq!(
        widget.error.as_deref(),
        Some("Failed to set untrusted for /repo: denied")
    );
}

#[test]
fn prompt_texts_name_directories_and_advice() {
    let screen = new_prompt();
    assert_eq!(
        screen.session_note(),
        "Session = latest cwd recorded in the resumed session"
    );
    assert_eq!(
        screen.option_label(CwdSelection::Session),
        "Use session directory (/Users/example/session)"
    );
    assert_eq!(
        screen.option_label(CwdSelection::Current),
        "Use current directory (/Users/example/current)"
    );
    assert!(guidance(true).starts_with("Since this folder is version controlled"));
    assert!(guidance(false).starts_with("Since this folder is not version controlled"));
    assert_eq!(
        option_label(true, TrustDirectorySelection::DontTrust),
        "No, ask me to approve edits and commands"
    );
    assert_eq!(
        option_label(false, TrustDirectorySelection::Trust),
        "Allow Codex to work in this folder without asking for approval"
    );
}
