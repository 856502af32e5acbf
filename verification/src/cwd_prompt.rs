//! The choice of working directory when a session is resumed or forked:
//! the directory that the session recorded, or the current one.
//!
//! The screen is a state that key events move. Drawing it and waiting for
//! events is left to the caller, who is told when the screen has to be
//! drawn anew.

use crate::keymap::bindings::TuiKeymap;
use crate::keymap::chord::KeyBindingSet;
use crate::keymap::keys::{KeyEvent, KeyEventKind};
use vstd::prelude::*;
use vstd::string::*;

verus! {

/// What is about to happen to the session.
#[derive(Clone, Copy, Debug, PartialEq, Eq, Structural)]
pub enum CwdPromptAction {
    Resume,
    Fork,
}

impl CwdPromptAction {
    /// The verb that names the action.
    pub fn verb(self) -> (word: &'static str)
        ensures
            word@ == match self {
                CwdPromptAction::Resume => "resume"@,
                CwdPromptAction::Fork => "fork"@,
            },
    {
        match self {
            CwdPromptAction::Resume => "resume",
            CwdPromptAction::Fork => "fork",
        }
    }

    /// The past participle of the verb.
    pub fn past_participle(self) -> (word: &'static str)
        ensures
            word@ == match self {
                CwdPromptAction::Resume => "resumed"@,
                CwdPromptAction::Fork => "forked"@,
            },
    {
        match self {
            CwdPromptAction::Resume => "resumed",
            CwdPromptAction::Fork => "forked",
        }
    }
}

/// Which of the two directories is used.
#[derive(Clone, Copy, Debug, PartialEq, Eq, Structural)]
pub enum CwdSelection {
    Current,
    Session,
}

impl CwdSelection {
    /// The other directory.
    pub open spec fn other(self) -> Self {
        match self {
            CwdSelection::Current => CwdSelection::Session,
            CwdSelection::Session => CwdSelection::Current,
        }
    }

    /// The entry below this one; the list of two wraps around.
    pub fn next(self) -> (moved: Self)
        ensures
            moved == self.other(),
    {
        match self {
            CwdSelection::Current => CwdSelection::Session,
            CwdSelection::Session => CwdSelection::Current,
        }
    }

    /// The entry above this one; the list of two wraps around.
    pub fn prev(self) -> (moved: Self)
        ensures
            moved == self.other(),
    {
        match self {
            CwdSelection::Current => CwdSelection::Session,
            CwdSelection::Session => CwdSelection::Current,
        }
    }
}

/// The key bindings of the screen.
pub struct CwdKeys {
    pub exit: KeyBindingSet,
    pub up: KeyBindingSet,
    pub down: KeyBindingSet,
    pub select_session: KeyBindingSet,
    pub select_current: KeyBindingSet,
    pub confirm: KeyBindingSet,
}

impl CwdKeys {
    /// The bindings of the screen in a keymap.
    pub fn from_tui(keymap: &TuiKeymap) -> (keys: Self)
        ensures
            keys.exit.chords() == keymap.chords_of("cwd_exit"@),
            keys.up.chords() == keymap.chords_of("cwd_up"@),
            keys.down.chords() == keymap.chords_of("cwd_down"@),
            keys.select_session.chords() == keymap.chords_of("cwd_select_session"@),
            keys.select_current.chords() == keymap.chords_of("cwd_select_current"@),
            keys.confirm.chords() == keymap.chords_of("cwd_confirm"@),
    {
        CwdKeys {
            exit: keymap.bound_set("cwd_exit"),
            up: keymap.bound_set("cwd_up"),
            down: keymap.bound_set("cwd_down"),
            select_session: keymap.bound_set("cwd_select_session"),
            select_current: keymap.bound_set("cwd_select_current"),
            confirm: keymap.bound_set("cwd_confirm"),
        }
    }
}

/// What a key event asks of the screen.
#[derive(Clone, Copy, Debug, PartialEq, Eq, Structural)]
pub enum CwdKeyEffect {
    /// Nothing: the key went up, or it is not bound.
    Ignore,
    /// Move the highlight.
    Highlight(CwdSelection),
    /// Choose a directory and finish.
    Select(CwdSelection),
}

/// What a key event asks of the screen. The bindings are tried in the
/// order: exit, up, down, the session directory, the current directory,
/// confirm. Leaving the screen chooses the session directory.
pub open spec fn key_effect(keys: CwdKeys, highlighted: CwdSelection, event: KeyEvent) -> CwdKeyEffect {
    if event.kind == KeyEventKind::Release {
        CwdKeyEffect::Ignore
    } else if keys.exit.matches_event(event) {
        CwdKeyEffect::Select(CwdSelection::Session)
    } else if keys.up.matches_event(event) {
        CwdKeyEffect::Highlight(highlighted.other())
    } else if keys.down.matches_event(event) {
        CwdKeyEffect::Highlight(highlighted.other())
    } else if keys.select_session.matches_event(event) {
        CwdKeyEffect::Select(CwdSelection::Session)
    } else if keys.select_current.matches_event(event) {
        CwdKeyEffect::Select(CwdSelection::Current)
    } else if keys.confirm.matches_event(event) {
        CwdKeyEffect::Select(highlighted)
    } else {
        CwdKeyEffect::Ignore
    }
}

/// The screen that asks for the working directory.
pub struct CwdPromptScreen {
    pub action: CwdPromptAction,
    pub current_cwd: String,
    pub session_cwd: String,
    pub highlighted: CwdSelection,
    pub selection: Option<CwdSelection>,
    pub keys: CwdKeys,
}

impl CwdPromptScreen {
    /// A screen on which the session directory is highlighted and nothing
    /// is chosen.
    pub fn new(
        action: CwdPromptAction,
        current_cwd: String,
        session_cwd: String,
        keys: CwdKeys,
    ) -> (screen: Self)
        ensures
            screen.action == action,
            screen.current_cwd == current_cwd,
            screen.session_cwd == session_cwd,
            screen.keys == keys,
            screen.highlighted == CwdSelection::Session,
            screen.selection is None,
    {
        CwdPromptScreen {
            action,
            current_cwd,
            session_cwd,
            highlighted: CwdSelection::Session,
            selection: None,
            keys,
        }
    }

    /// Handles a key event. Returns whether the screen has to be drawn
    /// anew: a choice was made, or the highlight moved.
    pub fn handle_key(&mut self, key_event: KeyEvent) -> (redraw: bool)
        ensures
            final(self).action == old(self).action,
            final(self).current_cwd == old(self).current_cwd,
            final(self).session_cwd == old(self).session_cwd,
            final(self).keys == old(self).keys,
            match key_effect(old(self).keys, old(self).highlighted, key_event) {
                CwdKeyEffect::Ignore => final(self).highlighted == old(self).highlighted
                    && final(self).selection == old(self).selection && !redraw,
                CwdKeyEffect::Highlight(highlight) => final(self).highlighted == highlight
                    && final(self).selection == old(self).selection && redraw == (highlight
                    != old(self).highlighted),
                CwdKeyEffect::Select(selection) => final(self).highlighted == selection
                    && final(self).selection == Some(selection) && redraw,
            },
    {
        if let KeyEventKind::Release = key_event.kind {
            return false;
        }
        if self.keys.exit.matches(key_event) {
            return self.select(CwdSelection::Session);
        }
        if self.keys.up.matches(key_event) {
            return self.set_highlight(self.highlighted.prev());
        }
        if self.keys.down.matches(key_event) {
            return self.set_highlight(self.highlighted.next());
        }
        if self.keys.select_session.matches(key_event) {
            return self.select(CwdSelection::Session);
        }
        if self.keys.select_current.matches(key_event) {
            return self.select(CwdSelection::Current);
        }
        if self.keys.confirm.matches(key_event) {
            return self.select(self.highlighted);
        }
        false
    }

    /// Moves the highlight. Returns whether it moved.
    fn set_highlight(&mut self, highlight: CwdSelection) -> (redraw: bool)
        ensures
            *final(self) == (CwdPromptScreen { highlighted: highlight, ..*old(self) }),
            redraw == (highlight != old(self).highlighted),
    {
        if self.highlighted != highlight {
            self.highlighted = highlight;
            true
        } else {
            false
        }
    }

    /// Chooses a directory. The screen is to be drawn anew.
    fn select(&mut self, selection: CwdSelection) -> (redraw: bool)
        ensures
            *final(self) == (CwdPromptScreen {
                highlighted: selection,
                selection: Some(selection),
                ..*old(self)
            }),
            redraw,
    {
        self.highlighted = selection;
        self.selection = Some(selection);
        true
    }

    /// The line that says what the session directory is.
    pub fn session_note(&self) -> (note: String)
        ensures
            note@ == "Session = latest cwd recorded in the "@ + (match self.action {
                CwdPromptAction::Resume => "resumed"@,
                CwdPromptAction::Fork => "forked"@,
            }) + " session"@,
    {
        let mut note = String::from_str("Session = latest cwd recorded in the ");
        note.append(self.action.past_participle());
        note.append(" session");
        note
    }

    /// The label of a choice, with the directory that it stands for.
    pub fn option_label(&self, choice: CwdSelection) -> (label: String)
        ensures
            label@ == match choice {
                CwdSelection::Session => "Use session directory ("@ + self.session_cwd@ + ")"@,
                CwdSelection::Current => "Use current directory ("@ + self.current_cwd@ + ")"@,
            },
    {
        match choice {
            CwdSelection::Session => {
                let mut label = String::from_str("Use session directory (");
                label.append(self.session_cwd.as_str());
                label.append(")");
                label
            },
            CwdSelection::Current => {
                let mut label = String::from_str("Use current directory (");
                label.append(self.current_cwd.as_str());
                label.append(")");
                label
            },
        }
    }

    /// Whether a directory was chosen.
    pub fn is_done(&self) -> (done: bool)
        ensures
            done == self.selection is Some,
    {
        self.selection.is_some()
    }

    /// The directory that was chosen, if one was.
    pub fn selection(&self) -> (selection: Option<CwdSelection>)
        ensures
            selection == self.selection,
    {
        self.selection
    }
}

} // verus!
