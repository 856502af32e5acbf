//! The question whether the agent may work in a directory without asking.
//!
//! Key events move the highlight or make the choice. Storing the choice
//! is the caller's part: `handle_key_event` says what to store, and
//! `record_choice` takes what came of it.

use crate::keymap::bindings::TuiKeymap;
use crate::keymap::chord::KeyBindingSet;
use crate::keymap::keys::{KeyEvent, KeyEventKind};
use vstd::prelude::*;
use vstd::string::*;

verus! {

/// Whether the user lets the agent work in a directory without approval.
#[derive(Clone, Copy, Debug, PartialEq, Eq, Structural)]
pub enum TrustDirectorySelection {
    Trust,
    DontTrust,
}

/// The key bindings of the question.
pub struct TrustKeys {
    pub up: KeyBindingSet,
    pub down: KeyBindingSet,
    pub select_trust: KeyBindingSet,
    pub select_dont_trust: KeyBindingSet,
    pub confirm: KeyBindingSet,
}

impl TrustKeys {
    /// The bindings of the question in a keymap.
    pub fn from_tui(keymap: &TuiKeymap) -> (keys: Self)
        ensures
            keys.up.chords() == keymap.chords_of("trust_up"@),
            keys.down.chords() == keymap.chords_of("trust_down"@),
            keys.select_trust.chords() == keymap.chords_of("trust_select_trust"@),
            keys.select_dont_trust.chords() == keymap.chords_of("trust_select_dont_trust"@),
            keys.confirm.chords() == keymap.chords_of("trust_confirm"@),
    {
        TrustKeys {
            up: keymap.bound_set("trust_up"),
            down: keymap.bound_set("trust_down"),
            select_trust: keymap.bound_set("trust_select_trust"),
            select_dont_trust: keymap.bound_set("trust_select_dont_trust"),
            confirm: keymap.bound_set("trust_confirm"),
        }
    }
}

/// What a key event asks of the question.
#[derive(Clone, Copy, Debug, PartialEq, Eq, Structural)]
pub enum TrustKeyEffect {
    /// Nothing: the key went up, or it is not bound.
    Ignore,
    /// Move the highlight.
    Highlight(TrustDirectorySelection),
    /// Make the choice.
    Choose(TrustDirectorySelection),
}

/// What a key event asks of the question. The bindings are tried in the
/// order: up, down, trust, do not trust, confirm.
pub open spec fn key_effect(
    keys: TrustKeys,
    highlighted: TrustDirectorySelection,
    event: KeyEvent,
) -> TrustKeyEffect {
    if event.kind == KeyEventKind::Release {
        TrustKeyEffect::Ignore
    } else if keys.up.matches_event(event) {
        TrustKeyEffect::Highlight(TrustDirectorySelection::Trust)
    } else if keys.down.matches_event(event) {
        TrustKeyEffect::Highlight(TrustDirectorySelection::DontTrust)
    } else if keys.select_trust.matches_event(event) {
        TrustKeyEffect::Choose(TrustDirectorySelection::Trust)
    } else if keys.select_dont_trust.matches_event(event) {
        TrustKeyEffect::Choose(TrustDirectorySelection::DontTrust)
    } else if keys.confirm.matches_event(event) {
        TrustKeyEffect::Choose(highlighted)
    } else {
        TrustKeyEffect::Ignore
    }
}

/// The message that reports a choice that could not be stored.
pub open spec fn failure_message(
    choice: TrustDirectorySelection,
    target: Seq<char>,
    reason: Seq<char>,
) -> Seq<char> {
    (match choice {
        TrustDirectorySelection::Trust => "Failed to set trust for "@,
        TrustDirectorySelection::DontTrust => "Failed to set untrusted for "@,
    }) + target + ": "@ + reason
}

/// The advice that the question gives, by whether the directory is under
/// version control.
pub fn guidance(is_git_repo: bool) -> (text: &'static str)
    ensures
        text@ == if is_git_repo {
            "Since this folder is version controlled, you may wish to allow Codex to work in this folder without asking for approval."@
        } else {
            "Since this folder is not version controlled, we recommend requiring approval of all edits and commands."@
        },
{
    if is_git_repo {
        "Since this folder is version controlled, you may wish to allow Codex to work in this folder without asking for approval."
    } else {
        "Since this folder is not version controlled, we recommend requiring approval of all edits and commands."
    }
}

/// The label of a choice, by whether the directory is under version
/// control.
pub fn option_label(is_git_repo: bool, choice: TrustDirectorySelection) -> (text: &'static str)
    ensures
        text@ == match (is_git_repo, choice) {
            (true, TrustDirectorySelection::Trust) => "Yes, allow Codex to work in this folder without asking for approval"@,
            (true, TrustDirectorySelection::DontTrust) => "No, ask me to approve edits and commands"@,
            (false, TrustDirectorySelection::Trust) => "Allow Codex to work in this folder without asking for approval"@,
            (false, TrustDirectorySelection::DontTrust) => "Require approval of edits and commands"@,
        },
{
    match (is_git_repo, choice) {
        (true, TrustDirectorySelection::Trust) => "Yes, allow Codex to work in this folder without asking for approval",
        (true, TrustDirectorySelection::DontTrust) => "No, ask me to approve edits and commands",
        (false, TrustDirectorySelection::Trust) => "Allow Codex to work in this folder without asking for approval",
        (false, TrustDirectorySelection::DontTrust) => "Require approval of edits and commands",
    }
}

/// The state of the question.
pub struct TrustDirectoryWidget {
    pub is_git_repo: bool,
    pub selection: Option<TrustDirectorySelection>,
    pub highlighted: TrustDirectorySelection,
    pub error: Option<String>,
    pub keys: TrustKeys,
}

impl TrustDirectoryWidget {
    /// Handles a key event. Returns the choice that the event makes, if it
    /// makes one: the caller stores it and reports with `record_choice`.
    /// A key that moves the highlight only moves the highlight.
    pub fn handle_key_event(&mut self, key_event: KeyEvent) -> (choice: Option<
        TrustDirectorySelection,
    >)
        ensures
            final(self).is_git_repo == old(self).is_git_repo,
            final(self).selection == old(self).selection,
            final(self).error == old(self).error,
            final(self).keys == old(self).keys,
            match key_effect(old(self).keys, old(self).highlighted, key_event) {
                TrustKeyEffect::Ignore => final(self).highlighted == old(self).highlighted
                    && choice is None,
                TrustKeyEffect::Highlight(highlight) => final(self).highlighted == highlight
                    && choice is None,
                TrustKeyEffect::Choose(chosen) => final(self).highlighted == old(
                    self,
                ).highlighted && choice == Some(chosen),
            },
    {
        if let KeyEventKind::Release = key_event.kind {
            return None;
        }
        if self.keys.up.matches(key_event) {
            self.highlighted = TrustDirectorySelection::Trust;
            return None;
        }
        if self.keys.down.matches(key_event) {
            self.highlighted = TrustDirectorySelection::DontTrust;
            return None;
        }
        if self.keys.select_trust.matches(key_event) {
            return Some(TrustDirectorySelection::Trust);
        }
        if self.keys.select_dont_trust.matches(key_event) {
            return Some(TrustDirectorySelection::DontTrust);
        }
        if self.keys.confirm.matches(key_event) {
            return Some(self.highlighted);
        }
        None
    }

    /// Records a choice after the attempt to store it for the directory
    /// `target`. The choice counts whether or not it could be stored; a
    /// failure, given by its reason, is kept as the error to show. The
    /// choice not to trust also moves the highlight there.
    pub fn record_choice(
        &mut self,
        choice: TrustDirectorySelection,
        target: &str,
        failure: Option<&str>,
    )
        ensures
            final(self).is_git_repo == old(self).is_git_repo,
            final(self).keys == old(self).keys,
            final(self).selection == Some(choice),
            final(self).highlighted == match choice {
                TrustDirectorySelection::Trust => old(self).highlighted,
                TrustDirectorySelection::DontTrust => TrustDirectorySelection::DontTrust,
            },
            match failure {
                Some(reason) => final(self).error matches Some(message) && message@
                    == failure_message(choice, target@, reason@),
                None => final(self).error == old(self).error,
            },
    {
        if let TrustDirectorySelection::DontTrust = choice {
            self.highlighted = TrustDirectorySelection::DontTrust;
        }
        if let Some(reason) = failure {
            let mut message = match choice {
                TrustDirectorySelection::Trust => String::from_str("Failed to set trust for "),
                TrustDirectorySelection::DontTrust => String::from_str(
                    "Failed to set untrusted for ",
                ),
            };
            message.append(target);
            message.append(": ");
            message.append(reason);
            self.error = Some(message);
        }
        self.selection = Some(choice);
    }

    /// Whether the question is answered.
    pub fn is_complete(&self) -> (complete: bool)
        ensures
            complete == self.selection is Some,
    {
        self.selection.is_some()
    }
}

} // verus!
