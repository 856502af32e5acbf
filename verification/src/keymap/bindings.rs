//! The actions of the interface, their default key bindings, and the
//! check that no two actions of one context share a key press.

use crate::keymap::chord::{
    chord_of, conflicts_on, distinct_presses, format_keybinding, holds_press, keybinding_text,
    parse_key_chord, ChordError, KeyBindingSet, KeyChord, KeyPress,
};
use crate::keymap::{string_views, KeymapError};
use crate::text::{str_eq, views};
use vstd::prelude::*;
use vstd::string::*;

verus! {

/// An action with the chords bound to it, as plain values.
pub type BindingRow = (Seq<char>, Seq<Seq<char>>);

/// A context with its actions, as plain values.
pub type ContextRow = (Seq<char>, Seq<Seq<char>>);

/// The row of an action and its chords.
pub open spec fn row(action: &str, chords: Seq<&str>) -> BindingRow {
    (action@, views(chords))
}

/// The row of a context and its actions.
pub open spec fn context_row(name: &str, actions: Seq<&str>) -> ContextRow {
    (name@, views(actions))
}

/// An action and the chords that are bound to it by default.
pub struct DefaultBinding {
    pub action: &'static str,
    pub chords: Vec<String>,
}

/// A context of the interface and the actions that are live in it.
pub struct ConflictContext {
    pub name: &'static str,
    pub actions: Vec<&'static str>,
}

/// The rows of a list of default bindings.
pub open spec fn rows_of(bindings: Seq<DefaultBinding>) -> Seq<BindingRow> {
    Seq::new(bindings.len(), |i: int| (bindings[i].action@, string_views(bindings[i].chords@)))
}

/// The rows of a list of contexts.
pub open spec fn contexts_of(contexts: Seq<ConflictContext>) -> Seq<ContextRow> {
    Seq::new(contexts.len(), |i: int| (contexts[i].name@, views(contexts[i].actions@)))
}

/// Makes the default binding of an action.
fn binding(action: &'static str, chords: Vec<&'static str>) -> (made: DefaultBinding)
    ensures
        made.action@ == action@,
        string_views(made.chords@) == views(chords@),
{
    let mut owned: Vec<String> = Vec::new();
    let mut i: usize = 0;
    while i < chords.len()
        invariant
            i <= chords@.len(),
            owned@.len() == i,
            forall|k: int| 0 <= k < i ==> (#[trigger] owned@[k])@ == chords@[k]@,
        decreases chords@.len() - i,
    {
        owned.push(String::from_str(chords[i]));
        i = i + 1;
    }
    proof {
        assert(string_views(owned@) =~= views(chords@));
    }
    DefaultBinding { action, chords: owned }
}

/// Makes a context with its actions.
fn context(name: &'static str, actions: Vec<&'static str>) -> (made: ConflictContext)
    ensures
        made.name@ == name@,
        made.actions@ == actions@,
{
    ConflictContext { name, actions }
}

/// The default bindings of the `global` actions.
pub open spec fn default_rows_global(enhanced_keys_supported: bool, is_wsl: bool) -> Seq<BindingRow> {
    seq![
        row("global_suspend", seq!["Ctrl+Z"]),
        row("global_show_transcript", seq!["Ctrl+T"]),
        row("global_external_editor", seq!["Ctrl+G"]),
        row("global_backtrack_prime", seq!["Esc"]),
        row("global_backtrack_confirm", seq!["Enter"]),
    ]
}

fn push_defaults_global(out: &mut Vec<DefaultBinding>, enhanced_keys_supported: bool, is_wsl: bool)
    ensures
        rows_of(final(out)@) == rows_of(old(out)@) + default_rows_global(
            enhanced_keys_supported,
            is_wsl,
        ),
{
    out.push(binding("global_suspend", vec!["Ctrl+Z"]));
    out.push(binding("global_show_transcript", vec!["Ctrl+T"]));
    out.push(binding("global_external_editor", vec!["Ctrl+G"]));
    out.push(binding("global_backtrack_prime", vec!["Esc"]));
    out.push(binding("global_backtrack_confirm", vec!["Enter"]));
    proof {
        assert(rows_of(out@) =~~= rows_of(old(out)@) + default_rows_global(
            enhanced_keys_supported,
            is_wsl,
        ));
    }
}

/// The default bindings of the `chat` actions.
pub open spec fn default_rows_chat(enhanced_keys_supported: bool, is_wsl: bool) -> Seq<BindingRow> {
    seq![
        row("chat_quit_or_interrupt_primary", seq!["Ctrl+C"]),
        row("chat_quit_or_interrupt_secondary", seq!["Ctrl+D"]),
        row("chat_paste_image", seq![if is_wsl {
            "Ctrl+Alt+V"
        } else {
            "Ctrl+V"
        }]),
        row("chat_recall_queued_message", seq!["Alt+Up"]),
        row("chat_change_mode", seq!["Shift+Tab"]),
    ]
}

fn push_defaults_chat(out: &mut Vec<DefaultBinding>, enhanced_keys_supported: bool, is_wsl: bool)
    ensures
        rows_of(final(out)@) == rows_of(old(out)@) + default_rows_chat(
            enhanced_keys_supported,
            is_wsl,
        ),
{
    out.push(binding("chat_quit_or_interrupt_primary", vec!["Ctrl+C"]));
    out.push(binding("chat_quit_or_interrupt_secondary", vec!["Ctrl+D"]));
    out.push(binding("chat_paste_image", vec![if is_wsl {
                "Ctrl+Alt+V"
            } else {
                "Ctrl+V"
            }]));
    out.push(binding("chat_recall_queued_message", vec!["Alt+Up"]));
    out.push(binding("chat_change_mode", vec!["Shift+Tab"]));
    proof {
        assert(rows_of(out@) =~~= rows_of(old(out)@) + default_rows_chat(
            enhanced_keys_supported,
            is_wsl,
        ));
    }
}

/// The default bindings of the `composer` actions.
pub open spec fn default_rows_composer(enhanced_keys_supported: bool, is_wsl: bool) -> Seq<BindingRow> {
    seq![
        row("composer_submit", seq!["Enter"]),
        row("composer_queue", seq!["Tab"]),
        row("composer_newline", seq![if enhanced_keys_supported {
            "Shift+Enter"
        } else {
            "Ctrl+J"
        }]),
        row("composer_toggle_shortcuts", seq!["?"]),
    ]
}

fn push_defaults_composer(out: &mut Vec<DefaultBinding>, enhanced_keys_supported: bool, is_wsl: bool)
    ensures
        rows_of(final(out)@) == rows_of(old(out)@) + default_rows_composer(
            enhanced_keys_supported,
            is_wsl,
        ),
{
    out.push(binding("composer_submit", vec!["Enter"]));
    out.push(binding("composer_queue", vec!["Tab"]));
    out.push(binding("composer_newline", vec![if enhanced_keys_supported {
                "Shift+Enter"
            } else {
                "Ctrl+J"
            }]));
    out.push(binding("composer_toggle_shortcuts", vec!["?"]));
    proof {
        assert(rows_of(out@) =~~= rows_of(old(out)@) + default_rows_composer(
            enhanced_keys_supported,
            is_wsl,
        ));
    }
}

/// The default bindings of the `popup` actions.
pub open spec fn default_rows_popup(enhanced_keys_supported: bool, is_wsl: bool) -> Seq<BindingRow> {
    seq![
        row("popup_up", seq!["Up", "Ctrl+P"]),
        row("popup_down", seq!["Down", "Ctrl+N"]),
        row("popup_accept", seq!["Enter", "Tab"]),
        row("popup_cancel", seq!["Esc"]),
    ]
}

fn push_defaults_popup(out: &mut Vec<DefaultBinding>, enhanced_keys_supported: bool, is_wsl: bool)
    ensures
        rows_of(final(out)@) == rows_of(old(out)@) + default_rows_popup(
            enhanced_keys_supported,
            is_wsl,
        ),
{
    out.push(binding("popup_up", vec!["Up", "Ctrl+P"]));
    out.push(binding("popup_down", vec!["Down", "Ctrl+N"]));
    out.push(binding("popup_accept", vec!["Enter", "Tab"]));
    out.push(binding("popup_cancel", vec!["Esc"]));
    proof {
        assert(rows_of(out@) =~~= rows_of(old(out)@) + default_rows_popup(
            enhanced_keys_supported,
            is_wsl,
        ));
    }
}

/// The default bindings of the `text` actions.
pub open spec fn default_rows_text(enhanced_keys_supported: bool, is_wsl: bool) -> Seq<BindingRow> {
    seq![
        row("text_newline", seq!["Enter", "Ctrl+J", "Ctrl+M"]),
        row("text_backspace", seq!["Backspace", "Ctrl+H"]),
        row("text_delete_forward", seq!["Delete", "Ctrl+D"]),
        row("text_delete_backward_word", seq!["Alt+Backspace", "Ctrl+W", "Ctrl+Alt+H"]),
        row("text_delete_forward_word", seq!["Alt+Delete"]),
        row("text_kill_line_start", seq!["Ctrl+U"]),
        row("text_kill_line_end", seq!["Ctrl+K"]),
        row("text_yank", seq!["Ctrl+Y"]),
        row("text_move_left", seq!["Left", "Ctrl+B"]),
        row("text_move_right", seq!["Right", "Ctrl+F"]),
        row("text_move_up", seq!["Up", "Ctrl+P"]),
        row("text_move_down", seq!["Down", "Ctrl+N"]),
        row("text_word_left", seq!["Alt+Left", "Ctrl+Left", "Alt+B"]),
        row("text_word_right", seq!["Alt+Right", "Ctrl+Right", "Alt+F"]),
        row("text_line_start", seq!["Home", "Ctrl+A"]),
        row("text_line_end", seq!["End", "Ctrl+E"]),
    ]
}

fn push_defaults_text(out: &mut Vec<DefaultBinding>, enhanced_keys_supported: bool, is_wsl: bool)
    ensures
        rows_of(final(out)@) == rows_of(old(out)@) + default_rows_text(
            enhanced_keys_supported,
            is_wsl,
        ),
{
    out.push(binding("text_newline", vec!["Enter", "Ctrl+J", "Ctrl+M"]));
    out.push(binding("text_backspace", vec!["Backspace", "Ctrl+H"]));
    out.push(binding("text_delete_forward", vec!["Delete", "Ctrl+D"]));
    out.push(binding("text_delete_backward_word", vec!["Alt+Backspace", "Ctrl+W", "Ctrl+Alt+H"]));
    out.push(binding("text_delete_forward_word", vec!["Alt+Delete"]));
    out.push(binding("text_kill_line_start", vec!["Ctrl+U"]));
    out.push(binding("text_kill_line_end", vec!["Ctrl+K"]));
    out.push(binding("text_yank", vec!["Ctrl+Y"]));
    out.push(binding("text_move_left", vec!["Left", "Ctrl+B"]));
    out.push(binding("text_move_right", vec!["Right", "Ctrl+F"]));
    out.push(binding("text_move_up", vec!["Up", "Ctrl+P"]));
    out.push(binding("text_move_down", vec!["Down", "Ctrl+N"]));
    out.push(binding("text_word_left", vec!["Alt+Left", "Ctrl+Left", "Alt+B"]));
    out.push(binding("text_word_right", vec!["Alt+Right", "Ctrl+Right", "Alt+F"]));
    out.push(binding("text_line_start", vec!["Home", "Ctrl+A"]));
    out.push(binding("text_line_end", vec!["End", "Ctrl+E"]));
    proof {
        assert(rows_of(out@) =~~= rows_of(old(out)@) + default_rows_text(
            enhanced_keys_supported,
            is_wsl,
        ));
    }
}

/// The default bindings of the `pager` actions.
pub open spec fn default_rows_pager(enhanced_keys_supported: bool, is_wsl: bool) -> Seq<BindingRow> {
    seq![
        row("pager_scroll_up", seq!["Up", "k"]),
        row("pager_scroll_down", seq!["Down", "j"]),
        row("pager_page_up", seq!["PageUp", "Shift+Space", "Ctrl+B"]),
        row("pager_page_down", seq!["PageDown", "Space", "Ctrl+F"]),
        row("pager_half_page_up", seq!["Ctrl+U"]),
        row("pager_half_page_down", seq!["Ctrl+D"]),
        row("pager_jump_top", seq!["Home"]),
        row("pager_jump_bottom", seq!["End"]),
        row("pager_quit", seq!["q", "Ctrl+C", "Ctrl+T"]),
        row("pager_backtrack_prev", seq!["Esc", "Left"]),
        row("pager_backtrack_next", seq!["Right"]),
        row("pager_backtrack_confirm", seq!["Enter"]),
    ]
}

fn push_defaults_pager(out: &mut Vec<DefaultBinding>, enhanced_keys_supported: bool, is_wsl: bool)
    ensures
        rows_of(final(out)@) == rows_of(old(out)@) + default_rows_pager(
            enhanced_keys_supported,
            is_wsl,
        ),
{
    out.push(binding("pager_scroll_up", vec!["Up", "k"]));
    out.push(binding("pager_scroll_down", vec!["Down", "j"]));
    out.push(binding("pager_page_up", vec!["PageUp", "Shift+Space", "Ctrl+B"]));
    out.push(binding("pager_page_down", vec!["PageDown", "Space", "Ctrl+F"]));
    out.push(binding("pager_half_page_up", vec!["Ctrl+U"]));
    out.push(binding("pager_half_page_down", vec!["Ctrl+D"]));
    out.push(binding("pager_jump_top", vec!["Home"]));
    out.push(binding("pager_jump_bottom", vec!["End"]));
    out.push(binding("pager_quit", vec!["q", "Ctrl+C", "Ctrl+T"]));
    out.push(binding("pager_backtrack_prev", vec!["Esc", "Left"]));
    out.push(binding("pager_backtrack_next", vec!["Right"]));
    out.push(binding("pager_backtrack_confirm", vec!["Enter"]));
    proof {
        assert(rows_of(out@) =~~= rows_of(old(out)@) + default_rows_pager(
            enhanced_keys_supported,
            is_wsl,
        ));
    }
}

/// The default bindings of the `backtrack_overlay` actions.
pub open spec fn default_rows_backtrack_overlay(enhanced_keys_supported: bool, is_wsl: bool) -> Seq<BindingRow> {
    seq![
        row("backtrack_overlay_prev", seq!["Esc", "Left"]),
        row("backtrack_overlay_next", seq!["Right"]),
        row("backtrack_overlay_confirm", seq!["Enter"]),
    ]
}

fn push_defaults_backtrack_overlay(out: &mut Vec<DefaultBinding>, enhanced_keys_supported: bool, is_wsl: bool)
    ensures
        rows_of(final(out)@) == rows_of(old(out)@) + default_rows_backtrack_overlay(
            enhanced_keys_supported,
            is_wsl,
        ),
{
    out.push(binding("backtrack_overlay_prev", vec!["Esc", "Left"]));
    out.push(binding("backtrack_overlay_next", vec!["Right"]));
    out.push(binding("backtrack_overlay_confirm", vec!["Enter"]));
    proof {
        assert(rows_of(out@) =~~= rows_of(old(out)@) + default_rows_backtrack_overlay(
            enhanced_keys_supported,
            is_wsl,
        ));
    }
}

/// The default bindings of the `rui` actions.
pub open spec fn default_rows_rui(enhanced_keys_supported: bool, is_wsl: bool) -> Seq<BindingRow> {
    seq![
        row("rui_cancel", seq!["Esc"]),
        row("rui_next_question", seq!["Ctrl+N", "l"]),
        row("rui_prev_question", seq!["Ctrl+P", "h"]),
        row("rui_option_up", seq!["Up", "k"]),
        row("rui_option_down", seq!["Down", "j"]),
        row("rui_option_select", seq!["Space"]),
        row("rui_option_clear", seq!["Backspace"]),
        row("rui_option_to_notes", seq!["Tab"]),
        row("rui_submit_or_next", seq!["Enter"]),
        row("rui_notes_to_options", seq!["Tab"]),
        row("rui_notes_backspace_empty", seq!["Backspace"]),
    ]
}

fn push_defaults_rui(out: &mut Vec<DefaultBinding>, enhanced_keys_supported: bool, is_wsl: bool)
    ensures
        rows_of(final(out)@) == rows_of(old(out)@) + default_rows_rui(
            enhanced_keys_supported,
            is_wsl,
        ),
{
    out.push(binding("rui_cancel", vec!["Esc"]));
    out.push(binding("rui_next_question", vec!["Ctrl+N", "l"]));
    out.push(binding("rui_prev_question", vec!["Ctrl+P", "h"]));
    out.push(binding("rui_option_up", vec!["Up", "k"]));
    out.push(binding("rui_option_down", vec!["Down", "j"]));
    out.push(binding("rui_option_select", vec!["Space"]));
    out.push(binding("rui_option_clear", vec!["Backspace"]));
    out.push(binding("rui_option_to_notes", vec!["Tab"]));
    out.push(binding("rui_submit_or_next", vec!["Enter"]));
    out.push(binding("rui_notes_to_options", vec!["Tab"]));
    out.push(binding("rui_notes_backspace_empty", vec!["Backspace"]));
    proof {
        assert(rows_of(out@) =~~= rows_of(old(out)@) + default_rows_rui(
            enhanced_keys_supported,
            is_wsl,
        ));
    }
}

/// The default bindings of the `list` actions.
pub open spec fn default_rows_list(enhanced_keys_supported: bool, is_wsl: bool) -> Seq<BindingRow> {
    seq![
        row("list_up", seq!["Up", "Ctrl+P", "k"]),
        row("list_down", seq!["Down", "Ctrl+N", "j"]),
        row("list_search_backspace", seq!["Backspace"]),
        row("list_cancel", seq!["Esc"]),
        row("list_accept", seq!["Enter"]),
        row("list_pick_index", seq!["1", "2", "3", "4", "5", "6", "7", "8", "9"]),
    ]
}

fn push_defaults_list(out: &mut Vec<DefaultBinding>, enhanced_keys_supported: bool, is_wsl: bool)
    ensures
        rows_of(final(out)@) == rows_of(old(out)@) + default_rows_list(
            enhanced_keys_supported,
            is_wsl,
        ),
{
    out.push(binding("list_up", vec!["Up", "Ctrl+P", "k"]));
    out.push(binding("list_down", vec!["Down", "Ctrl+N", "j"]));
    out.push(binding("list_search_backspace", vec!["Backspace"]));
    out.push(binding("list_cancel", vec!["Esc"]));
    out.push(binding("list_accept", vec!["Enter"]));
    out.push(binding("list_pick_index", vec!["1", "2", "3", "4", "5", "6", "7", "8", "9"]));
    proof {
        assert(rows_of(out@) =~~= rows_of(old(out)@) + default_rows_list(
            enhanced_keys_supported,
            is_wsl,
        ));
    }
}

/// The default bindings of the `approval` actions.
pub open spec fn default_rows_approval(enhanced_keys_supported: bool, is_wsl: bool) -> Seq<BindingRow> {
    seq![
        row("approval_approve", seq!["y"]),
        row("approval_approve_policy", seq!["p"]),
        row("approval_approve_session", seq!["a"]),
        row("approval_reject", seq!["Esc", "n"]),
        row("approval_cancel", seq!["c"]),
    ]
}

fn push_defaults_approval(out: &mut Vec<DefaultBinding>, enhanced_keys_supported: bool, is_wsl: bool)
    ensures
        rows_of(final(out)@) == rows_of(old(out)@) + default_rows_approval(
            enhanced_keys_supported,
            is_wsl,
        ),
{
    out.push(binding("approval_approve", vec!["y"]));
    out.push(binding("approval_approve_policy", vec!["p"]));
    out.push(binding("approval_approve_session", vec!["a"]));
    out.push(binding("approval_reject", vec!["Esc", "n"]));
    out.push(binding("approval_cancel", vec!["c"]));
    proof {
        assert(rows_of(out@) =~~= rows_of(old(out)@) + default_rows_approval(
            enhanced_keys_supported,
            is_wsl,
        ));
    }
}

/// The default bindings of the `skills` actions.
pub open spec fn default_rows_skills(enhanced_keys_supported: bool, is_wsl: bool) -> Seq<BindingRow> {
    seq![
        row("skills_up", seq!["Up", "Ctrl+P"]),
        row("skills_down", seq!["Down", "Ctrl+N"]),
        row("skills_toggle", seq!["Space", "Enter"]),
        row("skills_search_backspace", seq!["Backspace"]),
        row("skills_cancel", seq!["Esc"]),
    ]
}

fn push_defaults_skills(out: &mut Vec<DefaultBinding>, enhanced_keys_supported: bool, is_wsl: bool)
    ensures
        rows_of(final(out)@) == rows_of(old(out)@) + default_rows_skills(
            enhanced_keys_supported,
            is_wsl,
        ),
{
    out.push(binding("skills_up", vec!["Up", "Ctrl+P"]));
    out.push(binding("skills_down", vec!["Down", "Ctrl+N"]));
    out.push(binding("skills_toggle", vec!["Space", "Enter"]));
    out.push(binding("skills_search_backspace", vec!["Backspace"]));
    out.push(binding("skills_cancel", vec!["Esc"]));
    proof {
        assert(rows_of(out@) =~~= rows_of(old(out)@) + default_rows_skills(
            enhanced_keys_supported,
            is_wsl,
        ));
    }
}

/// The default bindings of the `features` actions.
pub open spec fn default_rows_features(enhanced_keys_supported: bool, is_wsl: bool) -> Seq<BindingRow> {
    seq![
        row("features_up", seq!["Up", "Ctrl+P", "k"]),
        row("features_down", seq!["Down", "Ctrl+N", "j"]),
        row("features_toggle", seq!["Space"]),
        row("features_cancel", seq!["Enter"]),
    ]
}

fn push_defaults_features(out: &mut Vec<DefaultBinding>, enhanced_keys_supported: bool, is_wsl: bool)
    ensures
        rows_of(final(out)@) == rows_of(old(out)@) + default_rows_features(
            enhanced_keys_supported,
            is_wsl,
        ),
{
    out.push(binding("features_up", vec!["Up", "Ctrl+P", "k"]));
    out.push(binding("features_down", vec!["Down", "Ctrl+N", "j"]));
    out.push(binding("features_toggle", vec!["Space"]));
    out.push(binding("features_cancel", vec!["Enter"]));
    proof {
        assert(rows_of(out@) =~~= rows_of(old(out)@) + default_rows_features(
            enhanced_keys_supported,
            is_wsl,
        ));
    }
}

/// The default bindings of the `resume` actions.
pub open spec fn default_rows_resume(enhanced_keys_supported: bool, is_wsl: bool) -> Seq<BindingRow> {
    seq![
        row("resume_exit", seq!["Ctrl+C"]),
        row("resume_start_fresh", seq!["Esc"]),
        row("resume_accept", seq!["Enter"]),
        row("resume_up", seq!["Up"]),
        row("resume_down", seq!["Down"]),
        row("resume_page_up", seq!["PageUp"]),
        row("resume_page_down", seq!["PageDown"]),
        row("resume_search_backspace", seq!["Backspace"]),
    ]
}

fn push_defaults_resume(out: &mut Vec<DefaultBinding>, enhanced_keys_supported: bool, is_wsl: bool)
    ensures
        rows_of(final(out)@) == rows_of(old(out)@) + default_rows_resume(
            enhanced_keys_supported,
            is_wsl,
        ),
{
    out.push(binding("resume_exit", vec!["Ctrl+C"]));
    out.push(binding("resume_start_fresh", vec!["Esc"]));
    out.push(binding("resume_accept", vec!["Enter"]));
    out.push(binding("resume_up", vec!["Up"]));
    out.push(binding("resume_down", vec!["Down"]));
    out.push(binding("resume_page_up", vec!["PageUp"]));
    out.push(binding("resume_page_down", vec!["PageDown"]));
    out.push(binding("resume_search_backspace", vec!["Backspace"]));
    proof {
        assert(rows_of(out@) =~~= rows_of(old(out)@) + default_rows_resume(
            enhanced_keys_supported,
            is_wsl,
        ));
    }
}

/// The default bindings of the `update` actions.
pub open spec fn default_rows_update(enhanced_keys_supported: bool, is_wsl: bool) -> Seq<BindingRow> {
    seq![
        row("update_exit", seq!["Ctrl+C", "Ctrl+D"]),
        row("update_up", seq!["Up", "k"]),
        row("update_down", seq!["Down", "j"]),
        row("update_select_1", seq!["1"]),
        row("update_select_2", seq!["2"]),
        row("update_select_3", seq!["3"]),
        row("update_confirm", seq!["Enter"]),
        row("update_cancel", seq!["Esc"]),
    ]
}

fn push_defaults_update(out: &mut Vec<DefaultBinding>, enhanced_keys_supported: bool, is_wsl: bool)
    ensures
        rows_of(final(out)@) == rows_of(old(out)@) + default_rows_update(
            enhanced_keys_supported,
            is_wsl,
        ),
{
    out.push(binding("update_exit", vec!["Ctrl+C", "Ctrl+D"]));
    out.push(binding("update_up", vec!["Up", "k"]));
    out.push(binding("update_down", vec!["Down", "j"]));
    out.push(binding("update_select_1", vec!["1"]));
    out.push(binding("update_select_2", vec!["2"]));
    out.push(binding("update_select_3", vec!["3"]));
    out.push(binding("update_confirm", vec!["Enter"]));
    out.push(binding("update_cancel", vec!["Esc"]));
    proof {
        assert(rows_of(out@) =~~= rows_of(old(out)@) + default_rows_update(
            enhanced_keys_supported,
            is_wsl,
        ));
    }
}

/// The default bindings of the `migration` actions.
pub open spec fn default_rows_migration(enhanced_keys_supported: bool, is_wsl: bool) -> Seq<BindingRow> {
    seq![
        row("migration_exit", seq!["Ctrl+C", "Ctrl+D"]),
        row("migration_up", seq!["Up", "k"]),
        row("migration_down", seq!["Down", "j"]),
        row("migration_select_1", seq!["1"]),
        row("migration_select_2", seq!["2"]),
        row("migration_confirm", seq!["Enter", "Esc"]),
    ]
}

fn push_defaults_migration(out: &mut Vec<DefaultBinding>, enhanced_keys_supported: bool, is_wsl: bool)
    ensures
        rows_of(final(out)@) == rows_of(old(out)@) + default_rows_migration(
            enhanced_keys_supported,
            is_wsl,
        ),
{
    out.push(binding("migration_exit", vec!["Ctrl+C", "Ctrl+D"]));
    out.push(binding("migration_up", vec!["Up", "k"]));
    out.push(binding("migration_down", vec!["Down", "j"]));
    out.push(binding("migration_select_1", vec!["1"]));
    out.push(binding("migration_select_2", vec!["2"]));
    out.push(binding("migration_confirm", vec!["Enter", "Esc"]));
    proof {
        assert(rows_of(out@) =~~= rows_of(old(out)@) + default_rows_migration(
            enhanced_keys_supported,
            is_wsl,
        ));
    }
}

/// The default bindings of the `oss` actions.
pub open spec fn default_rows_oss(enhanced_keys_supported: bool, is_wsl: bool) -> Seq<BindingRow> {
    seq![
        row("oss_cancel", seq!["Ctrl+C"]),
        row("oss_left", seq!["Left"]),
        row("oss_right", seq!["Right"]),
        row("oss_confirm", seq!["Enter"]),
        row("oss_default", seq!["Esc"]),
        row("oss_select_l", seq!["l"]),
        row("oss_select_o", seq!["o"]),
        row("oss_select_c", seq!["c"]),
    ]
}

fn push_defaults_oss(out: &mut Vec<DefaultBinding>, enhanced_keys_supported: bool, is_wsl: bool)
    ensures
        rows_of(final(out)@) == rows_of(old(out)@) + default_rows_oss(
            enhanced_keys_supported,
            is_wsl,
        ),
{
    out.push(binding("oss_cancel", vec!["Ctrl+C"]));
    out.push(binding("oss_left", vec!["Left"]));
    out.push(binding("oss_right", vec!["Right"]));
    out.push(binding("oss_confirm", vec!["Enter"]));
    out.push(binding("oss_default", vec!["Esc"]));
    out.push(binding("oss_select_l", vec!["l"]));
    out.push(binding("oss_select_o", vec!["o"]));
    out.push(binding("oss_select_c", vec!["c"]));
    proof {
        assert(rows_of(out@) =~~= rows_of(old(out)@) + default_rows_oss(
            enhanced_keys_supported,
            is_wsl,
        ));
    }
}

/// The default bindings of the `cwd` actions.
pub open spec fn default_rows_cwd(enhanced_keys_supported: bool, is_wsl: bool) -> Seq<BindingRow> {
    seq![
        row("cwd_exit", seq!["Ctrl+C", "Ctrl+D"]),
        row("cwd_up", seq!["Up", "k"]),
        row("cwd_down", seq!["Down", "j"]),
        row("cwd_select_session", seq!["1", "Esc"]),
        row("cwd_select_current", seq!["2"]),
        row("cwd_confirm", seq!["Enter"]),
    ]
}

fn push_defaults_cwd(out: &mut Vec<DefaultBinding>, enhanced_keys_supported: bool, is_wsl: bool)
    ensures
        rows_of(final(out)@) == rows_of(old(out)@) + default_rows_cwd(
            enhanced_keys_supported,
            is_wsl,
        ),
{
    out.push(binding("cwd_exit", vec!["Ctrl+C", "Ctrl+D"]));
    out.push(binding("cwd_up", vec!["Up", "k"]));
    out.push(binding("cwd_down", vec!["Down", "j"]));
    out.push(binding("cwd_select_session", vec!["1", "Esc"]));
    out.push(binding("cwd_select_current", vec!["2"]));
    out.push(binding("cwd_confirm", vec!["Enter"]));
    proof {
        assert(rows_of(out@) =~~= rows_of(old(out)@) + default_rows_cwd(
            enhanced_keys_supported,
            is_wsl,
        ));
    }
}

/// The default bindings of the `onboarding` actions.
pub open spec fn default_rows_onboarding(enhanced_keys_supported: bool, is_wsl: bool) -> Seq<BindingRow> {
    seq![
        row("onboarding_exit", seq!["Ctrl+C", "Ctrl+D"]),
        row("onboarding_quit", seq!["q"]),
        row("welcome_cycle_animation", seq!["Ctrl+."]),
    ]
}

fn push_defaults_onboarding(out: &mut Vec<DefaultBinding>, enhanced_keys_supported: bool, is_wsl: bool)
    ensures
        rows_of(final(out)@) == rows_of(old(out)@) + default_rows_onboarding(
            enhanced_keys_supported,
            is_wsl,
        ),
{
    out.push(binding("onboarding_exit", vec!["Ctrl+C", "Ctrl+D"]));
    out.push(binding("onboarding_quit", vec!["q"]));
    out.push(binding("welcome_cycle_animation", vec!["Ctrl+."]));
    proof {
        assert(rows_of(out@) =~~= rows_of(old(out)@) + default_rows_onboarding(
            enhanced_keys_supported,
            is_wsl,
        ));
    }
}

/// The default bindings of the `auth` actions.
pub open spec fn default_rows_auth(enhanced_keys_supported: bool, is_wsl: bool) -> Seq<BindingRow> {
    seq![
        row("auth_up", seq!["Up", "k"]),
        row("auth_down", seq!["Down", "j"]),
        row("auth_select_1", seq!["1"]),
        row("auth_select_2", seq!["2"]),
        row("auth_select_3", seq!["3"]),
        row("auth_confirm", seq!["Enter"]),
        row("auth_back", seq!["Esc"]),
    ]
}

fn push_defaults_auth(out: &mut Vec<DefaultBinding>, enhanced_keys_supported: bool, is_wsl: bool)
    ensures
        rows_of(final(out)@) == rows_of(old(out)@) + default_rows_auth(
            enhanced_keys_supported,
            is_wsl,
        ),
{
    out.push(binding("auth_up", vec!["Up", "k"]));
    out.push(binding("auth_down", vec!["Down", "j"]));
    out.push(binding("auth_select_1", vec!["1"]));
    out.push(binding("auth_select_2", vec!["2"]));
    out.push(binding("auth_select_3", vec!["3"]));
    out.push(binding("auth_confirm", vec!["Enter"]));
    out.push(binding("auth_back", vec!["Esc"]));
    proof {
        assert(rows_of(out@) =~~= rows_of(old(out)@) + default_rows_auth(
            enhanced_keys_supported,
            is_wsl,
        ));
    }
}

/// The default bindings of the `auth_api_key` actions.
pub open spec fn default_rows_auth_api_key(enhanced_keys_supported: bool, is_wsl: bool) -> Seq<BindingRow> {
    seq![
        row("auth_api_key_submit", seq!["Enter"]),
        row("auth_api_key_back", seq!["Esc"]),
        row("auth_api_key_backspace", seq!["Backspace"]),
    ]
}

fn push_defaults_auth_api_key(out: &mut Vec<DefaultBinding>, enhanced_keys_supported: bool, is_wsl: bool)
    ensures
        rows_of(final(out)@) == rows_of(old(out)@) + default_rows_auth_api_key(
            enhanced_keys_supported,
            is_wsl,
        ),
{
    out.push(binding("auth_api_key_submit", vec!["Enter"]));
    out.push(binding("auth_api_key_back", vec!["Esc"]));
    out.push(binding("auth_api_key_backspace", vec!["Backspace"]));
    proof {
        assert(rows_of(out@) =~~= rows_of(old(out)@) + default_rows_auth_api_key(
            enhanced_keys_supported,
            is_wsl,
        ));
    }
}

/// The default bindings of the `trust` actions.
pub open spec fn default_rows_trust(enhanced_keys_supported: bool, is_wsl: bool) -> Seq<BindingRow> {
    seq![
        row("trust_up", seq!["Up", "k"]),
        row("trust_down", seq!["Down", "j"]),
        row("trust_select_trust", seq!["1", "y"]),
        row("trust_select_dont_trust", seq!["2", "n"]),
        row("trust_confirm", seq!["Enter"]),
    ]
}

fn push_defaults_trust(out: &mut Vec<DefaultBinding>, enhanced_keys_supported: bool, is_wsl: bool)
    ensures
        rows_of(final(out)@) == rows_of(old(out)@) + default_rows_trust(
            enhanced_keys_supported,
            is_wsl,
        ),
{
    out.push(binding("trust_up", vec!["Up", "k"]));
    out.push(binding("trust_down", vec!["Down", "j"]));
    out.push(binding("trust_select_trust", vec!["1", "y"]));
    out.push(binding("trust_select_dont_trust", vec!["2", "n"]));
    out.push(binding("trust_confirm", vec!["Enter"]));
    proof {
        assert(rows_of(out@) =~~= rows_of(old(out)@) + default_rows_trust(
            enhanced_keys_supported,
            is_wsl,
        ));
    }
}

/// The default bindings of every action, in the order of the actions.
pub open spec fn default_rows(enhanced_keys_supported: bool, is_wsl: bool) -> Seq<BindingRow> {
    Seq::<BindingRow>::empty() + default_rows_global(
        enhanced_keys_supported,
        is_wsl,
    ) + default_rows_chat(
        enhanced_keys_supported,
        is_wsl,
    ) + default_rows_composer(
        enhanced_keys_supported,
        is_wsl,
    ) + default_rows_popup(
        enhanced_keys_supported,
        is_wsl,
    ) + default_rows_text(
        enhanced_keys_supported,
        is_wsl,
    ) + default_rows_pager(
        enhanced_keys_supported,
        is_wsl,
    ) + default_rows_backtrack_overlay(
        enhanced_keys_supported,
        is_wsl,
    ) + default_rows_rui(
        enhanced_keys_supported,
        is_wsl,
    ) + default_rows_list(
        enhanced_keys_supported,
        is_wsl,
    ) + default_rows_approval(
        enhanced_keys_supported,
        is_wsl,
    ) + default_rows_skills(
        enhanced_keys_supported,
        is_wsl,
    ) + default_rows_features(
        enhanced_keys_supported,
        is_wsl,
    ) + default_rows_resume(
        enhanced_keys_supported,
        is_wsl,
    ) + default_rows_update(
        enhanced_keys_supported,
        is_wsl,
    ) + default_rows_migration(
        enhanced_keys_supported,
        is_wsl,
    ) + default_rows_oss(
        enhanced_keys_supported,
        is_wsl,
    ) + default_rows_cwd(
        enhanced_keys_supported,
        is_wsl,
    ) + default_rows_onboarding(
        enhanced_keys_supported,
        is_wsl,
    ) + default_rows_auth(
        enhanced_keys_supported,
        is_wsl,
    ) + default_rows_auth_api_key(
        enhanced_keys_supported,
        is_wsl,
    ) + default_rows_trust(
        enhanced_keys_supported,
        is_wsl,
    )
}

/// Lists the default bindings of every action, in the order of the
/// actions. Two of them depend on the terminal: pasting an image under
/// WSL, and the newline of the composer where the terminal tells Shift and
/// Enter from Enter.
pub fn default_bindings(enhanced_keys_supported: bool, is_wsl: bool) -> (bindings: Vec<
    DefaultBinding,
>)
    ensures
        rows_of(bindings@) == default_rows(enhanced_keys_supported, is_wsl),
{
    let mut bindings: Vec<DefaultBinding> = Vec::new();
    proof {
        assert(rows_of(bindings@) =~= Seq::<BindingRow>::empty());
    }
    push_defaults_global(&mut bindings, enhanced_keys_supported, is_wsl);
    push_defaults_chat(&mut bindings, enhanced_keys_supported, is_wsl);
    push_defaults_composer(&mut bindings, enhanced_keys_supported, is_wsl);
    push_defaults_popup(&mut bindings, enhanced_keys_supported, is_wsl);
    push_defaults_text(&mut bindings, enhanced_keys_supported, is_wsl);
    push_defaults_pager(&mut bindings, enhanced_keys_supported, is_wsl);
    push_defaults_backtrack_overlay(&mut bindings, enhanced_keys_supported, is_wsl);
    push_defaults_rui(&mut bindings, enhanced_keys_supported, is_wsl);
    push_defaults_list(&mut bindings, enhanced_keys_supported, is_wsl);
    push_defaults_approval(&mut bindings, enhanced_keys_supported, is_wsl);
    push_defaults_skills(&mut bindings, enhanced_keys_supported, is_wsl);
    push_defaults_features(&mut bindings, enhanced_keys_supported, is_wsl);
    push_defaults_resume(&mut bindings, enhanced_keys_supported, is_wsl);
    push_defaults_update(&mut bindings, enhanced_keys_supported, is_wsl);
    push_defaults_migration(&mut bindings, enhanced_keys_supported, is_wsl);
    push_defaults_oss(&mut bindings, enhanced_keys_supported, is_wsl);
    push_defaults_cwd(&mut bindings, enhanced_keys_supported, is_wsl);
    push_defaults_onboarding(&mut bindings, enhanced_keys_supported, is_wsl);
    push_defaults_auth(&mut bindings, enhanced_keys_supported, is_wsl);
    push_defaults_auth_api_key(&mut bindings, enhanced_keys_supported, is_wsl);
    push_defaults_trust(&mut bindings, enhanced_keys_supported, is_wsl);
    bindings
}

/// The actions of the `global` context.
pub open spec fn context_row_global() -> ContextRow {
    context_row(
        "global",
        seq![
            "global_suspend",
            "global_show_transcript",
            "global_external_editor",
            "global_backtrack_prime",
            "global_backtrack_confirm",
        ],
    )
}

/// The actions of the `chat` context.
pub open spec fn context_row_chat() -> ContextRow {
    context_row(
        "chat",
        seq![
            "chat_quit_or_interrupt_primary",
            "chat_quit_or_interrupt_secondary",
            "chat_paste_image",
            "chat_recall_queued_message",
            "chat_change_mode",
        ],
    )
}

/// The actions of the `composer` context.
pub open spec fn context_row_composer() -> ContextRow {
    context_row(
        "composer",
        seq![
            "composer_submit",
            "composer_queue",
            "composer_newline",
            "composer_toggle_shortcuts",
        ],
    )
}

/// The actions of the `popup` context.
pub open spec fn context_row_popup() -> ContextRow {
    context_row(
        "popup",
        seq![
            "popup_up",
            "popup_down",
            "popup_accept",
            "popup_cancel",
        ],
    )
}

/// The actions of the `text` context.
pub open spec fn context_row_text() -> ContextRow {
    context_row(
        "text",
        seq![
            "text_newline",
            "text_backspace",
            "text_delete_forward",
            "text_delete_backward_word",
            "text_delete_forward_word",
            "text_kill_line_start",
            "text_kill_line_end",
            "text_yank",
            "text_move_left",
            "text_move_right",
            "text_move_up",
            "text_move_down",
            "text_word_left",
            "text_word_right",
            "text_line_start",
            "text_line_end",
        ],
    )
}

/// The actions of the `pager` context.
pub open spec fn context_row_pager() -> ContextRow {
    context_row(
        "pager",
        seq![
            "pager_scroll_up",
            "pager_scroll_down",
            "pager_page_up",
            "pager_page_down",
            "pager_half_page_up",
            "pager_half_page_down",
            "pager_jump_top",
            "pager_jump_bottom",
            "pager_quit",
            "pager_backtrack_prev",
            "pager_backtrack_next",
            "pager_backtrack_confirm",
        ],
    )
}

/// The actions of the `backtrack_overlay` context.
pub open spec fn context_row_backtrack_overlay() -> ContextRow {
    context_row(
        "backtrack_overlay",
        seq![
            "backtrack_overlay_prev",
            "backtrack_overlay_next",
            "backtrack_overlay_confirm",
        ],
    )
}

/// The actions of the `request_user_input_options` context.
pub open spec fn context_row_request_user_input_options() -> ContextRow {
    context_row(
        "request_user_input_options",
        seq![
            "rui_cancel",
            "rui_next_question",
            "rui_prev_question",
            "rui_option_up",
            "rui_option_down",
            "rui_option_select",
            "rui_option_clear",
            "rui_option_to_notes",
            "rui_submit_or_next",
        ],
    )
}

/// The actions of the `request_user_input_notes` context.
pub open spec fn context_row_request_user_input_notes() -> ContextRow {
    context_row(
        "request_user_input_notes",
        seq![
            "rui_cancel",
            "rui_next_question",
            "rui_prev_question",
            "rui_option_up",
            "rui_option_down",
            "rui_notes_to_options",
            "rui_notes_backspace_empty",
            "rui_submit_or_next",
        ],
    )
}

/// The actions of the `list_selection` context.
pub open spec fn context_row_list_selection() -> ContextRow {
    context_row(
        "list_selection",
        seq![
            "list_up",
            "list_down",
            "list_search_backspace",
            "list_cancel",
            "list_accept",
            "list_pick_index",
        ],
    )
}

/// The actions of the `approval` context.
pub open spec fn context_row_approval() -> ContextRow {
    context_row(
        "approval",
        seq![
            "approval_approve",
            "approval_approve_policy",
            "approval_approve_session",
            "approval_reject",
            "approval_cancel",
        ],
    )
}

/// The actions of the `skills_toggle` context.
pub open spec fn context_row_skills_toggle() -> ContextRow {
    context_row(
        "skills_toggle",
        seq![
            "skills_up",
            "skills_down",
            "skills_toggle",
            "skills_search_backspace",
            "skills_cancel",
        ],
    )
}

/// The actions of the `experimental_features` context.
pub open spec fn context_row_experimental_features() -> ContextRow {
    context_row(
        "experimental_features",
        seq![
            "features_up",
            "features_down",
            "features_toggle",
            "features_cancel",
        ],
    )
}

/// The actions of the `resume_picker` context.
pub open spec fn context_row_resume_picker() -> ContextRow {
    context_row(
        "resume_picker",
        seq![
            "resume_exit",
            "resume_start_fresh",
            "resume_accept",
            "resume_up",
            "resume_down",
            "resume_page_up",
            "resume_page_down",
            "resume_search_backspace",
        ],
    )
}

/// The actions of the `update_prompt` context.
pub open spec fn context_row_update_prompt() -> ContextRow {
    context_row(
        "update_prompt",
        seq![
            "update_exit",
            "update_up",
            "update_down",
            "update_select_1",
            "update_select_2",
            "update_select_3",
            "update_confirm",
            "update_cancel",
        ],
    )
}

/// The actions of the `model_migration` context.
pub open spec fn context_row_model_migration() -> ContextRow {
    context_row(
        "model_migration",
        seq![
            "migration_exit",
            "migration_up",
            "migration_down",
            "migration_select_1",
            "migration_select_2",
            "migration_confirm",
        ],
    )
}

/// The actions of the `oss_selection` context.
pub open spec fn context_row_oss_selection() -> ContextRow {
    context_row(
        "oss_selection",
        seq![
            "oss_cancel",
            "oss_left",
            "oss_right",
            "oss_confirm",
            "oss_default",
            "oss_select_l",
            "oss_select_o",
            "oss_select_c",
        ],
    )
}

/// The actions of the `cwd_prompt` context.
pub open spec fn context_row_cwd_prompt() -> ContextRow {
    context_row(
        "cwd_prompt",
        seq![
            "cwd_exit",
            "cwd_up",
            "cwd_down",
            "cwd_select_session",
            "cwd_select_current",
            "cwd_confirm",
        ],
    )
}

/// The actions of the `onboarding` context.
pub open spec fn context_row_onboarding() -> ContextRow {
    context_row(
        "onboarding",
        seq![
            "onboarding_exit",
            "onboarding_quit",
            "welcome_cycle_animation",
        ],
    )
}

/// The actions of the `auth` context.
pub open spec fn context_row_auth() -> ContextRow {
    context_row(
        "auth",
        seq![
            "auth_up",
            "auth_down",
            "auth_select_1",
            "auth_select_2",
            "auth_select_3",
            "auth_confirm",
            "auth_back",
        ],
    )
}

/// The actions of the `auth_api_key` context.
pub open spec fn context_row_auth_api_key() -> ContextRow {
    context_row(
        "auth_api_key",
        seq![
            "auth_api_key_submit",
            "auth_api_key_back",
            "auth_api_key_backspace",
        ],
    )
}

/// The actions of the `trust_directory` context.
pub open spec fn context_row_trust_directory() -> ContextRow {
    context_row(
        "trust_directory",
        seq![
            "trust_up",
            "trust_down",
            "trust_select_trust",
            "trust_select_dont_trust",
            "trust_confirm",
        ],
    )
}

/// The contexts within which two actions may not share a key press, each
/// with its actions.
pub open spec fn context_rows() -> Seq<ContextRow> {
    seq![
        context_row_global(),
        context_row_chat(),
        context_row_composer(),
        context_row_popup(),
        context_row_text(),
        context_row_pager(),
        context_row_backtrack_overlay(),
        context_row_request_user_input_options(),
        context_row_request_user_input_notes(),
        context_row_list_selection(),
        context_row_approval(),
        context_row_skills_toggle(),
        context_row_experimental_features(),
        context_row_resume_picker(),
        context_row_update_prompt(),
        context_row_model_migration(),
        context_row_oss_selection(),
        context_row_cwd_prompt(),
        context_row_onboarding(),
        context_row_auth(),
        context_row_auth_api_key(),
        context_row_trust_directory(),
    ]
}

/// Lists the contexts within which two actions may not share a key
/// press, each with its actions.
pub fn conflict_contexts() -> (contexts: Vec<ConflictContext>)
    ensures
        contexts_of(contexts@) == context_rows(),
{
    let mut contexts: Vec<ConflictContext> = Vec::new();
    contexts.push(
        context(
            "global",
            vec![
                "global_suspend",
                "global_show_transcript",
                "global_external_editor",
                "global_backtrack_prime",
                "global_backtrack_confirm",
            ],
        ),
    );
    contexts.push(
        context(
            "chat",
            vec![
                "chat_quit_or_interrupt_primary",
                "chat_quit_or_interrupt_secondary",
                "chat_paste_image",
                "chat_recall_queued_message",
                "chat_change_mode",
            ],
        ),
    );
    contexts.push(
        context(
            "composer",
            vec![
                "composer_submit",
                "composer_queue",
                "composer_newline",
                "composer_toggle_shortcuts",
            ],
        ),
    );
    contexts.push(
        context(
            "popup",
            vec![
                "popup_up",
                "popup_down",
                "popup_accept",
                "popup_cancel",
            ],
        ),
    );
    contexts.push(
        context(
            "text",
            vec![
                "text_newline",
                "text_backspace",
                "text_delete_forward",
                "text_delete_backward_word",
                "text_delete_forward_word",
                "text_kill_line_start",
                "text_kill_line_end",
                "text_yank",
                "text_move_left",
                "text_move_right",
                "text_move_up",
                "text_move_down",
                "text_word_left",
                "text_word_right",
                "text_line_start",
                "text_line_end",
            ],
        ),
    );
    contexts.push(
        context(
            "pager",
            vec![
                "pager_scroll_up",
                "pager_scroll_down",
                "pager_page_up",
                "pager_page_down",
                "pager_half_page_up",
                "pager_half_page_down",
                "pager_jump_top",
                "pager_jump_bottom",
                "pager_quit",
                "pager_backtrack_prev",
                "pager_backtrack_next",
                "pager_backtrack_confirm",
            ],
        ),
    );
    contexts.push(
        context(
            "backtrack_overlay",
            vec![
                "backtrack_overlay_prev",
                "backtrack_overlay_next",
                "backtrack_overlay_confirm",
            ],
        ),
    );
    contexts.push(
        context(
            "request_user_input_options",
            vec![
                "rui_cancel",
                "rui_next_question",
                "rui_prev_question",
                "rui_option_up",
                "rui_option_down",
                "rui_option_select",
                "rui_option_clear",
                "rui_option_to_notes",
                "rui_submit_or_next",
            ],
        ),
    );
    contexts.push(
        context(
            "request_user_input_notes",
            vec![
                "rui_cancel",
                "rui_next_question",
                "rui_prev_question",
                "rui_option_up",
                "rui_option_down",
                "rui_notes_to_options",
                "rui_notes_backspace_empty",
                "rui_submit_or_next",
            ],
        ),
    );
    contexts.push(
        context(
            "list_selection",
            vec![
                "list_up",
                "list_down",
                "list_search_backspace",
                "list_cancel",
                "list_accept",
                "list_pick_index",
            ],
        ),
    );
    contexts.push(
        context(
            "approval",
            vec![
                "approval_approve",
                "approval_approve_policy",
                "approval_approve_session",
                "approval_reject",
                "approval_cancel",
            ],
        ),
    );
    contexts.push(
        context(
            "skills_toggle",
            vec![
                "skills_up",
                "skills_down",
                "skills_toggle",
                "skills_search_backspace",
                "skills_cancel",
            ],
        ),
    );
    contexts.push(
        context(
            "experimental_features",
            vec![
                "features_up",
                "features_down",
                "features_toggle",
                "features_cancel",
            ],
        ),
    );
    contexts.push(
        context(
            "resume_picker",
            vec![
                "resume_exit",
                "resume_start_fresh",
                "resume_accept",
                "resume_up",
                "resume_down",
                "resume_page_up",
                "resume_page_down",
                "resume_search_backspace",
            ],
        ),
    );
    contexts.push(
        context(
            "update_prompt",
            vec![
                "update_exit",
                "update_up",
                "update_down",
                "update_select_1",
                "update_select_2",
                "update_select_3",
                "update_confirm",
                "update_cancel",
            ],
        ),
    );
    contexts.push(
        context(
            "model_migration",
            vec![
                "migration_exit",
                "migration_up",
                "migration_down",
                "migration_select_1",
                "migration_select_2",
                "migration_confirm",
            ],
        ),
    );
    contexts.push(
        context(
            "oss_selection",
            vec![
                "oss_cancel",
                "oss_left",
                "oss_right",
                "oss_confirm",
                "oss_default",
                "oss_select_l",
                "oss_select_o",
                "oss_select_c",
            ],
        ),
    );
    contexts.push(
        context(
            "cwd_prompt",
            vec![
                "cwd_exit",
                "cwd_up",
                "cwd_down",
                "cwd_select_session",
                "cwd_select_current",
                "cwd_confirm",
            ],
        ),
    );
    contexts.push(
        context(
            "onboarding",
            vec![
                "onboarding_exit",
                "onboarding_quit",
                "welcome_cycle_animation",
            ],
        ),
    );
    contexts.push(
        context(
            "auth",
            vec![
                "auth_up",
                "auth_down",
                "auth_select_1",
                "auth_select_2",
                "auth_select_3",
                "auth_confirm",
                "auth_back",
            ],
        ),
    );
    contexts.push(
        context(
            "auth_api_key",
            vec![
                "auth_api_key_submit",
                "auth_api_key_back",
                "auth_api_key_backspace",
            ],
        ),
    );
    contexts.push(
        context(
            "trust_directory",
            vec![
                "trust_up",
                "trust_down",
                "trust_select_trust",
                "trust_select_dont_trust",
                "trust_confirm",
            ],
        ),
    );
    proof {
        assert(contexts_of(contexts@) =~~= context_rows());
    }
    contexts
}

/// The names of the rows.
pub open spec fn names_of(rows: Seq<BindingRow>) -> Seq<Seq<char>> {
    Seq::new(rows.len(), |i: int| rows[i].0)
}

/// The names of all actions, in their order.
pub open spec fn action_names() -> Seq<Seq<char>> {
    names_of(default_rows(false, false))
}

/// `names[p]` is the first name equal to `name`.
pub open spec fn is_first_named(names: Seq<Seq<char>>, name: Seq<char>, p: int) -> bool {
    0 <= p < names.len() && names[p] == name && forall|k: int| 0 <= k < p ==> names[k] != name
}

/// `name` is among `names`.
pub open spec fn is_named(names: Seq<Seq<char>>, name: Seq<char>) -> bool {
    exists|p: int| 0 <= p < names.len() && names[p] == name
}

/// The index of the first name equal to `name`; meaningful where the name
/// is among the names.
pub open spec fn first_named(names: Seq<Seq<char>>, name: Seq<char>) -> int {
    choose|p: int| is_first_named(names, name, p)
}

/// A name that is among the names has a first place there.
pub proof fn lemma_first_named(names: Seq<Seq<char>>, name: Seq<char>)
    requires
        is_named(names, name),
    ensures
        is_first_named(names, name, first_named(names, name)),
    decreases names.len(),
{
    let p = choose|p: int| 0 <= p < names.len() && names[p] == name;
    lemma_first_before(names, name, p);
}

proof fn lemma_first_before(names: Seq<Seq<char>>, name: Seq<char>, p: int)
    requires
        0 <= p < names.len(),
        names[p] == name,
    ensures
        exists|q: int| is_first_named(names, name, q),
    decreases p,
{
    if exists|k: int| 0 <= k < p && names[k] == name {
        let k = choose|k: int| 0 <= k < p && names[k] == name;
        lemma_first_before(names, name, k);
    } else {
        assert(is_first_named(names, name, p));
    }
}

/// Lists the names of all actions, in their order.
pub fn tui_keybinding_actions() -> (actions: Vec<&'static str>)
    ensures
        views(actions@) == action_names(),
{
    let defaults = default_bindings(false, false);
    let mut actions: Vec<&'static str> = Vec::new();
    let mut i: usize = 0;
    while i < defaults.len()
        invariant
            i <= defaults@.len(),
            rows_of(defaults@) == default_rows(false, false),
            actions@.len() == i,
            forall|k: int| 0 <= k < i ==> (#[trigger] actions@[k])@ == defaults@[k].action@,
        decreases defaults@.len() - i,
    {
        actions.push(defaults[i].action);
        i = i + 1;
    }
    proof {
        assert forall|k: int| 0 <= k < actions@.len() implies views(actions@)[k]
            == action_names()[k] by {
            assert(rows_of(defaults@)[k].0 == defaults@[k].action@);
        }
        assert(views(actions@) =~= action_names());
    }
    actions
}

/// Finds the first place of `name` among the names of `names`.
fn find_name(names: &Vec<&'static str>, name: &str) -> (found: Option<usize>)
    ensures
        match found {
            Some(p) => is_first_named(views(names@), name@, p as int),
            None => !is_named(views(names@), name@),
        },
{
    let mut i: usize = 0;
    while i < names.len()
        invariant
            i <= names@.len(),
            forall|k: int| 0 <= k < i ==> views(names@)[k] != name@,
        decreases names@.len() - i,
    {
        if str_eq(names[i], name) {
            return Some(i);
        }
        i = i + 1;
    }
    None
}

/// What a configuration binds to one action: one chord or several.
#[derive(Clone, Debug)]
pub enum KeybindingValue {
    Single(String),
    Multiple(Vec<String>),
}

impl KeybindingValue {
    /// The chords of the value.
    pub open spec fn chords(self) -> Seq<Seq<char>> {
        match self {
            KeybindingValue::Single(chord) => seq![chord@],
            KeybindingValue::Multiple(chords) => string_views(chords@),
        }
    }
}

/// The key bindings of a configuration: actions with what is bound to
/// them. Where an action occurs twice, its last value counts.
#[derive(Clone, Debug)]
pub struct KeybindingsToml(pub Vec<(String, KeybindingValue)>);

impl KeybindingsToml {
    /// The rows of the configuration.
    pub open spec fn rows(self) -> Seq<BindingRow> {
        Seq::new(self.0@.len(), |i: int| (self.0@[i].0@, self.0@[i].1.chords()))
    }
}

/// The chords of `name` after the first `n` overrides: those of the last
/// of these overrides that names it, and `chords` if none does.
pub open spec fn overridden(
    name: Seq<char>,
    chords: Seq<Seq<char>>,
    overrides: Seq<BindingRow>,
    n: int,
) -> Seq<Seq<char>>
    decreases n,
{
    if n <= 0 {
        chords
    } else if overrides[n - 1].0 == name {
        overrides[n - 1].1
    } else {
        overridden(name, chords, overrides, n - 1)
    }
}

/// The default rows with the first `n` overrides applied.
pub open spec fn merged_rows(defaults: Seq<BindingRow>, overrides: Seq<BindingRow>, n: int) -> Seq<
    BindingRow,
> {
    Seq::new(
        defaults.len(),
        |i: int| (defaults[i].0, overridden(defaults[i].0, defaults[i].1, overrides, n)),
    )
}

/// An action with the chords bound to it, still as text.
pub struct MergedBinding {
    pub action: String,
    pub chords: Vec<String>,
}

/// The rows of a list of bindings.
pub open spec fn merged_of(bindings: Seq<MergedBinding>) -> Seq<BindingRow> {
    Seq::new(bindings.len(), |i: int| (bindings[i].action@, string_views(bindings[i].chords@)))
}

/// Copies a list of strings.
fn copy_strings(items: &Vec<String>) -> (copy: Vec<String>)
    ensures
        string_views(copy@) == string_views(items@),
{
    let mut copy: Vec<String> = Vec::new();
    let mut i: usize = 0;
    while i < items.len()
        invariant
            i <= items@.len(),
            copy@.len() == i,
            forall|k: int| 0 <= k < i ==> (#[trigger] copy@[k])@ == items@[k]@,
        decreases items@.len() - i,
    {
        copy.push(items[i].clone());
        i = i + 1;
    }
    proof {
        assert(string_views(copy@) =~= string_views(items@));
    }
    copy
}

/// The chords of a value of configuration, as a list.
fn value_chords(value: &KeybindingValue) -> (chords: Vec<String>)
    ensures
        string_views(chords@) == value.chords(),
{
    match value {
        KeybindingValue::Single(chord) => {
            let mut chords: Vec<String> = Vec::new();
            chords.push(chord.clone());
            proof {
                assert(string_views(chords@) =~= value.chords());
            }
            chords
        },
        KeybindingValue::Multiple(list) => copy_strings(list),
    }
}

/// Applies the overrides of a configuration to the default bindings.
fn merge_bindings(defaults: Vec<DefaultBinding>, overrides: &KeybindingsToml) -> (merged: Vec<
    MergedBinding,
>)
    ensures
        merged_of(merged@) == merged_rows(
            rows_of(defaults@),
            overrides.rows(),
            overrides.0@.len() as int,
        ),
{
    let ghost base = rows_of(defaults@);
    let ghost over = overrides.rows();
    let mut merged: Vec<MergedBinding> = Vec::new();
    let mut i: usize = 0;
    while i < defaults.len()
        invariant
            i <= defaults@.len(),
            base == rows_of(defaults@),
            over == overrides.rows(),
            merged@.len() == i,
            forall|k: int|
                0 <= k < i ==> (#[trigger] merged@[k]).action@ == base[k].0 && string_views(
                    merged@[k].chords@,
                ) == overridden(base[k].0, base[k].1, over, over.len() as int),
        decreases defaults@.len() - i,
    {
        let name = defaults[i].action;
        let mut chords = copy_strings(&defaults[i].chords);
        let mut j: usize = 0;
        proof {
            assert(base[i as int].0 == name@);
            assert(base[i as int].1 == string_views(defaults@[i as int].chords@));
        }
        while j < overrides.0.len()
            invariant
                j <= overrides.0@.len(),
                over == overrides.rows(),
                string_views(chords@) == overridden(name@, base[i as int].1, over, j as int),
            decreases overrides.0@.len() - j,
        {
            proof {
                assert(over[j as int].0 == overrides.0@[j as int].0@);
                assert(over[j as int].1 == overrides.0@[j as int].1.chords());
            }
            if str_eq(overrides.0[j].0.as_str(), name) {
                chords = value_chords(&overrides.0[j].1);
            }
            j = j + 1;
        }
        merged.push(MergedBinding { action: String::from_str(name), chords });
        i = i + 1;
    }
    proof {
        assert(merged_of(merged@) =~= merged_rows(base, over, over.len() as int));
    }
    merged
}

/// An action with the chords bound to it.
pub struct ActionBinding {
    pub action: String,
    pub set: KeyBindingSet,
}

/// The chords of a row read without error.
pub open spec fn parsed_row(chords: Seq<Seq<char>>) -> Seq<KeyChord> {
    Seq::new(chords.len(), |j: int| chord_of(chords[j])->Ok_0)
}

/// Chord `j` of row `i` cannot be read.
pub open spec fn bad_chord_at(rows: Seq<BindingRow>, i: int, j: int) -> bool {
    0 <= i < rows.len() && 0 <= j < rows[i].1.len() && chord_of(rows[i].1[j]) is Err
}

/// Chord `j` of row `i` is the first that cannot be read, in the order of
/// the rows and of the chords of a row.
pub open spec fn first_bad_chord(rows: Seq<BindingRow>, i: int, j: int) -> bool {
    &&& bad_chord_at(rows, i, j)
    &&& forall|i2: int, j2: int| (i2 < i || (i2 == i && j2 < j)) ==> !bad_chord_at(rows, i2, j2)
}

/// The error reports chord `j` of row `i` as unreadable.
pub open spec fn reports_bad_chord(error: KeymapError, rows: Seq<BindingRow>, i: int, j: int) -> bool {
    match error {
        KeymapError::InvalidChord { action, chord, message } => action@ == rows[i].0 && chord@
            == rows[i].1[j] && message@ == chord_of(rows[i].1[j])->Err_0.message(),
        _ => false,
    }
}

/// The key bindings of the interface: each action with its chords.
pub struct TuiKeymap {
    pub bindings: Vec<ActionBinding>,
}

impl TuiKeymap {
    /// The names of the bound actions, in their order.
    pub open spec fn names(self) -> Seq<Seq<char>> {
        Seq::new(self.bindings@.len(), |i: int| self.bindings@[i].action@)
    }

    /// The chords bound to an action; none for an action that is not bound.
    pub open spec fn chords_of(self, action: Seq<char>) -> Seq<KeyChord> {
        if is_named(self.names(), action) {
            self.bindings@[first_named(self.names(), action)].set.chords()
        } else {
            Seq::empty()
        }
    }

    /// Looks up the chords bound to an action.
    pub fn get(&self, action: &str) -> (set: Option<&KeyBindingSet>)
        ensures
            match set {
                Some(found) => is_named(self.names(), action@) && found.chords() == self.chords_of(
                    action@,
                ),
                None => !is_named(self.names(), action@),
            },
    {
        let mut i: usize = 0;
        while i < self.bindings.len()
            invariant
                i <= self.bindings@.len(),
                forall|k: int| 0 <= k < i ==> self.names()[k] != action@,
            decreases self.bindings@.len() - i,
        {
            if str_eq(self.bindings[i].action.as_str(), action) {
                proof {
                    assert(self.names()[i as int] == action@);
                    assert(is_first_named(self.names(), action@, i as int));
                    lemma_first_named(self.names(), action@);
                }
                return Some(&self.bindings[i].set);
            }
            i = i + 1;
        }
        None
    }
}

/// Reads the chords of every row, in the order of the rows.
fn parse_rows(merged: &Vec<MergedBinding>) -> (parsed: Result<Vec<ActionBinding>, KeymapError>)
    ensures
        match parsed {
            Ok(bindings) => {
                &&& forall|i: int, j: int| !bad_chord_at(merged_of(merged@), i, j)
                &&& bindings@.len() == merged@.len()
                &&& forall|i: int|
                    0 <= i < bindings@.len() ==> (#[trigger] bindings@[i]).action@ == merged_of(
                        merged@,
                    )[i].0 && bindings@[i].set.chords() == parsed_row(merged_of(merged@)[i].1)
            },
            Err(error) => exists|i: int, j: int|
                #[trigger] first_bad_chord(merged_of(merged@), i, j) && reports_bad_chord(
                    error,
                    merged_of(merged@),
                    i,
                    j,
                ),
        },
{
    let ghost rows = merged_of(merged@);
    let mut bindings: Vec<ActionBinding> = Vec::new();
    let mut i: usize = 0;
    while i < merged.len()
        invariant
            i <= merged@.len(),
            rows == merged_of(merged@),
            bindings@.len() == i,
            forall|i2: int, j2: int| i2 < i ==> !bad_chord_at(rows, i2, j2),
            forall|k: int|
                0 <= k < i ==> (#[trigger] bindings@[k]).action@ == rows[k].0
                    && bindings@[k].set.chords() == parsed_row(rows[k].1),
        decreases merged@.len() - i,
    {
        let action = &merged[i].action;
        let texts = &merged[i].chords;
        proof {
            assert(rows[i as int].0 == action@);
            assert(rows[i as int].1 == string_views(texts@));
        }
        let mut chords: Vec<KeyChord> = Vec::new();
        let mut j: usize = 0;
        while j < texts.len()
            invariant
                j <= texts@.len(),
                i < merged@.len(),
                rows == merged_of(merged@),
                rows[i as int].0 == action@,
                rows[i as int].1 == string_views(texts@),
                chords@.len() == j,
                forall|i2: int, j2: int| i2 < i ==> !bad_chord_at(rows, i2, j2),
                forall|j2: int| 0 <= j2 < j ==> !bad_chord_at(rows, i as int, j2),
                forall|k: int|
                    0 <= k < j ==> chord_of(rows[i as int].1[k]) == Ok::<KeyChord, ChordError>(
                        #[trigger] chords@[k],
                    ),
            decreases texts@.len() - j,
        {
            proof {
                assert(rows[i as int].1[j as int] == texts@[j as int]@);
            }
            match parse_key_chord(texts[j].as_str()) {
                Ok(chord) => {
                    chords.push(chord);
                },
                Err(message) => {
                    let error = KeymapError::InvalidChord {
                        action: action.clone(),
                        chord: texts[j].clone(),
                        message,
                    };
                    proof {
                        assert(bad_chord_at(rows, i as int, j as int));
                        assert(first_bad_chord(rows, i as int, j as int));
                        assert(reports_bad_chord(error, rows, i as int, j as int));
                    }
                    return Err(error);
                },
            }
            j = j + 1;
        }
        proof {
            assert(chords@ =~= parsed_row(rows[i as int].1));
        }
        bindings.push(ActionBinding { action: action.clone(), set: KeyBindingSet(chords) });
        i = i + 1;
    }
    Ok(bindings)
}

/// The key press is recorded for the actions of the first `n` records
/// with that key press, in their order.
pub open spec fn recorded(records: Seq<(KeyPress, String)>, n: int, press: KeyPress) -> Seq<
    Seq<char>,
>
    decreases n,
{
    if n <= 0 {
        Seq::empty()
    } else if records[n - 1].0 == press {
        recorded(records, n - 1, press).push(records[n - 1].1@)
    } else {
        recorded(records, n - 1, press)
    }
}

/// The action, once for each of the first `n` chords that may be taken
/// for the key press.
pub open spec fn set_users(chords: Seq<KeyChord>, n: int, action: Seq<char>, press: KeyPress) -> Seq<
    Seq<char>,
>
    decreases n,
{
    if n <= 0 {
        Seq::empty()
    } else if conflicts_on(chords[n - 1], press) {
        set_users(chords, n - 1, action, press).push(action)
    } else {
        set_users(chords, n - 1, action, press)
    }
}

/// The actions among the first `m` of a context that use the key press,
/// each once for each of its chords that may be taken for it.
pub open spec fn context_users(
    keymap: TuiKeymap,
    actions: Seq<Seq<char>>,
    m: int,
    press: KeyPress,
) -> Seq<Seq<char>>
    decreases m,
{
    if m <= 0 {
        Seq::empty()
    } else {
        context_users(keymap, actions, m - 1, press) + set_users(
            keymap.chords_of(actions[m - 1]),
            keymap.chords_of(actions[m - 1]).len() as int,
            actions[m - 1],
            press,
        )
    }
}

/// All the actions of a context that use the key press.
pub open spec fn users_in(keymap: TuiKeymap, context: ContextRow, press: KeyPress) -> Seq<
    Seq<char>,
> {
    context_users(keymap, context.1, context.1.len() as int, press)
}

/// Some key press is used more than once in the context.
pub open spec fn has_conflict(keymap: TuiKeymap, context: ContextRow) -> bool {
    exists|press: KeyPress| #[trigger] users_in(keymap, context, press).len() > 1
}

/// The error reports the conflict on `press` in the context.
pub open spec fn reports_conflict(
    error: KeymapError,
    keymap: TuiKeymap,
    context: ContextRow,
    press: KeyPress,
) -> bool {
    match error {
        KeymapError::Conflict { context: name, chord, actions } => {
            &&& users_in(keymap, context, press).len() > 1
            &&& name@ == context.0
            &&& chord@ == keybinding_text(press.0, press.1)
            &&& string_views(actions@) == users_in(keymap, context, press)
        },
        _ => false,
    }
}

/// Records of one prefix stay what they are when records are added.
proof fn lemma_recorded_prefix(
    records: Seq<(KeyPress, String)>,
    longer: Seq<(KeyPress, String)>,
    n: int,
    press: KeyPress,
)
    requires
        0 <= n <= records.len() <= longer.len(),
        forall|k: int| 0 <= k < records.len() ==> records[k] == longer[k],
    ensures
        recorded(longer, n, press) == recorded(records, n, press),
    decreases n,
{
    if n > 0 {
        lemma_recorded_prefix(records, longer, n - 1, press);
    }
}

/// A key press with a record is the key press of some record.
proof fn lemma_recorded_somewhere(records: Seq<(KeyPress, String)>, n: int, press: KeyPress)
    requires
        0 <= n <= records.len(),
        recorded(records, n, press).len() > 0,
    ensures
        exists|k: int| 0 <= k < n && (#[trigger] records[k]).0 == press,
    decreases n,
{
    if records[n - 1].0 == press {
    } else {
        lemma_recorded_somewhere(records, n - 1, press);
        let k = choose|k: int| 0 <= k < n - 1 && (#[trigger] records[k]).0 == press;
        assert(0 <= k < n && records[k].0 == press);
    }
}

/// The key presses in use within one context, each with the action that
/// uses it, in the order in which the actions were added.
pub struct ContextConflicts {
    pub name: &'static str,
    pub used: Vec<(KeyPress, String)>,
}

impl ContextConflicts {
    /// The actions recorded for a key press.
    pub open spec fn users(self, press: KeyPress) -> Seq<Seq<char>> {
        recorded(self.used@, self.used@.len() as int, press)
    }

    /// A context without records.
    pub fn new(name: &'static str) -> (context: Self)
        ensures
            context.name@ == name@,
            forall|press: KeyPress| (#[trigger] context.users(press)).len() == 0,
    {
        ContextConflicts { name, used: Vec::new() }
    }

    /// Records the action for every key press that one of its chords may
    /// be taken for.
    pub fn add(&mut self, action: &str, set: &KeyBindingSet)
        ensures
            final(self).name == old(self).name,
            forall|press: KeyPress|
                #[trigger] final(self).users(press) == old(self).users(press) + set_users(
                    set.chords(),
                    set.chords().len() as int,
                    action@,
                    press,
                ),
    {
        let ghost chords = set.chords();
        let mut c: usize = 0;
        proof {
            assert forall|press: KeyPress|
                #[trigger] self.users(press) == old(self).users(press) + set_users(
                    chords,
                    0,
                    action@,
                    press,
                ) by {
                assert(old(self).users(press) + Seq::<Seq<char>>::empty() =~= old(self).users(
                    press,
                ));
            }
        }
        while c < set.0.len()
            invariant
                c <= set.0@.len(),
                chords == set.chords(),
                self.name == old(self).name,
                forall|press: KeyPress|
                    #[trigger] self.users(press) == old(self).users(press) + set_users(
                        chords,
                        c as int,
                        action@,
                        press,
                    ),
            decreases set.0@.len() - c,
        {
            let keys = set.0[c].conflict_keys();
            let ghost chord = chords[c as int];
            let ghost before = *self;
            let mut k: usize = 0;
            proof {
                assert forall|press: KeyPress|
                    #[trigger] self.users(press) == before.users(press) + listed_once(
                        keys@,
                        0,
                        action@,
                        press,
                    ) by {
                    assert(before.users(press) + Seq::<Seq<char>>::empty() =~= before.users(
                        press,
                    ));
                }
            }
            while k < keys.len()
                invariant
                    k <= keys@.len(),
                    distinct_presses(keys@),
                    self.name == old(self).name,
                    forall|press: KeyPress|
                        #[trigger] self.users(press) == before.users(press) + listed_once(
                            keys@,
                            k as int,
                            action@,
                            press,
                        ),
                decreases keys@.len() - k,
            {
                let ghost earlier = *self;
                let press = keys[k];
                self.used.push((press, String::from_str(action)));
                proof {
                    assert forall|p: KeyPress|
                        #[trigger] self.users(p) == before.users(p) + listed_once(
                            keys@,
                            k + 1,
                            action@,
                            p,
                        ) by {
                        lemma_recorded_prefix(
                            earlier.used@,
                            self.used@,
                            earlier.used@.len() as int,
                            p,
                        );
                        assert(earlier.users(p) == before.users(p) + listed_once(
                            keys@,
                            k as int,
                            action@,
                            p,
                        ));
                        if p == press {
                            assert(self.users(p) == earlier.users(p).push(action@));
                            lemma_not_listed(keys@, k as int, action@, p);
                            assert(before.users(p) + seq![action@] =~= (before.users(p)
                                + Seq::<Seq<char>>::empty()).push(action@));
                        } else {
                            assert(self.users(p) == earlier.users(p));
                        }
                    }
                }
                k = k + 1;
            }
            proof {
                assert forall|press: KeyPress|
                    #[trigger] self.users(press) == old(self).users(press) + set_users(
                        chords,
                        c + 1,
                        action@,
                        press,
                    ) by {
                    lemma_listed_once(keys@, keys@.len() as int, action@, press);
                    assert(holds_press(keys@, press) <==> conflicts_on(chord, press));
                    assert(before.users(press) == old(self).users(press) + set_users(
                        chords,
                        c as int,
                        action@,
                        press,
                    ));
                    let base = old(self).users(press);
                    let so_far = set_users(chords, c as int, action@, press);
                    if conflicts_on(chord, press) {
                        assert((base + so_far) + seq![action@] =~= base + so_far.push(action@));
                    } else {
                        assert((base + so_far) + Seq::<Seq<char>>::empty() =~= base + so_far);
                    }
                }
            }
            c = c + 1;
        }
    }

    /// Tests whether some key press is used more than once. The error
    /// names such a key press and the actions that use it.
    pub fn check(self) -> (result: Result<(), KeymapError>)
        ensures
            match result {
                Ok(_) => forall|press: KeyPress| (#[trigger] self.users(press)).len() <= 1,
                Err(error) => exists|press: KeyPress|
                    (#[trigger] self.users(press)).len() > 1 && (match error {
                        KeymapError::Conflict { context, chord, actions } => context@
                            == self.name@ && chord@ == keybinding_text(press.0, press.1)
                            && string_views(actions@) == self.users(press),
                        _ => false,
                    }),
            },
    {
        let used = &self.used;
        let mut i: usize = 0;
        while i < used.len()
            invariant
                i <= used@.len(),
                used@ == self.used@,
                forall|k: int| 0 <= k < i ==> self.users((#[trigger] used@[k]).0).len() <= 1,
            decreases used@.len() - i,
        {
            let press = used[i].0;
            let mut actions: Vec<String> = Vec::new();
            let mut j: usize = 0;
            while j < used.len()
                invariant
                    j <= used@.len(),
                    used@ == self.used@,
                    string_views(actions@) == recorded(used@, j as int, press),
                decreases used@.len() - j,
            {
                if used[j].0.0 == press.0 && used[j].0.1 == press.1 {
                    actions.push(used[j].1.clone());
                    proof {
                        assert(used@[j as int].0 == press);
                        assert(string_views(actions@) =~= recorded(used@, j as int, press).push(
                            used@[j as int].1@,
                        ));
                    }
                }
                j = j + 1;
            }
            if actions.len() > 1 {
                let chord = format_keybinding(press.0, press.1);
                proof {
                    assert(self.users(press).len() > 1);
                }
                return Err(KeymapError::Conflict { context: self.name, chord, actions });
            }
            i = i + 1;
        }
        proof {
            assert forall|press: KeyPress| (#[trigger] self.users(press)).len() <= 1 by {
                if self.users(press).len() > 0 {
                    lemma_recorded_somewhere(used@, used@.len() as int, press);
                    let k = choose|k: int| 0 <= k < used@.len() && (#[trigger] used@[k]).0 == press;
                    assert(self.users(used@[k].0).len() <= 1);
                }
            }
        }
        Ok(())
    }
}

/// The action, if the key press is among the first `n` of `keys`.
pub open spec fn listed_once(keys: Seq<KeyPress>, n: int, action: Seq<char>, press: KeyPress) -> Seq<
    Seq<char>,
> {
    if exists|k: int| 0 <= k < n && #[trigger] keys[k] == press {
        seq![action]
    } else {
        Seq::empty()
    }
}

/// A key press of a list without repetition is not among those before it.
proof fn lemma_not_listed(keys: Seq<KeyPress>, k: int, action: Seq<char>, press: KeyPress)
    requires
        0 <= k < keys.len(),
        distinct_presses(keys),
        keys[k] == press,
    ensures
        listed_once(keys, k, action, press) == Seq::<Seq<char>>::empty(),
        listed_once(keys, k + 1, action, press) == seq![action],
{
    if exists|j: int| 0 <= j < k && #[trigger] keys[j] == press {
        let j = choose|j: int| 0 <= j < k && #[trigger] keys[j] == press;
        assert(keys[j] != keys[k]);
    }
    assert(0 <= k < k + 1 && keys[k] == press);
}

/// Being among all the keys of a list is being held by it.
proof fn lemma_listed_once(keys: Seq<KeyPress>, n: int, action: Seq<char>, press: KeyPress)
    requires
        n == keys.len(),
    ensures
        listed_once(keys, n, action, press) == if holds_press(keys, press) {
            seq![action]
        } else {
            Seq::<Seq<char>>::empty()
        },
{
    if holds_press(keys, press) {
        let k = choose|k: int| 0 <= k < keys.len() && #[trigger] keys[k] == press;
        assert(0 <= k < n && keys[k] == press);
    }
    if exists|k: int| 0 <= k < n && #[trigger] keys[k] == press {
        let k = choose|k: int| 0 <= k < n && #[trigger] keys[k] == press;
        assert(0 <= k < keys.len() && keys[k] == press);
    }
}

impl KeyBindingSet {
    /// Copies the set.
    pub fn copy(&self) -> (copy: KeyBindingSet)
        ensures
            copy.chords() == self.chords(),
    {
        let mut chords: Vec<KeyChord> = Vec::new();
        let mut i: usize = 0;
        while i < self.0.len()
            invariant
                i <= self.0@.len(),
                chords@ == self.0@.take(i as int),
            decreases self.0@.len() - i,
        {
            chords.push(self.0[i]);
            proof {
                assert(self.0@.take(i + 1) =~= self.0@.take(i as int).push(self.0@[i as int]));
            }
            i = i + 1;
        }
        proof {
            assert(self.0@.take(self.0@.len() as int) =~= self.0@);
        }
        KeyBindingSet(chords)
    }
}

/// The names of a list of bindings.
pub open spec fn binding_names(bindings: Seq<ActionBinding>) -> Seq<Seq<char>> {
    Seq::new(bindings.len(), |i: int| bindings[i].action@)
}

/// Finds the first binding of an action.
fn find_binding(bindings: &Vec<ActionBinding>, action: &str) -> (found: Option<usize>)
    ensures
        match found {
            Some(p) => is_first_named(binding_names(bindings@), action@, p as int),
            None => !is_named(binding_names(bindings@), action@),
        },
{
    let mut i: usize = 0;
    while i < bindings.len()
        invariant
            i <= bindings@.len(),
            forall|k: int| 0 <= k < i ==> binding_names(bindings@)[k] != action@,
        decreases bindings@.len() - i,
    {
        if str_eq(bindings[i].action.as_str(), action) {
            proof {
                assert(binding_names(bindings@)[i as int] == action@);
            }
            return Some(i);
        }
        i = i + 1;
    }
    None
}

/// Action `k` is the first action without a binding among `names`.
pub open spec fn first_missing(names: Seq<Seq<char>>, k: int) -> bool {
    &&& 0 <= k < action_names().len()
    &&& !is_named(names, action_names()[k])
    &&& forall|k2: int| 0 <= k2 < k ==> is_named(names, #[trigger] action_names()[k2])
}

/// The keymap binds every action, in the order of the actions, to the
/// chords of the first of `bindings` with its name.
pub open spec fn selects(keymap: TuiKeymap, bindings: Seq<ActionBinding>) -> bool {
    &&& keymap.names() == action_names()
    &&& forall|k: int|
        0 <= k < action_names().len() ==> is_named(
            binding_names(bindings),
            #[trigger] action_names()[k],
        ) && keymap.bindings@[k].set.chords() == bindings[first_named(
            binding_names(bindings),
            action_names()[k],
        )].set.chords()
}

/// Picks the binding of every action, in the order of the actions.
fn select_actions(bindings: &Vec<ActionBinding>) -> (selected: Result<TuiKeymap, KeymapError>)
    ensures
        match selected {
            Ok(keymap) => selects(keymap, bindings@),
            Err(error) => exists|k: int|
                #[trigger] first_missing(binding_names(bindings@), k) && (match error {
                    KeymapError::UnknownAction(action) => action@ == action_names()[k],
                    _ => false,
                }),
        },
{
    let actions = tui_keybinding_actions();
    let ghost names = binding_names(bindings@);
    let mut picked: Vec<ActionBinding> = Vec::new();
    let mut k: usize = 0;
    while k < actions.len()
        invariant
            k <= actions@.len(),
            views(actions@) == action_names(),
            names == binding_names(bindings@),
            picked@.len() == k,
            forall|m: int|
                0 <= m < k ==> is_named(names, #[trigger] action_names()[m]) && picked@[m].action@
                    == action_names()[m] && picked@[m].set.chords() == bindings@[first_named(
                    names,
                    action_names()[m],
                )].set.chords(),
        decreases actions@.len() - k,
    {
        let action = actions[k];
        proof {
            assert(views(actions@)[k as int] == action@);
            assert(views(actions@).len() == actions@.len());
        }
        match find_binding(bindings, action) {
            Some(p) => {
                proof {
                    lemma_first_named(names, action@);
                }
                picked.push(
                    ActionBinding { action: String::from_str(action), set: bindings[p].set.copy() },
                );
            },
            None => {
                proof {
                    assert(first_missing(names, k as int));
                }
                return Err(KeymapError::UnknownAction(String::from_str(action)));
            },
        }
        k = k + 1;
    }
    let keymap = TuiKeymap { bindings: picked };
    proof {
        assert(views(actions@).len() == actions@.len());
        assert(keymap.names() =~= action_names());
    }
    Ok(keymap)
}

/// No context holds a conflict.
pub open spec fn conflict_free(keymap: TuiKeymap) -> bool {
    forall|k: int| 0 <= k < context_rows().len() ==> !has_conflict(keymap, #[trigger] context_rows()[k])
}

/// The error reports a conflict of the first context that holds one.
pub open spec fn reports_first_conflict(error: KeymapError, keymap: TuiKeymap) -> bool {
    exists|k: int, press: KeyPress|
        {
            &&& 0 <= k < context_rows().len()
            &&& forall|k2: int| 0 <= k2 < k ==> !has_conflict(keymap, #[trigger] context_rows()[k2])
            &&& #[trigger] reports_conflict(error, keymap, context_rows()[k], press)
        }
}

/// Checks that within no context two actions share a key press. The
/// contexts are checked in their order; the error names a conflict of the
/// first context that holds one.
pub fn validate_conflicts(map: &TuiKeymap) -> (result: Result<(), KeymapError>)
    ensures
        match result {
            Ok(_) => conflict_free(*map),
            Err(error) => reports_first_conflict(error, *map),
        },
{
    let contexts = conflict_contexts();
    let ghost table = context_rows();
    let mut c: usize = 0;
    while c < contexts.len()
        invariant
            c <= contexts@.len(),
            table == context_rows(),
            contexts_of(contexts@) == table,
            forall|k: int| 0 <= k < c ==> !has_conflict(*map, #[trigger] table[k]),
        decreases contexts@.len() - c,
    {
        let context = &contexts[c];
        let ghost actions = views(context.actions@);
        proof {
            assert(contexts_of(contexts@).len() == contexts@.len());
            assert(contexts_of(contexts@)[c as int] == (context.name@, actions));
        }
        let mut ctx = ContextConflicts::new(context.name);
        let mut m: usize = 0;
        proof {
            assert forall|press: KeyPress|
                #[trigger] ctx.users(press) == context_users(*map, actions, 0, press) by {
                assert(ctx.users(press) =~= Seq::<Seq<char>>::empty());
            }
        }
        while m < context.actions.len()
            invariant
                m <= context.actions@.len(),
                actions == views(context.actions@),
                ctx.name@ == context.name@,
                forall|press: KeyPress|
                    #[trigger] ctx.users(press) == context_users(*map, actions, m as int, press),
            decreases context.actions@.len() - m,
        {
            let action = context.actions[m];
            let ghost before = ctx;
            proof {
                assert(actions[m as int] == action@);
            }
            match map.get(action) {
                Some(set) => {
                    ctx.add(action, set);
                },
                None => {
                    proof {
                        assert forall|press: KeyPress|
                            #[trigger] ctx.users(press) == context_users(
                                *map,
                                actions,
                                m + 1,
                                press,
                            ) by {
                            assert(context_users(*map, actions, m as int, press)
                                + Seq::<Seq<char>>::empty() =~= context_users(
                                *map,
                                actions,
                                m as int,
                                press,
                            ));
                        }
                    }
                },
            }
            m = m + 1;
        }
        proof {
            assert(actions.len() == context.actions@.len());
            assert forall|press: KeyPress|
                #[trigger] ctx.users(press) == users_in(*map, table[c as int], press) by {}
        }
        match ctx.check() {
            Ok(_) => {
                proof {
                    assert(!has_conflict(*map, table[c as int])) by {
                        assert forall|press: KeyPress|
                            (#[trigger] users_in(*map, table[c as int], press)).len() <= 1 by {
                            assert(ctx.users(press).len() <= 1);
                        }
                    }
                }
            },
            Err(error) => {
                proof {
                    let press = choose|press: KeyPress|
                        (#[trigger] ctx.users(press)).len() > 1 && (match error {
                            KeymapError::Conflict { context, chord, actions } => context@
                                == ctx.name@ && chord@ == keybinding_text(press.0, press.1)
                                && string_views(actions@) == ctx.users(press),
                            _ => false,
                        });
                    assert(ctx.users(press) == users_in(*map, table[c as int], press));
                    assert(reports_conflict(error, *map, table[c as int], press));
                }
                return Err(error);
            },
        }
        c = c + 1;
    }
    proof {
        assert(contexts_of(contexts@).len() == contexts@.len());
    }
    Ok(())
}

/// Some chord of the rows cannot be read.
pub open spec fn has_bad_chord(rows: Seq<BindingRow>) -> bool {
    exists|i: int, j: int| bad_chord_at(rows, i, j)
}

/// The keymap binds every action, in the order of the actions, to the
/// chords read from the first row with its name.
pub open spec fn built_from(keymap: TuiKeymap, rows: Seq<BindingRow>) -> bool {
    &&& keymap.names() == action_names()
    &&& forall|k: int|
        0 <= k < action_names().len() ==> is_named(names_of(rows), #[trigger] action_names()[k])
            && keymap.bindings@[k].set.chords() == parsed_row(
            rows[first_named(names_of(rows), action_names()[k])].1,
        )
}

/// What building a keymap from rows gives.
///
/// The first chord that cannot be read is reported. Else the first action
/// without a row is reported as unknown. Else the keymap is built from the
/// rows, and it is returned unless a context holds a conflict, which is
/// reported then.
pub open spec fn is_built(rows: Seq<BindingRow>, result: Result<TuiKeymap, KeymapError>) -> bool {
    if has_bad_chord(rows) {
        result is Err && exists|i: int, j: int|
            #[trigger] first_bad_chord(rows, i, j) && reports_bad_chord(result->Err_0, rows, i, j)
    } else if exists|k: int| first_missing(names_of(rows), k) {
        exists|k: int|
            #[trigger] first_missing(names_of(rows), k) && (match result {
                Err(KeymapError::UnknownAction(action)) => action@ == action_names()[k],
                _ => false,
            })
    } else {
        match result {
            Ok(keymap) => built_from(keymap, rows) && conflict_free(keymap),
            Err(error) => exists|keymap: TuiKeymap|
                #[trigger] built_from(keymap, rows) && reports_first_conflict(error, keymap),
        }
    }
}

/// Builds the keymap from the chords of every action, and checks it for
/// conflicts.
pub fn build_keymap(merged: &Vec<MergedBinding>) -> (result: Result<TuiKeymap, KeymapError>)
    ensures
        is_built(merged_of(merged@), result),
{
    let ghost rows = merged_of(merged@);
    let parsed = match parse_rows(merged) {
        Ok(parsed) => parsed,
        Err(error) => {
            proof {
                let (i, j) = choose|i: int, j: int|
                    #[trigger] first_bad_chord(rows, i, j) && reports_bad_chord(error, rows, i, j);
                assert(bad_chord_at(rows, i, j));
            }
            return Err(error);
        },
    };
    proof {
        assert(binding_names(parsed@) =~= names_of(rows));
    }
    let keymap = match select_actions(&parsed) {
        Ok(keymap) => keymap,
        Err(error) => {
            return Err(error);
        },
    };
    proof {
        assert forall|k: int| 0 <= k < action_names().len() implies is_named(
            names_of(rows),
            #[trigger] action_names()[k],
        ) by {}
        assert(!exists|k: int| first_missing(names_of(rows), k));
        assert forall|k: int| 0 <= k < action_names().len() implies keymap.bindings@[k].set.chords()
            == parsed_row(rows[first_named(names_of(rows), #[trigger] action_names()[k])].1) by {
            lemma_first_named(names_of(rows), action_names()[k]);
            let p = first_named(names_of(rows), action_names()[k]);
            assert(parsed@[p].set.chords() == parsed_row(rows[p].1));
        }
        assert(built_from(keymap, rows));
    }
    match validate_conflicts(&keymap) {
        Ok(_) => Ok(keymap),
        Err(error) => Err(error),
    }
}

/// Row `i` of the configuration names no action, and is the first such.
pub open spec fn first_unknown(overrides: Seq<BindingRow>, i: int) -> bool {
    &&& 0 <= i < overrides.len()
    &&& !is_named(action_names(), overrides[i].0)
    &&& forall|i2: int| 0 <= i2 < i ==> is_named(action_names(), (#[trigger] overrides[i2]).0)
}

/// What reading a configuration gives, with the defaults of a terminal.
///
/// The first action of the configuration that does not exist is reported.
/// Else the keymap is built from the defaults with the configuration
/// applied on top.
pub open spec fn is_configured(
    overrides: Seq<BindingRow>,
    enhanced_keys_supported: bool,
    is_wsl: bool,
    result: Result<TuiKeymap, KeymapError>,
) -> bool {
    if exists|i: int| first_unknown(overrides, i) {
        exists|i: int|
            #[trigger] first_unknown(overrides, i) && (match result {
                Err(KeymapError::UnknownAction(action)) => action@ == overrides[i].0,
                _ => false,
            })
    } else {
        is_built(
            merged_rows(
                default_rows(enhanced_keys_supported, is_wsl),
                overrides,
                overrides.len() as int,
            ),
            result,
        )
    }
}

impl TuiKeymap {
    /// Builds the default keymap of a terminal.
    pub fn defaults(enhanced_keys_supported: bool, is_wsl: bool) -> (result: Result<
        TuiKeymap,
        KeymapError,
    >)
        ensures
            is_configured(Seq::empty(), enhanced_keys_supported, is_wsl, result),
    {
        Self::from_keybindings(None, enhanced_keys_supported, is_wsl)
    }

    /// Builds the keymap of a configuration: the defaults of the terminal
    /// with the bindings of the configuration on top.
    pub fn from_keybindings(
        keybindings: Option<&KeybindingsToml>,
        enhanced_keys_supported: bool,
        is_wsl: bool,
    ) -> (result: Result<TuiKeymap, KeymapError>)
        ensures
            is_configured(
                match keybindings {
                    Some(tui) => tui.rows(),
                    None => Seq::empty(),
                },
                enhanced_keys_supported,
                is_wsl,
                result,
            ),
    {
        let defaults = default_bindings(enhanced_keys_supported, is_wsl);
        let actions = tui_keybinding_actions();
        let ghost base = rows_of(defaults@);
        match keybindings {
            Some(tui) => {
                let ghost over = tui.rows();
                let mut i: usize = 0;
                while i < tui.0.len()
                    invariant
                        i <= tui.0@.len(),
                        keybindings == Some(tui),
                        over == tui.rows(),
                        views(actions@) == action_names(),
                        forall|i2: int|
                            0 <= i2 < i ==> is_named(action_names(), (#[trigger] over[i2]).0),
                    decreases tui.0@.len() - i,
                {
                    proof {
                        assert(over[i as int].0 == tui.0@[i as int].0@);
                    }
                    if find_name(&actions, tui.0[i].0.as_str()).is_none() {
                        let error = KeymapError::UnknownAction(tui.0[i].0.clone());
                        proof {
                            assert(first_unknown(over, i as int));
                            assert(is_configured(
                                over,
                                enhanced_keys_supported,
                                is_wsl,
                                Err(error),
                            ));
                        }
                        return Err(error);
                    }
                    i = i + 1;
                }
                proof {
                    assert(!exists|i: int| first_unknown(over, i));
                }
                let merged = merge_bindings(defaults, tui);
                build_keymap(&merged)
            },
            None => {
                let empty = KeybindingsToml(Vec::new());
                proof {
                    assert(empty.rows() =~= Seq::<BindingRow>::empty());
                    assert(!exists|i: int| first_unknown(Seq::<BindingRow>::empty(), i));
                }
                let merged = merge_bindings(defaults, &empty);
                build_keymap(&merged)
            },
        }
    }
}

/// The key bindings of a text area.
pub struct TextAreaKeymap {
    pub newline: KeyBindingSet,
    pub backspace: KeyBindingSet,
    pub delete_forward: KeyBindingSet,
    pub delete_backward_word: KeyBindingSet,
    pub delete_forward_word: KeyBindingSet,
    pub kill_line_start: KeyBindingSet,
    pub kill_line_end: KeyBindingSet,
    pub yank: KeyBindingSet,
    pub move_left: KeyBindingSet,
    pub move_right: KeyBindingSet,
    pub move_up: KeyBindingSet,
    pub move_down: KeyBindingSet,
    pub word_left: KeyBindingSet,
    pub word_right: KeyBindingSet,
    pub line_start: KeyBindingSet,
    pub line_end: KeyBindingSet,
}

impl TuiKeymap {
    /// Copies the chords bound to an action; none for an action that is
    /// not bound.
    pub fn bound_set(&self, action: &str) -> (set: KeyBindingSet)
        ensures
            set.chords() == self.chords_of(action@),
    {
        match self.get(action) {
            Some(found) => found.copy(),
            None => KeyBindingSet::empty(),
        }
    }
}

impl TextAreaKeymap {
    /// The bindings of the text actions of a keymap.
    pub fn from_tui(tui: &TuiKeymap) -> (keymap: Self)
        ensures
            keymap.newline.chords() == tui.chords_of("text_newline"@),
            keymap.backspace.chords() == tui.chords_of("text_backspace"@),
            keymap.delete_forward.chords() == tui.chords_of("text_delete_forward"@),
            keymap.delete_backward_word.chords() == tui.chords_of("text_delete_backward_word"@),
            keymap.delete_forward_word.chords() == tui.chords_of("text_delete_forward_word"@),
            keymap.kill_line_start.chords() == tui.chords_of("text_kill_line_start"@),
            keymap.kill_line_end.chords() == tui.chords_of("text_kill_line_end"@),
            keymap.yank.chords() == tui.chords_of("text_yank"@),
            keymap.move_left.chords() == tui.chords_of("text_move_left"@),
            keymap.move_right.chords() == tui.chords_of("text_move_right"@),
            keymap.move_up.chords() == tui.chords_of("text_move_up"@),
            keymap.move_down.chords() == tui.chords_of("text_move_down"@),
            keymap.word_left.chords() == tui.chords_of("text_word_left"@),
            keymap.word_right.chords() == tui.chords_of("text_word_right"@),
            keymap.line_start.chords() == tui.chords_of("text_line_start"@),
            keymap.line_end.chords() == tui.chords_of("text_line_end"@),
    {
        TextAreaKeymap {
            newline: tui.bound_set("text_newline"),
            backspace: tui.bound_set("text_backspace"),
            delete_forward: tui.bound_set("text_delete_forward"),
            delete_backward_word: tui.bound_set("text_delete_backward_word"),
            delete_forward_word: tui.bound_set("text_delete_forward_word"),
            kill_line_start: tui.bound_set("text_kill_line_start"),
            kill_line_end: tui.bound_set("text_kill_line_end"),
            yank: tui.bound_set("text_yank"),
            move_left: tui.bound_set("text_move_left"),
            move_right: tui.bound_set("text_move_right"),
            move_up: tui.bound_set("text_move_up"),
            move_down: tui.bound_set("text_move_down"),
            word_left: tui.bound_set("text_word_left"),
            word_right: tui.bound_set("text_word_right"),
            line_start: tui.bound_set("text_line_start"),
            line_end: tui.bound_set("text_line_end"),
        }
    }

    /// The default bindings of a text area, for a terminal that tells
    /// Shift and Enter from Enter: those of the default keymap.
    pub fn default_for_text() -> (keymap: Result<Self, KeymapError>)
        ensures
            match keymap {
                Ok(_) => !has_bad_chord(default_rows(true, false)),
                Err(error) => exists|i: int, j: int|
                    #[trigger] first_bad_chord(default_rows(true, false), i, j)
                        && reports_bad_chord(error, default_rows(true, false), i, j),
            },
    {
        let defaults = default_bindings(true, false);
        match parse_rows(&as_merged(defaults)) {
            Ok(parsed) => {
                let tui = TuiKeymap { bindings: parsed };
                Ok(Self::from_tui(&tui))
            },
            Err(error) => Err(error),
        }
    }
}

/// The default bindings as rows to read.
fn as_merged(defaults: Vec<DefaultBinding>) -> (merged: Vec<MergedBinding>)
    ensures
        merged_of(merged@) == rows_of(defaults@),
{
    let mut merged: Vec<MergedBinding> = Vec::new();
    let mut i: usize = 0;
    while i < defaults.len()
        invariant
            i <= defaults@.len(),
            merged@.len() == i,
            forall|k: int|
                0 <= k < i ==> (#[trigger] merged@[k]).action@ == defaults@[k].action@
                    && string_views(merged@[k].chords@) == string_views(defaults@[k].chords@),
        decreases defaults@.len() - i,
    {
        merged.push(
            MergedBinding {
                action: String::from_str(defaults[i].action),
                chords: copy_strings(&defaults[i].chords),
            },
        );
        i = i + 1;
    }
    proof {
        assert(merged_of(merged@) =~= rows_of(defaults@));
    }
    merged
}

} // verus!
