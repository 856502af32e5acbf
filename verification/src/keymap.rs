//! Key bindings: chords, the sets of chords bound to actions, and the
//! errors of their configuration.

pub mod bindings;
pub mod chord;
pub mod keys;

use vstd::prelude::*;
use vstd::string::*;

verus! {

/// Why a set of key bindings was refused.
#[derive(Debug, Clone)]
pub enum KeymapError {
    /// The configuration binds an action that does not exist.
    UnknownAction(String),
    /// A chord of the configuration could not be read.
    InvalidChord { action: String, chord: String, message: String },
    /// Two or more actions of one context share a chord.
    Conflict { context: &'static str, chord: String, actions: Vec<String> },
}

/// The views of a sequence of strings.
pub open spec fn string_views(items: Seq<String>) -> Seq<Seq<char>> {
    Seq::new(items.len(), |i: int| items[i]@)
}

/// The items separated by `", "`.
pub open spec fn comma_joined(items: Seq<Seq<char>>) -> Seq<char>
    decreases items.len(),
{
    if items.len() == 0 {
        Seq::empty()
    } else if items.len() == 1 {
        items[0]
    } else {
        comma_joined(items.drop_last()) + ", "@ + items.last()
    }
}

/// The actions as an English list: `a`, `a and b`, or `a, b, and c`.
pub open spec fn action_list(actions: Seq<Seq<char>>) -> Seq<char> {
    if actions.len() == 0 {
        Seq::empty()
    } else if actions.len() == 1 {
        actions[0]
    } else if actions.len() == 2 {
        actions[0] + " and "@ + actions[1]
    } else {
        comma_joined(actions.drop_last()) + ", and "@ + actions.last()
    }
}

/// Joins action names into an English list.
pub fn format_action_list(actions: &[String]) -> (list: String)
    ensures
        list@ == action_list(string_views(actions@)),
{
    let n = actions.len();
    let ghost names = string_views(actions@);
    if n == 0 {
        return String::new();
    }
    if n == 1 {
        return actions[0].clone();
    }
    if n == 2 {
        let mut out = actions[0].clone();
        out.append(" and ");
        out.append(actions[1].as_str());
        return out;
    }
    let mut out = actions[0].clone();
    let mut idx: usize = 1;
    proof {
        assert(names.take(1) =~= seq![names[0]]);
    }
    while idx < n - 1
        invariant
            n == actions@.len(),
            n >= 3,
            1 <= idx <= n - 1,
            names == string_views(actions@),
            out@ == comma_joined(names.take(idx as int)),
        decreases n - idx,
    {
        out.append(", ");
        out.append(actions[idx].as_str());
        proof {
            assert(names.take(idx + 1).drop_last() =~= names.take(idx as int));
            assert(names.take(idx + 1).last() == actions@[idx as int]@);
        }
        idx = idx + 1;
    }
    out.append(", and ");
    out.append(actions[n - 1].as_str());
    proof {
        assert(names.drop_last() =~= names.take(n - 1));
    }
    out
}

impl KeymapError {
    /// The sentence that reports this error.
    pub open spec fn message_of(self) -> Seq<char> {
        match self {
            KeymapError::UnknownAction(action) => "unknown keybinding action '"@ + action@ + "'"@,
            KeymapError::InvalidChord { action, chord, message } => "invalid keybinding '"@
                + chord@ + "' for '"@ + action@ + "': "@ + message@,
            KeymapError::Conflict { context, chord, actions } => "keybinding conflict in "@
                + context@ + ": "@ + chord@ + " used by "@ + action_list(string_views(actions@)),
        }
    }

    /// Writes the sentence that reports this error.
    pub fn message(&self) -> (text: String)
        ensures
            text@ == self.message_of(),
    {
        match self {
            KeymapError::UnknownAction(action) => {
                let mut out = String::from_str("unknown keybinding action '");
                out.append(action.as_str());
                out.append("'");
                out
            },
            KeymapError::InvalidChord { action, chord, message } => {
                let mut out = String::from_str("invalid keybinding '");
                out.append(chord.as_str());
                out.append("' for '");
                out.append(action.as_str());
                out.append("': ");
                out.append(message.as_str());
                out
            },
            KeymapError::Conflict { context, chord, actions } => {
                let mut out = String::from_str("keybinding conflict in ");
                out.append(context);
                out.append(": ");
                out.append(chord.as_str());
                out.append(" used by ");
                let list = format_action_list(actions.as_slice());
                out.append(list.as_str());
                out
            },
        }
    }
}

} // verus!
