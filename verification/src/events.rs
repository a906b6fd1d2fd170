//! The actions an embedding widget tree exchanges with its runtime.
//!
//! An action is plain data: a request the runtime carries from a component to
//! the application, either one of the built-in kinds or an
//! application-defined name.

use vstd::prelude::*;

verus! {

/// A request to the embedding runtime.
#[derive(Debug, PartialEq, Eq, Clone)]
pub enum Action {
    /// The periodic tick fired.
    Tick,
    /// A redraw is due.
    Render,
    /// The terminal was resized to the given width and height.
    Resize(u16, u16),
    /// The application should quit.
    Quit,
    /// An application-defined action, by name.
    AppAction(String),
    /// A key was pressed, described as text.
    Key(String),
}

/// An action as a keybinding target: either spelled out as text, to be
/// resolved later, or a full action value.
pub enum ActionKind {
    Stringified(String),
    Full(Action),
}

impl ActionKind {
    /// A keybinding target spelled as text.
    pub fn from_name(s: String) -> (r: ActionKind)
        ensures
            r == ActionKind::Stringified(s),
    {
        ActionKind::Stringified(s)
    }

    /// A keybinding target holding the full action.
    pub fn from_action(a: Action) -> (r: ActionKind)
        ensures
            r == ActionKind::Full(a),
    {
        ActionKind::Full(a)
    }
}

} // verus!
