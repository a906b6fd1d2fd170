//! Backend-agnostic classified key input.
//!
//! The embedding layer translates platform key events into an [`Input`]: a
//! key plus modifier flags. The predicates here classify an input; the
//! buffer's dispatcher maps each class to one editing primitive.

use vstd::prelude::*;

verus! {

/// A key, independent of any terminal backend.
#[derive(Clone, Copy, Debug, PartialEq, Eq, Structural, Hash, Default)]
pub enum Key {
    /// Normal character key input.
    Char(char),
    Backspace,
    Enter,
    Left,
    Right,
    Up,
    Down,
    Tab,
    Delete,
    Home,
    End,
    Esc,
    Copy,
    Cut,
    Paste,
    /// An invalid key input, always ignored.
    #[default]
    Null,
}

/// A classified key input: the key and the modifiers held with it.
#[derive(Clone, Copy, Debug, PartialEq, Eq, Structural, Hash, Default)]
pub struct Input {
    /// Typed key.
    pub key: Key,
    /// Whether Ctrl was held.
    pub ctrl: bool,
    /// Whether Alt was held.
    pub alt: bool,
    /// Whether Shift was held.
    pub shift: bool,
}

/// The character of a plain character input: `Some` only for a character key
/// without Ctrl or Alt (Shift is allowed, it only changes case).
pub open spec fn spec_maybe_char(i: Input) -> Option<char> {
    if !i.ctrl && !i.alt {
        match i.key {
            Key::Char(c) => Some(c),
            _ => None,
        }
    } else {
        None
    }
}

/// A line break not caused by a plain Enter: a literal `\n` or `\r`
/// character, or Enter together with a modifier. Lets Enter itself serve as
/// a confirm key where wanted.
pub open spec fn spec_is_newline_except_enter(i: Input) -> bool {
    (!i.ctrl && !i.alt && (i.key == Key::Char('\n') || i.key == Key::Char('\r'))) || (i.key
        == Key::Enter && (i.ctrl || i.alt || i.shift))
}

/// Any line break input, the Enter key included.
pub open spec fn spec_is_newline(i: Input) -> bool {
    spec_is_newline_except_enter(i) || i.key == Key::Enter
}

/// A plain character input (Shift allowed).
pub open spec fn spec_is_char(i: Input) -> bool {
    !i.ctrl && !i.alt && (i.key matches Key::Char(_))
}

/// The Tab key without Ctrl or Alt.
pub open spec fn spec_is_tab(i: Input) -> bool {
    i.key == Key::Tab && !i.ctrl && !i.alt
}

/// The Backspace key without Ctrl or Alt.
pub open spec fn spec_is_backspace(i: Input) -> bool {
    i.key == Key::Backspace && !i.ctrl && !i.alt
}

/// The Delete key without Ctrl or Alt.
pub open spec fn spec_is_delete(i: Input) -> bool {
    i.key == Key::Delete && !i.ctrl && !i.alt
}

/// The down arrow without Ctrl or Alt.
pub open spec fn spec_is_down(i: Input) -> bool {
    i.key == Key::Down && !i.ctrl && !i.alt
}

/// The up arrow without Ctrl or Alt.
pub open spec fn spec_is_up(i: Input) -> bool {
    i.key == Key::Up && !i.ctrl && !i.alt
}

/// The left arrow without Ctrl or Alt.
pub open spec fn spec_is_left(i: Input) -> bool {
    i.key == Key::Left && !i.ctrl && !i.alt
}

/// The right arrow without Ctrl or Alt.
pub open spec fn spec_is_right(i: Input) -> bool {
    i.key == Key::Right && !i.ctrl && !i.alt
}

/// The Home key, with any modifiers.
pub open spec fn spec_is_home(i: Input) -> bool {
    i.key == Key::Home
}

/// The End key, with any modifiers.
pub open spec fn spec_is_end(i: Input) -> bool {
    i.key == Key::End
}

/// Ctrl with the left arrow (and no Alt): a word-wise motion.
pub open spec fn spec_is_ctrl_left(i: Input) -> bool {
    i.key == Key::Left && i.ctrl && !i.alt
}

/// Ctrl with the right arrow (and no Alt): a word-wise motion.
pub open spec fn spec_is_ctrl_right(i: Input) -> bool {
    i.key == Key::Right && i.ctrl && !i.alt
}

impl Input {
    /// The character of a plain character input, `None` otherwise.
    pub fn maybe_char(&self) -> (r: Option<char>)
        ensures
            r == spec_maybe_char(*self),
    {
        if self.ctrl || self.alt {
            return None;
        }
        match self.key {
            Key::Char(c) => Some(c),
            _ => None,
        }
    }

    /// Whether this input is a line break not caused by a plain Enter:
    /// Ctrl+Enter, Alt+Enter, Shift+Enter, or a literal `\n` or `\r`.
    pub fn is_newline_except_enter(&self) -> (r: bool)
        ensures
            r == spec_is_newline_except_enter(*self),
    {
        (!self.ctrl && !self.alt && (self.key == Key::Char('\n') || self.key == Key::Char('\r')))
            || (self.key == Key::Enter && (self.ctrl || self.alt || self.shift))
    }

    /// Whether this input is any line break, the Enter key included.
    pub fn is_newline(&self) -> (r: bool)
        ensures
            r == spec_is_newline(*self),
    {
        self.is_newline_except_enter() || self.key == Key::Enter
    }

    /// Whether this input is a plain character (Shift allowed).
    pub fn is_char(&self) -> (r: bool)
        ensures
            r == spec_is_char(*self),
    {
        match self.key {
            Key::Char(_) => !self.ctrl && !self.alt,
            _ => false,
        }
    }

    /// Whether this input is the Tab key without Ctrl or Alt.
    pub fn is_tab(&self) -> (r: bool)
        ensures
            r == spec_is_tab(*self),
    {
        self.key == Key::Tab && !self.ctrl && !self.alt
    }

    /// Whether this input is the Backspace key without Ctrl or Alt.
    pub fn is_backspace(&self) -> (r: bool)
        ensures
            r == spec_is_backspace(*self),
    {
        self.key == Key::Backspace && !self.ctrl && !self.alt
    }

    /// Whether this input is the Delete key without Ctrl or Alt.
    pub fn is_delete(&self) -> (r: bool)
        ensures
            r == spec_is_delete(*self),
    {
        self.key == Key::Delete && !self.ctrl && !self.alt
    }

    /// Whether this input is the down arrow without Ctrl or Alt.
    pub fn is_down(&self) -> (r: bool)
        ensures
            r == spec_is_down(*self),
    {
        self.key == Key::Down && !self.ctrl && !self.alt
    }

    /// Whether this input is the up arrow without Ctrl or Alt.
    pub fn is_up(&self) -> (r: bool)
        ensures
            r == spec_is_up(*self),
    {
        self.key == Key::Up && !self.ctrl && !self.alt
    }

    /// Whether this input is the left arrow without Ctrl or Alt.
    pub fn is_left(&self) -> (r: bool)
        ensures
            r == spec_is_left(*self),
    {
        self.key == Key::Left && !self.ctrl && !self.alt
    }

    /// Whether this input is the right arrow without Ctrl or Alt.
    pub fn is_right(&self) -> (r: bool)
        ensures
            r == spec_is_right(*self),
    {
        self.key == Key::Right && !self.ctrl && !self.alt
    }

    /// Whether this input is the Home key.
    pub fn is_home(&self) -> (r: bool)
        ensures
            r == spec_is_home(*self),
    {
        self.key == Key::Home
    }

    /// Whether this input is the End key.
    pub fn is_end(&self) -> (r: bool)
        ensures
            r == spec_is_end(*self),
    {
        self.key == Key::End
    }

    /// Whether this input is Ctrl with the left arrow.
    pub fn is_ctrl_left(&self) -> (r: bool)
        ensures
            r == spec_is_ctrl_left(*self),
    {
        self.key == Key::Left && self.ctrl && !self.alt
    }

    /// Whether this input is Ctrl with the right arrow.
    pub fn is_ctrl_right(&self) -> (r: bool)
        ensures
            r == spec_is_ctrl_right(*self),
    {
        self.key == Key::Right && self.ctrl && !self.alt
    }

    /// A short text naming the kind of this input, the empty string for one
    /// that no editing primitive handles. The classes are tried in a fixed
    /// order, so each input gets exactly one name.
    pub fn kind(&self) -> (r: &'static str)
        ensures
            r@ == spec_kind(*self),
    {
        if self.is_delete() {
            ":delete"
        } else if self.is_backspace() {
            ":backspace"
        } else if self.is_tab() {
            ":tab"
        } else if self.is_newline_except_enter() {
            ":non-enter-newline"
        } else if self.is_newline() {
            ":newline"
        } else if self.is_char() {
            ":char"
        } else if self.is_down() {
            ":down"
        } else if self.is_up() {
            ":up"
        } else if self.is_left() {
            ":left"
        } else if self.is_right() {
            ":right"
        } else if self.is_home() {
            ":home"
        } else if self.is_end() {
            ":end"
        } else if self.is_ctrl_left() {
            ":word-left"
        } else if self.is_ctrl_right() {
            ":word-right"
        } else {
            ""
        }
    }
}

/// The name `kind` gives an input: the first matching class in its fixed
/// order.
pub open spec fn spec_kind(i: Input) -> Seq<char> {
    if spec_is_delete(i) {
        ":delete"@
    } else if spec_is_backspace(i) {
        ":backspace"@
    } else if spec_is_tab(i) {
        ":tab"@
    } else if spec_is_newline_except_enter(i) {
        ":non-enter-newline"@
    } else if spec_is_newline(i) {
        ":newline"@
    } else if spec_is_char(i) {
        ":char"@
    } else if spec_is_down(i) {
        ":down"@
    } else if spec_is_up(i) {
        ":up"@
    } else if spec_is_left(i) {
        ":left"@
    } else if spec_is_right(i) {
        ":right"@
    } else if spec_is_home(i) {
        ":home"@
    } else if spec_is_end(i) {
        ":end"@
    } else if spec_is_ctrl_left(i) {
        ":word-left"@
    } else if spec_is_ctrl_right(i) {
        ":word-right"@
    } else {
        ""@
    }
}

} // verus!
