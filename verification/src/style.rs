//! Plain style data: colors, modifier flags, and text alignment.
//!
//! The editor core never inspects a style; it only attaches styles to the
//! fragments it produces. The embedding layer translates these plain values
//! into whatever the terminal backend expects.

use vstd::prelude::*;

verus! {

/// A terminal color, kept as plain data.
#[derive(Clone, Copy, Debug, PartialEq, Eq)]
pub enum Color {
    Reset,
    Black,
    Red,
    Green,
    Yellow,
    Blue,
    Magenta,
    Cyan,
    Gray,
    DarkGray,
    LightRed,
    LightGreen,
    LightYellow,
    LightBlue,
    LightMagenta,
    LightCyan,
    White,
    Rgb(u8, u8, u8),
    Indexed(u8),
}

/// Bit for the reversed-video modifier.
pub const MOD_REVERSED: u16 = 1;
/// Bit for the bold modifier.
pub const MOD_BOLD: u16 = 2;
/// Bit for the underlined modifier.
pub const MOD_UNDERLINED: u16 = 4;

/// A display style: optional foreground and background colors plus a set of
/// modifier bits. Styles are carried through the rendering pipeline unchanged.
#[derive(Clone, Copy, Debug, PartialEq, Eq)]
pub struct Style {
    pub fg: Option<Color>,
    pub bg: Option<Color>,
    pub modifiers: u16,
}

impl Style {
    /// The empty style: no colors, no modifiers.
    pub fn plain() -> (r: Style)
        ensures
            r == (Style { fg: None, bg: None, modifiers: 0u16 }),
    {
        Style { fg: None, bg: None, modifiers: 0 }
    }

    /// Replace the foreground color.
    pub fn fg(self, color: Color) -> (r: Style)
        ensures
            r == (Style { fg: Some(color), ..self }),
    {
        Style { fg: Some(color), ..self }
    }

    /// Replace the background color.
    pub fn bg(self, color: Color) -> (r: Style)
        ensures
            r == (Style { bg: Some(color), ..self }),
    {
        Style { bg: Some(color), ..self }
    }

    /// Set the given modifier bits in addition to those already present.
    pub fn add_modifier(self, bits: u16) -> (r: Style)
        ensures
            r.fg == self.fg,
            r.bg == self.bg,
            r.modifiers == (self.modifiers | bits),
    {
        Style { modifiers: self.modifiers | bits, ..self }
    }
}

impl Default for Style {
    /// The default style is the empty style.
    fn default() -> (r: Style)
        ensures
            r == (Style { fg: None, bg: None, modifiers: 0u16 }),
    {
        Style { fg: None, bg: None, modifiers: 0 }
    }
}

/// Horizontal alignment of rendered text.
#[derive(Clone, Copy, Debug, PartialEq, Eq)]
pub enum Alignment {
    Left,
    Center,
    Right,
}

} // verus!
