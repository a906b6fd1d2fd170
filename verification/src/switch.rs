//! The binary switch widget: visual confirmation of a boolean state as two
//! colored halves side by side.

use vstd::prelude::*;
use crate::style::Color;

verus! {

/// A rectangle of character cells, as position and size.
#[derive(Debug, Clone, Copy, PartialEq, Eq, Structural)]
pub struct Rect {
    pub x: u16,
    pub y: u16,
    pub width: u16,
    pub height: u16,
}

/// The smaller of two integers.
pub open spec fn min_int(a: int, b: int) -> int {
    if a <= b {
        a
    } else {
        b
    }
}

/// The switch: its boolean state and the colors of its three parts.
#[derive(Debug, Clone, Copy)]
pub struct Switch {
    pub state: bool,
    pub color_on: Color,
    pub color_off: Color,
    pub color_switch: Color,
}

impl Switch {
    /// A switch showing the given state, green when on, dark gray when off,
    /// the knob white.
    pub fn with_status(state: bool) -> (r: Switch)
        ensures
            r == (Switch {
                state,
                color_on: Color::Green,
                color_off: Color::DarkGray,
                color_switch: Color::White,
            }),
    {
        Switch { state, color_on: Color::Green, color_off: Color::DarkGray, color_switch: Color::White }
    }

    /// This switch with another color for the on state.
    pub fn with_color_on(self, color: Color) -> (r: Switch)
        ensures
            r == (Switch { color_on: color, ..self }),
    {
        Switch { color_on: color, ..self }
    }

    /// This switch with another color for the off state.
    pub fn with_color_off(self, color: Color) -> (r: Switch)
        ensures
            r == (Switch { color_off: color, ..self }),
    {
        Switch { color_off: color, ..self }
    }

    /// This switch with another color for the knob.
    pub fn with_color_switch(self, color: Color) -> (r: Switch)
        ensures
            r == (Switch { color_switch: color, ..self }),
    {
        Switch { color_switch: color, ..self }
    }

    /// The two halves of the switch inside `area`: two cells tall at most,
    /// each half seven cells wide at most, side by side from the area's
    /// top-left corner and cut down to the area.
    pub fn get_layout(&self, area: Rect) -> (r: (Rect, Rect))
        requires
            area.x + area.width <= u16::MAX,
        ensures
            r.0.x == area.x && r.0.y == area.y,
            r.1.y == area.y,
            r.0.height as int == min_int(2, area.height as int),
            r.1.height as int == min_int(2, area.height as int),
            r.0.width as int == min_int(7, area.width as int),
            r.1.x as int == area.x + r.0.width,
            r.1.width as int == min_int(7, area.width - r.0.width),
    {
        let h = if area.height <= 2 {
            area.height
        } else {
            2
        };
        let left_w = if area.width <= 7 {
            area.width
        } else {
            7
        };
        let rest = area.width - left_w;
        let right_w = if rest <= 7 {
            rest
        } else {
            7
        };
        let left = Rect { x: area.x, y: area.y, width: left_w, height: h };
        let right = Rect { x: area.x + left_w, y: area.y, width: right_w, height: h };
        (left, right)
    }

    /// The color of the left half: the on color while on, else the knob
    /// color.
    pub fn get_left_color(&self) -> (r: Color)
        ensures
            r == if self.state {
                self.color_on
            } else {
                self.color_switch
            },
    {
        if self.state {
            self.color_on
        } else {
            self.color_switch
        }
    }

    /// The color of the right half: the knob color while on, else the off
    /// color.
    pub fn get_right_color(&self) -> (r: Color)
        ensures
            r == if self.state {
                self.color_switch
            } else {
                self.color_off
            },
    {
        if self.state {
            self.color_switch
        } else {
            self.color_off
        }
    }
}

} // verus!
