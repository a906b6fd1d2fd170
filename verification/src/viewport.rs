//! The visible character-cell rectangle.
//!
//! The viewport is plain data: a rectangle of rows and columns that the
//! embedding layer currently shows. Scrolling shifts the whole rectangle and
//! clamps it so no coordinate goes negative or past the machine's range;
//! scrolling never moves the cursor.

use vstd::prelude::*;

verus! {

/// The visible rectangle, in character cells. Rows and columns are 0-based
/// and the bounds are kept ordered: top at most bottom on both axes.
#[derive(Debug, Clone, Copy, PartialEq, Eq, Structural)]
pub struct Viewport {
    pub row_top: usize,
    pub col_top: usize,
    pub row_bottom: usize,
    pub col_bottom: usize,
}

/// A scroll request: how many rows and columns to shift the viewport by.
/// Positive values scroll down and to the right.
#[derive(Debug, Clone, Copy, PartialEq, Eq, Structural)]
pub struct Scrolling {
    pub rows: i32,
    pub cols: i32,
}

/// One axis of the rectangle, shifted by `delta` and clamped: never below
/// zero, never past the machine's range, and always by the same amount at
/// both ends.
pub open spec fn spec_shifted_axis(top: int, bottom: int, delta: int) -> (int, int) {
    if delta >= 0 {
        let d = if delta <= usize::MAX - bottom {
            delta
        } else {
            usize::MAX - bottom
        };
        (top + d, bottom + d)
    } else {
        let d = if -delta <= top {
            -delta
        } else {
            top
        };
        (top - d, bottom - d)
    }
}

/// The viewport after a scroll request: both axes shifted and clamped.
pub open spec fn spec_scrolled(vp: Viewport, s: Scrolling) -> Viewport {
    let (rt, rb) = spec_shifted_axis(vp.row_top as int, vp.row_bottom as int, s.rows as int);
    let (ct, cb) = spec_shifted_axis(vp.col_top as int, vp.col_bottom as int, s.cols as int);
    Viewport {
        row_top: rt as usize,
        col_top: ct as usize,
        row_bottom: rb as usize,
        col_bottom: cb as usize,
    }
}

impl Viewport {
    /// The rectangle a fresh viewport shows: only the top-left cell.
    pub open spec fn default_spec() -> Viewport {
        Viewport { row_top: 0, col_top: 0, row_bottom: 0, col_bottom: 0 }
    }

    /// The bounds are ordered on both axes.
    pub open spec fn wf(self) -> bool {
        self.row_top <= self.row_bottom && self.col_top <= self.col_bottom
    }

    /// A viewport showing only the top-left cell.
    pub fn new() -> (r: Viewport)
        ensures
            r == (Viewport { row_top: 0usize, col_top: 0usize, row_bottom: 0usize, col_bottom: 0usize }),
            r.wf(),
    {
        Viewport { row_top: 0, col_top: 0, row_bottom: 0, col_bottom: 0 }
    }

    /// The rectangle as (top row, top column, bottom row, bottom column).
    pub fn position(&self) -> (r: (usize, usize, usize, usize))
        ensures
            r == (self.row_top, self.col_top, self.row_bottom, self.col_bottom),
    {
        (self.row_top, self.col_top, self.row_bottom, self.col_bottom)
    }

    /// Shift the rectangle by the requested rows and columns, clamping so no
    /// coordinate goes negative or past the machine's range. The rectangle
    /// keeps its size.
    pub fn scroll(&mut self, s: Scrolling)
        requires
            old(self).wf(),
        ensures
            *final(self) == spec_scrolled(*old(self), s),
            final(self).wf(),
    {
        let (rt, rb) = shifted_axis(self.row_top, self.row_bottom, s.rows);
        let (ct, cb) = shifted_axis(self.col_top, self.col_bottom, s.cols);
        self.row_top = rt;
        self.row_bottom = rb;
        self.col_top = ct;
        self.col_bottom = cb;
    }
}

impl Default for Viewport {
    /// The default viewport shows only the top-left cell.
    fn default() -> (r: Viewport)
        ensures
            r == (Viewport { row_top: 0usize, col_top: 0usize, row_bottom: 0usize, col_bottom: 0usize }),
    {
        Viewport { row_top: 0, col_top: 0, row_bottom: 0, col_bottom: 0 }
    }
}

/// Shift one ordered axis of the rectangle by `delta`, clamped at zero and at
/// the machine's range.
fn shifted_axis(top: usize, bottom: usize, delta: i32) -> (r: (usize, usize))
    requires
        top <= bottom,
    ensures
        (r.0 as int, r.1 as int) == spec_shifted_axis(top as int, bottom as int, delta as int),
        r.0 <= r.1,
{
    if delta >= 0 {
        let want = delta as usize;
        let room = usize::MAX - bottom;
        let d = if want <= room {
            want
        } else {
            room
        };
        (top + d, bottom + d)
    } else {
        let mag64 = -(delta as i64);
        let want = mag64 as usize;
        let d = if want <= top {
            want
        } else {
            top
        };
        (top - d, bottom - d)
    }
}

} // verus!
