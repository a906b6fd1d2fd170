//! Cursor motion resolution.
//!
//! A motion is resolved against the current position, the line sequence and
//! the viewport; it yields the new position, or nothing when no movement is
//! possible, in which case the caller leaves the cursor where it is.

use vstd::prelude::*;
use vstd::string::*;
use crate::textutil::{
    find_word_start_backward, find_word_start_forward, lemma_boundary_back_in_bounds,
    lemma_boundary_fwd_in_bounds, spec_find_word_start_backward, spec_find_word_start_forward,
};
use crate::viewport::Viewport;

verus! {

/// How to move the cursor.
#[derive(Clone, Copy, Debug, PartialEq, Eq, Structural)]
pub enum CursorMove {
    /// One character forward; at the end of a line, to the head of the next
    /// line if one exists.
    Forward,
    /// One character backward; at the head of a line, to the end of the
    /// previous line if one exists.
    Back,
    /// One row up, the column fitted to the target line.
    Up,
    /// One row down, the column fitted to the target line.
    Down,
    /// To the head of the current line.
    Head,
    /// To the end of the current line.
    End,
    /// To the next word start; at the end of the last line it stays there,
    /// and with no boundary left in the line it moves to the head of the
    /// next line.
    WordForward,
    /// To the previous word start; with no boundary before the cursor it
    /// moves to the end of the previous line, or to the head of the first
    /// line.
    WordBack,
    /// Clamp the cursor into the viewport, then fit it to the lines.
    InViewport,
}

/// `col`, cut down to the length of `line`.
pub open spec fn fit_col(col: int, line: Seq<char>) -> int {
    if col <= line.len() {
        col
    } else {
        line.len() as int
    }
}

/// `x` clamped into the interval from `low` to `high`.
pub open spec fn clamp(x: int, low: int, high: int) -> int {
    if x < low {
        low
    } else if x > high {
        high
    } else {
        x
    }
}

/// Where a motion lands from (`row`, `col`) over `lines`, or `None` when no
/// movement is possible.
pub open spec fn spec_next_cursor(
    m: CursorMove,
    row: int,
    col: int,
    lines: Seq<Seq<char>>,
    vp: Viewport,
) -> Option<(int, int)>
    recommends
        0 <= row < lines.len(),
        0 <= col <= lines[row].len(),
{
    match m {
        CursorMove::Forward => if col >= lines[row].len() {
            if row + 1 < lines.len() {
                Some((row + 1, 0int))
            } else {
                None
            }
        } else {
            Some((row, col + 1))
        },
        CursorMove::Back => if col == 0 {
            if row > 0 {
                Some((row - 1, lines[row - 1].len() as int))
            } else {
                None
            }
        } else {
            Some((row, col - 1))
        },
        CursorMove::Up => if row > 0 {
            Some((row - 1, fit_col(col, lines[row - 1])))
        } else {
            None
        },
        CursorMove::Down => if row + 1 < lines.len() {
            Some((row + 1, fit_col(col, lines[row + 1])))
        } else {
            None
        },
        CursorMove::Head => Some((row, 0int)),
        CursorMove::End => Some((row, lines[row].len() as int)),
        CursorMove::WordForward => match spec_find_word_start_forward(lines[row], col) {
            Some(c) => Some((row, c)),
            None => if row + 1 < lines.len() {
                Some((row + 1, 0int))
            } else {
                Some((row, lines[row].len() as int))
            },
        },
        CursorMove::WordBack => match spec_find_word_start_backward(lines[row], col) {
            Some(c) => Some((row, c)),
            None => if row > 0 {
                Some((row - 1, lines[row - 1].len() as int))
            } else {
                Some((row, 0int))
            },
        },
        CursorMove::InViewport => {
            let r1 = clamp(row, vp.row_top as int, vp.row_bottom as int);
            let r2 = if r1 <= lines.len() - 1 {
                r1
            } else {
                lines.len() - 1
            };
            let c1 = clamp(col, vp.col_top as int, vp.col_bottom as int);
            Some((r2, fit_col(c1, lines[r2])))
        },
    }
}

impl CursorMove {
    /// Resolve this motion from (`row`, `col`): the position it lands on, a
    /// valid cursor position again, or `None` when no movement is possible.
    pub fn next_cursor(
        &self,
        pos: (usize, usize),
        lines: &Vec<String>,
        viewport: &Viewport,
    ) -> (r: Option<(usize, usize)>)
        requires
            viewport.wf(),
            lines.len() >= 1,
            pos.0 < lines@.len(),
            pos.1 <= lines@[pos.0 as int]@.len(),
        ensures
            match r {
                Some(p) => {
                    &&& spec_next_cursor(*self, pos.0 as int, pos.1 as int, lines_view(lines), *viewport)
                        == Some((p.0 as int, p.1 as int))
                    &&& p.0 < lines@.len()
                    &&& p.1 <= lines@[p.0 as int]@.len()
                },
                None => spec_next_cursor(*self, pos.0 as int, pos.1 as int, lines_view(lines), *viewport)
                    is None,
            },
    {
        let (row, col) = pos;
        match self {
            CursorMove::Forward => {
                let n = lines[row].as_str().unicode_len();
                if col >= n {
                    if row + 1 < lines.len() {
                        Some((row + 1, 0))
                    } else {
                        None
                    }
                } else {
                    Some((row, col + 1))
                }
            },
            CursorMove::Back => {
                if col == 0 {
                    if row > 0 {
                        Some((row - 1, lines[row - 1].as_str().unicode_len()))
                    } else {
                        None
                    }
                } else {
                    Some((row, col - 1))
                }
            },
            CursorMove::Up => {
                if row > 0 {
                    let n = lines[row - 1].as_str().unicode_len();
                    Some((row - 1, if col <= n { col } else { n }))
                } else {
                    None
                }
            },
            CursorMove::Down => {
                if row + 1 < lines.len() {
                    let n = lines[row + 1].as_str().unicode_len();
                    Some((row + 1, if col <= n { col } else { n }))
                } else {
                    None
                }
            },
            CursorMove::Head => Some((row, 0)),
            CursorMove::End => Some((row, lines[row].as_str().unicode_len())),
            CursorMove::WordForward => {
                proof {
                    lemma_boundary_fwd_in_bounds(
                        lines@[row as int]@,
                        crate::textutil::char_kind(lines@[row as int]@[col as int]),
                        col + 1,
                    );
                }
                if let Some(c) = find_word_start_forward(lines[row].as_str(), col) {
                    Some((row, c))
                } else if row + 1 < lines.len() {
                    Some((row + 1, 0))
                } else {
                    Some((row, lines[row].as_str().unicode_len()))
                }
            },
            CursorMove::WordBack => {
                proof {
                    if col >= 1 {
                        lemma_boundary_back_in_bounds(
                            lines@[row as int]@,
                            crate::textutil::char_kind(lines@[row as int]@[col - 1]),
                            col - 2,
                        );
                    }
                }
                if let Some(c) = find_word_start_backward(lines[row].as_str(), col) {
                    Some((row, c))
                } else if row > 0 {
                    Some((row - 1, lines[row - 1].as_str().unicode_len()))
                } else {
                    Some((row, 0))
                }
            },
            CursorMove::InViewport => {
                let (row_top, col_top, row_bottom, col_bottom) = viewport.position();
                let r1 = if row < row_top {
                    row_top
                } else if row > row_bottom {
                    row_bottom
                } else {
                    row
                };
                let last = lines.len() - 1;
                let r2 = if r1 <= last {
                    r1
                } else {
                    last
                };
                let c1 = if col < col_top {
                    col_top
                } else if col > col_bottom {
                    col_bottom
                } else {
                    col
                };
                let n = lines[r2].as_str().unicode_len();
                Some((r2, if c1 <= n { c1 } else { n }))
            },
        }
    }
}

/// The line sequence as a sequence of character sequences.
pub open spec fn lines_view(lines: &Vec<String>) -> Seq<Seq<char>> {
    lines@.map(|i: int, s: String| s@)
}

} // verus!
