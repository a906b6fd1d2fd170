//! The text buffer: line sequence, cursor, selection anchor and yank store.
//!
//! The buffer's observable state is captured by [`BufferModel`], a ghost
//! value holding the lines as character sequences together with cursor,
//! selection, yank and viewport. Every operation's contract equates the new
//! model with a spec-level transition of the old one, so the whole editing
//! behaviour is pinned down; the buffer invariant — at least one line, cursor
//! row in range, cursor column at most its line's length — is part of every
//! contract.

use vstd::prelude::*;
use crate::cursor::{spec_next_cursor, CursorMove};
use crate::input::{
    spec_is_backspace, spec_is_ctrl_left, spec_is_ctrl_right, spec_is_delete, spec_is_down,
    spec_is_end, spec_is_home, spec_is_left, spec_is_newline, spec_is_right, spec_is_tab,
    spec_is_up, spec_maybe_char, Input,
};
use crate::style::{Alignment, Color, Style, MOD_REVERSED};
use crate::textutil::join_lines;
use crate::viewport::{spec_scrolled, Scrolling, Viewport};

verus! {

/// The most recently deleted text: one line (a piece) or several (a chunk).
/// It holds only the latest yielding deletion and is overwritten each time.
#[derive(Debug, Clone)]
pub enum YankText {
    Piece(String),
    Chunk(Vec<String>),
}

/// A sequence of strings as a sequence of character sequences.
pub open spec fn str_seq_view(v: Seq<String>) -> Seq<Seq<char>> {
    v.map(|i: int, s: String| s@)
}

/// Viewing strings as character sequences commutes with updating one.
pub proof fn lemma_view_update(v: Seq<String>, i: int, s: String)
    requires
        0 <= i < v.len(),
    ensures
        str_seq_view(v.update(i, s)) =~= str_seq_view(v).update(i, s@),
{
}

/// Viewing strings as character sequences commutes with removing one.
pub proof fn lemma_view_remove(v: Seq<String>, i: int)
    requires
        0 <= i < v.len(),
    ensures
        str_seq_view(v.remove(i)) =~= str_seq_view(v).remove(i),
{
}

/// Viewing strings as character sequences commutes with inserting one.
pub proof fn lemma_view_insert(v: Seq<String>, i: int, s: String)
    requires
        0 <= i <= v.len(),
    ensures
        str_seq_view(v.insert(i, s)) =~= str_seq_view(v).insert(i, s@),
{
}

/// Viewing strings as character sequences commutes with appending one.
pub proof fn lemma_view_push(v: Seq<String>, s: String)
    ensures
        str_seq_view(v.push(s)) =~= str_seq_view(v).push(s@),
{
}

/// The yanked text as a sequence of lines.
pub open spec fn yank_view(y: YankText) -> Seq<Seq<char>> {
    match y {
        YankText::Piece(s) => seq![s@],
        YankText::Chunk(v) => str_seq_view(v@),
    }
}

impl Default for YankText {
    /// The default yank is one empty piece.
    fn default() -> (r: YankText)
        ensures
            yank_view(r) == seq![Seq::<char>::empty()],
            !(r matches YankText::Chunk(_)),
    {
        let r = YankText::Piece(String::new());
        proof {
            assert(yank_view(r) =~= seq![Seq::<char>::empty()]);
        }
        r
    }
}

/// The observable state of a text buffer: the lines as character sequences,
/// the cursor, the selection anchor, the yanked lines, and the data that
/// steers editing (tab width, viewport).
pub ghost struct BufferModel {
    pub lines: Seq<Seq<char>>,
    pub row: usize,
    pub col: usize,
    pub selection: Option<(usize, usize)>,
    pub yank: Seq<Seq<char>>,
    pub yank_chunk: bool,
    pub tab: u8,
    pub viewport: Viewport,
}

/// The buffer invariant: at least one line; the cursor row in range and the
/// cursor column at most its line's length; the selection anchor, when set,
/// a valid position as well; the viewport's bounds ordered.
pub open spec fn m_wf(m: BufferModel) -> bool {
    &&& m.lines.len() >= 1
    &&& m.row < m.lines.len()
    &&& m.col <= m.lines[m.row as int].len()
    &&& match m.selection {
        Some(p) => p.0 < m.lines.len() && p.1 <= m.lines[p.0 as int].len(),
        None => true,
    }
    &&& m.viewport.wf()
}

/// Position `a` at or before position `b`, ordered by row, then column.
pub open spec fn pos_le(a: (usize, usize), b: (usize, usize)) -> bool {
    a.0 < b.0 || (a.0 == b.0 && a.1 <= b.1)
}

/// Clearing the selection: the anchor is dropped, everything else stays.
pub open spec fn bm_cancel_selection(m: BufferModel) -> BufferModel {
    BufferModel { selection: None, ..m }
}

/// Starting a selection: the anchor is placed on the cursor.
pub open spec fn bm_start_selection(m: BufferModel) -> BufferModel {
    BufferModel { selection: Some((m.row, m.col)), ..m }
}

/// The active range: anchor and cursor ordered by position, `None` when no
/// anchor is set or the anchor sits exactly on the cursor.
pub open spec fn bm_sel_range(m: BufferModel) -> Option<((usize, usize), (usize, usize))> {
    match m.selection {
        None => None,
        Some(s) => {
            let e = (m.row, m.col);
            if s == e {
                None
            } else if pos_le(s, e) {
                Some((s, e))
            } else {
                Some((e, s))
            }
        },
    }
}

/// The lines after deleting from (`sr`, `sc`) up to but excluding
/// (`er`, `ec`), together with the deleted pieces. An end row equal to the
/// line count (with end column 0) means the deletion runs to the end of the
/// buffer. On one row the span between the columns is cut out; across rows
/// the first row keeps its head, the last row keeps its tail, both merge
/// into one line, and the rows between vanish.
pub open spec fn spec_delete_range_lines(
    lines: Seq<Seq<char>>,
    sr: int,
    sc: int,
    er: int,
    ec: int,
) -> (Seq<Seq<char>>, Seq<Seq<char>>) {
    if sr == er {
        (
            lines.update(sr, lines[sr].subrange(0, sc) + lines[sr].subrange(
                ec,
                lines[sr].len() as int,
            )),
            seq![lines[sr].subrange(sc, ec)],
        )
    } else if er < lines.len() {
        (
            lines.subrange(0, sr) + seq![
                lines[sr].subrange(0, sc) + lines[er].subrange(ec, lines[er].len() as int),
            ] + lines.subrange(er + 1, lines.len() as int),
            seq![lines[sr].subrange(sc, lines[sr].len() as int)] + lines.subrange(sr + 1, er)
                + seq![lines[er].subrange(0, ec)],
        )
    } else {
        (
            lines.subrange(0, sr) + seq![lines[sr].subrange(0, sc)],
            seq![lines[sr].subrange(sc, lines[sr].len() as int)] + lines.subrange(
                sr + 1,
                lines.len() as int,
            ),
        )
    }
}

/// Deleting a range: the cursor lands on the range's start; when yanking is
/// requested the deleted pieces become the yank, a piece for a one-row range
/// and a chunk otherwise.
pub open spec fn bm_delete_range(
    m: BufferModel,
    sr: usize,
    sc: usize,
    er: usize,
    ec: usize,
    should_yank: bool,
) -> BufferModel {
    let (new_lines, deleted) = spec_delete_range_lines(
        m.lines,
        sr as int,
        sc as int,
        er as int,
        ec as int,
    );
    BufferModel {
        lines: new_lines,
        row: sr,
        col: sc,
        yank: if should_yank {
            deleted
        } else {
            m.yank
        },
        yank_chunk: if should_yank {
            sr != er
        } else {
            m.yank_chunk
        },
        ..m
    }
}

/// Deleting the selection: the anchor is always dropped; when a
/// non-degenerate range exists it is deleted (yanking iff requested) and the
/// flag reports that something was deleted.
pub open spec fn bm_delete_selection(m: BufferModel, should_yank: bool) -> (BufferModel, bool) {
    match bm_sel_range(m) {
        None => (bm_cancel_selection(m), false),
        Some((s, e)) => (
            bm_delete_range(bm_cancel_selection(m), s.0, s.1, e.0, e.1, should_yank),
            true,
        ),
    }
}

/// A motion with shift held: a selection starts at the pre-move position
/// unless one is active. Without shift any selection is cancelled. Either
/// way the cursor moves iff the motion is possible.
pub open spec fn bm_move_cursor(m: BufferModel, mv: CursorMove, shift: bool) -> BufferModel {
    let sel = if shift {
        if m.selection is None {
            Some((m.row, m.col))
        } else {
            m.selection
        }
    } else {
        None
    };
    match spec_next_cursor(mv, m.row as int, m.col as int, m.lines, m.viewport) {
        Some(p) => BufferModel {
            selection: sel,
            row: p.0 as usize,
            col: p.1 as usize,
            ..m
        },
        None => BufferModel { selection: sel, ..m },
    }
}

/// Scrolling: the viewport shifts, then the cursor is clamped back into it;
/// an active selection survives and extends with the clamp.
pub open spec fn bm_scroll(m: BufferModel, s: Scrolling) -> BufferModel {
    let shifted = BufferModel { viewport: spec_scrolled(m.viewport, s), ..m };
    bm_move_cursor(shifted, CursorMove::InViewport, m.selection is Some)
}

/// Inserting a one-line piece at the cursor (no selection handling): the
/// piece goes into the current line at the cursor column and the cursor
/// advances past it. An empty piece changes nothing.
pub open spec fn bm_insert_piece(m: BufferModel, p: Seq<char>) -> (BufferModel, bool) {
    if p.len() == 0 {
        (m, false)
    } else {
        let line = m.lines[m.row as int];
        let new_line = line.subrange(0, m.col as int) + p + line.subrange(
            m.col as int,
            line.len() as int,
        );
        (
            BufferModel {
                lines: m.lines.update(m.row as int, new_line),
                col: (m.col + p.len()) as usize,
                ..m
            },
            true,
        )
    }
}

/// Inserting a multi-line chunk at the cursor (no selection handling): the
/// current line splits at the cursor; the first piece joins the head, the
/// last piece joins the tail, the pieces between become lines of their own,
/// and the cursor lands at the end of the last piece.
pub open spec fn bm_insert_chunk(m: BufferModel, ps: Seq<Seq<char>>) -> BufferModel
    recommends
        ps.len() >= 2,
{
    let line = m.lines[m.row as int];
    let head = line.subrange(0, m.col as int);
    let tail = line.subrange(m.col as int, line.len() as int);
    let k = ps.len() as int;
    let new_lines = m.lines.subrange(0, m.row as int) + seq![head + ps[0]] + ps.subrange(1, k - 1)
        + seq![ps[k - 1] + tail] + m.lines.subrange(m.row + 1, m.lines.len() as int);
    BufferModel {
        lines: new_lines,
        row: (m.row + k - 1) as usize,
        col: ps[k - 1].len() as usize,
        ..m
    }
}

/// The full insert of a string: the selection is discarded (never yanked),
/// the text splits at its line breaks, one piece goes in place and several
/// become a structural split; the flag reports whether text was inserted.
pub open spec fn bm_op_insert_str(m: BufferModel, s: Seq<char>) -> (BufferModel, bool) {
    let m1 = bm_delete_selection(m, false).0;
    let ps = crate::textutil::spec_split_newlines(s);
    if ps.len() == 1 {
        bm_insert_piece(m1, ps[0])
    } else {
        (bm_insert_chunk(m1, ps), true)
    }
}

/// The full insert of a newline: the selection is discarded, the current
/// line splits at the cursor, and the cursor lands at the head of the new
/// line.
pub open spec fn bm_op_insert_newline(m: BufferModel) -> BufferModel {
    let m1 = bm_delete_selection(m, false).0;
    let line = m1.lines[m1.row as int];
    let head = line.subrange(0, m1.col as int);
    let tail = line.subrange(m1.col as int, line.len() as int);
    BufferModel {
        lines: m1.lines.update(m1.row as int, head).insert(m1.row + 1, tail),
        row: (m1.row + 1) as usize,
        col: 0,
        ..m1
    }
}

/// The full insert of one character: a line break delegates to the newline
/// insert; anything else discards the selection and goes into the current
/// line, the cursor advancing by one.
pub open spec fn bm_op_insert_char(m: BufferModel, c: char) -> BufferModel {
    if c == '\n' || c == '\r' {
        bm_op_insert_newline(m)
    } else {
        bm_insert_piece(bm_delete_selection(m, false).0, seq![c]).0
    }
}

/// How many columns a tab inserted at the cursor covers: up to the next
/// multiple of the tab width, counted from the display width of the line
/// before the cursor.
pub open spec fn bm_tab_fill(m: BufferModel) -> int
    recommends
        m.tab >= 1,
{
    m.tab - (crate::width::display_width(m.lines[m.row as int].subrange(0, m.col as int)) as int) % (
    m.tab as int)
}

/// The full insert of a tab: the selection is discarded; with tab width 0
/// nothing further happens, otherwise spaces are inserted up to the next tab
/// stop, measured in display columns.
pub open spec fn bm_op_insert_tab(m: BufferModel) -> (BufferModel, bool) {
    let (m1, had_sel) = bm_delete_selection(m, false);
    if m.tab == 0 {
        (m1, had_sel)
    } else {
        bm_insert_piece(m1, Seq::new(bm_tab_fill(m1) as nat, |i: int| ' '))
    }
}

/// Merging the cursor's line into the previous one (the newline delete when
/// no selection is active): nothing happens on the first row.
pub open spec fn bm_merge_up(m: BufferModel) -> (BufferModel, bool) {
    if m.row == 0 {
        (m, false)
    } else {
        let prev = m.lines[m.row - 1];
        (
            BufferModel {
                lines: m.lines.update(m.row - 1, prev + m.lines[m.row as int]).remove(m.row as int),
                row: (m.row - 1) as usize,
                col: prev.len() as usize,
                ..m
            },
            true,
        )
    }
}

/// The full delete of a newline: an active selection is deleted (discarded,
/// not yanked) instead; otherwise the cursor's line merges into the end of
/// the previous one.
pub open spec fn bm_op_delete_newline(m: BufferModel) -> (BufferModel, bool) {
    let (m1, had_sel) = bm_delete_selection(m, false);
    if had_sel {
        (m1, true)
    } else {
        bm_merge_up(m1)
    }
}

/// The full backspace: an active selection is deleted (and yanked) instead;
/// at the head of a line the line break before the cursor is removed;
/// otherwise the character before the cursor goes and the cursor steps back.
pub open spec fn bm_op_delete_char(m: BufferModel) -> (BufferModel, bool) {
    let (m1, had_sel) = bm_delete_selection(m, true);
    if had_sel {
        (m1, true)
    } else if m1.col == 0 {
        bm_merge_up(m1)
    } else {
        let line = m1.lines[m1.row as int];
        (
            BufferModel {
                lines: m1.lines.update(m1.row as int, line.subrange(0, m1.col - 1) + line.subrange(
                    m1.col as int,
                    line.len() as int,
                )),
                col: (m1.col - 1) as usize,
                ..m1
            },
            true,
        )
    }
}

/// The full forward delete: an active selection is deleted (and yanked)
/// instead; otherwise, when a forward motion is possible, the character or
/// line break after the cursor is removed; at the very end of the buffer
/// nothing happens.
pub open spec fn bm_op_delete_next_char(m: BufferModel) -> (BufferModel, bool) {
    let (m1, had_sel) = bm_delete_selection(m, true);
    if had_sel {
        (m1, true)
    } else {
        let m2 = bm_move_cursor(m1, CursorMove::Forward, false);
        if m2.row == m1.row && m2.col == m1.col {
            (m2, false)
        } else {
            bm_op_delete_char(m2)
        }
    }
}

/// The forward walk of a ranged delete: each character and each crossed line
/// break costs one unit; the walk stops on the row where the remaining units
/// run out, or past the last line when they never do.
pub open spec fn delete_walk(lines: Seq<Seq<char>>, r: int, remaining: int) -> (int, int)
    decreases lines.len() - r,
{
    if r < 0 || r >= lines.len() {
        (lines.len() as int, 0)
    } else if remaining <= lines[r].len() {
        (r, remaining)
    } else {
        delete_walk(lines, r + 1, remaining - lines[r].len() - 1)
    }
}

/// Where a ranged delete of `n` units starting at the cursor ends.
pub open spec fn bm_delete_str_end(m: BufferModel, n: int) -> (int, int) {
    let line = m.lines[m.row as int];
    if n <= line.len() - m.col {
        (m.row as int, m.col + n)
    } else {
        delete_walk(m.lines, m.row + 1, n - (line.len() - m.col) - 1)
    }
}

/// The full ranged delete: an active selection is deleted (and yanked)
/// instead, ignoring the count; zero units delete nothing; otherwise exactly
/// `n` units are walked from the cursor, deleted and yanked.
pub open spec fn bm_op_delete_str(m: BufferModel, n: usize) -> (BufferModel, bool) {
    let (m1, had_sel) = bm_delete_selection(m, true);
    if had_sel {
        (m1, true)
    } else if n == 0 {
        (m1, false)
    } else {
        let (er, ec) = bm_delete_str_end(m1, n as int);
        (bm_delete_range(m1, m1.row, m1.col, er as usize, ec as usize, true), true)
    }
}

/// The dispatch of one classified key input to an editing primitive, in the
/// classification order of `Input::kind`: forward delete, backspace, tab,
/// any line break (modified Enter, a literal line break character, or Enter
/// itself), a plain character, then the motions, shift-aware. Anything else
/// is a no-op. The flag reports whether text content changed.
pub open spec fn bm_op_input(m: BufferModel, i: Input) -> (BufferModel, bool) {
    if spec_is_delete(i) {
        bm_op_delete_next_char(m)
    } else if spec_is_backspace(i) {
        bm_op_delete_char(m)
    } else if spec_is_tab(i) {
        bm_op_insert_tab(m)
    } else if spec_is_newline(i) {
        (bm_op_insert_newline(m), true)
    } else if spec_maybe_char(i) is Some {
        (bm_op_insert_char(m, spec_maybe_char(i)->Some_0), true)
    } else if spec_is_down(i) {
        (bm_move_cursor(m, CursorMove::Down, i.shift), false)
    } else if spec_is_up(i) {
        (bm_move_cursor(m, CursorMove::Up, i.shift), false)
    } else if spec_is_left(i) {
        (bm_move_cursor(m, CursorMove::Back, i.shift), false)
    } else if spec_is_right(i) {
        (bm_move_cursor(m, CursorMove::Forward, i.shift), false)
    } else if spec_is_home(i) {
        (bm_move_cursor(m, CursorMove::Head, i.shift), false)
    } else if spec_is_end(i) {
        (bm_move_cursor(m, CursorMove::End, i.shift), false)
    } else if spec_is_ctrl_left(i) {
        (bm_move_cursor(m, CursorMove::WordBack, i.shift), false)
    } else if spec_is_ctrl_right(i) {
        (bm_move_cursor(m, CursorMove::WordForward, i.shift), false)
    } else {
        (m, false)
    }
}

/// A text buffer for a terminal text-input widget. The editing state lives in
/// `lines`, `cursor`, `selection_start` and `yank`; the remaining fields are
/// style and rendering configuration and never influence the stored text.
#[derive(Debug)]
pub struct TextArea {
    pub lines: Vec<String>,
    pub cursor: (usize, usize),
    pub tab_len: u8,
    pub yank: YankText,
    pub alignment: Alignment,
    pub mask: Option<char>,
    pub selection_start: Option<(usize, usize)>,
    pub viewport: Viewport,
    pub style: Style,
    pub cursor_style: Style,
    pub cursor_line_style: Style,
    pub placeholder: String,
    pub placeholder_style: Style,
    pub select_style: Style,
}

impl TextArea {
    /// The observable editing state.
    pub open spec fn model(self) -> BufferModel {
        BufferModel {
            lines: str_seq_view(self.lines@),
            row: self.cursor.0,
            col: self.cursor.1,
            selection: self.selection_start,
            yank: yank_view(self.yank),
            yank_chunk: self.yank matches YankText::Chunk(_),
            tab: self.tab_len,
            viewport: self.viewport,
        }
    }

    /// The rendering configuration, which editing never touches.
    pub open spec fn config(self) -> (Style, Style, Style, Style, Style, Seq<char>, Alignment, Option<
        char,
    >) {
        (
            self.style,
            self.cursor_style,
            self.cursor_line_style,
            self.placeholder_style,
            self.select_style,
            self.placeholder@,
            self.alignment,
            self.mask,
        )
    }

    /// The buffer invariant.
    pub open spec fn wf(self) -> bool {
        m_wf(self.model())
    }

    /// Create a buffer with the given lines; an empty sequence is normalized
    /// to one empty line. The cursor starts at the top-left corner.
    pub fn new(lines: Vec<String>) -> (r: TextArea)
        ensures
            r.wf(),
            r.model().lines == if lines@.len() == 0 {
                seq![Seq::<char>::empty()]
            } else {
                str_seq_view(lines@)
            },
            r.model().row == 0 && r.model().col == 0,
            r.model().selection is None,
            r.model().yank == seq![Seq::<char>::empty()],
            !r.model().yank_chunk,
            r.model().tab == 2,
            r.model().viewport == Viewport::default_spec(),
            r.mask is None,
            r.placeholder@ =~= Seq::<char>::empty(),
            r.alignment == Alignment::Left,
    {
        let mut lines = lines;
        if lines.len() == 0 {
            lines.push(String::new());
        }
        let r = TextArea {
            lines,
            cursor: (0, 0),
            tab_len: 2,
            yank: YankText::default(),
            alignment: Alignment::Left,
            mask: None,
            selection_start: None,
            viewport: Viewport::new(),
            style: Style::plain(),
            cursor_style: Style::plain().add_modifier(MOD_REVERSED),
            cursor_line_style: Style::plain(),
            placeholder: String::new(),
            placeholder_style: Style::plain().fg(Color::DarkGray),
            select_style: Style::plain().bg(Color::LightBlue),
        };
        proof {
            if lines@.len() == 0 {
                assert(r.model().lines =~= seq![Seq::<char>::empty()]);
            }
        }
        r
    }

    /// Set the selection anchor to the current cursor position, resetting
    /// any earlier anchor.
    pub fn start_selection(&mut self)
        requires
            old(self).wf(),
        ensures
            final(self).wf(),
            final(self).model() == bm_start_selection(old(self).model()),
            final(self).config() == old(self).config(),
    {
        self.selection_start = Some(self.cursor);
    }

    /// Drop the selection anchor; with no anchor set this changes nothing.
    pub fn cancel_selection(&mut self)
        requires
            old(self).wf(),
        ensures
            final(self).wf(),
            final(self).model() == bm_cancel_selection(old(self).model()),
            final(self).config() == old(self).config(),
    {
        self.selection_start = None;
    }

    /// The selection as a normalized (low, high) pair of positions, `None`
    /// when no anchor is set or the anchor sits exactly on the cursor.
    pub fn selection_range(&self) -> (r: Option<((usize, usize), (usize, usize))>)
        ensures
            r == bm_sel_range(self.model()),
    {
        match self.selection_start {
            None => None,
            Some(s) => {
                let e = self.cursor;
                if s.0 == e.0 && s.1 == e.1 {
                    None
                } else if s.0 < e.0 || (s.0 == e.0 && s.1 <= e.1) {
                    Some((s, e))
                } else {
                    Some((e, s))
                }
            },
        }
    }

    /// Resolve a motion and move the cursor to wherever it lands. With shift
    /// held a selection starts at the pre-move position unless one is
    /// already active; without shift any selection is cancelled. The result
    /// reports whether text content changed, which a motion never does.
    pub fn move_cursor_with_shift(&mut self, m: CursorMove, shift: bool) -> (r: bool)
        requires
            old(self).wf(),
        ensures
            final(self).wf(),
            final(self).model() == bm_move_cursor(old(self).model(), m, shift),
            final(self).config() == old(self).config(),
            r == false,
    {
        if shift {
            if self.selection_start.is_none() {
                self.start_selection();
            }
        } else {
            self.cancel_selection();
        }
        let next = m.next_cursor(self.cursor, &self.lines, &self.viewport);
        if let Some(c) = next {
            self.cursor = c;
        }
        false
    }

    /// Scroll the viewport; the cursor does not follow the scroll itself but
    /// is clamped back into the shifted viewport, and an active selection
    /// survives the clamp.
    pub fn scroll(&mut self, s: Scrolling)
        requires
            old(self).wf(),
        ensures
            final(self).wf(),
            final(self).model() == bm_scroll(old(self).model(), s),
            final(self).config() == old(self).config(),
    {
        let shift = self.selection_start.is_some();
        self.viewport.scroll(s);
        self.move_cursor_with_shift(CursorMove::InViewport, shift);
    }
    /// The current lines. Never empty: an empty buffer is one empty line.
    pub fn lines(&self) -> (r: &Vec<String>)
        ensures
            r == &self.lines,
    {
        &self.lines
    }

    /// Give up the buffer and keep only its lines.
    pub fn into_lines(self) -> (r: Vec<String>)
        ensures
            r == self.lines,
    {
        self.lines
    }

    /// The cursor as a 0-based, character-wise (row, column) pair.
    pub fn cursor(&self) -> (r: (usize, usize))
        ensures
            r == self.cursor,
    {
        self.cursor
    }

    /// Whether the content is exactly one empty line.
    pub fn is_empty(&self) -> (r: bool)
        ensures
            r == (self.lines@.len() == 1 && self.model().lines[0].len() == 0),
    {
        self.lines.len() == 1 && self.lines[0].as_str().unicode_len() == 0
    }

    /// The yanked text, chunks joined with `\n`.
    pub fn yank_text(&self) -> (r: String)
        ensures
            r@ == join_lines(self.model().yank),
    {
        match &self.yank {
            YankText::Piece(s) => s.clone(),
            YankText::Chunk(v) => crate::textutil::join_lines_exec(v),
        }
    }

    /// Replace the yanked text; `\n` and `\r\n` are recognized as line
    /// breaks, a bare `\r` is not.
    pub fn set_yank_text(&mut self, text: &str)
        ensures
            final(self).model() == (BufferModel {
                yank: crate::textutil::spec_split_newlines(text@),
                yank_chunk: crate::textutil::spec_split_newlines(text@).len() >= 2,
                ..old(self).model()
            }),
            final(self).config() == old(self).config(),
            old(self).wf() ==> final(self).wf(),
    {
        let mut pieces = crate::textutil::split_newlines(text);
        if pieces.len() == 1 {
            let p = pieces.remove(0);
            proof {
                assert(seq![p@] =~= crate::textutil::spec_split_newlines(text@));
            }
            self.yank = YankText::Piece(p);
        } else {
            self.yank = YankText::Chunk(pieces);
        }
    }

    /// The buffer's base style.
    pub fn style(&self) -> (r: Style)
        ensures
            r == self.style,
    {
        self.style
    }

    /// The placeholder text; an empty string means the placeholder is
    /// disabled.
    pub fn placeholder_text(&self) -> (r: &str)
        ensures
            r@ == self.placeholder@,
    {
        self.placeholder.as_str()
    }

    /// The placeholder style, or `None` while the placeholder text is empty
    /// and the placeholder therefore disabled.
    pub fn placeholder_style(&self) -> (r: Option<Style>)
        ensures
            r == if self.placeholder@.len() == 0 {
                None::<Style>
            } else {
                Some(self.placeholder_style)
            },
    {
        if self.placeholder.as_str().unicode_len() == 0 {
            None
        } else {
            Some(self.placeholder_style)
        }
    }

    /// The style of the cursor cell.
    pub fn cursor_style(&self) -> (r: Style)
        ensures
            r == self.cursor_style,
    {
        self.cursor_style
    }

    /// The style of selected text.
    pub fn selection_style(&mut self) -> (r: Style)
        ensures
            r == old(self).select_style,
            *final(self) == *old(self),
    {
        self.select_style
    }

    /// Replace the style of selected text.
    pub fn set_selection_style(&mut self, style: Style)
        ensures
            *final(self) == (TextArea { select_style: style, ..*old(self) }),
    {
        self.select_style = style;
    }

    /// The text alignment.
    pub fn alignment(&self) -> (r: Alignment)
        ensures
            r == self.alignment,
    {
        self.alignment
    }

    /// This buffer with another base style.
    pub fn with_style(self, style: Style) -> (r: TextArea)
        ensures
            r == (TextArea { style, ..self }),
    {
        TextArea { style, ..self }
    }

    /// This buffer with another placeholder text.
    pub fn with_placeholder(self, placeholder: String) -> (r: TextArea)
        ensures
            r == (TextArea { placeholder, ..self }),
    {
        TextArea { placeholder, ..self }
    }

    /// This buffer with another placeholder style.
    pub fn with_placeholder_style(self, style: Style) -> (r: TextArea)
        ensures
            r == (TextArea { placeholder_style: style, ..self }),
    {
        TextArea { placeholder_style: style, ..self }
    }

    /// This buffer with a masking character, or none. A set mask replaces
    /// every rendered character without changing the stored content.
    pub fn with_mask_char(self, mask: Option<char>) -> (r: TextArea)
        ensures
            r == (TextArea { mask, ..self }),
    {
        TextArea { mask, ..self }
    }

    /// This buffer with another cursor style.
    pub fn with_cursor_style(self, style: Style) -> (r: TextArea)
        ensures
            r == (TextArea { cursor_style: style, ..self }),
    {
        TextArea { cursor_style: style, ..self }
    }

    /// This buffer with another text alignment.
    pub fn with_alignment(self, alignment: Alignment) -> (r: TextArea)
        ensures
            r == (TextArea { alignment, ..self }),
    {
        TextArea { alignment, ..self }
    }
}

impl Default for TextArea {
    /// A buffer holding one empty line.
    fn default() -> (r: TextArea)
        ensures
            r.wf(),
            r.model().lines == seq![Seq::<char>::empty()],
            r.model().row == 0 && r.model().col == 0,
            r.model().selection is None,
    {
        let r = TextArea::new(Vec::new());
        r
    }
}

/// Dropping the selection anchor is idempotent: a second call leaves the
/// state exactly where the first one left it.
pub proof fn lemma_cancel_selection_idempotent(m: BufferModel)
    ensures
        bm_cancel_selection(bm_cancel_selection(m)) == bm_cancel_selection(m),
{
}

/// The selection range is always normalized: when a range exists, its first
/// position lies strictly before its second, and both are valid positions of
/// the buffer.
pub proof fn lemma_sel_range_normalized(m: BufferModel)
    requires
        m_wf(m),
    ensures
        match bm_sel_range(m) {
            Some((s, e)) => pos_le(s, e) && s != e && s.0 < m.lines.len() && s.1
                <= m.lines[s.0 as int].len() && e.0 < m.lines.len() && e.1
                <= m.lines[e.0 as int].len(),
            None => true,
        },
{
}

/// A motion moves only the cursor and the anchor: the lines and the yank
/// store stay exactly as they were, whatever the motion and the shift flag.
pub proof fn lemma_motion_preserves_content(m: BufferModel, mv: CursorMove, shift: bool)
    ensures
        bm_move_cursor(m, mv, shift).lines == m.lines,
        bm_move_cursor(m, mv, shift).yank == m.yank,
        bm_move_cursor(m, mv, shift).yank_chunk == m.yank_chunk,
{
}

/// Inserting a character and backspacing it out again restores the buffer:
/// on a well-formed state with no active selection range, for any character
/// that is not a line break, the two operations compose to the identity (up
/// to the anchor, which the insert drops), and the backspace reports a
/// deletion.
pub proof fn lemma_insert_delete_roundtrip(m: BufferModel, c: char)
    requires
        m_wf(m),
        bm_sel_range(m) is None,
        c != '\n',
        c != '\r',
        m.col < usize::MAX,
    ensures
        bm_op_delete_char(bm_op_insert_char(m, c)) == (bm_cancel_selection(m), true),
{
    let m1 = bm_cancel_selection(m);
    assert(bm_delete_selection(m, false).0 == m1);
    let line = m1.lines[m1.row as int];
    let inserted = line.subrange(0, m1.col as int) + seq![c] + line.subrange(
        m1.col as int,
        line.len() as int,
    );
    let m2 = bm_op_insert_char(m, c);
    assert(m2.lines == m1.lines.update(m1.row as int, inserted));
    assert(m2.col == m1.col + 1);
    assert(bm_sel_range(m2) is None);
    assert(bm_delete_selection(m2, true).0 == m2);
    let m3 = bm_op_delete_char(m2).0;
    let restored_line = inserted.subrange(0, m2.col - 1) + inserted.subrange(
        m2.col as int,
        inserted.len() as int,
    );
    assert(restored_line =~= line);
    assert(m3.lines =~= m1.lines);
    assert(m3 == m1);
}

} // verus!
