//! The editing operations of the text buffer.
//!
//! Every operation here is total on well-formed buffers: an edit that cannot
//! apply reports `false` and leaves the state unchanged, and none of them can
//! leave the buffer without a line or the cursor out of bounds. Each contract
//! equates the new state with the matching spec transition on [`BufferModel`].

use vstd::prelude::*;
use vstd::string::*;
use crate::input::Input;
use crate::cursor::CursorMove;
use crate::textarea::{
    bm_delete_range, bm_delete_selection, bm_insert_chunk, bm_insert_piece, bm_op_delete_char,
    bm_op_delete_newline, bm_op_delete_next_char, bm_op_delete_str, bm_op_input, bm_op_insert_char,
    bm_op_insert_newline, bm_op_insert_str, bm_op_insert_tab, bm_tab_fill, delete_walk,
    lemma_view_insert, lemma_view_push, lemma_view_remove, lemma_view_update, str_seq_view,
    TextArea, YankText,
};
use crate::textutil::{line_char_len, line_replace_range, push_char, split_newlines};
use crate::width::{char_width, display_width, display_width_of_char};
use vstd::pervasive::unreached;

verus! {

impl TextArea {
    /// Delete from (`sr`, `sc`) up to but excluding (`er`, `ec`), leaving the
    /// cursor on the range's start and yanking the deleted text if asked to.
    /// An end row equal to the line count (with end column 0) deletes to the
    /// end of the buffer.
    fn delete_range(&mut self, sr: usize, sc: usize, er: usize, ec: usize, should_yank: bool)
        requires
            old(self).wf(),
            old(self).selection_start is None,
            sr <= er,
            sr < old(self).lines@.len(),
            sc <= old(self).model().lines[sr as int].len(),
            er < old(self).lines@.len() ==> ec <= old(self).model().lines[er as int].len(),
            er >= old(self).lines@.len() ==> er == old(self).lines@.len() && ec == 0,
            sr == er ==> sc <= ec,
        ensures
            final(self).wf(),
            final(self).model() == bm_delete_range(old(self).model(), sr, sc, er, ec, should_yank),
            final(self).config() == old(self).config(),
    {
        self.cursor = (sr, sc);
        if sr == er {
            let removed = self.lines[sr].as_str().substring_char(sc, ec).to_owned();
            let (new_line, _new_len) = line_replace_range(&self.lines[sr], sc, ec, "");
            proof {
                reveal_strlit("");
                assert(new_line@ =~= old(self).model().lines[sr as int].subrange(0, sc as int)
                    + old(self).model().lines[sr as int].subrange(
                    ec as int,
                    old(self).model().lines[sr as int].len() as int,
                ));
            }
            self.lines[sr] = new_line;
            if should_yank {
                self.yank = YankText::Piece(removed);
            }
            proof {
                assert(final(self).model().lines =~= bm_delete_range(
                    old(self).model(),
                    sr,
                    sc,
                    er,
                    ec,
                    should_yank,
                ).lines);
                if should_yank {
                    assert(final(self).model().yank =~= bm_delete_range(
                        old(self).model(),
                        sr,
                        sc,
                        er,
                        ec,
                        should_yank,
                    ).yank);
                }
            }
        } else {
            let ghost lines0 = old(self).model().lines;
            let ghost n0 = old(self).lines@.len() as int;
            let n_sr = line_char_len(&self.lines[sr]);
            let first_del = self.lines[sr].as_str().substring_char(sc, n_sr).to_owned();
            let head = self.lines[sr].as_str().substring_char(0, sc).to_owned();
            let mut deleted: Vec<String> = Vec::new();
            deleted.push(first_del);
            let mut removed_count: usize = 0;
            while removed_count < er - sr - 1
                invariant
                    old(self).wf(),
                    sr < er <= n0,
                    sc <= lines0[sr as int].len(),
                    removed_count <= er - sr - 1,
                    lines0 == str_seq_view(old(self).lines@),
                    n0 == lines0.len(),
                    str_seq_view(self.lines@) =~= lines0.subrange(0, sr + 1) + lines0.subrange(
                        sr + 1 + removed_count,
                        n0,
                    ),
                    str_seq_view(deleted@) =~= seq![lines0[sr as int].subrange(sc as int, lines0[sr as int].len() as int)]
                        + lines0.subrange(sr + 1, sr + 1 + removed_count),
                    self.cursor == (sr, sc),
                    self.yank == old(self).yank,
                    self.selection_start == old(self).selection_start,
                    self.tab_len == old(self).tab_len,
                    self.viewport == old(self).viewport,
                    self.config() == old(self).config(),
                decreases er - sr - 1 - removed_count,
            {
                let ghost prev_lines = self.lines@;
                let ghost prev_deleted = deleted@;
                proof {
                    assert(lines0.subrange(0, sr + 1).len() == sr + 1);
                    assert(str_seq_view(self.lines@).len() == n0 - removed_count);
                    assert(sr + 1 < self.lines@.len());
                }
                let gone = self.lines.remove(sr + 1);
                deleted.push(gone);
                removed_count = removed_count + 1;
                proof {
                    lemma_view_remove(prev_lines, sr + 1);
                    lemma_view_push(prev_deleted, gone);
                    assert(gone@ == str_seq_view(prev_lines)[sr + 1]);
                    assert(str_seq_view(self.lines@) =~= lines0.subrange(0, sr + 1)
                        + lines0.subrange(sr + 1 + removed_count, n0));
                    assert(str_seq_view(deleted@) =~= seq![lines0[sr as int].subrange(sc as int, lines0[sr as int].len() as int)]
                        + lines0.subrange(sr + 1, sr + 1 + removed_count));
                }
            }
            if sr + 1 < self.lines.len() {
                let ghost prev_lines = self.lines@;
                let last = self.lines.remove(sr + 1);
                proof {
                    lemma_view_remove(prev_lines, sr + 1);
                    assert(last@ == str_seq_view(prev_lines)[sr + 1]);
                    assert(last@ == lines0[er as int]);
                }
                let nl = line_char_len(&last);
                let tail = last.as_str().substring_char(ec, nl).to_owned();
                let kept = last.as_str().substring_char(0, ec).to_owned();
                let merged = head.concat(tail.as_str());
                let ghost mid_lines = self.lines@;
                let ghost mid_deleted = deleted@;
                self.lines[sr] = merged;
                deleted.push(kept);
                if should_yank {
                    self.yank = YankText::Chunk(deleted);
                }
                proof {
                    lemma_view_update(mid_lines, sr as int, merged);
                    lemma_view_push(mid_deleted, kept);
                    let spec_out = bm_delete_range(
                        old(self).model(),
                        sr,
                        sc,
                        er,
                        ec,
                        should_yank,
                    );
                    assert(final(self).model().lines =~= spec_out.lines);
                    assert(final(self).model().yank =~= spec_out.yank);
                }
            } else {
                let ghost mid_lines = self.lines@;
                self.lines[sr] = head;
                if should_yank {
                    self.yank = YankText::Chunk(deleted);
                }
                proof {
                    lemma_view_update(mid_lines, sr as int, head);
                    let spec_out = bm_delete_range(
                        old(self).model(),
                        sr,
                        sc,
                        er,
                        ec,
                        should_yank,
                    );
                    assert(final(self).model().lines =~= spec_out.lines);
                    assert(final(self).model().yank =~= spec_out.yank);
                }
            }
        }
    }

    /// Delete the selected range if a non-degenerate one exists, yanking it
    /// iff requested; the anchor is dropped either way. Reports whether
    /// anything was deleted.
    pub fn delete_selection(&mut self, should_yank: bool) -> (r: bool)
        requires
            old(self).wf(),
        ensures
            final(self).wf(),
            final(self).model() == bm_delete_selection(old(self).model(), should_yank).0,
            r == bm_delete_selection(old(self).model(), should_yank).1,
            final(self).config() == old(self).config(),
    {
        let range = self.selection_range();
        self.selection_start = None;
        if let Some((s, e)) = range {
            self.delete_range(s.0, s.1, e.0, e.1, should_yank);
            true
        } else {
            false
        }
    }

    /// Insert a one-line piece at the cursor, advancing the cursor past it.
    /// The selection is left alone: the public inserts discard it first.
    fn insert_piece(&mut self, s: String) -> (r: bool)
        requires
            old(self).wf(),
        ensures
            final(self).wf(),
            final(self).model() == bm_insert_piece(old(self).model(), s@).0,
            r == bm_insert_piece(old(self).model(), s@).1,
            final(self).config() == old(self).config(),
    {
        let plen = line_char_len(&s);
        if plen == 0 {
            return false;
        }
        let (row, col) = self.cursor;
        let n = line_char_len(&self.lines[row]);
        let (new_line, new_len) = line_replace_range(&self.lines[row], col, col, s.as_str());
        self.lines[row] = new_line;
        self.cursor = (row, new_len - (n - col));
        proof {
            assert(final(self).model().lines =~= bm_insert_piece(old(self).model(), s@).0.lines);
        }
        true
    }

    /// Split the current line at the cursor, the cursor landing at the head
    /// of the new line. Any selected text is discarded first, never yanked.
    pub fn insert_newline(&mut self) -> (r: bool)
        requires
            old(self).wf(),
        ensures
            final(self).wf(),
            final(self).model() == bm_op_insert_newline(old(self).model()),
            r == true,
            final(self).config() == old(self).config(),
    {
        self.delete_selection(false);
        let (row, col) = self.cursor;
        // Measuring the line count here puts its machine bound in scope for
        // the row arithmetic below.
        let _nlines = self.lines.len();
        let n = line_char_len(&self.lines[row]);
        let head = self.lines[row].as_str().substring_char(0, col).to_owned();
        let tail = self.lines[row].as_str().substring_char(col, n).to_owned();
        let ghost mid_lines = self.lines@;
        self.lines[row] = head;
        let ghost mid_lines2 = self.lines@;
        self.lines.insert(row + 1, tail);
        self.cursor = (row + 1, 0);
        proof {
            lemma_view_update(mid_lines, row as int, head);
            lemma_view_insert(mid_lines2, row + 1, tail);
            assert(final(self).model().lines =~= bm_op_insert_newline(old(self).model()).lines);
        }
        true
    }

    /// Insert one character at the cursor, advancing the cursor by one; a
    /// line break character inserts a newline instead. Any selected text is
    /// discarded first, never yanked.
    pub fn insert_char(&mut self, c: char)
        requires
            old(self).wf(),
        ensures
            final(self).wf(),
            final(self).model() == bm_op_insert_char(old(self).model(), c),
            final(self).config() == old(self).config(),
    {
        if c == '\n' || c == '\r' {
            self.insert_newline();
            return ;
        }
        self.delete_selection(false);
        let mut piece = String::new();
        push_char(&mut piece, c);
        proof {
            assert(piece@ =~= seq![c]);
        }
        self.insert_piece(piece);
    }

    /// Insert a multi-line chunk at the cursor: the current line splits
    /// there, the first piece joins the head, the last piece joins the tail,
    /// and the pieces between become lines of their own. The cursor lands at
    /// the end of the last piece.
    fn insert_chunk(&mut self, chunk: Vec<String>) -> (r: bool)
        requires
            old(self).wf(),
            old(self).selection_start is None,
            chunk@.len() >= 2,
        ensures
            final(self).wf(),
            final(self).model() == bm_insert_chunk(old(self).model(), str_seq_view(chunk@)),
            r == true,
            final(self).config() == old(self).config(),
    {
        let ghost ps = str_seq_view(chunk@);
        let ghost lines0 = old(self).model().lines;
        let ghost n0 = old(self).lines@.len() as int;
        let mut chunk = chunk;
        let k = chunk.len();
        let (row, col) = self.cursor;
        let n = line_char_len(&self.lines[row]);
        let head = self.lines[row].as_str().substring_char(0, col).to_owned();
        let tail = self.lines[row].as_str().substring_char(col, n).to_owned();
        let last = match chunk.pop() {
            Some(p) => p,
            None => unreached(),
        };
        let last_len = line_char_len(&last);
        let merged_last = last.concat(tail.as_str());
        let _nlines = self.lines.len();
        let ghost before_insert = self.lines@;
        self.lines.insert(row + 1, merged_last);
        proof {
            lemma_view_insert(before_insert, row + 1, merged_last);
        }
        while chunk.len() > 1
            invariant
                old(self).wf(),
                1 <= chunk@.len() <= ps.len() - 1,
                2 <= ps.len(),
                row == old(self).cursor.0 && col == old(self).cursor.1,
                lines0 == str_seq_view(old(self).lines@),
                n0 == lines0.len(),
                row < n0,
                str_seq_view(chunk@) =~= ps.subrange(0, chunk@.len() as int),
                str_seq_view(self.lines@) =~= lines0.subrange(0, row + 1) + ps.subrange(
                    chunk@.len() as int,
                    ps.len() - 1,
                ) + seq![ps[ps.len() - 1] + lines0[row as int].subrange(col as int, lines0[row as int].len() as int)]
                    + lines0.subrange(row + 1, n0),
                self.cursor == old(self).cursor,
                self.yank == old(self).yank,
                self.selection_start == old(self).selection_start,
                self.tab_len == old(self).tab_len,
                self.viewport == old(self).viewport,
                self.config() == old(self).config(),
            decreases chunk@.len(),
        {
            let ghost prev_chunk = chunk@;
            let ghost prev_lines = self.lines@;
            let p = match chunk.pop() {
                Some(p) => p,
                None => unreached(),
            };
            let _cur_len = self.lines.len();
            proof {
                assert(p@ == str_seq_view(prev_chunk)[prev_chunk.len() - 1]);
                assert(lines0.subrange(0, row + 1).len() == row + 1);
                assert(str_seq_view(self.lines@).len() == (row + 1) + (ps.len() - 1
                    - prev_chunk.len()) + 1 + (n0 - (row + 1)));
                assert(row + 1 <= self.lines@.len());
            }
            self.lines.insert(row + 1, p);
            proof {
                lemma_view_insert(prev_lines, row + 1, p);
                assert(str_seq_view(chunk@) =~= ps.subrange(0, chunk@.len() as int));
                assert(str_seq_view(self.lines@) =~= lines0.subrange(0, row + 1) + ps.subrange(
                    chunk@.len() as int,
                    ps.len() - 1,
                ) + seq![ps[ps.len() - 1] + lines0[row as int].subrange(col as int, lines0[row as int].len() as int)]
                    + lines0.subrange(row + 1, n0));
            }
        }
        let ghost last_chunk = chunk@;
        let first = match chunk.pop() {
            Some(p) => p,
            None => unreached(),
        };
        proof {
            assert(first@ == str_seq_view(last_chunk)[0]);
            assert(first@ == ps[0]);
        }
        let merged_first = head.concat(first.as_str());
        let ghost before_update = self.lines@;
        self.lines[row] = merged_first;
        let newlen = self.lines.len();
        proof {
            lemma_view_update(before_update, row as int, merged_first);
            assert(self.lines@.len() == n0 + ps.len() - 1);
            assert(row + (k - 1) < newlen);
        }
        self.cursor = (row + (k - 1), last_len);
        proof {
            assert(final(self).model().lines =~= bm_insert_chunk(old(self).model(), ps).lines);
        }
        true
    }

    /// Insert a string at the cursor; `\n` and `\r\n` are recognized as line
    /// breaks, a bare `\r` is not. One resulting piece goes in place; several
    /// split the current line structurally. Any selected text is discarded
    /// first, never yanked. Reports whether text was inserted.
    pub fn insert_str(&mut self, s: &str) -> (r: bool)
        requires
            old(self).wf(),
        ensures
            final(self).wf(),
            final(self).model() == bm_op_insert_str(old(self).model(), s@).0,
            r == bm_op_insert_str(old(self).model(), s@).1,
            final(self).config() == old(self).config(),
    {
        self.delete_selection(false);
        let mut pieces = split_newlines(s);
        if pieces.len() == 1 {
            let p = pieces.remove(0);
            proof {
                assert(p@ == crate::textutil::spec_split_newlines(s@)[0]);
            }
            self.insert_piece(p)
        } else {
            self.insert_chunk(pieces)
        }
    }

    /// Insert spaces up to the next tab stop, measured in display columns
    /// before the cursor; with tab width 0 nothing is inserted. Any selected
    /// text is discarded first, never yanked.
    pub fn insert_tab(&mut self) -> (r: bool)
        requires
            old(self).wf(),
        ensures
            final(self).wf(),
            final(self).model() == bm_op_insert_tab(old(self).model()).0,
            r == bm_op_insert_tab(old(self).model()).1,
            final(self).config() == old(self).config(),
    {
        let modified = self.delete_selection(false);
        if self.tab_len == 0 {
            return modified;
        }
        let (row, col) = self.cursor;
        let tab = self.tab_len as usize;
        let ghost line = self.model().lines[row as int];
        let mut wm: usize = 0;
        let mut j: usize = 0;
        proof {
            assert(line.subrange(0, 0) =~= Seq::<char>::empty());
        }
        while j < col
            invariant
                j <= col,
                1 <= tab <= 255,
                col <= line.len(),
                row == self.cursor.0 && col == self.cursor.1,
                row < self.lines@.len(),
                line == self.model().lines[row as int],
                wm as int == (display_width(line.subrange(0, j as int)) as int) % (tab as int),
                wm < tab,
            decreases col - j,
        {
            let c = self.lines[row].as_str().get_char(j);
            let w = display_width_of_char(c);
            let ghost width_before = display_width(line.subrange(0, j as int)) as int;
            wm = (wm + w) % tab;
            j = j + 1;
            proof {
                assert(line.subrange(0, j as int).drop_last() =~= line.subrange(0, j - 1));
                assert(line.subrange(0, j as int).last() == line[j - 1]);
                assert((display_width(line.subrange(0, j as int)) as int) == width_before
                    + char_width(c));
                vstd::arithmetic::div_mod::lemma_add_mod_noop_right(
                    char_width(c) as int,
                    width_before,
                    tab as int,
                );
            }
        }
        let fill = self.tab_len - (wm as u8);
        let sp = crate::textutil::spaces(fill);
        proof {
            assert(line.subrange(0, col as int) =~= line.subrange(0, j as int));
            assert(sp@ =~= Seq::new(
                bm_tab_fill(bm_delete_selection(old(self).model(), false).0) as nat,
                |i: int| ' ',
            ));
        }
        self.insert_piece(sp)
    }

    /// Merge the cursor's line into the end of the previous one; nothing
    /// happens on the first row. Any selected text is deleted instead,
    /// discarded rather than yanked.
    pub fn delete_newline(&mut self) -> (r: bool)
        requires
            old(self).wf(),
        ensures
            final(self).wf(),
            final(self).model() == bm_op_delete_newline(old(self).model()).0,
            r == bm_op_delete_newline(old(self).model()).1,
            final(self).config() == old(self).config(),
    {
        if self.delete_selection(false) {
            return true;
        }
        let (row, _col) = self.cursor;
        if row == 0 {
            return false;
        }
        let ghost before_remove = self.lines@;
        let line = self.lines.remove(row);
        proof {
            lemma_view_remove(before_remove, row as int);
        }
        let prevn = line_char_len(&self.lines[row - 1]);
        let merged = self.lines[row - 1].clone().concat(line.as_str());
        let ghost before_update = self.lines@;
        self.lines[row - 1] = merged;
        self.cursor = (row - 1, prevn);
        proof {
            lemma_view_update(before_update, row - 1, merged);
            assert(final(self).model().lines =~= bm_op_delete_newline(old(self).model()).0.lines);
        }
        true
    }

    /// Backspace: delete the character before the cursor, or at the head of
    /// a line the line break before it. Any selected text is deleted (and
    /// yanked) instead.
    pub fn delete_char(&mut self) -> (r: bool)
        requires
            old(self).wf(),
        ensures
            final(self).wf(),
            final(self).model() == bm_op_delete_char(old(self).model()).0,
            r == bm_op_delete_char(old(self).model()).1,
            final(self).config() == old(self).config(),
    {
        if self.delete_selection(true) {
            return true;
        }
        let (row, col) = self.cursor;
        if col == 0 {
            return self.delete_newline();
        }
        let (new_line, _new_len) = line_replace_range(&self.lines[row], col - 1, col, "");
        proof {
            reveal_strlit("");
        }
        let ghost before_update = self.lines@;
        self.lines[row] = new_line;
        self.cursor = (row, col - 1);
        proof {
            lemma_view_update(before_update, row as int, new_line);
            assert(final(self).model().lines =~= bm_op_delete_char(old(self).model()).0.lines);
        }
        true
    }

    /// Forward delete: delete the character after the cursor, or at the end
    /// of a line the line break after it; at the very end of the buffer
    /// nothing happens. Any selected text is deleted (and yanked) instead.
    pub fn delete_next_char(&mut self) -> (r: bool)
        requires
            old(self).wf(),
        ensures
            final(self).wf(),
            final(self).model() == bm_op_delete_next_char(old(self).model()).0,
            r == bm_op_delete_next_char(old(self).model()).1,
            final(self).config() == old(self).config(),
    {
        if self.delete_selection(true) {
            return true;
        }
        let before = self.cursor;
        self.move_cursor_with_shift(CursorMove::Forward, false);
        if before.0 == self.cursor.0 && before.1 == self.cursor.1 {
            return false;
        }
        self.delete_char()
    }

    /// Delete `chars` units forward from the cursor, where each character
    /// and each crossed line break counts as one unit, and yank the deleted
    /// text. Zero units delete nothing. Any selected text is deleted (and
    /// yanked) instead, ignoring the count.
    pub fn delete_str(&mut self, chars: usize) -> (r: bool)
        requires
            old(self).wf(),
        ensures
            final(self).wf(),
            final(self).model() == bm_op_delete_str(old(self).model(), chars).0,
            r == bm_op_delete_str(old(self).model(), chars).1,
            final(self).config() == old(self).config(),
    {
        if self.delete_selection(true) {
            return true;
        }
        if chars == 0 {
            return false;
        }
        let (sr, sc) = self.cursor;
        let n0 = line_char_len(&self.lines[sr]);
        if chars <= n0 - sc {
            self.delete_range(sr, sc, sr, sc + chars, true);
            return true;
        }
        let ghost snap = *self;
        let ghost rem0 = chars - (n0 - sc) - 1;
        let mut remaining = chars - (n0 - sc) - 1;
        let len = self.lines.len();
        let mut r = sr + 1;
        while r < len
            invariant
                snap == *self,
                snap.wf(),
                snap.selection_start is None,
                snap.model() == bm_delete_selection(old(self).model(), true).0,
                !bm_delete_selection(old(self).model(), true).1,
                snap.config() == old(self).config(),
                chars > snap.model().lines[sr as int].len() - sc,
                rem0 == chars - (snap.model().lines[sr as int].len() - sc) - 1,
                sr < snap.lines@.len(),
                sc <= snap.model().lines[sr as int].len(),
                sr + 1 <= r <= len,
                len == snap.lines@.len(),
                sr == snap.cursor.0 && sc == snap.cursor.1,
                delete_walk(snap.model().lines, r as int, remaining as int) == delete_walk(
                    snap.model().lines,
                    sr + 1,
                    rem0,
                ),
            decreases len - r,
        {
            let ln = line_char_len(&self.lines[r]);
            if remaining <= ln {
                self.delete_range(sr, sc, r, remaining, true);
                return true;
            }
            remaining = remaining - ln - 1;
            r = r + 1;
        }
        self.delete_range(sr, sc, len, 0, true);
        true
    }

    /// Handle one classified key input: each class maps to one editing
    /// primitive — forward delete, backspace, tab, any line break (modified
    /// Enter, a literal line break character, or Enter itself), a plain
    /// character, and the shift-aware motions. Anything else is a no-op.
    /// Reports whether text content changed.
    pub fn input(&mut self, input: Input) -> (r: bool)
        requires
            old(self).wf(),
        ensures
            final(self).wf(),
            final(self).model() == bm_op_input(old(self).model(), input).0,
            r == bm_op_input(old(self).model(), input).1,
            final(self).config() == old(self).config(),
    {
        if input.is_delete() {
            self.delete_next_char()
        } else if input.is_backspace() {
            self.delete_char()
        } else if input.is_tab() {
            self.insert_tab()
        } else if input.is_newline() {
            self.insert_newline()
        } else if let Some(c) = input.maybe_char() {
            self.insert_char(c);
            true
        } else if input.is_down() {
            self.move_cursor_with_shift(CursorMove::Down, input.shift)
        } else if input.is_up() {
            self.move_cursor_with_shift(CursorMove::Up, input.shift)
        } else if input.is_left() {
            self.move_cursor_with_shift(CursorMove::Back, input.shift)
        } else if input.is_right() {
            self.move_cursor_with_shift(CursorMove::Forward, input.shift)
        } else if input.is_home() {
            self.move_cursor_with_shift(CursorMove::Head, input.shift)
        } else if input.is_end() {
            self.move_cursor_with_shift(CursorMove::End, input.shift)
        } else if input.is_ctrl_left() {
            self.move_cursor_with_shift(CursorMove::WordBack, input.shift)
        } else if input.is_ctrl_right() {
            self.move_cursor_with_shift(CursorMove::WordForward, input.shift)
        } else {
            false
        }
    }
}

} // verus!
