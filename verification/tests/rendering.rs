//! Rendering scenarios: the line highlighter and its display transform.

use matetui::cursor::CursorMove;
use matetui::highlight::{LineHighlighter, Span};
use matetui::style::{Color, Style, MOD_REVERSED};
use matetui::textarea::TextArea;

fn buf(lines: &[&str]) -> TextArea {
    TextArea::new(lines.iter().map(|s| s.to_string()).collect())
}

fn joined(spans: &[Span]) -> String {
    spans.iter().map(|s| s.content.as_str()).collect()
}

#[test]
fn masking_hides_content_without_changing_it() {
    let ta = buf(&["secret"]).with_mask_char(Some('*'));
    let spans = ta.line_spans("secret", 0);
    let text = joined(&spans);
    assert_eq!(text, "******");
    assert!(text.chars().all(|c| c == '*'));
    assert_eq!(ta.lines()[0], "secret");
}

#[test]
fn cursor_cell_gets_the_cursor_style() {
    let mut ta = buf(&["hello"]);
    ta.move_cursor_with_shift(CursorMove::Forward, false);
    let spans = ta.line_spans("hello", 0);
    assert_eq!(joined(&spans), "hello");
    assert_eq!(spans[0].content, "h");
    assert_eq!(spans[1].content, "e");
    assert_eq!(spans[1].style.modifiers & MOD_REVERSED, MOD_REVERSED);
    assert_eq!(spans[2].content, "llo");
}

#[test]
fn cursor_past_the_last_character_adds_a_space() {
    let mut ta = buf(&["ab"]);
    ta.move_cursor_with_shift(CursorMove::End, false);
    let spans = ta.line_spans("ab", 0);
    assert_eq!(joined(&spans), "ab ");
    let last = spans.last().unwrap();
    assert_eq!(last.content, " ");
    assert_eq!(last.style, ta.cursor_style());
}

#[test]
fn rows_without_cursor_render_plain() {
    let ta = buf(&["ab", "cd"]);
    let spans = ta.line_spans("cd", 1);
    assert_eq!(spans.len(), 1);
    assert_eq!(spans[0].content, "cd");
    assert_eq!(spans[0].style, Style::plain());
}

#[test]
fn selection_splits_the_line_into_runs() {
    let mut ta = buf(&["hello"]);
    ta.move_cursor_with_shift(CursorMove::Forward, false);
    ta.start_selection();
    ta.move_cursor_with_shift(CursorMove::Forward, true);
    ta.move_cursor_with_shift(CursorMove::Forward, true);
    // Anchor (0,1), cursor (0,3): "el" selected, the cursor cell on "l".
    let spans = ta.line_spans("hello", 0);
    assert_eq!(joined(&spans), "hello");
    let texts: Vec<&str> = spans.iter().map(|s| s.content.as_str()).collect();
    assert_eq!(texts, vec!["h", "el", "l", "o"]);
    assert_eq!(spans[1].style.bg, Some(Color::LightBlue));
    assert_eq!(spans[2].style.modifiers & MOD_REVERSED, MOD_REVERSED);
}

#[test]
fn selection_across_rows_covers_whole_middle_rows() {
    let mut ta = buf(&["ab", "cd", "ef"]);
    ta.move_cursor_with_shift(CursorMove::Forward, false);
    ta.start_selection();
    ta.move_cursor_with_shift(CursorMove::Down, true);
    ta.move_cursor_with_shift(CursorMove::Down, true);
    // Selection (0,1)..(2,1): the middle row is fully covered and keeps the
    // selection visible past its last character.
    let spans = ta.line_spans("cd", 1);
    assert_eq!(joined(&spans), "cd ");
    assert_eq!(spans[0].style.bg, Some(Color::LightBlue));
    // The first row is covered from the anchor on.
    let spans = ta.line_spans("ab", 0);
    assert_eq!(joined(&spans), "ab ");
}

#[test]
fn cursor_wins_inside_a_selection() {
    let cursor_style = Style::plain().add_modifier(MOD_REVERSED);
    let select_style = Style::plain().bg(Color::LightBlue);
    let mut hl = LineHighlighter::new("abcd", cursor_style, 2, None, select_style);
    hl.cursor_line(1, Style::plain());
    hl.selection(0, 0, 0, 0, 4);
    let spans = hl.into_spans();
    let texts: Vec<&str> = spans.iter().map(|s| s.content.as_str()).collect();
    assert_eq!(texts, vec!["a", "b", "cd"]);
    assert_eq!(spans[0].style, select_style);
    assert_eq!(spans[1].style, cursor_style);
    assert_eq!(spans[2].style, select_style);
}

#[test]
fn search_matches_get_their_style() {
    let style = Style::plain().fg(Color::Yellow);
    let mut hl = LineHighlighter::new("abcd", Style::plain(), 2, None, Style::plain());
    hl.search(vec![(1, 3)], style);
    let spans = hl.into_spans();
    let texts: Vec<&str> = spans.iter().map(|s| s.content.as_str()).collect();
    assert_eq!(texts, vec!["a", "bc", "d"]);
    assert_eq!(spans[1].style, style);
}

#[test]
fn tabs_expand_to_the_next_tab_stop() {
    let ta = buf(&["", "a\tb"]);
    let spans = ta.line_spans("a\tb", 1);
    assert_eq!(joined(&spans), "a b");
    let ta = buf(&["", "ab\tc"]);
    let spans = ta.line_spans("ab\tc", 1);
    assert_eq!(joined(&spans), "ab  c");
}

#[test]
fn masking_keeps_character_count_for_wide_text() {
    let ta = buf(&["", "\u{6f22}\u{5b57}"]).with_mask_char(Some('*'));
    let spans = ta.line_spans("\u{6f22}\u{5b57}", 1);
    assert_eq!(joined(&spans), "**");
}

#[test]
fn empty_line_renders_nothing_without_cursor() {
    let ta = buf(&["ab", ""]);
    let spans = ta.line_spans("", 1);
    assert_eq!(spans.len(), 0);
}
