//! Editing scenarios for the text buffer.

use matetui::cursor::CursorMove;
use matetui::input::{Input, Key};
use matetui::textarea::TextArea;
use matetui::viewport::Scrolling;

fn buf(lines: &[&str]) -> TextArea {
    TextArea::new(lines.iter().map(|s| s.to_string()).collect())
}

fn lines_of(ta: &TextArea) -> Vec<String> {
    ta.lines().clone()
}

#[test]
fn new_normalizes_empty_input() {
    let ta = TextArea::new(Vec::new());
    assert_eq!(lines_of(&ta), vec![String::new()]);
    assert_eq!(ta.cursor(), (0, 0));
    assert!(ta.is_empty());
}

#[test]
fn insert_delete_roundtrip() {
    let mut ta = buf(&["hello"]);
    ta.move_cursor_with_shift(CursorMove::End, false);
    assert_eq!(ta.cursor(), (0, 5));
    ta.insert_char('!');
    assert_eq!(lines_of(&ta), vec!["hello!".to_string()]);
    assert_eq!(ta.cursor(), (0, 6));
    assert!(ta.delete_char());
    assert_eq!(lines_of(&ta), vec!["hello".to_string()]);
    assert_eq!(ta.cursor(), (0, 5));
}

#[test]
fn multi_line_selection_delete_yanks() {
    let mut ta = buf(&["ab", "cd", "ef"]);
    ta.move_cursor_with_shift(CursorMove::Forward, false);
    assert_eq!(ta.cursor(), (0, 1));
    ta.start_selection();
    ta.move_cursor_with_shift(CursorMove::Down, true);
    ta.move_cursor_with_shift(CursorMove::Down, true);
    assert_eq!(ta.cursor(), (2, 1));
    assert!(ta.delete_selection(true));
    assert_eq!(lines_of(&ta), vec!["af".to_string()]);
    assert_eq!(ta.yank_text(), "b\ncd\ne");
    assert_eq!(ta.cursor(), (0, 1));
}

#[test]
fn word_forward_lands_on_each_word() {
    let mut ta = buf(&["fn foo(a)"]);
    let mut cols = Vec::new();
    for _ in 0..4 {
        ta.move_cursor_with_shift(CursorMove::WordForward, false);
        cols.push(ta.cursor().1);
    }
    assert_eq!(cols, vec![3, 6, 7, 8]);
}

#[test]
fn tab_rounds_up_to_next_tab_stop() {
    // Tab width 2: display width 3 before the cursor takes one space.
    let mut ta = buf(&["abc"]);
    ta.move_cursor_with_shift(CursorMove::End, false);
    assert!(ta.insert_tab());
    assert_eq!(lines_of(&ta), vec!["abc ".to_string()]);
    assert_eq!(ta.cursor(), (0, 4));
    // Display width 4 before the cursor takes two spaces.
    let mut ta = buf(&["abcd"]);
    ta.move_cursor_with_shift(CursorMove::End, false);
    assert!(ta.insert_tab());
    assert_eq!(lines_of(&ta), vec!["abcd  ".to_string()]);
    assert_eq!(ta.cursor(), (0, 6));
}

#[test]
fn insert_over_selection_discards_without_yank() {
    let mut ta = buf(&["hello"]);
    ta.set_yank_text("kept");
    ta.start_selection();
    ta.move_cursor_with_shift(CursorMove::End, true);
    assert_eq!(ta.selection_range(), Some(((0, 0), (0, 5))));
    ta.insert_char('X');
    assert_eq!(lines_of(&ta), vec!["X".to_string()]);
    assert_eq!(ta.cursor(), (0, 1));
    // The discarded text never reached the yank store.
    assert_eq!(ta.yank_text(), "kept");
    assert_eq!(ta.selection_range(), None);
}

#[test]
fn cancel_selection_twice_equals_once() {
    let mut ta = buf(&["ab"]);
    ta.start_selection();
    ta.move_cursor_with_shift(CursorMove::End, true);
    ta.cancel_selection();
    let after_once = (lines_of(&ta), ta.cursor(), ta.selection_range(), ta.yank_text());
    ta.cancel_selection();
    let after_twice = (lines_of(&ta), ta.cursor(), ta.selection_range(), ta.yank_text());
    assert_eq!(after_once, after_twice);
}

#[test]
fn insert_str_single_piece() {
    let mut ta = buf(&["hello"]);
    ta.move_cursor_with_shift(CursorMove::Forward, false);
    ta.move_cursor_with_shift(CursorMove::Forward, false);
    assert!(ta.insert_str("XY"));
    assert_eq!(lines_of(&ta), vec!["heXYllo".to_string()]);
    assert_eq!(ta.cursor(), (0, 4));
    assert!(!ta.insert_str(""));
}

#[test]
fn insert_str_splits_lines() {
    let mut ta = buf(&["hello"]);
    ta.move_cursor_with_shift(CursorMove::Forward, false);
    ta.move_cursor_with_shift(CursorMove::Forward, false);
    assert!(ta.insert_str("A\nB"));
    assert_eq!(lines_of(&ta), vec!["heA".to_string(), "Bllo".to_string()]);
    assert_eq!(ta.cursor(), (1, 1));
}

#[test]
fn insert_str_takes_crlf_not_bare_cr() {
    let mut ta = buf(&[""]);
    assert!(ta.insert_str("x\r\ny"));
    assert_eq!(lines_of(&ta), vec!["x".to_string(), "y".to_string()]);
    let mut ta = buf(&[""]);
    assert!(ta.insert_str("x\ry"));
    assert_eq!(lines_of(&ta), vec!["x\ry".to_string()]);
}

#[test]
fn insert_newline_splits_at_cursor() {
    let mut ta = buf(&["hello"]);
    ta.move_cursor_with_shift(CursorMove::Forward, false);
    ta.move_cursor_with_shift(CursorMove::Forward, false);
    assert!(ta.insert_newline());
    assert_eq!(lines_of(&ta), vec!["he".to_string(), "llo".to_string()]);
    assert_eq!(ta.cursor(), (1, 0));
}

#[test]
fn backspace_at_line_head_merges_lines() {
    let mut ta = buf(&["ab", "cd"]);
    ta.move_cursor_with_shift(CursorMove::Down, false);
    assert_eq!(ta.cursor(), (1, 0));
    assert!(ta.delete_char());
    assert_eq!(lines_of(&ta), vec!["abcd".to_string()]);
    assert_eq!(ta.cursor(), (0, 2));
}

#[test]
fn backspace_at_buffer_start_is_a_noop() {
    let mut ta = buf(&["ab"]);
    assert!(!ta.delete_char());
    assert_eq!(lines_of(&ta), vec!["ab".to_string()]);
    assert!(!ta.delete_newline());
}

#[test]
fn forward_delete_at_line_end_merges() {
    let mut ta = buf(&["ab", "cd"]);
    ta.move_cursor_with_shift(CursorMove::End, false);
    assert!(ta.delete_next_char());
    assert_eq!(lines_of(&ta), vec!["abcd".to_string()]);
    assert_eq!(ta.cursor(), (0, 2));
}

#[test]
fn forward_delete_at_buffer_end_is_a_noop() {
    let mut ta = buf(&["ab"]);
    ta.move_cursor_with_shift(CursorMove::End, false);
    assert!(!ta.delete_next_char());
    assert_eq!(lines_of(&ta), vec!["ab".to_string()]);
}

#[test]
fn delete_str_counts_line_breaks_as_units() {
    let mut ta = buf(&["ab", "cd"]);
    ta.move_cursor_with_shift(CursorMove::Forward, false);
    // "b", the line break and "c" are three units.
    assert!(ta.delete_str(3));
    assert_eq!(lines_of(&ta), vec!["ad".to_string()]);
    assert_eq!(ta.yank_text(), "b\nc");
    assert_eq!(ta.cursor(), (0, 1));
}

#[test]
fn delete_str_within_one_line_yanks_a_piece() {
    let mut ta = buf(&["hello"]);
    ta.move_cursor_with_shift(CursorMove::Forward, false);
    assert!(ta.delete_str(3));
    assert_eq!(lines_of(&ta), vec!["ho".to_string()]);
    assert_eq!(ta.yank_text(), "ell");
    assert!(!ta.delete_str(0));
}

#[test]
fn delete_str_past_buffer_end_stops_there() {
    let mut ta = buf(&["ab", "cd"]);
    ta.move_cursor_with_shift(CursorMove::Forward, false);
    assert!(ta.delete_str(100));
    assert_eq!(lines_of(&ta), vec!["a".to_string()]);
    assert_eq!(ta.yank_text(), "b\ncd");
}

#[test]
fn character_columns_not_bytes() {
    let mut ta = buf(&["a\u{00e9}\u{6f22}"]);
    ta.move_cursor_with_shift(CursorMove::End, false);
    assert_eq!(ta.cursor(), (0, 3));
    assert!(ta.delete_char());
    assert_eq!(lines_of(&ta), vec!["a\u{00e9}".to_string()]);
    ta.insert_char('z');
    assert_eq!(lines_of(&ta), vec!["a\u{00e9}z".to_string()]);
}

#[test]
fn motions_wrap_between_lines() {
    let mut ta = buf(&["ab", "cd"]);
    ta.move_cursor_with_shift(CursorMove::End, false);
    ta.move_cursor_with_shift(CursorMove::Forward, false);
    assert_eq!(ta.cursor(), (1, 0));
    ta.move_cursor_with_shift(CursorMove::Back, false);
    assert_eq!(ta.cursor(), (0, 2));
    ta.move_cursor_with_shift(CursorMove::WordBack, false);
    assert_eq!(ta.cursor(), (0, 0));
    ta.move_cursor_with_shift(CursorMove::Back, false);
    assert_eq!(ta.cursor(), (0, 0));
}

#[test]
fn up_down_fit_the_column() {
    let mut ta = buf(&["long line", "ab"]);
    ta.move_cursor_with_shift(CursorMove::End, false);
    ta.move_cursor_with_shift(CursorMove::Down, false);
    assert_eq!(ta.cursor(), (1, 2));
    ta.move_cursor_with_shift(CursorMove::Up, false);
    assert_eq!(ta.cursor(), (0, 2));
    assert!(!ta.move_cursor_with_shift(CursorMove::Up, false));
    assert_eq!(ta.cursor(), (0, 2));
}

#[test]
fn selection_range_is_normalized() {
    let mut ta = buf(&["hello"]);
    ta.move_cursor_with_shift(CursorMove::End, false);
    ta.start_selection();
    assert_eq!(ta.selection_range(), None);
    ta.move_cursor_with_shift(CursorMove::Back, true);
    ta.move_cursor_with_shift(CursorMove::Back, true);
    assert_eq!(ta.selection_range(), Some(((0, 3), (0, 5))));
}

#[test]
fn motion_without_shift_cancels_selection() {
    let mut ta = buf(&["hello"]);
    ta.start_selection();
    ta.move_cursor_with_shift(CursorMove::End, true);
    assert!(ta.selection_range().is_some());
    ta.move_cursor_with_shift(CursorMove::Head, false);
    assert_eq!(ta.selection_range(), None);
}

#[test]
fn set_yank_text_splits_lines() {
    let mut ta = buf(&[""]);
    ta.set_yank_text("a\nb");
    assert_eq!(ta.yank_text(), "a\nb");
    ta.set_yank_text("a\r\nb");
    assert_eq!(ta.yank_text(), "a\nb");
    ta.set_yank_text("a\rb");
    assert_eq!(ta.yank_text(), "a\rb");
}

#[test]
fn input_dispatches_to_primitives() {
    let mut ta = buf(&["ab"]);
    let press = |key: Key| Input { key, ctrl: false, alt: false, shift: false };
    assert!(ta.input(press(Key::Char('x'))));
    assert_eq!(ta.lines()[0], "xab");
    assert!(ta.input(press(Key::Enter)));
    assert_eq!(ta.lines().len(), 2);
    assert!(ta.input(press(Key::Backspace)));
    assert_eq!(ta.lines()[0], "xab");
    assert!(!ta.input(press(Key::Esc)));
    assert!(!ta.input(press(Key::Right)));
    assert_eq!(ta.cursor(), (0, 2));
    let shift_left = Input { key: Key::Left, ctrl: false, alt: false, shift: true };
    assert!(!ta.input(shift_left));
    assert_eq!(ta.selection_range(), Some(((0, 1), (0, 2))));
    assert!(ta.input(press(Key::Delete)));
    assert_eq!(ta.lines()[0], "xb");
    assert_eq!(ta.yank_text(), "a");
}

#[test]
fn input_ctrl_arrows_move_by_words() {
    let mut ta = buf(&["fn foo(a)"]);
    let ctrl_right = Input { key: Key::Right, ctrl: true, alt: false, shift: false };
    assert!(!ta.input(ctrl_right));
    assert_eq!(ta.cursor(), (0, 3));
}

#[test]
fn scroll_clamps_cursor_into_viewport() {
    let lines: Vec<String> = (0..10).map(|i| format!("line{}", i)).collect();
    let mut ta = TextArea::new(lines);
    ta.scroll(Scrolling { rows: 3, cols: 0 });
    assert_eq!(ta.cursor(), (3, 0));
}

#[test]
fn invariant_survives_an_operation_storm() {
    let mut ta = buf(&["one", "two", "three"]);
    let keys = [
        Key::Char('a'),
        Key::Down,
        Key::End,
        Key::Enter,
        Key::Backspace,
        Key::Delete,
        Key::Up,
        Key::Tab,
        Key::Left,
        Key::Char('\n'),
        Key::Home,
        Key::Right,
    ];
    for (i, key) in keys.iter().cycle().take(60).enumerate() {
        let shift = i % 3 == 0;
        ta.input(Input { key: *key, ctrl: false, alt: false, shift });
        // The buffer invariant, observed from outside.
        assert!(ta.lines().len() >= 1);
        let (row, col) = ta.cursor();
        assert!(row < ta.lines().len());
        assert!(col <= ta.lines()[row].chars().count());
    }
}
