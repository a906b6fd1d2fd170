//! The smaller widgets and helpers: grid selector, switch, viewport, input
//! classification, word scanning, validation.

use matetui::events::{Action, ActionKind};
use matetui::gridselector::{GridItem, GridSelector, GridSelectorState};
use matetui::input::{Input, Key};
use matetui::style::Color;
use matetui::switch::{Rect, Switch};
use matetui::textarea::TextArea;
use matetui::textutil::{find_word_start_backward, find_word_start_forward, spaces};
use matetui::validation::{required_validator, RequiredValidator, ValidationResult};
use matetui::viewport::{Scrolling, Viewport};

fn grid(n: usize, columns: usize) -> GridSelectorState {
    let items: Vec<GridItem> = (0..n).map(|i| GridItem::new(format!("item{}", i))).collect();
    GridSelectorState::new(items).columns(columns)
}

#[test]
fn grid_starts_hovering_the_first_item() {
    let state = grid(7, 5);
    assert_eq!(state.selected_index(), None);
    assert_eq!(state.hovered().unwrap().as_str(), "item0");
}

#[test]
fn grid_moves_right_and_wraps() {
    let mut state = grid(3, 5);
    assert!(state.move_right());
    assert!(state.move_right());
    assert_eq!(state.hovered().unwrap().as_str(), "item2");
    assert!(state.move_right());
    assert_eq!(state.hovered().unwrap().as_str(), "item0");
}

#[test]
fn grid_moves_left_and_wraps() {
    let mut state = grid(3, 5);
    assert!(state.move_left());
    assert_eq!(state.hovered().unwrap().as_str(), "item2");
    assert!(state.move_left());
    assert_eq!(state.hovered().unwrap().as_str(), "item1");
}

#[test]
fn grid_moves_down_a_full_row() {
    let mut state = grid(10, 5);
    assert!(state.move_down());
    assert_eq!(state.hovered().unwrap().as_str(), "item5");
    assert!(!state.move_down());
}

#[test]
fn grid_down_shifts_into_a_centered_last_row() {
    // Eight items in five columns: the last row holds three, drawn centered.
    let mut state = grid(8, 5);
    state.move_right();
    assert!(state.move_down());
    assert_eq!(state.hovered().unwrap().as_str(), "item5");

    let mut state = grid(8, 5);
    assert!(state.move_down());
    assert_eq!(state.hovered().unwrap().as_str(), "item5");

    let mut state = grid(8, 5);
    for _ in 0..4 {
        state.move_right();
    }
    assert!(state.move_down());
    assert_eq!(state.hovered().unwrap().as_str(), "item7");
}

#[test]
fn grid_up_shifts_out_of_a_centered_last_row() {
    let mut state = grid(8, 5);
    state.move_down();
    assert_eq!(state.hovered().unwrap().as_str(), "item5");
    assert!(state.move_up());
    assert_eq!(state.hovered().unwrap().as_str(), "item1");

    let mut state = grid(10, 5);
    assert!(!state.move_up());
}

#[test]
fn grid_row_start_and_end() {
    let mut state = grid(8, 5);
    state.move_down();
    assert!(state.move_to_row_start());
    assert_eq!(state.hovered().unwrap().as_str(), "item5");
    assert!(state.move_to_row_end());
    assert_eq!(state.hovered().unwrap().as_str(), "item7");
    state.move_up();
    assert!(state.move_to_row_end());
    assert_eq!(state.hovered().unwrap().as_str(), "item4");
}

#[test]
fn grid_select_takes_the_hovered_item() {
    let mut state = grid(4, 2);
    state.move_right();
    assert!(state.select());
    assert_eq!(state.selected_index(), Some(1));
    assert_eq!(state.selected().unwrap().as_str(), "item1");
}

#[test]
fn grid_color_precedence() {
    let sel = GridSelector::default()
        .with_color(Color::White)
        .with_hovered_color(Color::Blue)
        .with_selected_color(Color::Green);
    let mut state = grid(3, 3);
    state.select();
    state.move_right();
    // Item 0 is selected, item 1 hovered, item 2 plain.
    assert_eq!(sel.get_color(0, &state), Color::Green);
    assert_eq!(sel.get_color(1, &state), Color::Blue);
    assert_eq!(sel.get_color(2, &state), Color::White);
}

#[test]
fn switch_layout_splits_two_halves() {
    let sw = Switch::with_status(true);
    let area = Rect { x: 1, y: 2, width: 20, height: 5 };
    let (left, right) = sw.get_layout(area);
    assert_eq!(left, Rect { x: 1, y: 2, width: 7, height: 2 });
    assert_eq!(right, Rect { x: 8, y: 2, width: 7, height: 2 });
    // A narrow area cuts the halves down.
    let (left, right) = sw.get_layout(Rect { x: 0, y: 0, width: 10, height: 1 });
    assert_eq!(left.width, 7);
    assert_eq!(right.width, 3);
    assert_eq!(left.height, 1);
}

#[test]
fn switch_colors_follow_the_state() {
    let on = Switch::with_status(true);
    assert_eq!(on.get_left_color(), Color::Green);
    assert_eq!(on.get_right_color(), Color::White);
    let off = Switch::with_status(false)
        .with_color_off(Color::Red)
        .with_color_switch(Color::Gray);
    assert_eq!(off.get_left_color(), Color::Gray);
    assert_eq!(off.get_right_color(), Color::Red);
}

#[test]
fn viewport_scrolls_and_clamps_at_zero() {
    let mut vp = Viewport::new();
    vp.scroll(Scrolling { rows: 3, cols: 2 });
    assert_eq!(vp.position(), (3, 2, 3, 2));
    vp.scroll(Scrolling { rows: -10, cols: -1 });
    assert_eq!(vp.position(), (0, 1, 0, 1));
}

#[test]
fn input_kinds_name_each_class() {
    let press = |key: Key| Input { key, ctrl: false, alt: false, shift: false };
    assert_eq!(press(Key::Delete).kind(), ":delete");
    assert_eq!(press(Key::Backspace).kind(), ":backspace");
    assert_eq!(press(Key::Tab).kind(), ":tab");
    assert_eq!(press(Key::Enter).kind(), ":newline");
    assert_eq!(press(Key::Char('a')).kind(), ":char");
    assert_eq!(press(Key::Char('\n')).kind(), ":non-enter-newline");
    assert_eq!(press(Key::Home).kind(), ":home");
    assert_eq!(press(Key::Null).kind(), "");
    let ctrl_left = Input { key: Key::Left, ctrl: true, alt: false, shift: false };
    assert_eq!(ctrl_left.kind(), ":word-left");
    let shift_enter = Input { key: Key::Enter, ctrl: false, alt: false, shift: true };
    assert_eq!(shift_enter.kind(), ":non-enter-newline");
}

#[test]
fn input_predicates_respect_modifiers() {
    let ctrl_a = Input { key: Key::Char('a'), ctrl: true, alt: false, shift: false };
    assert_eq!(ctrl_a.maybe_char(), None);
    assert!(!ctrl_a.is_char());
    let plain_a = Input { key: Key::Char('a'), ctrl: false, alt: false, shift: true };
    assert_eq!(plain_a.maybe_char(), Some('a'));
    assert!(plain_a.is_char());
    assert!(Input { key: Key::End, ctrl: true, alt: true, shift: false }.is_end());
    assert!(!Input { key: Key::Left, ctrl: false, alt: false, shift: false }.is_ctrl_left());
}

#[test]
fn word_scans_find_boundaries() {
    assert_eq!(find_word_start_forward("fn foo(a)", 0), Some(3));
    assert_eq!(find_word_start_forward("fn foo(a)", 3), Some(6));
    assert_eq!(find_word_start_forward("abc", 0), None);
    assert_eq!(find_word_start_backward("fn foo(a)", 6), Some(3));
    assert_eq!(find_word_start_backward("fn foo(a)", 3), Some(0));
    assert_eq!(find_word_start_backward("  ab", 1), None);
    assert_eq!(find_word_start_backward("ab", 0), None);
}

#[test]
fn spaces_builds_a_run() {
    assert_eq!(spaces(0), "");
    assert_eq!(spaces(4), "    ");
}

#[test]
fn required_validator_rejects_empty_text() {
    assert_eq!(required_validator(""), Err("This field is required".to_string()));
    assert_eq!(required_validator("x"), Ok(()));
}

#[test]
fn validation_gathers_failures_in_order() {
    let ta = TextArea::new(Vec::new());
    let validators = vec![RequiredValidator, RequiredValidator];
    match ta.validate(&validators) {
        ValidationResult::Invalid(msgs) => {
            assert_eq!(msgs, vec![
                "This field is required".to_string(),
                "This field is required".to_string(),
            ]);
        },
        ValidationResult::Valid => panic!("empty content must fail the required rule"),
    }
    assert!(!ta.is_valid(&validators));
    let filled = TextArea::new(vec!["x".to_string()]);
    assert!(filled.is_valid(&validators));
    assert!(ta.is_valid(&Vec::<RequiredValidator>::new()));
}

#[test]
fn validation_joins_lines_with_newlines() {
    let ta = TextArea::new(vec!["a".to_string(), "b".to_string()]);
    assert_eq!(ta.joined_text(), "a\nb");
}

#[test]
fn actions_are_plain_data() {
    let a = Action::AppAction("save".to_string());
    assert_eq!(a, Action::AppAction("save".to_string()));
    assert_ne!(a, Action::Quit);
    match ActionKind::from_name("save".to_string()) {
        ActionKind::Stringified(s) => assert_eq!(s, "save"),
        ActionKind::Full(_) => panic!("a name stays a name"),
    }
    match ActionKind::from_action(Action::Resize(80, 24)) {
        ActionKind::Full(Action::Resize(w, h)) => {
            assert_eq!((w, h), (80, 24));
        },
        _ => panic!("a full action stays full"),
    }
}
