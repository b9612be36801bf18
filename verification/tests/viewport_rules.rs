use cool_rust_input::input::Pending;
use cool_rust_input::viewport::{
    adjustment_fits, cursor_on_screen, keep_scroll_axis_in_view, row_in_view, visible_lines,
};
use cool_rust_input::{
    CoolInput, DefaultInputHandler, Event, InputError, InputTransform, KeyCode, KeyEvent,
    KeyEventKind, KeyPressResult, MouseEventKind,
};
use cool_rust_input::handler::{default_input_transform, default_key_press, stops};

#[test]
fn clip_leaves_a_transform_that_fits() {
    let t = InputTransform { size: (70, 18), offset: (5, 5) };
    assert_eq!(t.clip((80, 23)), t);
    let edge = InputTransform { size: (75, 18), offset: (5, 5) };
    assert_eq!(edge.clip((80, 23)), edge);
}

#[test]
fn clip_cuts_the_size_down_to_the_terminal() {
    let t = InputTransform { size: (80, 24), offset: (5, 5) };
    assert_eq!(t.clip((80, 23)), InputTransform { size: (75, 18), offset: (5, 5) });
    let wide = InputTransform { size: (200, 10), offset: (0, 0) };
    assert_eq!(wide.clip((80, 23)), InputTransform { size: (80, 10), offset: (0, 0) });
}

#[test]
fn clip_leaves_nothing_behind_an_offset_beyond_the_terminal() {
    let t = InputTransform { size: (10, 10), offset: (100, 0) };
    assert_eq!(t.clip((80, 23)), InputTransform { size: (0, 10), offset: (100, 0) });
    let low = InputTransform { size: (10, 10), offset: (0, 23) };
    assert_eq!(low.clip((80, 23)), InputTransform { size: (10, 0), offset: (0, 23) });
}

#[test]
fn clip_handles_the_largest_numbers() {
    let t = InputTransform { size: (u16::MAX, u16::MAX), offset: (u16::MAX, 1) };
    assert_eq!(
        t.clip((u16::MAX, u16::MAX)),
        InputTransform { size: (0, u16::MAX - 1), offset: (u16::MAX, 1) }
    );
}

#[test]
fn the_viewport_follows_a_cursor_that_leaves_it_at_the_end() {
    assert_eq!(keep_scroll_axis_in_view(0, 4, 5, true), 0);
    assert_eq!(keep_scroll_axis_in_view(0, 5, 5, true), 1);
    assert_eq!(keep_scroll_axis_in_view(2, 9, 5, true), 5);
    assert_eq!(keep_scroll_axis_in_view(3, 7, 5, true), 3);
    assert_eq!(keep_scroll_axis_in_view(0, 0, 1, true), 0);
    assert_eq!(keep_scroll_axis_in_view(0, 1, 1, true), 1);
}

#[test]
fn the_viewport_follows_a_cursor_that_leaves_it_at_the_start() {
    assert_eq!(keep_scroll_axis_in_view(3, 1, 5, false), 1);
    assert_eq!(keep_scroll_axis_in_view(3, 3, 5, false), 3);
    assert_eq!(keep_scroll_axis_in_view(3, 0, 5, false), 0);
    assert_eq!(keep_scroll_axis_in_view(3, 4, 5, false), 3);
}

#[test]
fn the_viewport_stays_where_the_move_does_not_call_for_it() {
    assert_eq!(keep_scroll_axis_in_view(5, 1, 3, true), 5);
    assert_eq!(keep_scroll_axis_in_view(0, 9, 3, false), 0);
}

#[test]
fn a_viewport_without_cells_begins_behind_the_cursor() {
    assert_eq!(keep_scroll_axis_in_view(0, 3, 0, true), 4);
    assert_eq!(keep_scroll_axis_in_view(9, 3, 0, true), 9);
    assert_eq!(keep_scroll_axis_in_view(9, 3, 0, false), 3);
}

#[test]
fn the_adjustment_fits_but_for_the_largest_cursor_in_no_cells() {
    assert!(adjustment_fits(0, 3, 0, true));
    assert!(adjustment_fits(0, usize::MAX, 1, true));
    assert!(adjustment_fits(0, usize::MAX, 0, false));
    assert!(!adjustment_fits(0, usize::MAX, 0, true));
    assert_eq!(keep_scroll_axis_in_view(0, usize::MAX, 1, true), usize::MAX);
}

#[test]
fn rows_in_view() {
    assert!(row_in_view(0, 0, 1));
    assert!(!row_in_view(0, 1, 1));
    assert!(row_in_view(2, 4, 3));
    assert!(!row_in_view(2, 5, 3));
    assert!(!row_in_view(2, 1, 3));
    assert!(!row_in_view(0, 0, 0));
    assert!(!row_in_view(usize::MAX, 0, u16::MAX));
    assert!(row_in_view(usize::MAX, usize::MAX, 1));
}

#[test]
fn the_cursor_on_the_screen() {
    let t = InputTransform { size: (10, 5), offset: (2, 3) };
    assert_eq!(cursor_on_screen(3, 2, 1, 1, &t, (80, 23)), Some((4, 4)));
    assert_eq!(cursor_on_screen(0, 0, 0, 0, &t, (80, 23)), Some((2, 3)));
    assert_eq!(cursor_on_screen(10, 4, 0, 0, &t, (80, 23)), Some((12, 7)));
}

#[test]
fn the_cursor_stays_within_the_rectangle() {
    let t = InputTransform { size: (10, 5), offset: (2, 3) };
    assert_eq!(cursor_on_screen(50, 0, 0, 0, &t, (80, 23)), Some((12, 3)));
    assert_eq!(cursor_on_screen(0, 0, 4, 0, &t, (80, 23)), Some((2, 3)));
}

#[test]
fn the_cursor_stays_within_the_terminal() {
    let t = InputTransform { size: (10, 5), offset: (2, 3) };
    assert_eq!(cursor_on_screen(9, 4, 0, 0, &t, (8, 6)), Some((8, 5)));
    assert_eq!(cursor_on_screen(9, 0, 0, 0, &t, (8, 0)), Some((8, 0)));
}

#[test]
fn the_cursor_is_hidden_on_a_row_that_is_not_shown() {
    let t = InputTransform { size: (10, 5), offset: (2, 3) };
    assert_eq!(cursor_on_screen(0, 0, 0, 1, &t, (80, 23)), None);
    assert_eq!(cursor_on_screen(0, 5, 0, 0, &t, (80, 23)), None);
    assert_eq!(cursor_on_screen(0, 6, 0, 1, &t, (80, 23)), None);
    let flat = InputTransform { size: (10, 0), offset: (2, 3) };
    assert_eq!(cursor_on_screen(0, 0, 0, 0, &flat, (80, 23)), None);
}

#[test]
fn visible_lines_of_a_document() {
    let t = InputTransform { size: (2, 4), offset: (3, 1) };
    let lines = visible_lines("ab\ncdef\n", 1, 0, &t);
    assert_eq!(lines.len(), 4);
    let texts: Vec<&str> = lines.iter().map(|l| l.text.as_str()).collect();
    assert_eq!(texts, vec!["b", "de", "", ""]);
    let places: Vec<(usize, usize)> = lines.iter().map(|l| (l.x, l.y)).collect();
    assert_eq!(places, vec![(3, 1), (3, 2), (3, 3), (3, 4)]);
}

#[test]
fn visible_lines_scrolled_down() {
    let t = InputTransform { size: (10, 2), offset: (0, 0) };
    let lines = visible_lines("one\ntwo\nthree\nfour", 0, 2, &t);
    let texts: Vec<&str> = lines.iter().map(|l| l.text.as_str()).collect();
    assert_eq!(texts, vec!["three", "four"]);
    let below = visible_lines("one\ntwo\nthree\nfour", 0, 3, &t);
    let texts: Vec<&str> = below.iter().map(|l| l.text.as_str()).collect();
    assert_eq!(texts, vec!["four", ""]);
    let far = visible_lines("one\ntwo", 0, usize::MAX, &t);
    let texts: Vec<&str> = far.iter().map(|l| l.text.as_str()).collect();
    assert_eq!(texts, vec!["", ""]);
}

#[test]
fn visible_lines_scrolled_to_the_right() {
    let t = InputTransform { size: (3, 2), offset: (0, 0) };
    let lines = visible_lines("abcdefgh\nxy", 2, 0, &t);
    let texts: Vec<&str> = lines.iter().map(|l| l.text.as_str()).collect();
    assert_eq!(texts, vec!["cde", ""]);
    let far = visible_lines("abcdefgh\nxy", usize::MAX, 0, &t);
    let texts: Vec<&str> = far.iter().map(|l| l.text.as_str()).collect();
    assert_eq!(texts, vec!["", ""]);
}

#[test]
fn visible_lines_of_no_rows_or_no_columns() {
    let flat = InputTransform { size: (5, 0), offset: (1, 1) };
    assert_eq!(visible_lines("abc", 0, 0, &flat).len(), 0);
    let thin = InputTransform { size: (0, 2), offset: (1, 1) };
    let lines = visible_lines("abc\ndef", 0, 0, &thin);
    let texts: Vec<&str> = lines.iter().map(|l| l.text.as_str()).collect();
    assert_eq!(texts, vec!["", ""]);
}

#[test]
fn stop_keys() {
    let key = |code, kind, control| Event::Key(KeyEvent { code, kind, control });
    assert!(stops(&key(KeyCode::Esc, KeyEventKind::Press, false)));
    assert!(stops(&key(KeyCode::Esc, KeyEventKind::Press, true)));
    assert!(stops(&key(KeyCode::Char('c'), KeyEventKind::Press, true)));
    assert!(!stops(&key(KeyCode::Char('c'), KeyEventKind::Press, false)));
    assert!(!stops(&key(KeyCode::Char('C'), KeyEventKind::Press, true)));
    assert!(!stops(&key(KeyCode::Char('d'), KeyEventKind::Press, true)));
    assert!(!stops(&key(KeyCode::Esc, KeyEventKind::Release, false)));
    assert!(!stops(&key(KeyCode::Esc, KeyEventKind::Repeat, false)));
    assert!(!stops(&key(KeyCode::Enter, KeyEventKind::Press, false)));
    assert!(!stops(&Event::Mouse(MouseEventKind::ScrollUp)));
    assert!(!stops(&Event::Other));
}

#[test]
fn the_default_answer_stops_on_stop_keys_only() {
    let escape =
        Event::Key(KeyEvent { code: KeyCode::Esc, kind: KeyEventKind::Press, control: false });
    let letter =
        Event::Key(KeyEvent { code: KeyCode::Char('a'), kind: KeyEventKind::Press, control: false });
    assert_eq!(default_key_press(&escape), KeyPressResult::Stop);
    assert_eq!(default_key_press(&letter), KeyPressResult::Continue);
    assert_eq!(default_key_press(&Event::Mouse(MouseEventKind::ScrollDown)), KeyPressResult::Continue);
}

#[test]
fn the_default_transform_fills_the_terminal() {
    assert_eq!(
        default_input_transform((80, 23)),
        InputTransform { size: (80, 23), offset: (0, 0) }
    );
}

#[test]
fn dispatch_of_a_handled_event_leaves_the_viewport_to_follow() {
    let mut input = CoolInput::new(DefaultInputHandler, 4);
    let letter =
        Event::Key(KeyEvent { code: KeyCode::Char('a'), kind: KeyEventKind::Press, control: false });
    assert_eq!(input.dispatch(KeyPressResult::Handled, &letter), Ok(Pending::Sync));
    assert_eq!(input.text_data.text, "");
    assert_eq!(input.dispatch(KeyPressResult::Continue, &letter), Ok(Pending::Sync));
    assert_eq!(input.text_data.text, "a");
}

#[test]
fn dispatch_stops_the_input() {
    let mut input = CoolInput::new(DefaultInputHandler, 4);
    input.listening = true;
    let letter =
        Event::Key(KeyEvent { code: KeyCode::Char('a'), kind: KeyEventKind::Press, control: false });
    assert_eq!(input.dispatch(KeyPressResult::Stop, &letter), Ok(Pending::Stop));
    assert!(!input.listening);
    assert_eq!(input.text_data.text, "");
}

#[test]
fn dispatch_of_the_wheel() {
    let mut input = CoolInput::new(DefaultInputHandler, 4);
    input.scroll_y = 1;
    let up = Event::Mouse(MouseEventKind::ScrollUp);
    let down = Event::Mouse(MouseEventKind::ScrollDown);
    assert_eq!(input.dispatch(KeyPressResult::Continue, &down), Ok(Pending::WheelDown));
    assert_eq!(input.scroll_y, 1);
    assert_eq!(input.dispatch(KeyPressResult::Continue, &up), Ok(Pending::Draw));
    assert_eq!(input.scroll_y, 0);
    assert_eq!(input.dispatch(KeyPressResult::Continue, &up), Ok(Pending::Draw));
    assert_eq!(input.scroll_y, 0);
    assert_eq!(input.dispatch(KeyPressResult::Handled, &up), Ok(Pending::Sync));
    assert_eq!(input.dispatch(KeyPressResult::Continue, &Event::Other), Ok(Pending::Nothing));
}

#[test]
fn dispatch_fails_where_the_key_fails() {
    let mut input = CoolInput::new(DefaultInputHandler, 4);
    input.text_data.cursor_x = 1;
    let letter =
        Event::Key(KeyEvent { code: KeyCode::Char('a'), kind: KeyEventKind::Press, control: false });
    assert_eq!(input.dispatch(KeyPressResult::Continue, &letter), Err(InputError::OutOfBounds));
    assert_eq!(input.text_data.text, "");
    assert_eq!(input.dispatch(KeyPressResult::Handled, &letter), Ok(Pending::Sync));
}

#[test]
fn scroll_down_goes_down_to_the_last_line() {
    let mut input = CoolInput::new(DefaultInputHandler, 4);
    input.text_data.text = String::from("a\nb\nc\nd\ne");
    for row in 1..=4usize {
        assert!(input.scroll_down());
        assert_eq!(input.scroll_y, row);
    }
    assert!(!input.scroll_down());
    assert_eq!(input.scroll_y, 4);
    input.scroll_y = 9;
    assert!(!input.scroll_down());
    assert_eq!(input.scroll_y, 9);
    input.scroll_y = usize::MAX;
    assert!(!input.scroll_down());
    assert_eq!(input.scroll_y, usize::MAX);
    assert_eq!(input.scroll_x, 0);
    assert_eq!(input.text_data.text, "a\nb\nc\nd\ne");
}

#[test]
fn scroll_down_counts_the_line_after_a_trailing_break() {
    let mut input = CoolInput::new(DefaultInputHandler, 4);
    input.text_data.text = String::from("a\n");
    assert!(input.scroll_down());
    assert!(!input.scroll_down());
    assert_eq!(input.scroll_y, 1);
}

#[test]
fn a_frame_holds_the_lines_and_the_cursor() {
    let mut input = CoolInput::new(DefaultInputHandler, 4);
    input.text_data.text = String::from("abcdef\nghi\n");
    input.text_data.cursor_x = 3;
    input.text_data.cursor_y = 1;
    input.scroll_x = 1;
    let t = InputTransform { size: (4, 4), offset: (2, 1) };
    let frame = input.frame(&t, (80, 23));
    let texts: Vec<&str> = frame.lines.iter().map(|l| l.text.as_str()).collect();
    assert_eq!(texts, vec!["bcde", "hi", "", ""]);
    let places: Vec<(usize, usize)> = frame.lines.iter().map(|l| (l.x, l.y)).collect();
    assert_eq!(places, vec![(2, 1), (2, 2), (2, 3), (2, 4)]);
    assert_eq!(frame.cursor, Some((4, 2)));
    input.scroll_y = 2;
    let below = input.frame(&t, (80, 23));
    let texts: Vec<&str> = below.lines.iter().map(|l| l.text.as_str()).collect();
    assert_eq!(texts, vec!["", "", "", ""]);
    assert_eq!(below.cursor, None);
    assert_eq!(input.update_text((80, 23)).len(), 23);
    assert_eq!(input.update_text((80, 23))[0].text, "");
    input.scroll_y = 0;
    assert_eq!(input.update_text((80, 23))[0].text, "bcdef");
    assert_eq!(input.update_text((3, 23))[0].text, "bcd");
    assert_eq!(input.update_cursor((80, 23)), Some((2, 1)));
}

#[test]
fn scroll_to_cursor_adjusts_each_axis_on_its_own() {
    let mut input = CoolInput::new(DefaultInputHandler, 4);
    input.text_data.cursor_x = 12;
    input.text_data.cursor_y = 1;
    input.scroll_y = 4;
    let t = InputTransform { size: (10, 3), offset: (0, 0) };
    input.scroll_to_cursor(&t, true, false);
    assert_eq!((input.scroll_x, input.scroll_y), (3, 1));
    let none = InputTransform { size: (0, 0), offset: (0, 0) };
    input.text_data.cursor_x = usize::MAX;
    input.scroll_to_cursor(&none, true, true);
    assert_eq!((input.scroll_x, input.scroll_y), (3, 2));
}
