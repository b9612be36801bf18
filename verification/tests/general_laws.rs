use cool_rust_input::{
    CoolInput, CustomInputHandler, Event, EventOutcome, HandlerContext, InputTransform, KeyCode,
    KeyEvent, KeyEventKind, TextInputData,
};

fn key(code: KeyCode) -> KeyEvent {
    KeyEvent { code, kind: KeyEventKind::Press, control: false }
}

fn on_position(d: &mut TextInputData) -> bool {
    let lines = d.get_amt_lines();
    d.cursor_y < lines && d.cursor_x <= d.get_current_line_length().unwrap()
}

/// A sequence of numbers that looks random and is the same in every run.
struct Numbers(u64);

impl Numbers {
    fn next(&mut self, below: u64) -> u64 {
        self.0 = self.0.wrapping_mul(6364136223846793005).wrapping_add(1442695040888963407);
        (self.0 >> 33) % below
    }

    fn code(&mut self) -> KeyCode {
        match self.next(16) {
            0 | 1 => KeyCode::Char('a'),
            2 => KeyCode::Char('\u{e9}'),
            3 | 4 => KeyCode::Enter,
            5 => KeyCode::Backspace,
            6 => KeyCode::Delete,
            7 => KeyCode::Tab,
            8 => KeyCode::Left,
            9 => KeyCode::Right,
            10 => KeyCode::Up,
            11 => KeyCode::Down,
            12 => KeyCode::Home,
            13 => KeyCode::End,
            14 => KeyCode::Char('\n'),
            _ => KeyCode::Other,
        }
    }
}

struct Small;

impl CustomInputHandler for Small {
    fn get_input_transform(&mut self, _ctx: HandlerContext) -> InputTransform {
        InputTransform { size: (4, 3), offset: (1, 1) }
    }
}

#[test]
fn plain_characters_stay_on_one_line() {
    let mut d = TextInputData { text: String::new(), cursor_x: 0, cursor_y: 0, tab_width: 4 };
    for (count, c) in "hello, w\u{f6}rld \t\r!".chars().enumerate() {
        assert_eq!(d.write_char(c), Ok(()));
        assert_eq!(d.get_amt_lines(), 1);
        assert_eq!(d.get_current_line_length(), Ok(count + 1));
        assert_eq!((d.cursor_x, d.cursor_y), (count + 1, 0));
    }
    assert_eq!(d.text, "hello, w\u{f6}rld \t\r!");
}

#[test]
fn plain_characters_inserted_anywhere_stay_on_one_line() {
    let mut d = TextInputData { text: String::new(), cursor_x: 0, cursor_y: 0, tab_width: 4 };
    let mut numbers = Numbers(3);
    for count in 0..40usize {
        let x = numbers.next(count as u64 + 1) as usize;
        d.insert_char('x', x, 0);
        d.cursor_y = 0;
        assert_eq!(d.get_amt_lines(), 1);
        assert_eq!(d.get_current_line_length(), Ok(count + 1));
    }
}

#[test]
fn enter_then_backspace_restores_document_and_cursor() {
    let text = "ab\ncdef\n\ng\n";
    let mut positions = Vec::new();
    for (row, line) in text.split('\n').enumerate() {
        for col in 0..=line.chars().count() {
            positions.push((col, row));
        }
    }
    assert_eq!(positions.len(), 12);
    for (col, row) in positions {
        let mut d =
            TextInputData { text: String::from(text), cursor_x: col, cursor_y: row, tab_width: 4 };
        assert_eq!(d.handle_key_press(key(KeyCode::Enter)), Ok(()));
        assert_eq!((d.cursor_x, d.cursor_y), (0, row + 1));
        assert_eq!(d.get_amt_lines(), 6);
        assert_ne!(d.text, text);
        assert_eq!(d.handle_key_press(key(KeyCode::Backspace)), Ok(()));
        assert_eq!(d.text, text);
        assert_eq!((d.cursor_x, d.cursor_y), (col, row));
    }
}

#[test]
fn inserted_break_then_remove_character_restores_the_document() {
    let mut d = TextInputData { text: String::from("abcd"), cursor_x: 2, cursor_y: 0, tab_width: 4 };
    d.insert_char('\n', 2, 0);
    d.cursor_x = 0;
    d.cursor_y = 1;
    assert_eq!(d.text, "ab\ncd");
    assert_eq!(d.remove_character(0, 1), Ok(()));
    assert_eq!(d.text, "abcd");
    assert_eq!((d.cursor_x, d.cursor_y), (2, 0));
}

#[test]
fn the_cursor_stays_on_the_document_whatever_is_pressed() {
    for seed in 0..20u64 {
        let mut numbers = Numbers(seed);
        let mut d = TextInputData { text: String::new(), cursor_x: 0, cursor_y: 0, tab_width: 2 };
        for _ in 0..200 {
            let code = numbers.code();
            assert_eq!(d.handle_key_press(key(code)), Ok(()));
            assert!(on_position(&mut d));
        }
    }
}

#[test]
fn the_viewport_shows_the_cursor_whatever_is_pressed() {
    for seed in 0..20u64 {
        let mut numbers = Numbers(seed + 100);
        let mut input = CoolInput::new(Small, 2);
        for _ in 0..200 {
            let code = numbers.code();
            let event = Event::Key(key(code));
            let outcome = input.handle_event(event, (80, 23));
            assert_eq!(outcome, Ok(EventOutcome::Render));
            assert!(on_position(&mut input.text_data));
            let (x, y) = (input.text_data.cursor_x, input.text_data.cursor_y);
            assert!(input.scroll_x <= x && x < input.scroll_x + 4);
            assert!(input.scroll_y <= y && y < input.scroll_y + 3);
            let frame = input.render((80, 23));
            let place = frame.cursor.unwrap();
            assert_eq!(place.0 as usize, 1 + x - input.scroll_x);
            assert_eq!(place.1 as usize, 1 + y - input.scroll_y);
        }
    }
}

#[test]
fn the_viewport_loses_a_cursor_that_it_did_not_show() {
    let mut input = CoolInput::new(Small, 2);
    input.text_data.text = String::from("a\nb\nc\nd\ne\nf\ng");
    input.scroll_y = 5;
    let down = Event::Key(key(KeyCode::Down));
    assert_eq!(input.handle_event(down, (80, 23)), Ok(EventOutcome::Render));
    assert_eq!(input.text_data.cursor_y, 1);
    assert_eq!(input.scroll_y, 5);
    let up = Event::Key(key(KeyCode::Up));
    assert_eq!(input.handle_event(up, (80, 23)), Ok(EventOutcome::Render));
    assert_eq!(input.text_data.cursor_y, 0);
    assert_eq!(input.scroll_y, 0);
}

#[test]
fn a_trailing_break_opens_an_empty_last_line() {
    for text in ["\n", "a\n", "a\nb\n", "\n\n"] {
        let mut with = TextInputData { text: String::from(text), cursor_x: 0, cursor_y: 0, tab_width: 4 };
        let mut without = TextInputData {
            text: String::from(&text[..text.len() - 1]),
            cursor_x: 0,
            cursor_y: 0,
            tab_width: 4,
        };
        let lines = with.get_amt_lines();
        assert_eq!(lines, without.get_amt_lines() + 1);
        assert_eq!(with.get_line_at(lines - 1), Some(""));
        assert_eq!(with.get_line_at(lines), None);
    }
}
