//! The state of a text input as a mathematical value, and what each key does
//! to it.

use vstd::prelude::*;
use crate::document::{
    has_position, inserted, inserted_run, line_count, line_len, removed_before, LINE_BREAK,
};
use crate::event::KeyCode;

verus! {

/// A document, the cursor in it and the width of a tab stop.
pub struct TextModel {
    pub text: Seq<char>,
    pub cursor_x: nat,
    pub cursor_y: nat,
    pub tab_width: nat,
}

impl TextModel {
    /// The state of a fresh input: an empty document with the cursor at its
    /// start.
    pub open spec fn empty(tab_width: nat) -> TextModel {
        TextModel { text: Seq::empty(), cursor_x: 0, cursor_y: 0, tab_width }
    }

    /// Whether the document has the row that the cursor is on.
    pub open spec fn row_exists(self) -> bool {
        self.cursor_y < line_count(self.text)
    }

    /// Whether the cursor is on a position of the document: on a row that
    /// exists, at a column that is at most the length of that row.
    pub open spec fn well_formed(self) -> bool {
        has_position(self.text, self.cursor_y, self.cursor_x)
    }

    /// The length of the row that the cursor is on.
    pub open spec fn line_length(self) -> nat {
        line_len(self.text, self.cursor_y)
    }

    /// Whether the cursor is on the last row.
    pub open spec fn on_last_row(self) -> bool {
        self.cursor_y + 1 >= line_count(self.text)
    }

    /// The same state with the cursor at column `x` of row `y`.
    pub open spec fn moved_to(self, x: nat, y: nat) -> TextModel {
        TextModel { cursor_x: x, cursor_y: y, ..self }
    }

    /// The same state with the column brought back to the end of the row where
    /// it lies beyond it.
    pub open spec fn clamped(self) -> TextModel {
        if self.cursor_x > self.line_length() {
            self.moved_to(self.line_length(), self.cursor_y)
        } else {
            self
        }
    }

    /// One step to the left: one column back or, from the start of a row, to
    /// the end of the row above. A column beyond the end of the row ends at
    /// the end of the row.
    pub open spec fn left(self) -> TextModel {
        if self.cursor_x > 0 {
            self.moved_to((self.cursor_x - 1) as nat, self.cursor_y).clamped()
        } else if self.cursor_y > 0 {
            let above = (self.cursor_y - 1) as nat;
            self.moved_to(line_len(self.text, above), above)
        } else {
            self
        }
    }

    /// One step to the right: one column on or, from the end of a row that is
    /// not the last, to the start of the row below. A column beyond the end of
    /// the last row ends at the end of that row.
    pub open spec fn right(self) -> TextModel {
        if self.cursor_x < self.line_length() {
            self.moved_to(self.cursor_x + 1, self.cursor_y)
        } else if !self.on_last_row() {
            self.moved_to(0, self.cursor_y + 1)
        } else {
            self.clamped()
        }
    }

    /// One row up, if there is one, at the smaller of the column and the
    /// length of the row that the cursor comes to.
    pub open spec fn up(self) -> TextModel {
        if self.cursor_y > 0 {
            self.moved_to(self.cursor_x, (self.cursor_y - 1) as nat).clamped()
        } else {
            self.clamped()
        }
    }

    /// One row down, if there is one, at the smaller of the column and the
    /// length of the row that the cursor comes to.
    pub open spec fn down(self) -> TextModel {
        if !self.on_last_row() {
            self.moved_to(self.cursor_x, self.cursor_y + 1).clamped()
        } else {
            self.clamped()
        }
    }

    /// To the start of the row.
    pub open spec fn home(self) -> TextModel {
        self.moved_to(0, self.cursor_y)
    }

    /// To the end of the row.
    pub open spec fn end(self) -> TextModel {
        self.moved_to(self.line_length(), self.cursor_y)
    }

    /// The same state with `c` put into the document at column `x` of row `y`,
    /// where the document has that position.
    pub open spec fn with_char(self, c: char, x: nat, y: nat) -> TextModel {
        TextModel { text: inserted(self.text, c, y, x), ..self }
    }

    /// `c` written at the cursor: put into the document there, and the cursor
    /// one step to the right of where it was.
    pub open spec fn typed(self, c: char) -> TextModel {
        self.with_char(c, self.cursor_x, self.cursor_y).right()
    }

    /// The character before column `x` of row `y` removed from the document,
    /// and the cursor moved back: to the end of the row above it where `x` is
    /// 0, else one step to the left.
    pub open spec fn without_char_before(self, x: nat, y: nat) -> TextModel {
        let moved = if x == 0 {
            let above = if self.cursor_y > 0 {
                (self.cursor_y - 1) as nat
            } else {
                self.cursor_y
            };
            self.moved_to(line_len(self.text, above), above)
        } else {
            self.left()
        };
        TextModel { text: removed_before(self.text, y, x), ..moved }
    }

    /// A line break put in at the cursor, and the cursor at the start of the
    /// row that it opens.
    pub open spec fn entered(self) -> TextModel {
        self.with_char(LINE_BREAK, self.cursor_x, self.cursor_y).moved_to(0, self.cursor_y + 1)
    }

    /// As many spaces as a tab stop is wide put in at the cursor, and the
    /// cursor behind them.
    pub open spec fn tabbed(self) -> TextModel {
        TextModel {
            text: inserted_run(self.text, ' ', self.tab_width, self.cursor_y, self.cursor_x),
            cursor_x: self.cursor_x + self.tab_width,
            ..self
        }
    }

    /// Whether the cursor is behind the last character of the document.
    pub open spec fn at_end(self) -> bool {
        self.cursor_x >= self.line_length() && self.on_last_row()
    }

    /// The character behind the cursor removed: one step to the right, then
    /// the character before the cursor removed. Nothing happens at the end of
    /// the document.
    pub open spec fn deleted(self) -> TextModel {
        if self.at_end() {
            self
        } else {
            let stepped = self.right();
            stepped.without_char_before(stepped.cursor_x, stepped.cursor_y)
        }
    }

    /// The character before the cursor removed; nothing happens at the start
    /// of the document.
    pub open spec fn backspaced(self) -> TextModel {
        if self.cursor_x > 0 || self.cursor_y != 0 {
            self.without_char_before(self.cursor_x, self.cursor_y)
        } else {
            self
        }
    }

    /// Whether the state takes the key `code`: a key that moves the cursor
    /// needs the row of the cursor, a key that changes the document needs the
    /// cursor on a position of it, and any other key needs nothing.
    pub open spec fn takes(self, code: KeyCode) -> bool {
        match code {
            KeyCode::Left | KeyCode::Right | KeyCode::Up | KeyCode::Down | KeyCode::Home
            | KeyCode::End => self.row_exists(),
            KeyCode::Char(_) | KeyCode::Enter | KeyCode::Tab | KeyCode::Delete
            | KeyCode::Backspace => self.well_formed(),
            KeyCode::Esc | KeyCode::Other => true,
        }
    }

    /// The state after the key `code`.
    pub open spec fn pressed(self, code: KeyCode) -> TextModel {
        match code {
            KeyCode::Char(c) => self.typed(c),
            KeyCode::Enter => self.entered(),
            KeyCode::Backspace => self.backspaced(),
            KeyCode::Tab => self.tabbed(),
            KeyCode::Delete => self.deleted(),
            KeyCode::Up => self.up(),
            KeyCode::Down => self.down(),
            KeyCode::Left => self.left(),
            KeyCode::Right => self.right(),
            KeyCode::Home => self.home(),
            KeyCode::End => self.end(),
            KeyCode::Esc | KeyCode::Other => self,
        }
    }

    /// The state after the characters `chars` have been written one after the
    /// other.
    pub open spec fn typed_all(self, chars: Seq<char>) -> TextModel
        decreases chars.len(),
    {
        if chars.len() == 0 {
            self
        } else {
            self.typed_all(chars.drop_last()).typed(chars.last())
        }
    }

    /// The state after the keys `codes` one after the other.
    pub open spec fn pressed_all(self, codes: Seq<KeyCode>) -> TextModel
        decreases codes.len(),
    {
        if codes.len() == 0 {
            self
        } else {
            self.pressed_all(codes.drop_last()).pressed(codes.last())
        }
    }
}

} // verus!
