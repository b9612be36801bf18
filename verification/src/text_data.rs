//! The document of an input and the cursor in it.

use vstd::prelude::*;
use vstd::string::{StrSliceExecFns, StringExecFns};
use crate::document::{
    index_of, last_row, lemma_position_index, line_at, line_bounds, line_count, line_len,
    LINE_BREAK,
};
use crate::edits::{lemma_breaks_insert, lemma_insert_run};
use crate::error::InputError;
use crate::event::{KeyCode, KeyEvent};
use crate::laws::{
    lemma_pressed_well_formed, lemma_removed_at_cursor_well_formed, lemma_typed_well_formed,
};
use crate::model::TextModel;

verus! {

/// Taken on trust of the standard library: `String::push` appends the
/// character to the string, so that the characters of the string afterwards
/// are those from before, followed by `ch`.
pub assume_specification[ String::push ](s: &mut String, ch: char)
    ensures
        final(s)@ == old(s)@.push(ch),
;

/// Handles key presses, writing text, and moving the cursor.
pub struct TextInputData {
    pub text: String,
    pub cursor_x: usize,
    pub cursor_y: usize,
    pub tab_width: usize,
}

impl View for TextInputData {
    type V = TextModel;

    open spec fn view(&self) -> TextModel {
        TextModel {
            text: self.text@,
            cursor_x: self.cursor_x as nat,
            cursor_y: self.cursor_y as nat,
            tab_width: self.tab_width as nat,
        }
    }
}

/// How an operation that may fail ends: where it is `allowed`, it succeeds
/// and leaves the state `target`; where it is not, it fails with
/// `OutOfBounds` and leaves everything as it was.
pub open spec fn settled(
    before: TextInputData,
    after: TextInputData,
    result: Result<(), InputError>,
    allowed: bool,
    target: TextModel,
) -> bool {
    if allowed {
        result is Ok && after@ == target
    } else {
        result == Err::<(), InputError>(InputError::OutOfBounds) && after == before
    }
}

/// The length of line `row` of `text`.
fn row_length(text: &str, row: usize) -> (n: usize)
    requires
        row < line_count(text@),
    ensures
        n == line_len(text@, row as nat),
{
    match line_bounds(text, row) {
        Some((a, b)) => b - a,
        None => 0,
    }
}

impl TextInputData {
    /// Writes `c` at the cursor and moves the cursor one step to the right.
    /// Fails where the cursor is not on a position of the document.
    pub fn write_char(&mut self, c: char) -> (r: Result<(), InputError>)
        ensures
            settled(*old(self), *final(self), r, old(self)@.well_formed(), old(self)@.typed(c)),
            old(self)@.well_formed() ==> final(self)@.well_formed(),
    {
        match line_bounds(self.text.as_str(), self.cursor_y) {
            Some((a, b)) => {
                if self.cursor_x > b - a {
                    return Err(InputError::OutOfBounds);
                }
            },
            None => {
                return Err(InputError::OutOfBounds);
            },
        }
        proof {
            lemma_position_index(self.text@, self.cursor_y as nat, self.cursor_x as nat);
            lemma_breaks_insert(
                self.text@,
                index_of(self.text@, self.cursor_y as nat, self.cursor_x as nat),
                c,
            );
            lemma_pressed_well_formed(self@, KeyCode::Char(c));
        }
        self.insert_char(c, self.cursor_x, self.cursor_y);
        self.move_cursor_right()
    }

    /// Puts `c` into the document at column `x` of row `y`. Nothing happens
    /// where the document has no such position.
    pub fn insert_char(&mut self, c: char, x: usize, y: usize)
        ensures
            final(self)@ == old(self)@.with_char(c, x as nat, y as nat),
    {
        match line_bounds(self.text.as_str(), y) {
            Some((a, b)) => {
                if x <= b - a {
                    let p: usize = a + x;
                    let total: usize = self.text.as_str().unicode_len();
                    let mut grown = String::new();
                    grown.append(self.text.as_str().substring_char(0, p));
                    grown.push(c);
                    grown.append(self.text.as_str().substring_char(p, total));
                    proof {
                        assert(grown@ =~= self.text@.insert(p as int, c));
                    }
                    self.text = grown;
                }
            },
            None => {},
        }
    }

    /// Removes the character before column `x` of row `y` and moves the cursor
    /// back: to the end of the row above it where `x` is 0, else one step to
    /// the left. Where `x` is 0 and `y` is not, the character is the line
    /// break before row `y`, and the two rows become one. Fails where the row
    /// of the cursor does not exist.
    pub fn remove_character(&mut self, x: usize, y: usize) -> (r: Result<(), InputError>)
        ensures
            settled(
                *old(self),
                *final(self),
                r,
                old(self)@.row_exists(),
                old(self)@.without_char_before(x as nat, y as nat),
            ),
            old(self)@.well_formed() && x == old(self).cursor_x && y == old(self).cursor_y
                ==> final(self)@.well_formed(),
    {
        if line_bounds(self.text.as_str(), self.cursor_y).is_none() {
            return Err(InputError::OutOfBounds);
        }
        proof {
            if self@.well_formed() {
                lemma_removed_at_cursor_well_formed(self@);
            }
        }
        if x == 0 {
            let above: usize = if self.cursor_y > 0 {
                self.cursor_y - 1
            } else {
                self.cursor_y
            };
            let end: usize = row_length(self.text.as_str(), above);
            self.cursor_y = above;
            self.cursor_x = end;
        } else {
            match self.move_cursor_left() {
                Ok(()) => {},
                Err(e) => {
                    return Err(e);
                },
            }
        }
        match line_bounds(self.text.as_str(), y) {
            Some((a, b)) => {
                if x <= b - a && a + x > 0 {
                    let p: usize = a + x;
                    let total: usize = self.text.as_str().unicode_len();
                    let mut shorter = String::new();
                    shorter.append(self.text.as_str().substring_char(0, p - 1));
                    shorter.append(self.text.as_str().substring_char(p, total));
                    proof {
                        assert(shorter@ =~= self.text@.remove(p - 1));
                    }
                    self.text = shorter;
                }
            },
            None => {},
        }
        Ok(())
    }

    /// Moves the cursor to the end of its row. Fails where the row does not
    /// exist.
    pub fn move_cursor_end(&mut self) -> (r: Result<(), InputError>)
        ensures
            settled(*old(self), *final(self), r, old(self)@.row_exists(), old(self)@.end()),
            r is Ok ==> final(self)@.well_formed(),
    {
        match line_bounds(self.text.as_str(), self.cursor_y) {
            Some((a, b)) => {
                self.cursor_x = b - a;
                Ok(())
            },
            None => Err(InputError::OutOfBounds),
        }
    }

    /// Moves the cursor one row up, if there is one, and keeps the column as
    /// far as the row reaches. Fails where the row of the cursor does not
    /// exist.
    pub fn move_cursor_up(&mut self) -> (r: Result<(), InputError>)
        ensures
            settled(*old(self), *final(self), r, old(self)@.row_exists(), old(self)@.up()),
            r is Ok ==> final(self)@.well_formed(),
    {
        if line_bounds(self.text.as_str(), self.cursor_y).is_none() {
            return Err(InputError::OutOfBounds);
        }
        let row: usize = if self.cursor_y > 0 {
            self.cursor_y - 1
        } else {
            self.cursor_y
        };
        let reach: usize = row_length(self.text.as_str(), row);
        self.cursor_y = row;
        if self.cursor_x > reach {
            self.cursor_x = reach;
        }
        Ok(())
    }

    /// Moves the cursor one row down, if there is one, and keeps the column as
    /// far as the row reaches. Fails where the row of the cursor does not
    /// exist.
    pub fn move_cursor_down(&mut self) -> (r: Result<(), InputError>)
        ensures
            settled(*old(self), *final(self), r, old(self)@.row_exists(), old(self)@.down()),
            r is Ok ==> final(self)@.well_formed(),
    {
        if line_bounds(self.text.as_str(), self.cursor_y).is_none() {
            return Err(InputError::OutOfBounds);
        }
        let last: usize = last_row(self.text.as_str());
        let row: usize = if self.cursor_y < last {
            self.cursor_y + 1
        } else {
            self.cursor_y
        };
        let reach: usize = row_length(self.text.as_str(), row);
        self.cursor_y = row;
        if self.cursor_x > reach {
            self.cursor_x = reach;
        }
        Ok(())
    }

    /// Moves the cursor one step to the left: one column back or, from the
    /// start of a row, to the end of the row above. Fails where the row of the
    /// cursor does not exist.
    pub fn move_cursor_left(&mut self) -> (r: Result<(), InputError>)
        ensures
            settled(*old(self), *final(self), r, old(self)@.row_exists(), old(self)@.left()),
            r is Ok ==> final(self)@.well_formed(),
    {
        if line_bounds(self.text.as_str(), self.cursor_y).is_none() {
            return Err(InputError::OutOfBounds);
        }
        if self.cursor_x > 0 {
            let reach: usize = row_length(self.text.as_str(), self.cursor_y);
            let back: usize = self.cursor_x - 1;
            self.cursor_x = if back > reach {
                reach
            } else {
                back
            };
        } else if self.cursor_y > 0 {
            let reach: usize = row_length(self.text.as_str(), self.cursor_y - 1);
            self.cursor_y = self.cursor_y - 1;
            self.cursor_x = reach;
        }
        Ok(())
    }

    /// Moves the cursor one step to the right: one column on or, from the end
    /// of a row that is not the last, to the start of the row below. Fails
    /// where the row of the cursor does not exist.
    pub fn move_cursor_right(&mut self) -> (r: Result<(), InputError>)
        ensures
            settled(*old(self), *final(self), r, old(self)@.row_exists(), old(self)@.right()),
            r is Ok ==> final(self)@.well_formed(),
    {
        if line_bounds(self.text.as_str(), self.cursor_y).is_none() {
            return Err(InputError::OutOfBounds);
        }
        let reach: usize = row_length(self.text.as_str(), self.cursor_y);
        let last: usize = last_row(self.text.as_str());
        if self.cursor_x < reach {
            self.cursor_x = self.cursor_x + 1;
        } else if self.cursor_y < last {
            self.cursor_y = self.cursor_y + 1;
            self.cursor_x = 0;
        } else {
            self.cursor_x = reach;
        }
        Ok(())
    }

    /// The number of lines of the document.
    pub fn get_amt_lines(&mut self) -> (amt: usize)
        requires
            line_count(old(self).text@) <= usize::MAX,
        ensures
            amt == line_count(old(self).text@),
            *final(self) == *old(self),
    {
        last_row(self.text.as_str()) + 1
    }

    /// Line `y` of the document, without its line break, if the document has
    /// such a line.
    pub fn get_line_at(&mut self, y: usize) -> (line: Option<&str>)
        ensures
            line is Some <==> y < line_count(old(self).text@),
            line matches Some(l) ==> l@ == line_at(old(self).text@, y as nat),
            *final(self) == *old(self),
    {
        match line_bounds(self.text.as_str(), y) {
            Some((a, b)) => Some(self.text.as_str().substring_char(a, b)),
            None => None,
        }
    }

    /// The length of the row that the cursor is on. Fails where that row does
    /// not exist.
    pub fn get_current_line_length(&mut self) -> (r: Result<usize, InputError>)
        ensures
            old(self)@.row_exists() ==> r == Ok::<usize, InputError>(
                old(self)@.line_length() as usize,
            ) && old(self)@.line_length() <= usize::MAX,
            !old(self)@.row_exists() ==> r == Err::<usize, InputError>(InputError::OutOfBounds),
            *final(self) == *old(self),
    {
        match line_bounds(self.text.as_str(), self.cursor_y) {
            Some((a, b)) => Ok(b - a),
            None => Err(InputError::OutOfBounds),
        }
    }

    /// Does what the key of `key_event` stands for: writes a character, breaks
    /// or joins lines, removes a character or moves the cursor. Fails, and
    /// changes nothing, where the state does not take the key.
    pub fn handle_key_press(&mut self, key_event: KeyEvent) -> (r: Result<(), InputError>)
        ensures
            settled(
                *old(self),
                *final(self),
                r,
                old(self)@.takes(key_event.code),
                old(self)@.pressed(key_event.code),
            ),
            old(self)@.well_formed() ==> r is Ok && final(self)@.well_formed(),
    {
        proof {
            if self@.well_formed() {
                lemma_pressed_well_formed(self@, key_event.code);
            }
        }
        match key_event.code {
            KeyCode::Char(c) => self.write_char(c),
            KeyCode::Enter => {
                proof {
                    if self@.well_formed() {
                        lemma_typed_well_formed(self@, LINE_BREAK);
                    }
                }
                self.write_char(LINE_BREAK)
            },
            KeyCode::Backspace => {
                if !self.on_position() {
                    return Err(InputError::OutOfBounds);
                }
                if self.cursor_x > 0 || self.cursor_y != 0 {
                    self.remove_character(self.cursor_x, self.cursor_y)
                } else {
                    Ok(())
                }
            },
            KeyCode::Tab => {
                if !self.on_position() {
                    return Err(InputError::OutOfBounds);
                }
                self.insert_spaces();
                Ok(())
            },
            KeyCode::Delete => {
                if !self.on_position() {
                    return Err(InputError::OutOfBounds);
                }
                let reach: usize = row_length(self.text.as_str(), self.cursor_y);
                let last: usize = last_row(self.text.as_str());
                if self.cursor_x >= reach && self.cursor_y >= last {
                    Ok(())
                } else {
                    match self.move_cursor_right() {
                        Ok(()) => {},
                        Err(e) => {
                            return Err(e);
                        },
                    }
                    self.remove_character(self.cursor_x, self.cursor_y)
                }
            },
            KeyCode::Up => self.move_cursor_up(),
            KeyCode::Down => self.move_cursor_down(),
            KeyCode::Left => self.move_cursor_left(),
            KeyCode::Right => self.move_cursor_right(),
            KeyCode::Home => {
                if line_bounds(self.text.as_str(), self.cursor_y).is_none() {
                    return Err(InputError::OutOfBounds);
                }
                self.cursor_x = 0;
                Ok(())
            },
            KeyCode::End => self.move_cursor_end(),
            KeyCode::Esc => Ok(()),
            KeyCode::Other => Ok(()),
        }
    }

    /// Whether the cursor is on a position of the document.
    fn on_position(&self) -> (b: bool)
        ensures
            b == self@.well_formed(),
    {
        match line_bounds(self.text.as_str(), self.cursor_y) {
            Some((a, b)) => self.cursor_x <= b - a,
            None => false,
        }
    }

    /// Puts as many spaces as a tab stop is wide in at the cursor and moves
    /// the cursor behind them.
    fn insert_spaces(&mut self)
        requires
            old(self)@.well_formed(),
        ensures
            final(self)@ == old(self)@.tabbed(),
    {
        let width: usize = self.tab_width;
        match line_bounds(self.text.as_str(), self.cursor_y) {
            Some((a, b)) => {
                let p: usize = a + self.cursor_x;
                let total: usize = self.text.as_str().unicode_len();
                let mut grown = String::new();
                grown.append(self.text.as_str().substring_char(0, p));
                let ghost head = grown@;
                let mut k: usize = 0;
                while k < width
                    invariant
                        k <= width,
                        grown@ == head + Seq::new(k as nat, |i: int| ' '),
                    decreases width - k,
                {
                    grown.push(' ');
                    k = k + 1;
                    proof {
                        assert(grown@ =~= head + Seq::new(k as nat, |i: int| ' '));
                    }
                }
                grown.append(self.text.as_str().substring_char(p, total));
                proof {
                    lemma_insert_run(
                        self.text@,
                        ' ',
                        width as nat,
                        self.cursor_y as nat,
                        self.cursor_x as nat,
                    );
                }
                let behind: usize = b - p;
                self.text = grown;
                let reach: usize = row_length(self.text.as_str(), self.cursor_y);
                self.cursor_x = reach - behind;
            },
            None => {},
        }
    }
}

} // verus!
