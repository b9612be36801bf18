//! What holds of the engine whatever is typed.

use vstd::prelude::*;
use crate::document::{
    has_position, index_of, inserted, inserted_all, lemma_last_line, lemma_line_at,
    lemma_position_index, lemma_single_line, line_at, line_count, line_len, removed_before,
    LINE_BREAK,
};
use crate::edits::{
    lemma_insert_break, lemma_insert_plain, lemma_insert_run, lemma_remove_break,
    lemma_remove_plain,
};
use crate::event::KeyCode;
use crate::model::TextModel;
use crate::viewport::{adjusted, in_view};

verus! {

/// Writing a character at a cursor that is on a position of the document
/// leaves the cursor on a position of the new document: behind the character,
/// or at the start of the row that a line break opens.
pub proof fn lemma_typed_well_formed(m: TextModel, c: char)
    requires
        m.well_formed(),
    ensures
        m.typed(c).well_formed(),
        c != LINE_BREAK ==> m.typed(c).cursor_x == m.cursor_x + 1 && m.typed(c).cursor_y
            == m.cursor_y,
        c == LINE_BREAK ==> m.typed(c) == m.entered(),
{
    let t = m.with_char(c, m.cursor_x, m.cursor_y);
    if c == LINE_BREAK {
        lemma_insert_break(m.text, m.cursor_y, m.cursor_x);
        lemma_line_at(m.text, m.cursor_y);
        lemma_line_at(t.text, m.cursor_y);
        lemma_line_at(t.text, m.cursor_y + 1);
    } else {
        lemma_insert_plain(m.text, c, m.cursor_y, m.cursor_x);
        lemma_line_at(m.text, m.cursor_y);
        lemma_line_at(t.text, m.cursor_y);
    }
}

/// Removing the character before a cursor that is on a position of the
/// document leaves the cursor on a position of the new document.
pub proof fn lemma_backspaced_well_formed(m: TextModel)
    requires
        m.well_formed(),
    ensures
        m.backspaced().well_formed(),
{
    if m.cursor_x > 0 {
        lemma_remove_plain(m.text, m.cursor_y, m.cursor_x);
        lemma_line_at(m.text, m.cursor_y);
        lemma_line_at(m.backspaced().text, m.cursor_y);
    } else if m.cursor_y > 0 {
        let above = (m.cursor_y - 1) as nat;
        lemma_remove_break(m.text, m.cursor_y);
        lemma_position_index(m.text, m.cursor_y, 0);
        lemma_line_at(m.text, above);
        lemma_line_at(m.backspaced().text, above);
    }
}

/// Removing the character before the cursor, wherever on the document it
/// stands, leaves it on a position of the new document. At the start of the
/// document nothing is removed, and the cursor goes to the end of the first
/// row.
pub proof fn lemma_removed_at_cursor_well_formed(m: TextModel)
    requires
        m.well_formed(),
    ensures
        m.without_char_before(m.cursor_x, m.cursor_y).well_formed(),
{
    if m.cursor_x > 0 || m.cursor_y != 0 {
        lemma_backspaced_well_formed(m);
    }
}

/// Removing the character behind a cursor that is on a position of the
/// document leaves the cursor where it is, on a position of the new document.
pub proof fn lemma_deleted_well_formed(m: TextModel)
    requires
        m.well_formed(),
    ensures
        m.deleted().well_formed(),
        m.deleted().cursor_x == m.cursor_x,
        m.deleted().cursor_y == m.cursor_y,
{
    if !m.at_end() {
        let stepped = m.right();
        if m.cursor_x < m.line_length() {
            lemma_remove_plain(m.text, m.cursor_y, m.cursor_x + 1);
            lemma_line_at(m.text, m.cursor_y);
            lemma_line_at(m.deleted().text, m.cursor_y);
        } else {
            lemma_remove_break(m.text, m.cursor_y + 1);
            lemma_position_index(m.text, m.cursor_y + 1, 0);
            lemma_line_at(m.text, m.cursor_y);
            lemma_line_at(m.deleted().text, m.cursor_y);
        }
    }
}

/// A key leaves a cursor that is on a position of the document on a position
/// of the document: `0 <= cursor_y < line_count` and `0 <= cursor_x <=
/// line_len(cursor_y)` hold after the key if they held before it, and no key
/// fails on such a state.
pub proof fn lemma_pressed_well_formed(m: TextModel, code: KeyCode)
    requires
        m.well_formed(),
    ensures
        m.takes(code),
        m.pressed(code).well_formed(),
{
    match code {
        KeyCode::Char(c) => {
            lemma_typed_well_formed(m, c);
        },
        KeyCode::Enter => {
            lemma_typed_well_formed(m, LINE_BREAK);
        },
        KeyCode::Backspace => {
            lemma_backspaced_well_formed(m);
        },
        KeyCode::Tab => {
            lemma_insert_run(m.text, ' ', m.tab_width, m.cursor_y, m.cursor_x);
        },
        KeyCode::Delete => {
            lemma_deleted_well_formed(m);
        },
        _ => {},
    }
}

/// Any keys one after the other leave a cursor that is on a position of the
/// document on a position of the document, and none of them fails.
pub proof fn lemma_pressed_all_well_formed(m: TextModel, codes: Seq<KeyCode>)
    requires
        m.well_formed(),
    ensures
        m.pressed_all(codes).well_formed(),
        forall|i: int|
            0 <= i < codes.len() ==> m.pressed_all(codes.take(i)).takes(#[trigger] codes[i]),
    decreases codes.len(),
{
    if codes.len() > 0 {
        let before = codes.drop_last();
        lemma_pressed_all_well_formed(m, before);
        lemma_pressed_well_formed(m.pressed_all(before), codes.last());
        assert forall|i: int| 0 <= i < codes.len() implies m.pressed_all(codes.take(i)).takes(
            #[trigger] codes[i],
        ) by {
            if i < before.len() {
                assert(codes.take(i) =~= before.take(i));
                assert(codes[i] == before[i]);
            } else {
                assert(codes.take(i) =~= before);
            }
        }
    }
}

/// Insertions of characters that are no line breaks into an empty document
/// leave a document of one line, and that line holds every character that was
/// put in.
pub proof fn lemma_insertions_stay_on_one_line(ops: Seq<(char, nat, nat)>)
    requires
        forall|i: int| 0 <= i < ops.len() ==> (#[trigger] ops[i]).0 != LINE_BREAK,
    ensures
        ({
            let t = inserted_all(Seq::<char>::empty(), ops);
            &&& line_count(t) == 1
            &&& line_len(t, 0) == t.len()
            &&& t.len() <= ops.len()
            &&& forall|j: int| 0 <= j < t.len() ==> t[j] != LINE_BREAK
            &&& (forall|i: int| 0 <= i < ops.len() ==> (#[trigger] ops[i]).1 == 0 && ops[i].2 <= i)
                ==> t.len() == ops.len()
        }),
    decreases ops.len(),
{
    let t = inserted_all(Seq::<char>::empty(), ops);
    if ops.len() > 0 {
        let before = ops.drop_last();
        let u = inserted_all(Seq::<char>::empty(), before);
        assert forall|i: int| 0 <= i < before.len() implies (#[trigger] before[i]).0
            != LINE_BREAK by {
            assert(before[i] == ops[i]);
        }
        lemma_insertions_stay_on_one_line(before);
        lemma_single_line(u);
        let (c, row, col) = ops.last();
        assert(ops[ops.len() - 1].0 != LINE_BREAK);
        if has_position(u, row, col) {
            lemma_position_index(u, row, col);
        }
        lemma_single_line(t);
        if forall|i: int| 0 <= i < ops.len() ==> (#[trigger] ops[i]).1 == 0 && ops[i].2 <= i {
            assert forall|i: int| 0 <= i < before.len() implies (#[trigger] before[i]).1 == 0
                && before[i].2 <= i by {
                assert(before[i] == ops[i]);
            }
            assert(ops[ops.len() - 1].1 == 0 && ops[ops.len() - 1].2 <= ops.len() - 1);
        }
    } else {
        lemma_single_line(t);
    }
}

/// Characters that are no line breaks, written one after the other into a
/// fresh input, leave a document of one line that holds them all, with the
/// cursor behind them: `line_count` is 1, and `line_len(0)` is the number of
/// characters written.
pub proof fn lemma_typing_stays_on_one_line(tab_width: nat, chars: Seq<char>)
    requires
        forall|i: int| 0 <= i < chars.len() ==> chars[i] != LINE_BREAK,
    ensures
        ({
            let m = TextModel::empty(tab_width).typed_all(chars);
            &&& m.text == chars
            &&& line_count(m.text) == 1
            &&& line_len(m.text, 0) == chars.len()
            &&& m.cursor_x == chars.len()
            &&& m.cursor_y == 0
        }),
    decreases chars.len(),
{
    let start = TextModel::empty(tab_width);
    lemma_single_line(chars);
    if chars.len() > 0 {
        let before = chars.drop_last();
        lemma_typing_stays_on_one_line(tab_width, before);
        let m = start.typed_all(before);
        lemma_single_line(before);
        lemma_typed_well_formed(m, chars.last());
        lemma_position_index(m.text, 0, m.cursor_x);
        assert(m.typed(chars.last()).text =~= chars);
    }
}

/// A line break put in at a position and the character before the start of
/// the row that it opened removed again leave the document as it was.
pub proof fn lemma_break_then_remove(s: Seq<char>, row: nat, col: nat)
    requires
        has_position(s, row, col),
    ensures
        removed_before(inserted(s, LINE_BREAK, row, col), row + 1, 0) == s,
        line_len(inserted(s, LINE_BREAK, row, col), row) == col,
{
    let t = inserted(s, LINE_BREAK, row, col);
    lemma_insert_break(s, row, col);
    lemma_position_index(s, row, col);
    lemma_line_at(s, row);
    lemma_line_at(t, row);
    assert(index_of(t, row + 1, 0) == index_of(s, row, col) + 1);
    assert(removed_before(t, row + 1, 0) =~= s);
}

/// Enter and then Backspace leave the document and the cursor exactly as they
/// were.
pub proof fn lemma_enter_then_backspace(m: TextModel)
    requires
        m.well_formed(),
    ensures
        m.entered().backspaced() == m,
        m.pressed(KeyCode::Enter).pressed(KeyCode::Backspace) == m,
        m.entered().without_char_before(0, m.cursor_y + 1) == m,
{
    lemma_break_then_remove(m.text, m.cursor_y, m.cursor_x);
}

/// A document that ends with a line break has an empty last line: the break
/// adds one line to the lines of what stands before it.
pub proof fn lemma_trailing_break(s: Seq<char>)
    requires
        s.len() > 0,
        s.last() == LINE_BREAK,
    ensures
        line_count(s) == line_count(s.drop_last()) + 1,
        line_at(s, (line_count(s) - 1) as nat) == Seq::<char>::empty(),
        forall|r: nat| r + 1 < line_count(s) ==> line_at(s, r) == line_at(s.drop_last(), r),
{
    let u = s.drop_last();
    let row = (line_count(u) - 1) as nat;
    let col = line_len(u, row);
    lemma_last_line(u);
    assert(u.insert(u.len() as int, LINE_BREAK) =~= s);
    lemma_insert_break(u, row, col);
    lemma_line_at(u, row);
    assert forall|r: nat| r + 1 < line_count(s) implies line_at(s, r) == line_at(u, r) by {
        if r == row {
            assert(line_at(u, row).take(col as int) =~= line_at(u, row));
        }
    }
}

/// After the viewport has been adjusted, a viewport that is not empty shows
/// the cursor, except where the cursor moved towards larger positions and
/// stands before the viewport, or did not and stands behind it.
pub proof fn lemma_adjusted_in_view(scroll: int, cursor_pos: int, extent: int, increasing: bool)
    requires
        extent > 0,
    ensures
        in_view(adjusted(scroll, cursor_pos, extent, increasing), cursor_pos, extent) <==> (
        increasing ==> scroll <= cursor_pos) && (!increasing ==> cursor_pos < scroll + extent),
{
}

/// A viewport that is not empty and showed the cursor before it moved shows
/// it after it has been adjusted to the move: `scroll <= cursor < scroll +
/// extent` holds again.
pub proof fn lemma_viewport_follows_cursor(scroll: int, before: int, after: int, extent: int)
    requires
        extent > 0,
        in_view(scroll, before, extent),
    ensures
        in_view(adjusted(scroll, after, extent, after > before), after, extent),
{
}

} // verus!
