//! The rectangle of the terminal that shows the document, the offsets that
//! scroll the document under it, and what of the document it shows.

use vstd::prelude::*;
use vstd::string::StrSliceExecFns;
use crate::document::{
    get_slice_of_string, last_row, lemma_line_at, line_at, line_bounds, line_count, window,
};

verus! {

/// The size and the offset of an input on the terminal, each as a pair of
/// columns and rows.
#[derive(Clone, Copy, Debug, PartialEq, Eq)]
pub struct InputTransform {
    pub size: (u16, u16),
    pub offset: (u16, u16),
}

/// How many cells lie between `offset` and `bound`: none where the offset lies
/// beyond the bound.
pub open spec fn room(bound: u16, offset: u16) -> u16 {
    if offset <= bound {
        (bound - offset) as u16
    } else {
        0
    }
}

/// `size` cut down so that it ends at `bound` at the latest when it begins at
/// `offset`.
pub open spec fn clipped_extent(size: u16, offset: u16, bound: u16) -> u16 {
    if size + offset > bound {
        room(bound, offset)
    } else {
        size
    }
}

impl InputTransform {
    /// The transform cut down to a terminal of the size `terminal_size`: the
    /// offset stays, and the size shrinks until the rectangle ends where the
    /// terminal ends.
    pub open spec fn clipped(self, terminal_size: (u16, u16)) -> InputTransform {
        InputTransform {
            size: (
                clipped_extent(self.size.0, self.offset.0, terminal_size.0),
                clipped_extent(self.size.1, self.offset.1, terminal_size.1),
            ),
            offset: self.offset,
        }
    }

    /// Whether the rectangle leaves no room unused beyond the terminal: in
    /// each direction it is at most as large as the room behind its offset.
    pub open spec fn fits(self, terminal_size: (u16, u16)) -> bool {
        &&& self.size.0 <= room(terminal_size.0, self.offset.0)
        &&& self.size.1 <= room(terminal_size.1, self.offset.1)
    }

    /// Cuts the transform down to a terminal of the size `terminal_size`.
    pub fn clip(self, terminal_size: (u16, u16)) -> (cut: InputTransform)
        ensures
            cut == self.clipped(terminal_size),
            cut.fits(terminal_size),
            self.fits(terminal_size) ==> cut == self,
            self.offset.0 <= terminal_size.0 ==> cut.offset.0 + cut.size.0 <= terminal_size.0,
            self.offset.1 <= terminal_size.1 ==> cut.offset.1 + cut.size.1 <= terminal_size.1,
    {
        let mut size = self.size;
        if size.0 as u32 + self.offset.0 as u32 > terminal_size.0 as u32 {
            size.0 = terminal_size.0.saturating_sub(self.offset.0);
        }
        if size.1 as u32 + self.offset.1 as u32 > terminal_size.1 as u32 {
            size.1 = terminal_size.1.saturating_sub(self.offset.1);
        }
        InputTransform { size, offset: self.offset }
    }
}

/// Whether a viewport that begins at `scroll` and is `extent` cells long
/// shows the cell `pos`.
pub open spec fn in_view(scroll: int, pos: int, extent: int) -> bool {
    scroll <= pos < scroll + extent
}

/// The larger of two numbers.
pub open spec fn larger(a: int, b: int) -> int {
    if a >= b {
        a
    } else {
        b
    }
}

/// The smaller of two numbers.
pub open spec fn smaller(a: int, b: int) -> int {
    if a <= b {
        a
    } else {
        b
    }
}

/// `v` brought into the range from `lo` to `hi`.
pub open spec fn clamp(v: int, lo: int, hi: int) -> int {
    if v < lo {
        lo
    } else if v > hi {
        hi
    } else {
        v
    }
}

/// Where a viewport of `extent` cells that began at `scroll` begins once the
/// cursor has come to `cursor_pos`. A cursor that moved towards larger
/// positions and has left the viewport at its end pulls the viewport after it
/// until the cursor is its last cell; a cursor that did not and stands before
/// the viewport becomes its first cell; else the viewport stays.
pub open spec fn adjusted(scroll: int, cursor_pos: int, extent: int, increasing: bool) -> int {
    if increasing {
        if cursor_pos > scroll + extent - 1 {
            larger(scroll, cursor_pos - extent + 1)
        } else {
            scroll
        }
    } else if cursor_pos < scroll {
        cursor_pos
    } else {
        scroll
    }
}

/// The new offset of a viewport along one axis: see `adjusted`. The new
/// offset has to fit the machine's numbers, which it does but for a viewport
/// without cells and a cursor at the largest number.
pub fn keep_scroll_axis_in_view(
    scroll_amt: usize,
    cursor_pos: usize,
    bounds: usize,
    moving_direction: bool,
) -> (scroll: usize)
    requires
        adjusted(scroll_amt as int, cursor_pos as int, bounds as int, moving_direction)
            <= usize::MAX,
    ensures
        scroll == adjusted(scroll_amt as int, cursor_pos as int, bounds as int, moving_direction),
        bounds > 0 && (moving_direction ==> scroll_amt <= cursor_pos) && (!moving_direction
            ==> cursor_pos < scroll_amt + bounds) ==> in_view(
            scroll as int,
            cursor_pos as int,
            bounds as int,
        ),
{
    if moving_direction {
        if bounds == 0 {
            if cursor_pos >= scroll_amt {
                cursor_pos + 1
            } else {
                scroll_amt
            }
        } else {
            let edge: usize = bounds - 1;
            if cursor_pos >= edge && cursor_pos - edge > scroll_amt {
                cursor_pos - edge
            } else {
                scroll_amt
            }
        }
    } else if cursor_pos < scroll_amt {
        cursor_pos
    } else {
        scroll_amt
    }
}

/// Whether `adjusted` fits the machine's numbers for these arguments.
pub fn adjustment_fits(
    scroll_amt: usize,
    cursor_pos: usize,
    bounds: usize,
    moving_direction: bool,
) -> (fits: bool)
    ensures
        fits == (adjusted(scroll_amt as int, cursor_pos as int, bounds as int, moving_direction)
            <= usize::MAX),
{
    !(moving_direction && bounds == 0 && cursor_pos == usize::MAX)
}

/// The column of the terminal on which the cursor is drawn: as far behind the
/// left edge of the rectangle as the cursor is behind the first column shown,
/// but within the rectangle and within the terminal.
pub open spec fn screen_column(
    cursor_x: int,
    scroll_x: int,
    transform: InputTransform,
    terminal_size: (u16, u16),
) -> int {
    smaller(
        transform.offset.0 + clamp(cursor_x - scroll_x, 0, transform.size.0 as int),
        terminal_size.0 as int,
    )
}

/// The row of the terminal on which the cursor is drawn: as far below the top
/// edge of the rectangle as the cursor is below the first row shown, but
/// within the rectangle and within the terminal.
pub open spec fn screen_row(
    cursor_y: int,
    scroll_y: int,
    transform: InputTransform,
    terminal_size: (u16, u16),
) -> int {
    smaller(
        transform.offset.1 + clamp(cursor_y - scroll_y, 0, transform.size.1 - 1),
        larger(terminal_size.1 - 1, 0),
    )
}

/// Where on the terminal the cursor is drawn, as a column and a row; `None`
/// where the viewport does not show the row of the cursor, and the cursor is
/// hidden.
pub open spec fn cursor_place(
    cursor_x: int,
    cursor_y: int,
    scroll_x: int,
    scroll_y: int,
    transform: InputTransform,
    terminal_size: (u16, u16),
) -> Option<(u16, u16)> {
    if in_view(scroll_y, cursor_y, transform.size.1 as int) {
        Some(
            (
                screen_column(cursor_x, scroll_x, transform, terminal_size) as u16,
                screen_row(cursor_y, scroll_y, transform, terminal_size) as u16,
            ),
        )
    } else {
        None
    }
}

/// Whether the rows that the viewport shows hold the row `cursor_y`.
pub fn row_in_view(scroll_y: usize, cursor_y: usize, height: u16) -> (shown: bool)
    ensures
        shown == in_view(scroll_y as int, cursor_y as int, height as int),
{
    scroll_y <= cursor_y && cursor_y - scroll_y < height as usize
}

/// Where on the terminal the cursor is drawn, as a column and a row; `None`
/// where the viewport does not show the row of the cursor, and the cursor is
/// hidden.
pub fn cursor_on_screen(
    cursor_x: usize,
    cursor_y: usize,
    scroll_x: usize,
    scroll_y: usize,
    transform: &InputTransform,
    terminal_size: (u16, u16),
) -> (place: Option<(u16, u16)>)
    ensures
        place == cursor_place(
            cursor_x as int,
            cursor_y as int,
            scroll_x as int,
            scroll_y as int,
            *transform,
            terminal_size,
        ),
        place matches Some((x, y)) ==> x == screen_column(
            cursor_x as int,
            scroll_x as int,
            *transform,
            terminal_size,
        ) && y == screen_row(cursor_y as int, scroll_y as int, *transform, terminal_size) && x
            <= terminal_size.0,
{
    if !row_in_view(scroll_y, cursor_y, transform.size.1) {
        return None;
    }
    let across: u32 = if cursor_x <= scroll_x {
        0
    } else if cursor_x - scroll_x > transform.size.0 as usize {
        transform.size.0 as u32
    } else {
        (cursor_x - scroll_x) as u32
    };
    let column: u32 = transform.offset.0 as u32 + across;
    let x: u16 = if column > terminal_size.0 as u32 {
        terminal_size.0
    } else {
        column as u16
    };
    let down: u32 = (cursor_y - scroll_y) as u32;
    let row: u32 = transform.offset.1 as u32 + down;
    let bottom: u16 = terminal_size.1.saturating_sub(1);
    let y: u16 = if row > bottom as u32 {
        bottom
    } else {
        row as u16
    };
    Some((x, y))
}

/// One line of the terminal: `text` is written from column `x` of row `y` on,
/// after the row was cleared.
pub struct ScreenLine {
    pub x: usize,
    pub y: usize,
    pub text: String,
}

/// What row `i` of a viewport shows of the document `s`: of the line
/// `scroll_y + i`, the columns from `scroll_x` on, `width` of them at most;
/// nothing where the document has no such line.
pub open spec fn visible_text(
    s: Seq<char>,
    scroll_x: nat,
    scroll_y: nat,
    width: nat,
    i: nat,
) -> Seq<char> {
    if scroll_y + i < line_count(s) {
        window(line_at(s, scroll_y + i), scroll_x, scroll_x + width)
    } else {
        Seq::empty()
    }
}

/// Whether `lines` are what a viewport with the transform `transform` shows
/// of the document `s`: one line for each row of the rectangle, from its top
/// to its bottom, each at the left edge of the rectangle, with what that row
/// shows of the document.
pub open spec fn shows(
    lines: Seq<ScreenLine>,
    s: Seq<char>,
    scroll_x: nat,
    scroll_y: nat,
    transform: InputTransform,
) -> bool {
    &&& lines.len() == transform.size.1
    &&& forall|i: int|
        0 <= i < lines.len() ==> (#[trigger] lines[i]).x == transform.offset.0 && lines[i].y
            == transform.offset.1 + i && lines[i].text@ == visible_text(
            s,
            scroll_x,
            scroll_y,
            transform.size.0 as nat,
            i as nat,
        )
}

/// What a viewport shows is never wider than the viewport.
pub proof fn lemma_shows_within(
    lines: Seq<ScreenLine>,
    s: Seq<char>,
    scroll_x: nat,
    scroll_y: nat,
    transform: InputTransform,
)
    requires
        shows(lines, s, scroll_x, scroll_y, transform),
    ensures
        forall|i: int|
            0 <= i < lines.len() ==> (#[trigger] lines[i]).text@.len() <= transform.size.0,
{
    assert forall|i: int| 0 <= i < lines.len() implies (#[trigger] lines[i]).text@.len()
        <= transform.size.0 by {
        if scroll_y + i < line_count(s) {
            lemma_line_at(s, (scroll_y + i) as nat);
        }
    }
}

/// What the viewport shows of `text`, row by row from the top of the
/// rectangle to its bottom.
pub fn visible_lines(
    text: &str,
    scroll_x: usize,
    scroll_y: usize,
    transform: &InputTransform,
) -> (lines: Vec<ScreenLine>)
    ensures
        shows(lines@, text@, scroll_x as nat, scroll_y as nat, *transform),
{
    let height: u16 = transform.size.1;
    let width: usize = transform.size.0 as usize;
    let until: usize = scroll_x.saturating_add(width);
    let last: usize = last_row(text);
    let mut lines: Vec<ScreenLine> = Vec::new();
    let mut i: u16 = 0;
    while i < height
        invariant
            i <= height,
            height == transform.size.1,
            width == transform.size.0,
            until == smaller(scroll_x + width, usize::MAX as int),
            last + 1 == line_count(text@),
            lines.len() == i,
            forall|k: int|
                0 <= k < i ==> (#[trigger] lines[k]).x == transform.offset.0 && lines[k].y
                    == transform.offset.1 + k && lines[k].text@ == visible_text(
                    text@,
                    scroll_x as nat,
                    scroll_y as nat,
                    transform.size.0 as nat,
                    k as nat,
                ),
        decreases height - i,
    {
        let shown: String = if i as usize <= last && scroll_y <= last - i as usize {
            match line_bounds(text, scroll_y + i as usize) {
                Some((a, b)) => get_slice_of_string(text.substring_char(a, b), scroll_x, until),
                None => String::new(),
            }
        } else {
            String::new()
        };
        lines.push(
            ScreenLine {
                x: transform.offset.0 as usize,
                y: transform.offset.1 as usize + i as usize,
                text: shown,
            },
        );
        i = i + 1;
    }
    lines
}

} // verus!
