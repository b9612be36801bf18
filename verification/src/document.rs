//! The line structure of a document.
//!
//! A document is a sequence of characters. Line breaks cut it into lines:
//! a document with `n` line breaks has `n + 1` lines, and when it ends with a
//! line break its last line is the empty line that follows that break.
//! A position is a pair of a row and a column, and stands for an index between
//! the characters of the document: the start of its row, plus its column.

use vstd::prelude::*;
use vstd::string::StrSliceExecFns;

verus! {

/// The character that ends a line.
pub const LINE_BREAK: char = '\n';

/// How many line breaks `s` holds.
pub open spec fn count_breaks(s: Seq<char>) -> nat
    decreases s.len(),
{
    if s.len() == 0 {
        0
    } else {
        count_breaks(s.drop_last()) + if s.last() == LINE_BREAK {
            1nat
        } else {
            0nat
        }
    }
}

/// How many lines `s` has: one more than it has line breaks.
pub open spec fn line_count(s: Seq<char>) -> nat {
    count_breaks(s) + 1
}

/// The index of the first line break at or after `from`, or the length of `s`
/// when no line break follows.
pub open spec fn line_end_from(s: Seq<char>, from: int) -> int
    decreases s.len() - from,
{
    if from >= s.len() {
        s.len() as int
    } else if s[from] == LINE_BREAK {
        from
    } else {
        line_end_from(s, from + 1)
    }
}

/// The index at which line `row` starts: line 0 starts at 0, every other line
/// right after the break that ends the line before it.
pub open spec fn line_start(s: Seq<char>, row: nat) -> int
    decreases row,
{
    if row == 0 {
        0
    } else {
        line_end_from(s, line_start(s, (row - 1) as nat)) + 1
    }
}

/// The index just past the last character of line `row`.
pub open spec fn line_end(s: Seq<char>, row: nat) -> int {
    line_end_from(s, line_start(s, row))
}

/// The number of characters of line `row`.
pub open spec fn line_len(s: Seq<char>, row: nat) -> nat {
    (line_end(s, row) - line_start(s, row)) as nat
}

/// The characters of line `row`, without its line break.
pub open spec fn line_at(s: Seq<char>, row: nat) -> Seq<char> {
    s.subrange(line_start(s, row), line_end(s, row))
}

/// Whether `(row, col)` is a position of `s`: the row exists and the column is
/// at most the length of that row.
pub open spec fn has_position(s: Seq<char>, row: nat, col: nat) -> bool {
    row < line_count(s) && col <= line_len(s, row)
}

/// The index between characters that the position `(row, col)` stands for.
pub open spec fn index_of(s: Seq<char>, row: nat, col: nat) -> int {
    line_start(s, row) + col
}

/// `s` with `c` put in at `(row, col)`; `s` itself where there is no such
/// position.
pub open spec fn inserted(s: Seq<char>, c: char, row: nat, col: nat) -> Seq<char> {
    if has_position(s, row, col) {
        s.insert(index_of(s, row, col), c)
    } else {
        s
    }
}

/// `s` without the character just before `(row, col)`; `s` itself where there
/// is no such position or nothing stands before it.
pub open spec fn removed_before(s: Seq<char>, row: nat, col: nat) -> Seq<char> {
    if has_position(s, row, col) && index_of(s, row, col) > 0 {
        s.remove(index_of(s, row, col) - 1)
    } else {
        s
    }
}

/// `s` with `n` copies of `c` put in at `(row, col)`; `s` itself where there
/// is no such position.
pub open spec fn inserted_run(s: Seq<char>, c: char, n: nat, row: nat, col: nat) -> Seq<char> {
    if has_position(s, row, col) {
        s.subrange(0, index_of(s, row, col)) + Seq::new(n, |i: int| c) + s.subrange(
            index_of(s, row, col),
            s.len() as int,
        )
    } else {
        s
    }
}

/// `s` after the insertions `ops` one after the other, each a character with
/// the row and the column at which it is put in.
pub open spec fn inserted_all(s: Seq<char>, ops: Seq<(char, nat, nat)>) -> Seq<char>
    decreases ops.len(),
{
    if ops.len() == 0 {
        s
    } else {
        inserted(inserted_all(s, ops.drop_last()), ops.last().0, ops.last().1, ops.last().2)
    }
}

/// The part of `line` that a window over the columns `start .. end` shows:
/// shorter than the window where the line ends first, empty where the window
/// is.
pub open spec fn window(line: Seq<char>, start: nat, end: nat) -> Seq<char> {
    let lo = if start <= line.len() {
        start
    } else {
        line.len()
    };
    let hi = if end <= line.len() {
        end
    } else {
        line.len()
    };
    if lo <= hi {
        line.subrange(lo as int, hi as int)
    } else {
        Seq::empty()
    }
}

/// A line ends at or after the index it is searched from, holds no line break
/// before its end, and ends at a line break or at the end of the document.
pub proof fn lemma_line_end_from(s: Seq<char>, from: int)
    requires
        0 <= from <= s.len(),
    ensures
        from <= line_end_from(s, from) <= s.len(),
        forall|j: int| from <= j < line_end_from(s, from) ==> s[j] != LINE_BREAK,
        line_end_from(s, from) < s.len() ==> s[line_end_from(s, from)] == LINE_BREAK,
    decreases s.len() - from,
{
    if from < s.len() && s[from] != LINE_BREAK {
        lemma_line_end_from(s, from + 1);
    }
}

/// The end of a line is the only index with the three properties of
/// `lemma_line_end_from`.
pub proof fn lemma_line_end_from_unique(s: Seq<char>, from: int, e: int)
    requires
        0 <= from <= e <= s.len(),
        forall|j: int| from <= j < e ==> s[j] != LINE_BREAK,
        e < s.len() ==> s[e] == LINE_BREAK,
    ensures
        line_end_from(s, from) == e,
    decreases e - from,
{
    if from < e {
        lemma_line_end_from_unique(s, from + 1, e);
    }
}

/// The line breaks of a concatenation are those of its two parts.
pub proof fn lemma_breaks_concat(a: Seq<char>, b: Seq<char>)
    ensures
        count_breaks(a + b) == count_breaks(a) + count_breaks(b),
    decreases b.len(),
{
    if b.len() == 0 {
        assert(a + b =~= a);
    } else {
        lemma_breaks_concat(a, b.drop_last());
        assert((a + b).drop_last() =~= a + b.drop_last());
    }
}

/// A sequence without line breaks counts none.
pub proof fn lemma_breaks_none(s: Seq<char>)
    requires
        forall|j: int| 0 <= j < s.len() ==> s[j] != LINE_BREAK,
    ensures
        count_breaks(s) == 0,
    decreases s.len(),
{
    if s.len() > 0 {
        lemma_breaks_none(s.drop_last());
    }
}

/// Line `row` exists exactly when its start lies within the document, and then
/// `row` line breaks stand before that start.
pub proof fn lemma_line_start(s: Seq<char>, row: nat)
    ensures
        0 <= line_start(s, row) <= s.len() + 1,
        line_start(s, row) <= s.len() <==> row < line_count(s),
        line_start(s, row) <= s.len() ==> count_breaks(s.take(line_start(s, row))) == row,
        line_start(s, row) <= s.len() ==> line_start(s, row) <= line_end(s, row) <= s.len(),
    decreases row,
{
    if row == 0 {
        assert(s.take(0) =~= Seq::<char>::empty());
        lemma_line_end_from(s, 0);
    } else {
        let prev = (row - 1) as nat;
        lemma_line_start(s, prev);
        let a = line_start(s, prev);
        if a <= s.len() {
            lemma_line_end_from(s, a);
            let e = line_end_from(s, a);
            let mid = s.subrange(a, e);
            lemma_breaks_none(mid);
            if e < s.len() {
                let head = s.take(e + 1);
                assert(head.drop_last() =~= s.take(a) + mid);
                lemma_breaks_concat(s.take(a), mid);
                lemma_breaks_concat(head, s.skip(e + 1));
                assert(head + s.skip(e + 1) =~= s);
                lemma_line_end_from(s, e + 1);
            } else {
                lemma_breaks_concat(s.take(a), mid);
                assert(s.take(a) + mid =~= s);
            }
        }
    }
}

/// Later lines start later.
pub proof fn lemma_line_start_ordered(s: Seq<char>, r1: nat, r2: nat)
    requires
        r1 <= r2,
    ensures
        line_start(s, r1) <= line_start(s, r2),
        r1 < r2 && r2 < line_count(s) ==> line_end(s, r1) < line_start(s, r2),
    decreases r2,
{
    if r1 < r2 {
        let prev = (r2 - 1) as nat;
        lemma_line_start_ordered(s, r1, prev);
        lemma_line_start(s, prev);
        lemma_line_start(s, r1);
        lemma_line_start(s, r2);
        if line_start(s, prev) <= s.len() {
            lemma_line_end_from(s, line_start(s, prev));
        }
    }
}

/// Two documents that agree on their first `k` characters agree on the start
/// of every line that starts within those.
pub proof fn lemma_line_start_prefix(s: Seq<char>, t: Seq<char>, k: int, row: nat)
    requires
        0 <= k <= s.len(),
        k <= t.len(),
        forall|j: int| 0 <= j < k ==> s[j] == t[j],
        line_start(s, row) <= k,
    ensures
        line_start(t, row) == line_start(s, row),
    decreases row,
{
    if row > 0 {
        let prev = (row - 1) as nat;
        let a = line_start(s, prev);
        lemma_line_start(s, prev);
        if a <= s.len() {
            lemma_line_end_from(s, a);
            let e = line_end_from(s, a);
            lemma_line_start_prefix(s, t, k, prev);
            lemma_line_end_from_unique(t, a, e);
        }
    }
}

/// The position `(row, col)` of a document stands for an index within it.
pub proof fn lemma_position_index(s: Seq<char>, row: nat, col: nat)
    requires
        has_position(s, row, col),
    ensures
        0 <= line_start(s, row) <= index_of(s, row, col) <= line_end(s, row) <= s.len(),
        forall|j: int| line_start(s, row) <= j < line_end(s, row) ==> s[j] != LINE_BREAK,
        line_end(s, row) < s.len() ==> s[line_end(s, row)] == LINE_BREAK,
        row > 0 ==> s[line_start(s, row) - 1] == LINE_BREAK,
{
    lemma_line_start(s, row);
    lemma_line_end_from(s, line_start(s, row));
    if row > 0 {
        let prev = (row - 1) as nat;
        lemma_line_start(s, prev);
        lemma_line_end_from(s, line_start(s, prev));
    }
}

/// A line that exists is as long as `line_len` says, and holds no line break.
pub proof fn lemma_line_at(s: Seq<char>, row: nat)
    requires
        row < line_count(s),
    ensures
        line_at(s, row).len() == line_len(s, row),
        line_len(s, row) <= s.len(),
        forall|j: int| 0 <= j < line_len(s, row) ==> line_at(s, row)[j] != LINE_BREAK,
{
    lemma_position_index(s, row, 0);
}

/// The last line of a document ends where the document ends.
pub proof fn lemma_last_line(s: Seq<char>)
    ensures
        line_end(s, (line_count(s) - 1) as nat) == s.len(),
        has_position(s, (line_count(s) - 1) as nat, line_len(s, (line_count(s) - 1) as nat)),
        index_of(s, (line_count(s) - 1) as nat, line_len(s, (line_count(s) - 1) as nat)) == s.len(),
{
    let row = count_breaks(s);
    lemma_line_start(s, row);
    lemma_line_start(s, row + 1);
}

/// A document without line breaks is one line, and that line is the document.
pub proof fn lemma_single_line(s: Seq<char>)
    requires
        forall|j: int| 0 <= j < s.len() ==> s[j] != LINE_BREAK,
    ensures
        line_count(s) == 1,
        line_len(s, 0) == s.len(),
        line_at(s, 0) == s,
{
    lemma_breaks_none(s);
    lemma_line_end_from_unique(s, 0, s.len() as int);
    assert(line_at(s, 0) =~= s);
}

/// The number of the last line of `text`.
pub fn last_row(text: &str) -> (n: usize)
    ensures
        n == count_breaks(text@),
        n + 1 == line_count(text@),
{
    let total: usize = text.unicode_len();
    let mut n: usize = 0;
    for ch in it: text.chars()
        invariant
            it.seq() == text@,
            text@.len() == total,
            n == count_breaks(text@.take(it.index() as int)),
            n <= it.index(),
    {
        proof {
            let i = it.index() as int;
            assert(text@.take(i + 1).drop_last() =~= text@.take(i));
        }
        if ch == LINE_BREAK {
            n = n + 1;
        }
    }
    proof {
        assert(text@.take(text@.len() as int) =~= text@);
    }
    n
}

/// Where line `row` of `text` starts and where it ends, if `text` has such a
/// line.
pub fn line_bounds(text: &str, row: usize) -> (r: Option<(usize, usize)>)
    ensures
        r is Some <==> row < line_count(text@),
        r matches Some((a, b)) ==> a == line_start(text@, row as nat) && b == line_end(
            text@,
            row as nat,
        ) && a <= b <= text@.len(),
{
    let total: usize = text.unicode_len();
    let mut at_row: usize = 0;
    let mut start: usize = 0;
    let mut i: usize = 0;
    for ch in it: text.chars()
        invariant
            it.seq() == text@,
            text@.len() == total,
            i == it.index(),
            at_row <= row,
            start <= i,
            start == line_start(text@, at_row as nat),
            forall|j: int| start <= j < i ==> text@[j] != LINE_BREAK,
    {
        if ch == LINE_BREAK {
            proof {
                lemma_line_end_from_unique(text@, start as int, i as int);
                lemma_line_start(text@, at_row as nat);
            }
            if at_row == row {
                return Some((start, i));
            }
            at_row = at_row + 1;
            start = i + 1;
        }
        i = i + 1;
    }
    proof {
        lemma_line_end_from_unique(text@, start as int, total as int);
        lemma_line_start(text@, at_row as nat);
        if at_row < row {
            lemma_line_start_ordered(text@, (at_row + 1) as nat, row as nat);
            lemma_line_start(text@, row as nat);
        }
    }
    if at_row == row {
        Some((start, i))
    } else {
        None
    }
}

/// The part of `text` from the character `start` up to the character `end`,
/// as far as `text` reaches.
pub fn get_slice_of_string(text: &str, start: usize, end: usize) -> (slice: String)
    ensures
        slice@ == window(text@, start as nat, end as nat),
{
    let length: usize = text.unicode_len();
    let lo: usize = if start <= length {
        start
    } else {
        length
    };
    let hi: usize = if end <= length {
        end
    } else {
        length
    };
    if lo <= hi {
        text.substring_char(lo, hi).to_owned()
    } else {
        String::new()
    }
}

} // verus!
