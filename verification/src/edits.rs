//! What an insertion or a removal does to the lines of a document.
//!
//! Putting a character other than a line break into a line lengthens that
//! line and leaves every other line as it was. Putting a line break into a
//! line splits it in two. Removing goes the other way: a character other than
//! a line break leaves its line, a line break joins the two lines around it.

use vstd::prelude::*;
use crate::document::{
    count_breaks, has_position, index_of, inserted, inserted_run, lemma_breaks_concat,
    lemma_line_end_from, lemma_line_end_from_unique, lemma_line_start_ordered,
    lemma_line_start_prefix,
    lemma_line_at, lemma_position_index, line_at, line_count, line_end, line_end_from, line_len,
    line_start, removed_before, LINE_BREAK,
};

verus! {

/// Where `t` is `s` moved by `d` places from the index `from` on, a line of
/// `s` that starts at or after `from` ends `d` places later in `t`.
proof fn lemma_line_end_shift(s: Seq<char>, t: Seq<char>, d: int, from: int, a: int)
    requires
        0 <= from <= a,
        0 <= from + d,
        t.len() == s.len() + d,
        forall|j: int| from <= j < s.len() ==> t[j + d] == s[j],
    ensures
        line_end_from(t, a + d) == line_end_from(s, a) + d,
{
    if a < s.len() {
        lemma_line_end_from(s, a);
        let e = line_end_from(s, a);
        assert forall|j: int| a + d <= j < e + d implies t[j] != LINE_BREAK by {
            assert(t[(j - d) + d] == s[j - d]);
        }
        if e < s.len() {
            assert(t[e + d] == s[e]);
        }
        lemma_line_end_from_unique(t, a + d, e + d);
    }
}

/// Where `t` is `s` moved by `d` places from the index `from` on, and line
/// `rt` of `t` starts `d` places after line `rs` of `s`, which starts at or
/// after `from`, the same holds of the line that follows `n` lines after each of them.
proof fn lemma_line_start_shift(
    s: Seq<char>,
    t: Seq<char>,
    d: int,
    from: int,
    rs: nat,
    rt: nat,
    n: nat,
)
    requires
        0 <= from <= line_start(s, rs),
        0 <= from + d,
        t.len() == s.len() + d,
        forall|j: int| from <= j < s.len() ==> t[j + d] == s[j],
        line_start(t, rt) == line_start(s, rs) + d,
    ensures
        line_start(t, rt + n) == line_start(s, rs + n) + d,
        line_end(t, rt + n) == line_end(s, rs + n) + d,
    decreases n,
{
    if n > 0 {
        lemma_line_start_shift(s, t, d, from, rs, rt, (n - 1) as nat);
        assert(rt + n - 1 == (rt + n - 1) as nat);
        assert(rs + n - 1 == (rs + n - 1) as nat);
    }
    lemma_line_start_ordered(s, rs, rs + n);
    lemma_line_end_shift(s, t, d, from, line_start(s, rs + n));
}

/// A single character counts one line break if it is one, else none.
proof fn lemma_breaks_single(c: char)
    ensures
        count_breaks(seq![c]) == if c == LINE_BREAK {
            1nat
        } else {
            0nat
        },
{
    let one = seq![c];
    assert(one.len() == 1 && one.last() == c);
    assert(one.drop_last() =~= Seq::<char>::empty());
    assert(count_breaks(one.drop_last()) == 0);
}

/// An insertion adds the line breaks of the character that it puts in.
pub proof fn lemma_breaks_insert(s: Seq<char>, p: int, c: char)
    requires
        0 <= p <= s.len(),
    ensures
        count_breaks(s.insert(p, c)) == count_breaks(s) + if c == LINE_BREAK {
            1nat
        } else {
            0nat
        },
{
    lemma_breaks_single(c);
    lemma_breaks_concat(s.take(p), seq![c]);
    lemma_breaks_concat(s.take(p) + seq![c], s.skip(p));
    lemma_breaks_concat(s.take(p), s.skip(p));
    assert(s.take(p) + s.skip(p) =~= s);
    assert(s.take(p) + seq![c] + s.skip(p) =~= s.insert(p, c));
}

/// A removal takes away the line breaks of the character that it removes.
pub proof fn lemma_breaks_remove(s: Seq<char>, p: int)
    requires
        0 <= p < s.len(),
    ensures
        count_breaks(s.remove(p)) + (if s[p] == LINE_BREAK {
            1nat
        } else {
            0nat
        }) == count_breaks(s),
{
    let t = s.remove(p);
    assert(t.insert(p, s[p]) =~= s);
    lemma_breaks_insert(t, p, s[p]);
}

/// Putting a character that is no line break in at `(row, col)` puts it into
/// line `row` at column `col`, and changes neither the number of lines nor any
/// other line.
pub proof fn lemma_insert_plain(s: Seq<char>, c: char, row: nat, col: nat)
    requires
        has_position(s, row, col),
        c != LINE_BREAK,
    ensures
        ({
            let t = inserted(s, c, row, col);
            &&& t == s.insert(index_of(s, row, col), c)
            &&& line_count(t) == line_count(s)
            &&& line_at(t, row) == line_at(s, row).insert(col as int, c)
            &&& forall|r: nat| r <= row ==> line_start(t, r) == line_start(s, r)
            &&& forall|r: nat| r > row ==> line_start(t, r) == line_start(s, r) + 1
            &&& forall|r: nat| r != row && r < line_count(s) ==> line_at(t, r) == line_at(s, r)
        }),
{
    let p = index_of(s, row, col);
    let t = s.insert(p, c);
    let a = line_start(s, row);
    let e = line_end(s, row);
    lemma_position_index(s, row, col);
    lemma_breaks_insert(s, p, c);
    assert forall|r: nat| r <= row implies line_start(t, r) == line_start(s, r) by {
        lemma_line_start_ordered(s, r, row);
        lemma_line_start_prefix(s, t, p, r);
    }
    lemma_line_end_from_unique(t, a, e + 1);
    assert(line_at(t, row) =~= line_at(s, row).insert(col as int, c));
    assert forall|r: nat| r > row implies line_start(t, r) == line_start(s, r) + 1 && line_end(t, r)
        == line_end(s, r) + 1 by {
        lemma_line_start_shift(s, t, 1, e + 1, row + 1, row + 1, (r - row - 1) as nat);
        assert(row + 1 + (r - row - 1) as nat == r);
    }
    assert forall|r: nat| r != row && r < line_count(s) implies line_at(t, r) == line_at(s, r) by {
        lemma_position_index(s, r, 0);
        if r < row {
            lemma_line_start_ordered(s, r, row);
            lemma_line_start_ordered(s, r + 1, row);
            assert(line_start(t, r + 1) == line_start(s, r + 1));
            assert(line_end(t, r) == line_end(s, r));
        } else {
            lemma_line_start_ordered(s, row, r);
        }
        assert(line_at(t, r) =~= line_at(s, r));
    }
}

/// Putting `n` copies of a character that is no line break in at `(row, col)`
/// lengthens line `row` by `n`, and changes neither the number of lines nor any
/// other line.
pub proof fn lemma_insert_run(s: Seq<char>, c: char, n: nat, row: nat, col: nat)
    requires
        has_position(s, row, col),
        c != LINE_BREAK,
    ensures
        ({
            let t = inserted_run(s, c, n, row, col);
            &&& line_count(t) == line_count(s)
            &&& line_len(t, row) == line_len(s, row) + n
            &&& has_position(t, row, col + n)
            &&& forall|r: nat| r <= row ==> line_start(t, r) == line_start(s, r)
            &&& forall|r: nat| r != row && r < line_count(s) ==> line_at(t, r) == line_at(s, r)
        }),
    decreases n,
{
    let p = index_of(s, row, col);
    let t = inserted_run(s, c, n, row, col);
    lemma_position_index(s, row, col);
    if n == 0 {
        assert(t =~= s);
    } else {
        let less = (n - 1) as nat;
        let u = inserted_run(s, c, less, row, col);
        lemma_insert_run(s, c, less, row, col);
        assert(index_of(u, row, col) == p);
        assert(t =~= u.insert(p, c));
        lemma_insert_plain(u, c, row, col);
        lemma_line_at(u, row);
        lemma_line_at(t, row);
    }
}

/// Putting a line break in at `(row, col)` splits line `row` at column `col`:
/// the document has one line more, line `row` keeps what stood before the
/// column, line `row + 1` holds what stood from the column on, the lines before
/// stay and the lines after move down by one.
pub proof fn lemma_insert_break(s: Seq<char>, row: nat, col: nat)
    requires
        has_position(s, row, col),
    ensures
        ({
            let t = inserted(s, LINE_BREAK, row, col);
            &&& t == s.insert(index_of(s, row, col), LINE_BREAK)
            &&& line_count(t) == line_count(s) + 1
            &&& line_at(t, row) == line_at(s, row).take(col as int)
            &&& line_at(t, row + 1) == line_at(s, row).skip(col as int)
            &&& line_start(t, row + 1) == index_of(s, row, col) + 1
            &&& forall|r: nat| r <= row ==> line_start(t, r) == line_start(s, r)
            &&& forall|r: nat| r > row ==> line_start(t, r + 1) == line_start(s, r) + 1
            &&& forall|r: nat| r < row ==> line_at(t, r) == line_at(s, r)
            &&& forall|r: nat|
                row < r < line_count(s) ==> line_at(t, r + 1) == line_at(s, r)
        }),
{
    let p = index_of(s, row, col);
    let t = s.insert(p, LINE_BREAK);
    let a = line_start(s, row);
    let e = line_end(s, row);
    lemma_position_index(s, row, col);
    lemma_breaks_insert(s, p, LINE_BREAK);
    assert forall|r: nat| r <= row implies line_start(t, r) == line_start(s, r) by {
        lemma_line_start_ordered(s, r, row);
        lemma_line_start_prefix(s, t, p, r);
    }
    lemma_line_end_from_unique(t, a, p);
    assert(line_start(t, row + 1) == p + 1);
    lemma_line_end_from_unique(t, p + 1, e + 1);
    assert(line_at(t, row) =~= line_at(s, row).take(col as int));
    assert(line_at(t, row + 1) =~= line_at(s, row).skip(col as int));
    assert(line_start(t, row + 2) == line_start(s, row + 1) + 1);
    assert forall|r: nat| r > row implies line_start(t, r + 1) == line_start(s, r) + 1 && line_end(
        t,
        r + 1,
    ) == line_end(s, r) + 1 by {
        lemma_line_start_shift(s, t, 1, e + 1, row + 1, row + 2, (r - row - 1) as nat);
        assert(row + 1 + (r - row - 1) as nat == r);
        assert(row + 2 + (r - row - 1) as nat == r + 1);
    }
    assert forall|r: nat| r < row implies line_at(t, r) == line_at(s, r) by {
        lemma_position_index(s, r, 0);
        lemma_line_start_ordered(s, r, row);
        lemma_line_start_ordered(s, r + 1, row);
        assert(line_start(t, r + 1) == line_start(s, r + 1));
        assert(line_end(t, r) == line_end(s, r));
        assert(line_at(t, r) =~= line_at(s, r));
    }
    assert forall|r: nat| row < r < line_count(s) implies line_at(t, r + 1) == line_at(s, r) by {
        lemma_position_index(s, r, 0);
        lemma_line_start_ordered(s, row, r);
        assert(line_at(t, r + 1) =~= line_at(s, r));
    }
}

/// Removing the character before `(row, col)`, where the column is not 0,
/// takes the character at column `col - 1` out of line `row`, and changes
/// neither the number of lines nor any other line.
pub proof fn lemma_remove_plain(s: Seq<char>, row: nat, col: nat)
    requires
        has_position(s, row, col),
        col > 0,
    ensures
        ({
            let t = removed_before(s, row, col);
            &&& t == s.remove(index_of(s, row, col) - 1)
            &&& line_count(t) == line_count(s)
            &&& line_at(t, row) == line_at(s, row).remove(col - 1)
            &&& forall|r: nat| r <= row ==> line_start(t, r) == line_start(s, r)
            &&& forall|r: nat| r > row ==> line_start(t, r) == line_start(s, r) - 1
            &&& forall|r: nat| r != row && r < line_count(s) ==> line_at(t, r) == line_at(s, r)
        }),
{
    let p = index_of(s, row, col);
    let t = s.remove(p - 1);
    let a = line_start(s, row);
    let e = line_end(s, row);
    lemma_position_index(s, row, col);
    lemma_breaks_remove(s, p - 1);
    assert forall|r: nat| r <= row implies line_start(t, r) == line_start(s, r) by {
        lemma_line_start_ordered(s, r, row);
        lemma_line_start_prefix(s, t, p - 1, r);
    }
    lemma_line_end_from_unique(t, a, e - 1);
    assert(line_at(t, row) =~= line_at(s, row).remove(col - 1));
    assert forall|r: nat| r > row implies line_start(t, r) == line_start(s, r) - 1 && line_end(t, r)
        == line_end(s, r) - 1 by {
        lemma_line_start_shift(s, t, -1, e + 1, row + 1, row + 1, (r - row - 1) as nat);
        assert(row + 1 + (r - row - 1) as nat == r);
    }
    assert forall|r: nat| r != row && r < line_count(s) implies line_at(t, r) == line_at(s, r) by {
        lemma_position_index(s, r, 0);
        if r < row {
            lemma_line_start_ordered(s, r, row);
            lemma_line_start_ordered(s, r + 1, row);
            assert(line_start(t, r + 1) == line_start(s, r + 1));
            assert(line_end(t, r) == line_end(s, r));
        } else {
            lemma_line_start_ordered(s, row, r);
        }
        assert(line_at(t, r) =~= line_at(s, r));
    }
}

/// Removing the character before `(row, 0)`, where the row is not 0, removes
/// the line break between the lines `row - 1` and `row` and joins them: the
/// document has one line less, line `row - 1` holds both, the lines before stay
/// and the lines after move up by one.
pub proof fn lemma_remove_break(s: Seq<char>, row: nat)
    requires
        0 < row < line_count(s),
    ensures
        ({
            let t = removed_before(s, row, 0);
            let above = (row - 1) as nat;
            &&& t == s.remove(line_start(s, row) - 1)
            &&& s[line_start(s, row) - 1] == LINE_BREAK
            &&& line_count(t) + 1 == line_count(s)
            &&& line_at(t, above) == line_at(s, above) + line_at(s, row)
            &&& forall|r: nat| r < row ==> line_start(t, r) == line_start(s, r)
            &&& forall|r: nat| r >= row ==> line_start(t, r) == line_start(s, r + 1) - 1
            &&& forall|r: nat| r < above ==> line_at(t, r) == line_at(s, r)
            &&& forall|r: nat|
                row <= r && r + 1 < line_count(s) ==> line_at(t, r) == line_at(s, r + 1)
        }),
{
    let above = (row - 1) as nat;
    let a = line_start(s, row);
    let e = line_end(s, row);
    let t = s.remove(a - 1);
    lemma_position_index(s, row, 0);
    lemma_position_index(s, above, 0);
    lemma_breaks_remove(s, a - 1);
    assert forall|r: nat| r < row implies line_start(t, r) == line_start(s, r) by {
        lemma_line_start_ordered(s, r, above);
        lemma_line_start_prefix(s, t, a - 1, r);
    }
    lemma_line_end_from_unique(t, line_start(s, above), e - 1);
    assert(line_at(t, above) =~= line_at(s, above) + line_at(s, row));
    assert(line_start(t, row) == line_start(s, row + 1) - 1);
    assert forall|r: nat| r >= row implies line_start(t, r) == line_start(s, r + 1) - 1 && line_end(
        t,
        r,
    ) == line_end(s, r + 1) - 1 by {
        lemma_line_start_shift(s, t, -1, e + 1, row + 1, row, (r - row) as nat);
        assert(row + 1 + (r - row) as nat == r + 1);
        assert(row + (r - row) as nat == r);
    }
    assert forall|r: nat| r < above implies line_at(t, r) == line_at(s, r) by {
        lemma_position_index(s, r, 0);
        lemma_line_start_ordered(s, r, above);
        lemma_line_start_ordered(s, r + 1, above);
        assert(line_start(t, r + 1) == line_start(s, r + 1));
        assert(line_end(t, r) == line_end(s, r));
        assert(line_at(t, r) =~= line_at(s, r));
    }
    assert forall|r: nat| row <= r && r + 1 < line_count(s) implies line_at(t, r) == line_at(
        s,
        r + 1,
    ) by {
        lemma_position_index(s, r + 1, 0);
        lemma_line_start_ordered(s, row, r + 1);
        assert(line_at(t, r) =~= line_at(s, r + 1));
    }
}

} // verus!
