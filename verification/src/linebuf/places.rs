//! Places of the buffer counted in other ways: as one running number, in
//! bytes, and in columns of the terminal.

use core::ops::Range;
use vstd::prelude::*;
use crate::linebuf::buffer::{clamped, fixed, line_at, with_cursor, wf, BufV, LineBuf};
use crate::linebuf::grapheme::{
    chars_width, lemma_chars_width_nonneg, lemma_utf8_size_nonneg, sole_char, Grapheme,
};
use crate::linebuf::line::{lemma_line_size_nonneg, line_size, line_text, LineV};
use crate::linebuf::lines::{text_of, Lines, LinesV};
use crate::linebuf::pos::{cut_row, end_of_all, last_col, pos_le, pos_lt, Pos};
use crate::linebuf::select::{anchor_of, with_anchor};
use crate::seqs::{first_from, group_views, lemma_first_from, min_of, sat, sat_add_signed, views};
use crate::shell::Opts;
use crate::text::{char_columns, clusters, columns, split_clusters, utf8_size};

verus! {

broadcast use group_views;

/// The running number of the start of a row: clusters and line feeds before it.
pub open spec fn flat_start(ls: LinesV, row: int) -> int
    decreases row,
{
    if row <= 0 {
        0
    } else {
        flat_start(ls, row - 1) + ls[row - 1].len() + 1
    }
}

/// The running number of a place.
pub open spec fn flat_of(ls: LinesV, pos: Pos) -> int {
    let p = clamped(ls, pos, false);
    flat_start(ls, p.row as int) + p.col
}

/// The running number of the end of the buffer.
pub open spec fn flat_end(ls: LinesV) -> int {
    flat_start(ls, ls.len() - 1) + ls.last().len()
}

/// The place `k` clusters and line feeds behind the start of row `row`; the
/// end of the buffer where that lies past it.
pub open spec fn place_from(ls: LinesV, row: int, k: int) -> Pos
    decreases ls.len() - row,
{
    if k <= ls[row].len() {
        Pos { row: row as usize, col: k as usize }
    } else if row + 1 < ls.len() {
        place_from(ls, row + 1, k - ls[row].len() - 1)
    } else {
        Pos { row: row as usize, col: ls[row].len() as usize }
    }
}

/// The place with the running number `k`.
pub open spec fn place_of(ls: LinesV, k: int) -> Pos {
    place_from(ls, 0, k)
}

pub proof fn lemma_flat_start_nonneg(ls: LinesV, row: int)
    ensures
        flat_start(ls, row) >= 0,
    decreases row,
{
    if row > 0 {
        lemma_flat_start_nonneg(ls, row - 1);
    }
}

pub proof fn lemma_place_from_shift(ls: LinesV, row: int, k: int)
    requires
        0 <= row < ls.len(),
        k >= 0,
    ensures
        place_of(ls, flat_start(ls, row) + k) == place_from(ls, row, k),
    decreases row,
{
    if row > 0 {
        lemma_place_from_shift(ls, row - 1, ls[row - 1].len() + 1 + k);
    }
}

/// The running number leads back to the place it was taken of.
pub proof fn law_flat_leads_back(ls: LinesV, pos: Pos)
    requires
        pos.row < ls.len(),
        pos.col <= ls[pos.row as int].len(),
    ensures
        place_of(ls, flat_of(ls, pos)) == pos,
{
    lemma_place_from_shift(ls, pos.row as int, pos.col as int);
}

/// The place with a running number has that number, up to the end of the
/// buffer.
pub proof fn law_place_has_its_flat(ls: LinesV, k: int)
    requires
        0 < ls.len() <= usize::MAX,
        forall|i: int| 0 <= i < ls.len() ==> (#[trigger] ls[i]).len() <= usize::MAX,
        k >= 0,
    ensures
        place_of(ls, k).row < ls.len(),
        flat_of(ls, place_of(ls, k)) == if k <= flat_end(ls) {
            k
        } else {
            flat_end(ls)
        },
{
    lemma_place_has_its_flat(ls, 0, k);
}

proof fn lemma_place_has_its_flat(ls: LinesV, row: int, k: int)
    requires
        0 <= row < ls.len() <= usize::MAX,
        forall|i: int| 0 <= i < ls.len() ==> (#[trigger] ls[i]).len() <= usize::MAX,
        k >= 0,
    ensures
        row <= place_from(ls, row, k).row < ls.len(),
        flat_start(ls, row) <= flat_end(ls),
        flat_of(ls, place_from(ls, row, k)) == if flat_start(ls, row) + k <= flat_end(ls) {
            flat_start(ls, row) + k
        } else {
            flat_end(ls)
        },
    decreases ls.len() - row,
{
    if row + 1 < ls.len() {
        let next = if k <= ls[row].len() {
            0
        } else {
            k - ls[row].len() - 1
        };
        lemma_place_has_its_flat(ls, row + 1, next);
    }
}

/// The byte where a row of the text starts.
pub open spec fn byte_start(ls: LinesV, row: int) -> int
    decreases row,
{
    if row <= 0 {
        0
    } else {
        byte_start(ls, row - 1) + line_size(ls[row - 1]) + 1
    }
}

/// The places of row `row` up to column `n`, each with its byte.
pub open spec fn row_bytes(ls: LinesV, row: int, n: int) -> Seq<(usize, Pos)> {
    Seq::new(
        n as nat,
        |c: int|
            (
                sat(byte_start(ls, row) + line_size(ls[row].take(c))),
                Pos { row: row as usize, col: c as usize },
            ),
    )
}

/// Every place of the first `n` rows, each with its byte: the columns of a
/// row, the one behind its last cluster included.
pub open spec fn bytes_upto(ls: LinesV, n: int) -> Seq<(usize, Pos)>
    decreases n,
{
    if n <= 0 {
        Seq::empty()
    } else {
        bytes_upto(ls, n - 1) + row_bytes(ls, n - 1, ls[n - 1].len() as int + 1)
    }
}

/// Every place of the buffer with its byte, in order.
pub open spec fn byte_table(ls: LinesV) -> Seq<(usize, Pos)> {
    bytes_upto(ls, ls.len() as int)
}

/// The byte of the first place at or behind `pos`.
pub open spec fn byte_of(ls: LinesV, pos: Pos) -> Option<usize> {
    let i = first_from(byte_table(ls), |e: (usize, Pos)| pos_le(pos, e.1), 0);
    if i < byte_table(ls).len() {
        Some(byte_table(ls)[i].0)
    } else {
        None
    }
}

/// The first place at or behind a byte.
pub open spec fn place_at_byte(ls: LinesV, b: usize) -> Option<Pos> {
    let i = first_from(byte_table(ls), |e: (usize, Pos)| e.0 >= b, 0);
    if i < byte_table(ls).len() {
        Some(byte_table(ls)[i].1)
    } else {
        None
    }
}

/// The byte of a place, cut to the text.
pub open spec fn byte_at(ls: LinesV, pos: Pos) -> usize {
    let p = clamped(ls, pos, false);
    sat(byte_start(ls, p.row as int) + line_size(ls[p.row as int].take(p.col as int)))
}

/// The first place at or behind a byte, and the end of the text for a byte
/// behind it.
pub open spec fn place_by_byte(ls: LinesV, b: usize) -> Pos {
    match place_at_byte(ls, b) {
        Some(p) => p,
        None => clamped(ls, end_of_all(), false),
    }
}

/// The first byte of the table at or behind a byte.
pub open spec fn byte_mark(ls: LinesV, b: usize) -> Option<usize> {
    let i = first_from(byte_table(ls), |e: (usize, Pos)| e.0 >= b, 0);
    if i < byte_table(ls).len() {
        Some(byte_table(ls)[i].0)
    } else {
        None
    }
}

pub proof fn lemma_byte_start_nonneg(ls: LinesV, row: int)
    requires
        row <= ls.len(),
    ensures
        byte_start(ls, row) >= 0,
    decreases row,
{
    if row > 0 {
        lemma_byte_start_nonneg(ls, row - 1);
        lemma_line_size_nonneg(ls[row - 1]);
    }
}

/// Every cluster holds a character, and the text fits a machine integer.
pub open spec fn addressable(ls: LinesV) -> bool {
    &&& 0 < ls.len() <= usize::MAX
    &&& forall|i: int| 0 <= i < ls.len() ==> (#[trigger] ls[i]).len() <= usize::MAX
    &&& forall|i: int, j: int|
        0 <= i < ls.len() && 0 <= j < ls[i].len() ==> (#[trigger] ls[i][j]).len() > 0
    &&& byte_start(ls, ls.len() as int) <= usize::MAX
}

proof fn lemma_utf8_size_positive(g: Seq<char>)
    requires
        g.len() > 0,
    ensures
        utf8_size(g) > 0,
{
    lemma_utf8_size_nonneg(g.drop_last());
}

proof fn lemma_sizes_grow(l: LineV, c: int, d: int)
    requires
        0 <= c <= d <= l.len(),
        forall|j: int| 0 <= j < l.len() ==> (#[trigger] l[j]).len() > 0,
    ensures
        line_size(l.take(c)) + (d - c) <= line_size(l.take(d)),
    decreases d - c,
{
    if c < d {
        lemma_sizes_grow(l, c, d - 1);
        assert(l.take(d).drop_last() =~= l.take(d - 1));
        assert(l[d - 1].len() > 0);
        lemma_utf8_size_positive(l[d - 1]);
    }
}

proof fn lemma_byte_start_grows(ls: LinesV, a: int, b: int)
    requires
        0 <= a <= b <= ls.len(),
    ensures
        byte_start(ls, a) <= byte_start(ls, b),
    decreases b - a,
{
    if a < b {
        lemma_byte_start_grows(ls, a, b - 1);
        lemma_line_size_nonneg(ls[b - 1]);
    }
}

/// The table lists a place.
pub open spec fn listed(t: Seq<(usize, Pos)>, p: Pos) -> bool {
    exists|i: int| 0 <= i < t.len() && (#[trigger] t[i]).1 == p
}

/// The table lists places and bytes in rising order, and every place.
proof fn lemma_table(ls: LinesV, n: int)
    requires
        addressable(ls),
        0 <= n <= ls.len(),
    ensures
        ({
            let t = bytes_upto(ls, n);
            &&& forall|i: int, j: int|
                0 <= i < j < t.len() ==> (#[trigger] t[i]).0 < (#[trigger] t[j]).0 && pos_lt(
                    t[i].1,
                    t[j].1,
                )
            &&& forall|i: int|
                0 <= i < t.len() ==> (#[trigger] t[i]).0 < byte_start(ls, n) && t[i].1.row < n
                    && t[i].0 == byte_start(ls, t[i].1.row as int) + line_size(
                    ls[t[i].1.row as int].take(t[i].1.col as int),
                )
            &&& forall|p: Pos|
                p.row < n && p.col <= ls[p.row as int].len() ==> #[trigger] listed(t, p)
        }),
    decreases n,
{
    if n > 0 {
        lemma_table(ls, n - 1);
        let a = bytes_upto(ls, n - 1);
        let l = ls[n - 1];
        let r = row_bytes(ls, n - 1, l.len() as int + 1);
        let t = a + r;
        let base = byte_start(ls, n - 1);
        lemma_byte_start_nonneg(ls, n - 1);
        lemma_byte_start_grows(ls, n, ls.len() as int);
        assert forall|j: int| 0 <= j < l.len() implies (#[trigger] l[j]).len() > 0 by {
            assert(ls[n - 1][j].len() > 0);
        }
        assert(l.take(l.len() as int) =~= l);
        assert(l.take(0) =~= LineV::empty());
        assert forall|c: int| 0 <= c <= l.len() implies (#[trigger] r[c]).0 == base + line_size(
            l.take(c),
        ) && base <= r[c].0 < byte_start(ls, n) && r[c].1 == (Pos {
            row: (n - 1) as usize,
            col: c as usize,
        }) by {
            lemma_sizes_grow(l, c, l.len() as int);
            lemma_sizes_grow(l, 0, c);
        }
        assert forall|i: int, j: int| 0 <= i < j < t.len() implies (#[trigger] t[i]).0 < (
        #[trigger] t[j]).0 && pos_lt(t[i].1, t[j].1) by {
            if j < a.len() {
                assert(t[i] == a[i] && t[j] == a[j]);
            } else if i < a.len() {
                assert(t[i] == a[i] && t[j] == r[j - a.len()]);
            } else {
                let c = i - a.len();
                let d = j - a.len();
                assert(t[i] == r[c] && t[j] == r[d]);
                lemma_sizes_grow(l, c, d);
            }
        }
        assert forall|i: int| 0 <= i < t.len() implies (#[trigger] t[i]).0 < byte_start(ls, n)
            && t[i].1.row < n && t[i].0 == byte_start(ls, t[i].1.row as int) + line_size(
            ls[t[i].1.row as int].take(t[i].1.col as int),
        ) by {
            if i < a.len() {
                assert(t[i] == a[i]);
                lemma_byte_start_grows(ls, n - 1, n);
            } else {
                assert(t[i] == r[i - a.len()]);
            }
        }
        assert(t == bytes_upto(ls, n));
        assert forall|p: Pos| p.row < n && p.col <= ls[p.row as int].len() implies #[trigger] listed(
            t,
            p,
        ) by {
            if p.row < n - 1 {
                assert(listed(a, p));
                let i = choose|i: int| 0 <= i < a.len() && (#[trigger] a[i]).1 == p;
                assert(t[i] == a[i]);
            } else {
                assert(r[p.col as int].1 == p);
                assert(t[a.len() + p.col] == r[p.col as int]);
            }
        }
    }
}

/// The byte of a place leads back to the place.
pub proof fn law_byte_leads_back(ls: LinesV, pos: Pos)
    requires
        addressable(ls),
        pos.row < ls.len(),
        pos.col <= ls[pos.row as int].len(),
    ensures
        byte_of(ls, pos) == Some(byte_at(ls, pos)),
        place_at_byte(ls, byte_at(ls, pos)) == Some(pos),
        place_by_byte(ls, byte_at(ls, pos)) == pos,
{
    let t = byte_table(ls);
    lemma_table(ls, ls.len() as int);
    assert(listed(t, pos));
    let i = choose|i: int| 0 <= i < t.len() && (#[trigger] t[i]).1 == pos;
    let p = |e: (usize, Pos)| pos_le(pos, e.1);
    lemma_first_from(t, p, 0);
    let k = first_from(t, p, 0);
    assert(p(t[i]));
    assert(k <= i);
    if k < i {
        assert(pos_lt(t[k].1, t[i].1));
        assert(p(t[k]));
    }
    let b = t[i].0;
    let q = |e: (usize, Pos)| e.0 >= b;
    lemma_first_from(t, q, 0);
    let m = first_from(t, q, 0);
    assert(q(t[i]));
    assert(m <= i);
    if m < i {
        assert(t[m].0 < t[i].0);
        assert(q(t[m]));
    }
}

/// The terminal column behind a cluster that starts in column `at`: a tab
/// goes on to the next tab stop.
pub open spec fn column_after(at: usize, g: Seq<char>, tab: usize) -> usize {
    match sole_char(g) {
        Some(c) => if c == '\t' {
            sat(at + tab - at as int % tab as int)
        } else {
            sat(
                at + match columns(c) {
                    Some(w) => w as int,
                    None => 0,
                },
            )
        },
        None => sat(at + sat(chars_width(g))),
    }
}

/// The terminal column behind the clusters of `l`.
pub open spec fn shown_col(l: LineV, tab: usize) -> usize
    decreases l.len(),
{
    if l.len() == 0 {
        0
    } else {
        column_after(shown_col(l.drop_last(), tab), l.last(), tab)
    }
}

/// The first column from `i` on whose cluster starts at or behind the terminal
/// column `target`; behind the last cluster where there is none.
pub open spec fn col_from(l: LineV, tab: usize, target: usize, i: int) -> int
    decreases l.len() - i,
{
    if i >= l.len() {
        l.len() as int
    } else if shown_col(l.take(i), tab) >= target {
        i
    } else {
        col_from(l, tab, target, i + 1)
    }
}

/// The terminal column of a place.
pub open spec fn shown_col_of(ls: LinesV, pos: Pos, tab: usize) -> usize {
    let p = Pos { row: pos.row, col: clamped(ls, pos, false).col };
    shown_col(line_at(ls, p.row).take(p.col as int), tab)
}

/// The row `offset` rows from the cursor, within the buffer.
pub open spec fn row_off(b: BufV, offset: int) -> usize {
    cut_row(sat(b.cursor.pos.row + offset), b.lines.len() as int)
}

/// The column `offset` columns from the cursor's, within row `row`.
pub open spec fn col_off(b: BufV, row: usize, offset: int) -> usize {
    let c = sat(b.cursor.pos.col + offset);
    let m = last_col(line_at(b.lines, row).len() as int, b.cursor.exclusive);
    if c > m {
        m as usize
    } else {
        c
    }
}

/// The place a number of rows and columns from the cursor, within the buffer.
pub open spec fn place_off(b: BufV, rows: int, cols: int) -> Pos {
    Pos { row: row_off(b, rows), col: col_off(b, row_off(b, rows), cols) }
}

/// `n` cut to what lies between two bounds.
pub open spec fn between(n: int, lo: int, hi: int) -> int {
    if n < lo {
        lo
    } else if n > hi {
        hi
    } else {
        n
    }
}

/// The place `offset` clusters and line feeds from column `col` of row `row`.
pub open spec fn wrapped(ls: LinesV, row: int, col: int, offset: int) -> Pos {
    place_of(ls, between(flat_start(ls, row) + col + offset, 0, flat_end(ls)))
}

/// The place a number of rows, then clusters and line feeds from the cursor.
pub open spec fn place_wrapped(b: BufV, rows: int, cols: int) -> Pos {
    wrapped(b.lines, row_off(b, rows) as int, b.cursor.pos.col as int, cols)
}

/// Every cluster of the buffer with its place.
pub open spec fn placed_clusters(ls: LinesV, n: int) -> Seq<(Pos, Seq<char>)>
    decreases n,
{
    if n <= 0 {
        Seq::empty()
    } else {
        placed_clusters(ls, n - 1) + Seq::new(
            ls[n - 1].len(),
            |c: int| (Pos { row: (n - 1) as usize, col: c as usize }, ls[n - 1][c]),
        )
    }
}

/// The bytes UTF-8 takes for the first `n` of some texts.
pub open spec fn sizes_upto(s: Seq<Seq<char>>, n: int) -> int
    decreases n,
{
    if n <= 0 {
        0
    } else {
        sizes_upto(s, n - 1) + utf8_size(s[n - 1])
    }
}

/// The byte of the cursor: the lines before its own, and in its own line as
/// many clusters of the line's text as there are columns before it.
pub open spec fn cursor_byte(b: BufV) -> int {
    let row = b.cursor.pos.row as int;
    let cs = clusters(line_text(b.lines[row]));
    let col = clamped(b.lines, b.cursor.pos, false).col as int;
    byte_start(b.lines, row) + sizes_upto(
        cs,
        if col <= cs.len() {
            col
        } else {
            cs.len() as int
        },
    )
}

impl LineBuf {
    pub fn pos_to_flat(&self, pos: Pos) -> (n: usize)
        requires
            self@.lines.len() > 0,
        ensures
            n == sat(flat_of(self@.lines, pos)),
    {
        let p = self.clamp_place(pos, false);
        let mut n: usize = 0;
        let mut i: usize = 0;
        while i < p.row
            invariant
                i <= p.row < self@.lines.len(),
                n == sat(flat_start(self@.lines, i as int)),
            decreases p.row - i,
        {
            proof {
                lemma_flat_start_nonneg(self@.lines, i as int);
            }
            n = n.saturating_add(self.lines.at(i).len()).saturating_add(1);
            i += 1;
        }
        proof {
            lemma_flat_start_nonneg(self@.lines, i as int);
        }
        n.saturating_add(p.col)
    }

    pub fn pos_from_flat(&self, flat: usize) -> (p: Pos)
        requires
            self@.lines.len() > 0,
        ensures
            p == place_of(self@.lines, flat as int),
            p.row < self@.lines.len(),
    {
        let mut k: usize = flat;
        let mut row: usize = 0;
        loop
            invariant
                row < self@.lines.len(),
                place_of(self@.lines, flat as int) == place_from(self@.lines, row as int, k as int),
            decreases self@.lines.len() - row,
        {
            let len = self.lines.at(row).len();
            if k <= len {
                return Pos { row, col: k };
            }
            if row >= self.lines.len() - 1 {
                return Pos { row, col: len };
            }
            k = k - len - 1;
            row += 1;
        }
    }

    pub fn cursor_to_flat(&self) -> (n: usize)
        requires
            self@.lines.len() > 0,
        ensures
            n == sat(flat_of(self@.lines, self@.cursor.pos)),
    {
        self.pos_to_flat(self.cursor.pos)
    }

    pub fn anchor_to_flat(&self) -> (n: Option<usize>)
        requires
            self@.lines.len() > 0,
        ensures
            n == match self@.select_mode {
                Some(m) => Some(sat(flat_of(self@.lines, anchor_of(m)))),
                None => None,
            },
    {
        match &self.select_mode {
            Some(m) => Some(self.pos_to_flat(m.anchor())),
            None => None,
        }
    }

    /// The byte of a place, cut to the text.
    pub fn byte_of_pos(&self, pos: Pos) -> (n: usize)
        requires
            self@.lines.len() > 0,
        ensures
            n == byte_at(self@.lines, pos),
    {
        let p = self.clamp_place(pos, false);
        let mut n: usize = 0;
        let mut i: usize = 0;
        while i < p.row
            invariant
                i <= p.row < self@.lines.len(),
                n == sat(byte_start(self@.lines, i as int)),
            decreases p.row - i,
        {
            proof {
                lemma_byte_start_nonneg(self@.lines, i as int);
                lemma_line_size_nonneg(self@.lines[i as int]);
            }
            n = n.saturating_add(self.lines.at(i).byte_len()).saturating_add(1);
            i += 1;
        }
        let line = self.lines.at(p.row);
        let ghost base = byte_start(self@.lines, p.row as int);
        let mut col: usize = 0;
        proof {
            lemma_byte_start_nonneg(self@.lines, p.row as int);
            assert(line@.take(0) =~= LineV::empty());
        }
        while col < p.col
            invariant
                col <= p.col <= line@.len(),
                base >= 0,
                n == sat(base + line_size(line@.take(col as int))),
            decreases p.col - col,
        {
            proof {
                lemma_line_size_nonneg(line@.take(col as int));
                lemma_utf8_size_nonneg(line@[col as int]);
                assert(line@.take(col + 1).drop_last() =~= line@.take(col as int));
            }
            n = n.saturating_add(line.at(col).len_utf8());
            col += 1;
        }
        n
    }

    /// The first place at or behind a byte, and the end of the text for a byte
    /// behind it.
    pub fn pos_by_byte(&self, byte: usize) -> (p: Pos)
        requires
            self@.lines.len() > 0,
        ensures
            p == place_by_byte(self@.lines, byte),
    {
        match self.byte_to_pos(byte) {
            Some(p) => p,
            None => self.clamp_place(Pos::end(), false),
        }
    }

    pub fn set_cursor_from_flat(&mut self, flat: usize, opts: &Opts)
        requires
            old(self)@.lines.len() > 0,
        ensures
            final(self)@ == fixed(
                with_cursor(old(self)@, place_of(old(self)@.lines, flat as int)),
                *opts,
            ),
            wf(final(self)@),
    {
        self.cursor.pos = self.pos_from_flat(flat);
        assert(self@ =~= with_cursor(old(self)@, place_of(old(self)@.lines, flat as int)));
        self.fix_cursor(opts);
    }

    /// Moves the start of the selection.
    pub fn set_anchor(&mut self, new_pos: Pos)
        requires
            old(self)@.select_mode is Some,
        ensures
            final(self)@ == (BufV {
                select_mode: Some(with_anchor(old(self)@.select_mode->0, new_pos)),
                ..old(self)@
            }),
    {
        if let Some(m) = self.select_mode {
            self.select_mode = Some(m.moved_to(new_pos));
        }
        assert(self@ =~= (BufV {
            select_mode: Some(with_anchor(old(self)@.select_mode->0, new_pos)),
            ..old(self)@
        }));
    }

    pub fn set_anchor_from_flat(&mut self, flat: usize)
        requires
            old(self)@.lines.len() > 0,
            old(self)@.select_mode is Some,
        ensures
            final(self)@ == (BufV {
                select_mode: Some(
                    with_anchor(
                        old(self)@.select_mode->0,
                        place_of(old(self)@.lines, flat as int),
                    ),
                ),
                ..old(self)@
            }),
    {
        let p = self.pos_from_flat(flat);
        self.set_anchor(p);
    }

    /// The running number of the start of the cursor's line.
    pub fn start_of_line(&self) -> (n: usize)
        requires
            self@.cursor.pos.row <= self@.lines.len(),
        ensures
            n == sat(flat_start(self@.lines, self@.cursor.pos.row as int)),
    {
        let mut n: usize = 0;
        let mut i: usize = 0;
        while i < self.cursor.pos.row
            invariant
                i <= self@.cursor.pos.row <= self@.lines.len(),
                n == sat(flat_start(self@.lines, i as int)),
            decreases self@.cursor.pos.row - i,
        {
            proof {
                lemma_flat_start_nonneg(self@.lines, i as int);
            }
            n = n.saturating_add(self.lines.at(i).len()).saturating_add(1);
            i += 1;
        }
        n
    }

    /// Every place of the buffer with its byte in the text.
    pub fn byte_positions(&self) -> (v: Vec<(usize, Pos)>)
        ensures
            v@ == byte_table(self@.lines),
    {
        let mut v: Vec<(usize, Pos)> = Vec::new();
        let mut acc: usize = 0;
        let mut row: usize = 0;
        while row < self.lines.len()
            invariant
                row <= self@.lines.len(),
                v@ == bytes_upto(self@.lines, row as int),
                acc == sat(byte_start(self@.lines, row as int)),
            decreases self@.lines.len() - row,
        {
            let line = self.lines.at(row);
            let ghost base = byte_start(self@.lines, row as int);
            let mut col: usize = 0;
            assert(line@.take(0) =~= LineV::empty());
            assert(v@ =~= bytes_upto(self@.lines, row as int) + row_bytes(
                self@.lines,
                row as int,
                0,
            ));
            while col < line.len()
                invariant
                    row < self@.lines.len(),
                    line@ == self@.lines[row as int],
                    base == byte_start(self@.lines, row as int),
                    col <= line@.len(),
                    acc == sat(base + line_size(line@.take(col as int))),
                    v@ == bytes_upto(self@.lines, row as int) + row_bytes(
                        self@.lines,
                        row as int,
                        col as int,
                    ),
                decreases line@.len() - col,
            {
                v.push((acc, Pos { row, col }));
                proof {
                    lemma_byte_start_nonneg(self@.lines, row as int);
                    lemma_line_size_nonneg(line@.take(col as int));
                    lemma_utf8_size_nonneg(line@[col as int]);
                    assert(line@.take(col + 1).drop_last() =~= line@.take(col as int));
                }
                acc = acc.saturating_add(line.at(col).len_utf8());
                col += 1;
                assert(v@ =~= bytes_upto(self@.lines, row as int) + row_bytes(
                    self@.lines,
                    row as int,
                    col as int,
                ));
            }
            assert(line@.take(col as int) =~= line@);
            v.push((acc, Pos { row, col }));
            assert(v@ =~= bytes_upto(self@.lines, row as int) + row_bytes(
                self@.lines,
                row as int,
                line@.len() as int + 1,
            ));
            proof {
                lemma_byte_start_nonneg(self@.lines, row as int);
                lemma_line_size_nonneg(line@);
            }
            acc = acc.saturating_add(1);
            row += 1;
        }
        v
    }

    /// The byte of the first place at or behind `pos`.
    pub fn pos_to_byte(&self, pos: Pos) -> (b: Option<usize>)
        ensures
            b == byte_of(self@.lines, pos),
    {
        let table = self.byte_positions();
        let ghost p = |e: (usize, Pos)| pos_le(pos, e.1);
        let mut i: usize = 0;
        while i < table.len()
            invariant
                i <= table@.len(),
                table@ == byte_table(self@.lines),
                p == |e: (usize, Pos)| pos_le(pos, e.1),
                first_from(table@, p, 0) == first_from(table@, p, i as int),
            decreases table@.len() - i,
        {
            if table[i].1 >= pos {
                return Some(table[i].0);
            }
            i += 1;
        }
        None
    }

    /// The first place at or behind a byte of the text.
    pub fn byte_to_pos(&self, byte_offset: usize) -> (p: Option<Pos>)
        ensures
            p == place_at_byte(self@.lines, byte_offset),
    {
        let table = self.byte_positions();
        let ghost p = |e: (usize, Pos)| e.0 >= byte_offset;
        let mut i: usize = 0;
        while i < table.len()
            invariant
                i <= table@.len(),
                table@ == byte_table(self@.lines),
                p == |e: (usize, Pos)| e.0 >= byte_offset,
                first_from(table@, p, 0) == first_from(table@, p, i as int),
            decreases table@.len() - i,
        {
            if table[i].0 >= byte_offset {
                return Some(table[i].1);
            }
            i += 1;
        }
        None
    }

    /// The byte of the cursor in the text.
    pub fn cursor_byte_pos(&self) -> (n: usize)
        requires
            wf(self@),
        ensures
            n == sat(cursor_byte(self@)),
    {
        let mut n: usize = 0;
        let mut i: usize = 0;
        let row = self.cursor.pos.row;
        while i < row
            invariant
                i <= row < self@.lines.len(),
                n == sat(byte_start(self@.lines, i as int)),
            decreases row - i,
        {
            proof {
                lemma_byte_start_nonneg(self@.lines, i as int);
                lemma_line_size_nonneg(self@.lines[i as int]);
            }
            n = n.saturating_add(self.lines.at(i).byte_len()).saturating_add(1);
            i += 1;
        }
        let line = self.lines.at(row);
        let text = line.to_string();
        let parts = split_clusters(text.as_str());
        let ghost cs = clusters(line_text(line@));
        let col = min_of(self.cursor.pos.col, line.len());
        let stop = min_of(col, parts.len());
        let mut k: usize = 0;
        proof {
            lemma_byte_start_nonneg(self@.lines, row as int);
            assert(parts@.len() == views(parts@).len());
        }
        while k < stop
            invariant
                k <= stop <= parts@.len(),
                views(parts@) == cs,
                byte_start(self@.lines, row as int) >= 0,
                sizes_upto(cs, k as int) >= 0,
                n == sat(byte_start(self@.lines, row as int) + sizes_upto(cs, k as int)),
            decreases stop - k,
        {
            let g = Grapheme::of_text(parts[k].as_str());
            assert(g@ == cs[k as int]);
            proof {
                lemma_utf8_size_nonneg(cs[k as int]);
            }
            n = n.saturating_add(g.len_utf8());
            k += 1;
        }
        n
    }

    /// The clusters `range` of the text, joined; none where it reaches past
    /// the end.
    pub fn slice(&self, range: Range<usize>) -> (s: Option<String>)
        requires
            range.start <= range.end,
        ensures
            s is Some <==> range.end <= clusters(text_of(self@.lines)).len(),
            s is Some ==> s->0@ == clusters(text_of(self@.lines)).subrange(
                range.start as int,
                range.end as int,
            ).flatten(),
    {
        let joined = self.joined();
        let parts = split_clusters(joined.as_str());
        let ghost cs = clusters(text_of(self@.lines));
        assert(parts@.len() == views(parts@).len());
        if range.start > parts.len() || range.end > parts.len() {
            return None;
        }
        let mut s = String::new();
        let mut i: usize = range.start;
        assert(cs.subrange(i as int, i as int) =~= Seq::<Seq<char>>::empty());
        while i < range.end
            invariant
                range.start <= i <= range.end <= parts@.len(),
                views(parts@) == cs,
                s@ == cs.subrange(range.start as int, i as int).flatten(),
            decreases range.end - i,
        {
            s.append(parts[i].as_str());
            proof {
                let part = cs.subrange(range.start as int, i as int);
                assert(parts@[i as int]@ == cs[i as int]);
                assert(cs.subrange(range.start as int, i + 1) =~= part.push(cs[i as int]));
                part.lemma_flatten_push(cs[i as int]);
            }
            i += 1;
        }
        Some(s)
    }

    /// Every cluster with its place.
    pub fn enumerate_graphemes(lines: &Lines) -> (v: Vec<(Pos, Grapheme)>)
        ensures
            v@.len() == placed_clusters(lines@, lines@.len() as int).len(),
            forall|i: int|
                0 <= i < v@.len() ==> ((#[trigger] v@[i]).0, v@[i].1@) == placed_clusters(
                    lines@,
                    lines@.len() as int,
                )[i],
    {
        let mut v: Vec<(Pos, Grapheme)> = Vec::new();
        let mut row: usize = 0;
        while row < lines.len()
            invariant
                row <= lines@.len(),
                v@.len() == placed_clusters(lines@, row as int).len(),
                forall|i: int|
                    0 <= i < v@.len() ==> ((#[trigger] v@[i]).0, v@[i].1@) == placed_clusters(
                        lines@,
                        row as int,
                    )[i],
            decreases lines@.len() - row,
        {
            let line = lines.at(row);
            let ghost done = placed_clusters(lines@, row as int);
            let ghost all = placed_clusters(lines@, row + 1);
            let mut col: usize = 0;
            while col < line.len()
                invariant
                    row < lines@.len(),
                    line@ == lines@[row as int],
                    col <= line@.len(),
                    done == placed_clusters(lines@, row as int),
                    all == placed_clusters(lines@, row + 1),
                    v@.len() == done.len() + col,
                    forall|i: int| 0 <= i < v@.len() ==> ((#[trigger] v@[i]).0, v@[i].1@) == all[i],
                decreases line@.len() - col,
            {
                v.push((Pos { row, col }, line.at(col).clone()));
                col += 1;
            }
            row += 1;
        }
        v
    }

    /// Every cluster of the buffer with its place.
    pub fn grapheme_positions(&self) -> (v: Vec<(Pos, Grapheme)>)
        ensures
            v@.len() == placed_clusters(self@.lines, self@.lines.len() as int).len(),
            forall|i: int|
                0 <= i < v@.len() ==> ((#[trigger] v@[i]).0, v@[i].1@) == placed_clusters(
                    self@.lines,
                    self@.lines.len() as int,
                )[i],
    {
        LineBuf::enumerate_graphemes(&self.lines)
    }

    /// The row `offset` rows from the cursor, within the buffer.
    pub fn offset_row(&self, offset: isize) -> (row: usize)
        requires
            self@.lines.len() > 0,
        ensures
            row == row_off(self@, offset as int),
            row < self@.lines.len(),
    {
        self.clamp_to_row(sat_add_signed(self.cursor.pos.row, offset))
    }

    /// The column `offset` columns from the cursor's, within row `row`.
    pub fn offset_col(&self, row: usize, offset: isize) -> (col: usize)
        requires
            self@.lines.len() > 0,
        ensures
            col == col_off(self@, row, offset as int),
    {
        let col = sat_add_signed(self.cursor.pos.col, offset);
        let len = self.line(row).len();
        let max = if self.cursor.exclusive {
            len.saturating_sub(1)
        } else {
            len
        };
        min_of(col, max)
    }

    pub fn offset_cursor(&self, row_offset: isize, col_offset: isize) -> (p: Pos)
        requires
            self@.lines.len() > 0,
        ensures
            p == place_off(self@, row_offset as int, col_offset as int),
            p.row < self@.lines.len(),
    {
        let row = self.offset_row(row_offset);
        let col = self.offset_col(row, col_offset);
        Pos { row, col }
    }

    /// The place `offset` clusters and line feeds from column `pos.col` of row
    /// `row`, going on into the rows above and below.
    pub fn offset_col_wrapping_at(&self, row: usize, offset: isize, pos: Pos) -> (r: (
        usize,
        usize,
    ))
        requires
            row < self@.lines.len(),
        ensures
            (Pos { row: r.0, col: r.1 }) == wrapped(
                self@.lines,
                row as int,
                pos.col as int,
                offset as int,
            ),
            r.0 < self@.lines.len(),
    {
        let ghost ls = self@.lines;
        let ghost goal = flat_start(ls, row as int) + pos.col + offset;
        let mut at: usize = row;
        let mut col: i128 = pos.col as i128 + offset as i128;
        proof {
            lemma_flat_start_nonneg(ls, ls.len() - 1);
        }
        while col < 0
            invariant
                at < ls.len(),
                goal == flat_start(ls, row as int) + pos.col + offset,
                ls == self@.lines,
                flat_start(ls, at as int) + col == goal,
                flat_end(ls) >= 0,
                -0x1_0000_0000_0000_0000_0000 <= col <= 0x1_0000_0000_0000_0000_0000,
            decreases at,
        {
            if at == 0 {
                assert(place_of(ls, 0) == (Pos { row: 0, col: 0 }));
                return (0, 0);
            }
            at -= 1;
            col = col + self.lines.at(at).len() as i128 + 1;
        }
        proof {
            lemma_flat_start_nonneg(ls, at as int);
        }
        while col > self.lines.at(at).len() as i128
            invariant
                at < ls.len(),
                goal == flat_start(ls, row as int) + pos.col + offset,
                ls == self@.lines,
                0 <= col <= 0x1_0000_0000_0000_0000_0000,
                flat_start(ls, at as int) + col == goal,
                flat_end(ls) >= 0,
                goal >= 0,
            decreases ls.len() - at,
        {
            if at >= self.lines.len() - 1 {
                let end = self.lines.at(at).len();
                assert(goal > flat_end(ls));
                proof {
                    lemma_place_from_shift(ls, at as int, end as int);
                }
                return (at, end);
            }
            col = col - self.lines.at(at).len() as i128 - 1;
            at += 1;
        }
        proof {
            lemma_place_from_shift(ls, at as int, col as int);
            lemma_flat_start_mono(ls, at as int);
        }
        (at, col as usize)
    }

    pub fn offset_col_wrapping(&self, row: usize, offset: isize) -> (r: (usize, usize))
        requires
            row < self@.lines.len(),
        ensures
            (Pos { row: r.0, col: r.1 }) == wrapped(
                self@.lines,
                row as int,
                self@.cursor.pos.col as int,
                offset as int,
            ),
            r.0 < self@.lines.len(),
    {
        self.offset_col_wrapping_at(row, offset, self.cursor.pos)
    }

    pub fn offset_cursor_wrapping(&self, row_offset: isize, col_offset: isize) -> (p: Pos)
        requires
            self@.lines.len() > 0,
        ensures
            p == place_wrapped(self@, row_offset as int, col_offset as int),
            p.row < self@.lines.len(),
    {
        let row = self.offset_row(row_offset);
        let (row, col) = self.offset_col_wrapping(row, col_offset);
        Pos { row, col }
    }

    /// The terminal column of a place in its line.
    pub fn calc_display_col_for(&self, pos: Pos, opts: &Opts) -> (c: usize)
        requires
            self@.lines.len() > 0,
            opts.tab_width > 0,
        ensures
            c == shown_col_of(self@.lines, pos, opts.tab_width),
    {
        let tab = opts.tab_width;
        let line = self.line(pos.row);
        let stop = min_of(pos.col, line.len());
        let mut col: usize = 0;
        let mut i: usize = 0;
        assert(line@.take(0) =~= LineV::empty());
        while i < stop
            invariant
                tab > 0,
                i <= stop <= line@.len(),
                col == shown_col(line@.take(i as int), tab),
            decreases stop - i,
        {
            assert(line@.take(i + 1).drop_last() =~= line@.take(i as int));
            col = advance_col(col, line.at(i), tab);
            i += 1;
        }
        col
    }

    pub fn calc_cursor_display_col(&self, opts: &Opts) -> (c: usize)
        requires
            self@.lines.len() > 0,
            opts.tab_width > 0,
        ensures
            c == shown_col_of(self@.lines, self@.cursor.pos, opts.tab_width),
    {
        self.calc_display_col_for(self.cursor.pos, opts)
    }

    /// The first column of a row at or behind a terminal column.
    pub fn display_col_to_index(&self, row: usize, target: usize, opts: &Opts) -> (c: usize)
        requires
            self@.lines.len() > 0,
            opts.tab_width > 0,
        ensures
            c == col_from(line_at(self@.lines, row), opts.tab_width, target, 0),
    {
        let tab = opts.tab_width;
        let line = self.line(row);
        let mut col: usize = 0;
        let mut i: usize = 0;
        assert(line@.take(0) =~= LineV::empty());
        while i < line.len()
            invariant
                tab > 0,
                i <= line@.len(),
                col == shown_col(line@.take(i as int), tab),
                tab == opts.tab_width,
                line@ == line_at(self@.lines, row),
                col_from(line@, tab, target, 0) == col_from(line@, tab, target, i as int),
            decreases line@.len() - i,
        {
            if col >= target {
                return i;
            }
            assert(line@.take(i + 1).drop_last() =~= line@.take(i as int));
            col = advance_col(col, line.at(i), tab);
            i += 1;
        }
        line.len()
    }

    /// What lies before the cursor in the lines from row `from` on.
    fn text_to_cursor(&self, from: usize) -> (s: String)
        requires
            wf(self@),
        ensures
            s@ == text_to(self@, from as int),
    {
        let mut s = String::new();
        let row = self.cursor.pos.row;
        let mut i: usize = from;
        while i < row
            invariant
                row < self@.lines.len(),
                row == self@.cursor.pos.row,
                from <= i,
                i <= row || i == from,
                s@ == rows_text(self@.lines, from as int, i as int),
            decreases row - i,
        {
            self.lines.at(i).push_onto(&mut s);
            s.push('\n');
            i += 1;
        }
        let line = self.lines.at(row);
        let col = min_of(self.cursor.pos.col, line.len());
        let mut k: usize = 0;
        assert(line@.take(0) =~= LineV::empty());
        let ghost head = s@;
        assert(head + LineV::empty().flatten() =~= head);
        while k < col
            invariant
                k <= col <= line@.len(),
                s@ == head + line@.take(k as int).flatten(),
            decreases col - k,
        {
            line.at(k).push_onto(&mut s);
            proof {
                let part = line@.take(k as int);
                assert(line@.take(k + 1) =~= part.push(line@[k as int]));
                part.lemma_flatten_push(line@[k as int]);
                assert(head + part.flatten() + line@[k as int] =~= head + (part.flatten()
                    + line@[k as int]));
            }
            k += 1;
        }
        s
    }

    /// What lies before the cursor in the lines shown.
    pub fn window_slice_to_cursor(&self) -> (s: Option<String>)
        requires
            wf(self@),
        ensures
            s is Some,
            s->0@ == text_to(self@, self@.scroll_offset as int),
    {
        Some(self.text_to_cursor(self.scroll_offset))
    }

    /// What lies before the cursor.
    pub fn slice_to_cursor(&self) -> (s: Option<String>)
        requires
            wf(self@),
        ensures
            s is Some,
            s->0@ == text_to(self@, 0),
    {
        Some(self.text_to_cursor(0))
    }
}

/// The text of the rows `from..to`, each with its line feed.
pub open spec fn rows_text(ls: LinesV, from: int, to: int) -> Seq<char>
    decreases to - from,
{
    if to <= from {
        Seq::empty()
    } else {
        (rows_text(ls, from, to - 1) + line_text(ls[to - 1])).push('\n')
    }
}

/// What lies before the cursor in the lines from row `from` on.
pub open spec fn text_to(b: BufV, from: int) -> Seq<char> {
    rows_text(b.lines, from, b.cursor.pos.row as int) + line_text(
        b.lines[b.cursor.pos.row as int].take(clamped(b.lines, b.cursor.pos, false).col as int),
    )
}

pub proof fn lemma_flat_start_mono(ls: LinesV, row: int)
    requires
        0 <= row < ls.len(),
    ensures
        flat_start(ls, row) + ls[row].len() <= flat_end(ls),
    decreases ls.len() - row,
{
    if row + 1 < ls.len() {
        lemma_flat_start_mono(ls, row + 1);
    }
}

/// The terminal column behind a cluster that starts in column `at`.
fn advance_col(at: usize, g: &Grapheme, tab: usize) -> (c: usize)
    requires
        tab > 0,
    ensures
        c == column_after(at, g@, tab),
{
    proof {
        lemma_chars_width_nonneg(g@);
    }
    match g.as_char() {
        Some(c) => {
            if c == '\t' {
                at.saturating_add(tab - at % tab)
            } else {
                match char_columns(c) {
                    Some(w) => at.saturating_add(w),
                    None => at,
                }
            }
        },
        None => at.saturating_add(g.width()),
    }
}

} // verus!
