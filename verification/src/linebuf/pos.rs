//! Places in a buffer, and the ranges that motions cover.

use core::cmp::Ordering;
use vstd::std_specs::cmp::PartialOrdSpec;
use vstd::prelude::*;
use crate::seqs::{isat, sat, sat_add_signed};

verus! {

/// A place in a buffer: a row, and a column counted in grapheme clusters.
#[derive(Clone, Copy, Debug, PartialEq, Eq, Structural)]
pub struct Pos {
    pub row: usize,
    pub col: usize,
}

/// The offset from one place to another.
#[derive(Clone, Copy, Debug, PartialEq, Eq, Structural)]
pub struct SignedPos {
    pub row: isize,
    pub col: isize,
}

/// Rows come first, columns break ties.
pub open spec fn pos_lt(a: Pos, b: Pos) -> bool {
    a.row < b.row || (a.row == b.row && a.col < b.col)
}

/// `a` is at or before `b`.
pub open spec fn pos_le(a: Pos, b: Pos) -> bool {
    pos_lt(a, b) || a == b
}

/// The two places, the earlier one first.
pub open spec fn in_order(a: Pos, b: Pos) -> (Pos, Pos) {
    if pos_lt(b, a) {
        (b, a)
    } else {
        (a, b)
    }
}

/// The two rows, the smaller one first.
pub open spec fn rows_in_order(a: usize, b: usize) -> (usize, usize) {
    if b < a {
        (b, a)
    } else {
        (a, b)
    }
}

impl PartialOrd for Pos {
    fn partial_cmp(&self, other: &Self) -> (o: Option<Ordering>) {
        if self.row < other.row || (self.row == other.row && self.col < other.col) {
            Some(Ordering::Less)
        } else if self.row == other.row && self.col == other.col {
            Some(Ordering::Equal)
        } else {
            Some(Ordering::Greater)
        }
    }
}

impl vstd::std_specs::cmp::PartialOrdSpecImpl for Pos {
    open spec fn obeys_partial_cmp_spec() -> bool {
        true
    }

    open spec fn partial_cmp_spec(&self, other: &Self) -> Option<Ordering> {
        if pos_lt(*self, *other) {
            Some(Ordering::Less)
        } else if *self == *other {
            Some(Ordering::Equal)
        } else {
            Some(Ordering::Greater)
        }
    }
}

impl Default for Pos {
    fn default() -> (p: Pos)
        ensures
            p == (Pos { row: 0, col: 0 }),
    {
        Pos { row: 0, col: 0 }
    }
}

/// Puts two values in order; equal values keep their places.
pub fn ordered<T: PartialOrd>(start: T, end: T) -> (r: (T, T))
    ensures
        T::obeys_partial_cmp_spec() ==> r == if start.partial_cmp_spec(&end) == Some(
            Ordering::Greater,
        ) {
            (end, start)
        } else {
            (start, end)
        },
{
    if start > end {
        (end, start)
    } else {
        (start, end)
    }
}

/// Puts two places in order.
pub fn earlier_first(a: Pos, b: Pos) -> (r: (Pos, Pos))
    ensures
        r == in_order(a, b),
{
    ordered(a, b)
}

impl Pos {
    /// Past every row and column; clamp it before use.
    pub fn end() -> (p: Pos)
        ensures
            p == end_of_all(),
    {
        Pos { row: usize::MAX, col: usize::MAX }
    }

    pub fn new(row: usize, col: usize) -> (p: Pos)
        ensures
            p == (Pos { row, col }),
    {
        Pos { row, col }
    }

    /// The offset that leads from `other` to `self`, each part stopping at
    /// the bounds of a signed integer.
    pub fn difference(&self, other: &Pos) -> (d: SignedPos)
        ensures
            d == diff(*self, *other),
    {
        SignedPos {
            row: offset_between(self.row, other.row),
            col: offset_between(self.col, other.col),
        }
    }

    pub fn add_signed(&self, other: SignedPos) -> (p: Pos)
        ensures
            p == shifted(*self, other.row as int, other.col as int),
    {
        self.row_col_add(other.row, other.col)
    }

    pub fn row_col_add(&self, row: isize, col: isize) -> (p: Pos)
        ensures
            p == shifted(*self, row as int, col as int),
    {
        Pos { row: sat_add_signed(self.row, row), col: sat_add_signed(self.col, col) }
    }

    pub fn set(&mut self, row: usize, col: usize)
        ensures
            *final(self) == (Pos { row, col }),
    {
        self.row = row;
        self.col = col;
    }

    pub fn col_add(&self, rhs: usize) -> (p: Pos)
        ensures
            p == shifted(*self, 0, rhs as int),
    {
        Pos { row: self.row, col: self.col.saturating_add(rhs) }
    }

    pub fn col_add_signed(&self, rhs: isize) -> (p: Pos)
        ensures
            p == shifted(*self, 0, rhs as int),
    {
        self.row_col_add(0, rhs)
    }

    pub fn col_sub(&self, rhs: usize) -> (p: Pos)
        ensures
            p == shifted(*self, 0, -rhs),
    {
        Pos { row: self.row, col: self.col.saturating_sub(rhs) }
    }

    pub fn row_add(&self, rhs: usize) -> (p: Pos)
        ensures
            p == shifted(*self, rhs as int, 0),
    {
        Pos { row: self.row.saturating_add(rhs), col: self.col }
    }

    pub fn row_sub(&self, rhs: usize) -> (p: Pos)
        ensures
            p == shifted(*self, -rhs, 0),
    {
        Pos { row: self.row.saturating_sub(rhs), col: self.col }
    }

    /// Cuts the row to the last index of `other`.
    pub fn clamp_row<T>(&mut self, other: &[T])
        ensures
            *final(self) == (Pos { row: cut_row(old(self).row, other@.len() as int), ..*old(self) }),
    {
        let last = other.len().saturating_sub(1);
        if self.row > last {
            self.row = last;
        }
    }

    /// Cuts the column to the end of `other`: behind its last item, or on it
    /// where `exclusive`.
    pub fn clamp_col<T>(&mut self, other: &[T], exclusive: bool)
        ensures
            *final(self) == (Pos {
                col: cut_col(old(self).col, other@.len() as int, exclusive),
                ..*old(self)
            }),
    {
        let mut max: usize = other.len();
        if exclusive && max > 0 {
            max = max - 1;
        }
        if self.col > max {
            self.col = max;
        }
    }

    /// The place `rhs` rows down and `rhs` columns right, stopping at the
    /// bounds.
    pub fn plus(self, rhs: Pos) -> (p: Pos)
        ensures
            p == shifted(self, rhs.row as int, rhs.col as int),
    {
        Pos { row: self.row.saturating_add(rhs.row), col: self.col.saturating_add(rhs.col) }
    }
}

/// The largest place there is.
pub open spec fn end_of_all() -> Pos {
    Pos { row: usize::MAX, col: usize::MAX }
}

/// `p` moved by a row and a column offset, stopping at the bounds.
pub open spec fn shifted(p: Pos, rows: int, cols: int) -> Pos {
    Pos { row: sat(p.row + rows), col: sat(p.col + cols) }
}

/// The offset from `b` to `a`.
pub open spec fn diff(a: Pos, b: Pos) -> SignedPos {
    SignedPos { row: isat(a.row - b.row), col: isat(a.col - b.col) }
}

fn offset_between(a: usize, b: usize) -> (d: isize)
    ensures
        d == isat(a - b),
{
    if a >= b {
        let n: usize = a - b;
        if n <= isize::MAX as usize {
            n as isize
        } else {
            isize::MAX
        }
    } else {
        let n: usize = b - a;
        if n <= isize::MAX as usize {
            -(n as isize)
        } else {
            isize::MIN
        }
    }
}

/// The row cut to a buffer of `n` lines.
pub open spec fn cut_row(row: usize, n: int) -> usize {
    if n == 0 {
        0
    } else if row >= n {
        (n - 1) as usize
    } else {
        row
    }
}

/// The last column a cursor may take in a line of `n` clusters.
pub open spec fn last_col(n: int, exclusive: bool) -> int {
    if exclusive && n > 0 {
        n - 1
    } else {
        n
    }
}

/// The column cut to a line of `n` clusters.
pub open spec fn cut_col(col: usize, n: int, exclusive: bool) -> usize {
    if col > last_col(n, exclusive) {
        last_col(n, exclusive) as usize
    } else {
        col
    }
}

/// What a motion covers.
#[allow(inconsistent_fields)]
#[derive(Clone, Copy, Debug, PartialEq, Eq, Structural)]
pub enum MotionKind {
    /// From one cluster to another; `start` is mostly the cursor and may lie
    /// behind `end`.
    Char { start: Pos, end: Pos, inclusive: bool },
    /// Whole lines.
    Line { start: usize, end: usize, inclusive: bool },
    /// A rectangle.
    Block { start: Pos, end: Pos },
}

/// Where the cursor is, and whether it stays on clusters or may stand behind
/// the last one.
#[derive(Clone, Copy, Debug, PartialEq, Eq, Structural)]
pub struct Cursor {
    pub pos: Pos,
    pub exclusive: bool,
}

impl Default for Cursor {
    fn default() -> (c: Cursor)
        ensures
            c == (Cursor { pos: Pos { row: 0, col: 0 }, exclusive: false }),
    {
        Cursor { pos: Pos { row: 0, col: 0 }, exclusive: false }
    }
}

/// Moving by the difference leads back to where it was measured from, for
/// places a signed offset can reach.
pub proof fn law_difference_leads_back(a: Pos, b: Pos)
    requires
        isize::MIN <= a.row - b.row <= isize::MAX,
        isize::MIN <= a.col - b.col <= isize::MAX,
    ensures
        shifted(b, diff(a, b).row as int, diff(a, b).col as int) == a,
{
}

/// The order of places is total: of two places exactly one holds, and it
/// passes through a third.
pub proof fn law_pos_order_total(a: Pos, b: Pos, c: Pos)
    ensures
        pos_lt(a, b) || a == b || pos_lt(b, a),
        !(pos_lt(a, b) && pos_lt(b, a)),
        pos_lt(a, b) && pos_lt(b, c) ==> pos_lt(a, c),
        pos_le(in_order(a, b).0, in_order(a, b).1),
{
}

} // verus!
