//! Words: the classes of the clusters around a place, the motions over words,
//! and the word as a text object.

use vstd::prelude::*;
use crate::editcmd::{Bound, Direction, To, Word};
use crate::linebuf::buffer::{clamped, BufV, LineBuf};
use crate::linebuf::char_class::{breaks, class_of, CharClass};
use crate::linebuf::lines::LinesV;
use crate::linebuf::pos::{cut_row, end_of_all, MotionKind, Pos};
use crate::seqs::{first_from, min_of};

verus! {

/// A place and the class of what stands there.
pub type Cell = (Pos, CharClass);

/// The classes of row `row` from column `from` on. A blank line counts as
/// white space.
pub open spec fn row_cells(ls: LinesV, row: int, from: int) -> Seq<Cell> {
    let len = ls[row].len() as int;
    if len == 0 {
        seq![(Pos { row: row as usize, col: 0 }, CharClass::Whitespace)]
    } else if from >= len {
        Seq::empty()
    } else {
        Seq::new(
            (len - from) as nat,
            |i: int| (Pos { row: row as usize, col: (from + i) as usize }, class_of(ls[row][from + i])),
        )
    }
}

/// The white space that stands for the line feed behind row `row`. It counts
/// as the start of the next row; behind a blank line there is none.
pub open spec fn gap_behind(ls: LinesV, row: int) -> Seq<Cell> {
    if ls[row].len() > 0 && row + 1 < ls.len() {
        seq![(Pos { row: (row + 1) as usize, col: 0 }, CharClass::Whitespace)]
    } else {
        Seq::empty()
    }
}

/// The classes from a place to the end of the buffer.
pub open spec fn cells_from(ls: LinesV, row: int, col: int) -> Seq<Cell>
    decreases ls.len() - row,
{
    if row >= ls.len() {
        Seq::empty()
    } else {
        row_cells(ls, row, col) + gap_behind(ls, row) + cells_from(ls, row + 1, 0)
    }
}

/// The last column of a row that holds a cluster; zero in a blank line.
pub open spec fn final_col(ls: LinesV, row: int) -> int {
    if ls[row].len() > 0 {
        ls[row].len() - 1
    } else {
        0
    }
}

/// The classes of row `row` from column `col` back to its start.
pub open spec fn row_cells_back(ls: LinesV, row: int, col: int) -> Seq<Cell> {
    if ls[row].len() == 0 {
        seq![(Pos { row: row as usize, col: 0 }, CharClass::Whitespace)]
    } else {
        Seq::new(
            (col + 1) as nat,
            |i: int| (Pos { row: row as usize, col: (col - i) as usize }, class_of(ls[row][col - i])),
        )
    }
}

/// The white space that stands for the line feed before row `row`. It counts
/// as the end of the row before; before a blank line there is none.
pub open spec fn gap_before(ls: LinesV, row: int) -> Seq<Cell> {
    if ls[row].len() > 0 && row > 0 {
        seq![
            (
                Pos { row: (row - 1) as usize, col: final_col(ls, row - 1) as usize },
                CharClass::Whitespace,
            ),
        ]
    } else {
        Seq::empty()
    }
}

/// The classes from a place back to the start of the buffer.
pub open spec fn cells_back(ls: LinesV, row: int, col: int) -> Seq<Cell>
    decreases row,
{
    row_cells_back(ls, row, col) + gap_before(ls, row) + if row > 0 {
        cells_back(ls, row - 1, final_col(ls, row - 1))
    } else {
        Seq::empty()
    }
}

/// The classes from `pos` on.
pub open spec fn forward_cells(ls: LinesV, pos: Pos) -> Seq<Cell> {
    cells_from(ls, pos.row as int, pos.col as int)
}

/// The classes from `pos`, or the nearest cluster, back.
pub open spec fn backward_cells(ls: LinesV, pos: Pos) -> Seq<Cell> {
    let row = cut_row(pos.row, ls.len() as int) as int;
    cells_back(
        ls,
        row,
        if pos.col <= final_col(ls, row) {
            pos.col as int
        } else {
            final_col(ls, row)
        },
    )
}

/// What a search over classes looks for.
#[derive(Clone, Copy, Debug, PartialEq, Eq, Structural)]
pub enum Want {
    Space,
    NoSpace,
    /// A class other than this one.
    Not(CharClass),
    /// White space, or a class other than this one.
    Break(CharClass),
}

pub open spec fn wanted(w: Want, e: Cell) -> bool {
    match w {
        Want::Space => e.1 == CharClass::Whitespace,
        Want::NoSpace => e.1 != CharClass::Whitespace,
        Want::Not(c) => e.1 != c,
        Want::Break(c) => breaks(e.1, c),
    }
}

/// The first cell at or behind `i` that is wanted.
pub open spec fn seek(s: Seq<Cell>, w: Want, i: int) -> int {
    first_from(s, |e: Cell| wanted(w, e), i)
}

/// The place of cell `i`, where there is one.
pub open spec fn place(s: Seq<Cell>, i: int) -> Option<Pos> {
    if i < s.len() {
        Some(s[i].0)
    } else {
        None
    }
}

/// The place of the cell before cell `i`; `or` where `i` is the first.
pub open spec fn place_before_cell(s: Seq<Cell>, i: int, or: Pos) -> Pos {
    if i > 0 {
        s[i - 1].0
    } else {
        or
    }
}

/// The start of the next word: where it is, and whether the last cluster of
/// the current word stands for it. That one does where white space behind the
/// word is to be left alone.
pub open spec fn next_start(s: Seq<Cell>, word: Word, spare_space: bool) -> (Option<Pos>, bool) {
    if s.len() == 0 {
        (None, false)
    } else if s[0].1 == CharClass::Whitespace {
        (place(s, seek(s, Want::NoSpace, 0)), false)
    } else {
        match word {
            Word::Big => {
                let k = seek(s, Want::Space, 0);
                if spare_space || k >= s.len() {
                    (place(s, k), false)
                } else {
                    (place(s, seek(s, Want::NoSpace, k + 1)), false)
                }
            },
            Word::Normal => {
                let k = seek(s, Want::Break(s[0].1), 1);
                if k >= s.len() {
                    (None, false)
                } else if s[k].1 != CharClass::Whitespace {
                    (Some(s[k].0), false)
                } else if spare_space {
                    (Some(s[k - 1].0), true)
                } else {
                    (place(s, seek(s, Want::NoSpace, k + 1)), false)
                }
            },
        }
    }
}

/// The start of the word before, in classes that run backwards.
pub open spec fn prev_start(s: Seq<Cell>, word: Word) -> Option<Pos> {
    let f = seek(s, Want::NoSpace, 1);
    if f >= s.len() {
        None
    } else {
        let stop = match word {
            Word::Big => Want::Space,
            Word::Normal => Want::Not(s[f].1),
        };
        Some(s[seek(s, stop, f + 1) - 1].0)
    }
}

/// The end of the next word; none where the buffer ends with it.
pub open spec fn next_end(s: Seq<Cell>, word: Word) -> Option<Pos> {
    let f = seek(s, Want::NoSpace, 1);
    if f >= s.len() {
        None
    } else {
        let stop = match word {
            Word::Big => Want::Space,
            Word::Normal => Want::Break(s[f].1),
        };
        let j = seek(s, stop, f + 1);
        if j < s.len() {
            Some(s[j - 1].0)
        } else {
            None
        }
    }
}

/// The end of the word before, in classes that run backwards.
pub open spec fn prev_end(s: Seq<Cell>, word: Word) -> Option<Pos> {
    if s.len() <= 1 {
        None
    } else if s[1].1 == CharClass::Whitespace {
        place(s, seek(s, Want::NoSpace, 1))
    } else {
        match word {
            Word::Big => {
                let k = seek(s, Want::Space, 1);
                if k >= s.len() {
                    None
                } else {
                    place(s, seek(s, Want::NoSpace, k + 1))
                }
            },
            Word::Normal => {
                let k = seek(s, Want::Not(s[1].1), 1);
                if k >= s.len() {
                    None
                } else if s[k].1 == CharClass::Whitespace {
                    place(s, seek(s, Want::NoSpace, k + 1))
                } else {
                    Some(s[k].0)
                }
            },
        }
    }
}

/// One step of a word motion: where it leads from `at`, and whether the range
/// takes its end.
pub open spec fn word_step(
    ls: LinesV,
    to: To,
    word: Word,
    dir: Direction,
    spare_space: bool,
    at: (Pos, bool),
) -> (Pos, bool) {
    match (to, dir) {
        (To::Start, Direction::Forward) => {
            let r = next_start(forward_cells(ls, at.0), word, spare_space);
            match r.0 {
                Some(p) => (p, at.1 || r.1),
                None => (end_of_all(), true),
            }
        },
        (To::End, Direction::Forward) => (
            match next_end(forward_cells(ls, at.0), word) {
                Some(p) => p,
                None => end_of_all(),
            },
            true,
        ),
        (To::Start, Direction::Backward) => (
            match prev_start(backward_cells(ls, at.0), word) {
                Some(p) => p,
                None => Pos { row: 0, col: 0 },
            },
            at.1,
        ),
        (To::End, Direction::Backward) => (
            match prev_end(backward_cells(ls, at.0), word) {
                Some(p) => p,
                None => Pos { row: 0, col: 0 },
            },
            true,
        ),
    }
}

/// The steps of a word motion up to step `i` of `count`. White space is spared
/// on the last step only.
pub open spec fn word_steps(
    ls: LinesV,
    to: To,
    word: Word,
    dir: Direction,
    spare_space: bool,
    at: (Pos, bool),
    count: int,
    i: int,
) -> (Pos, bool)
    decreases i,
{
    if i <= 0 {
        at
    } else {
        word_step(
            ls,
            to,
            word,
            dir,
            spare_space && i == count,
            word_steps(ls, to, word, dir, spare_space, at, count, i - 1),
        )
    }
}

/// What `count` steps of a word motion cover.
#[verifier::opaque]
pub open spec fn word_motion(
    b: BufV,
    count: int,
    to: To,
    word: Word,
    dir: Direction,
    spare_space: bool,
    inclusive: bool,
) -> MotionKind {
    let r = word_steps(
        b.lines,
        to,
        word,
        dir,
        spare_space,
        (b.cursor.pos, inclusive),
        count,
        count,
    );
    MotionKind::Char {
        start: b.cursor.pos,
        end: clamped(b.lines, r.0, b.cursor.exclusive),
        inclusive: r.1,
    }
}

/// The word at a place, or the white space there. Around a word means with
/// the white space behind it; around white space, with the word behind it.
#[verifier::opaque]
pub open spec fn word_object(ls: LinesV, from: Pos, word: Word, bound: Bound) -> Option<MotionKind> {
    let head = forward_cells(ls, from);
    if head.len() == 0 {
        None
    } else {
        let pos = head[0].0;
        let class = head[0].1;
        let fwd = forward_cells(ls, pos);
        let bwd = backward_cells(ls, pos);
        let stop = if class == CharClass::Whitespace {
            Want::NoSpace
        } else {
            match word {
                Word::Big => Want::Space,
                Word::Normal => Want::Not(class),
            }
        };
        let start = place_before_cell(bwd, seek(bwd, stop, 0), pos);
        let n = seek(fwd, stop, 0);
        match bound {
            Bound::Inside => Some(
                MotionKind::Char { start, end: place_before_cell(fwd, n, pos), inclusive: true },
            ),
            Bound::Around => if class != CharClass::Whitespace {
                Some(
                    MotionKind::Char {
                        start,
                        end: place_before_cell(fwd, seek(fwd, Want::NoSpace, n), pos),
                        inclusive: true,
                    },
                )
            } else if n >= fwd.len() {
                None
            } else {
                let out = match word {
                    Word::Big => Want::Space,
                    Word::Normal => Want::Break(fwd[n].1),
                };
                let j = seek(fwd, out, n + 1);
                Some(
                    MotionKind::Char {
                        start,
                        end: fwd[j - 1].0,
                        inclusive: true,
                    },
                )
            },
        }
    }
}

fn is_wanted(w: Want, e: &Cell) -> (r: bool)
    ensures
        r == wanted(w, *e),
{
    match w {
        Want::Space => e.1.is_ws(),
        Want::NoSpace => !e.1.is_ws(),
        Want::Not(c) => e.1.is_other_class(&c),
        Want::Break(c) => e.1.is_other_class_or_ws(&c),
    }
}

/// The first cell at or behind `i` that is wanted.
fn seek_from(s: &[Cell], w: Want, i: usize) -> (r: usize)
    requires
        i <= s@.len(),
    ensures
        r == seek(s@, w, i as int),
        i <= r <= s@.len(),
{
    let ghost p = |e: Cell| wanted(w, e);
    let mut k: usize = i;
    while k < s.len() && !is_wanted(w, &s[k])
        invariant
            i <= k <= s@.len(),
            p == |e: Cell| wanted(w, e),
            seek(s@, w, i as int) == first_from(s@, p, k as int),
        decreases s@.len() - k,
    {
        k += 1;
    }
    k
}

fn place_at(s: &[Cell], i: usize) -> (p: Option<Pos>)
    ensures
        p == place(s@, i as int),
{
    if i < s.len() {
        Some(s[i].0)
    } else {
        None
    }
}

fn cell_before(s: &[Cell], i: usize, or: Pos) -> (p: Pos)
    requires
        i <= s@.len(),
    ensures
        p == place_before_cell(s@, i as int, or),
{
    if i > 0 {
        s[i - 1].0
    } else {
        or
    }
}

impl LineBuf {
    /// The classes from `pos` on.
    pub fn char_classes_forward_from(&self, pos: Pos) -> (v: Vec<Cell>)
        ensures
            v@ == forward_cells(self@.lines, pos),
    {
        let ghost ls = self@.lines;
        let mut v: Vec<Cell> = Vec::new();
        let mut row: usize = pos.row;
        let mut col: usize = pos.col;
        assert(v@ + cells_from(ls, row as int, col as int) =~= forward_cells(ls, pos));
        while row < self.lines.len()
            invariant
                ls == self@.lines,
                v@ + cells_from(ls, row as int, col as int) == forward_cells(ls, pos),
            decreases ls.len() - row,
        {
            let line = self.lines.at(row);
            let ghost head = v@;
            if line.is_empty() {
                v.push((Pos { row, col: 0 }, CharClass::Whitespace));
                assert(v@ =~= head + row_cells(ls, row as int, col as int));
            } else {
                let from = col;
                while col < line.len()
                    invariant
                        row < ls.len(),
                        line@ == ls[row as int],
                        line@.len() > 0,
                        from <= col,
                        col <= line@.len() || col == from,
                        v@ == head + row_cells(ls, row as int, from as int).take(col - from),
                    decreases line@.len() - col,
                {
                    v.push((Pos { row, col }, line.at(col).class()));
                    col += 1;
                    assert(v@ =~= head + row_cells(ls, row as int, from as int).take(col - from));
                }
                assert(row_cells(ls, row as int, from as int).take(col - from) =~= row_cells(
                    ls,
                    row as int,
                    from as int,
                ));
                let ghost cells = v@;
                if row + 1 < self.lines.len() {
                    v.push((Pos { row: row + 1, col: 0 }, CharClass::Whitespace));
                }
                assert(v@ =~= cells + gap_behind(ls, row as int));
            }
            assert(v@ + cells_from(ls, row + 1, 0) =~= forward_cells(ls, pos));
            row += 1;
            col = 0;
        }
        assert(v@ + Seq::<Cell>::empty() =~= v@);
        v
    }

    /// The classes from `pos`, or the nearest cluster, back.
    pub fn char_classes_backward_from(&self, pos: Pos) -> (v: Vec<Cell>)
        requires
            self@.lines.len() > 0,
        ensures
            v@ == backward_cells(self@.lines, pos),
    {
        let ghost ls = self@.lines;
        let mut v: Vec<Cell> = Vec::new();
        let mut row: usize = self.clamp_to_row(pos.row);
        let mut col: usize = min_of(pos.col, self.lines.at(row).len().saturating_sub(1));
        assert(v@ + cells_back(ls, row as int, col as int) =~= backward_cells(ls, pos));
        loop
            invariant
                ls == self@.lines,
                row < ls.len(),
                col <= final_col(ls, row as int),
                v@ + cells_back(ls, row as int, col as int) == backward_cells(ls, pos),
            decreases row,
        {
            let line = self.lines.at(row);
            let ghost head = v@;
            if line.is_empty() {
                v.push((Pos { row, col: 0 }, CharClass::Whitespace));
                assert(v@ =~= head + row_cells_back(ls, row as int, col as int));
            } else {
                let from = col;
                let len = line.len();
                assert(from < len);
                let mut left: usize = col + 1;
                while left > 0
                    invariant
                        row < ls.len(),
                        line@ == ls[row as int],
                        from < line@.len(),
                        left <= from + 1,
                        v@ == head + row_cells_back(ls, row as int, from as int).take(
                            from + 1 - left,
                        ),
                    decreases left,
                {
                    left -= 1;
                    v.push((Pos { row, col: left }, line.at(left).class()));
                    assert(v@ =~= head + row_cells_back(ls, row as int, from as int).take(
                        from + 1 - left,
                    ));
                }
                assert(row_cells_back(ls, row as int, from as int).take(from + 1) =~= row_cells_back(
                    ls,
                    row as int,
                    from as int,
                ));
            }
            let ghost cells = v@;
            if row == 0 {
                assert(v@ =~= backward_cells(ls, pos));
                return v;
            }
            let above = self.lines.at(row - 1).len().saturating_sub(1);
            if !line.is_empty() {
                v.push((Pos { row: row - 1, col: above }, CharClass::Whitespace));
            }
            assert(v@ =~= cells + gap_before(ls, row as int));
            assert(v@ + cells_back(ls, row - 1, above as int) =~= backward_cells(ls, pos));
            row -= 1;
            col = above;
        }
    }

    pub fn char_classes_forward(&self) -> (v: Vec<Cell>)
        ensures
            v@ == forward_cells(self@.lines, self@.cursor.pos),
    {
        self.char_classes_forward_from(self.cursor.pos)
    }

    pub fn char_classes_backward(&self) -> (v: Vec<Cell>)
        requires
            self@.lines.len() > 0,
        ensures
            v@ == backward_cells(self@.lines, self@.cursor.pos),
    {
        self.char_classes_backward_from(self.cursor.pos)
    }

    /// The start of the next word. Where `ignore_trailing_ws` ends the motion
    /// on the last cluster of a word, `inclusive` is set.
    pub fn word_motion_w(
        &self,
        word: &Word,
        start: Pos,
        ignore_trailing_ws: bool,
        inclusive: &mut bool,
    ) -> (p: Option<Pos>)
        ensures
            p == next_start(forward_cells(self@.lines, start), *word, ignore_trailing_ws).0,
            *final(inclusive) == (*old(inclusive) || next_start(
                forward_cells(self@.lines, start),
                *word,
                ignore_trailing_ws,
            ).1),
    {
        let cells = self.char_classes_forward_from(start);
        let s = cells.as_slice();
        if s.len() == 0 {
            return None;
        }
        if s[0].1.is_ws() {
            return place_at(s, seek_from(s, Want::NoSpace, 0));
        }
        match word {
            Word::Big => {
                let k = seek_from(s, Want::Space, 0);
                if ignore_trailing_ws || k >= s.len() {
                    place_at(s, k)
                } else {
                    place_at(s, seek_from(s, Want::NoSpace, k + 1))
                }
            },
            Word::Normal => {
                let k = seek_from(s, Want::Break(s[0].1), 1);
                if k >= s.len() {
                    None
                } else if !s[k].1.is_ws() {
                    Some(s[k].0)
                } else if ignore_trailing_ws {
                    *inclusive = true;
                    Some(s[k - 1].0)
                } else {
                    place_at(s, seek_from(s, Want::NoSpace, k + 1))
                }
            },
        }
    }

    /// The start of the word before.
    pub fn word_motion_b(&self, word: &Word, start: Pos) -> (p: Option<Pos>)
        requires
            self@.lines.len() > 0,
        ensures
            p == prev_start(backward_cells(self@.lines, start), *word),
    {
        let cells = self.char_classes_backward_from(start);
        let s = cells.as_slice();
        if s.len() == 0 {
            return None;
        }
        let f = seek_from(s, Want::NoSpace, 1);
        if f >= s.len() {
            return None;
        }
        let stop = match word {
            Word::Big => Want::Space,
            Word::Normal => Want::Not(s[f].1),
        };
        Some(s[seek_from(s, stop, f + 1) - 1].0)
    }

    /// The end of the next word; none where the buffer ends with it.
    pub fn word_motion_e(&self, word: &Word, start: Pos) -> (p: Option<Pos>)
        ensures
            p == next_end(forward_cells(self@.lines, start), *word),
    {
        let cells = self.char_classes_forward_from(start);
        let s = cells.as_slice();
        if s.len() == 0 {
            return None;
        }
        let f = seek_from(s, Want::NoSpace, 1);
        if f >= s.len() {
            return None;
        }
        let stop = match word {
            Word::Big => Want::Space,
            Word::Normal => Want::Break(s[f].1),
        };
        let j = seek_from(s, stop, f + 1);
        if j < s.len() {
            Some(s[j - 1].0)
        } else {
            None
        }
    }

    /// The end of the word before.
    pub fn word_motion_ge(&self, word: &Word, start: Pos) -> (p: Option<Pos>)
        requires
            self@.lines.len() > 0,
        ensures
            p == prev_end(backward_cells(self@.lines, start), *word),
    {
        let cells = self.char_classes_backward_from(start);
        let s = cells.as_slice();
        if s.len() <= 1 {
            return None;
        }
        if s[1].1.is_ws() {
            return place_at(s, seek_from(s, Want::NoSpace, 1));
        }
        match word {
            Word::Big => {
                let k = seek_from(s, Want::Space, 1);
                if k >= s.len() {
                    None
                } else {
                    place_at(s, seek_from(s, Want::NoSpace, k + 1))
                }
            },
            Word::Normal => {
                let k = seek_from(s, Want::Not(s[1].1), 1);
                if k >= s.len() {
                    None
                } else if s[k].1.is_ws() {
                    place_at(s, seek_from(s, Want::NoSpace, k + 1))
                } else {
                    Some(s[k].0)
                }
            },
        }
    }

    /// One step of a word motion: where it leads, and whether the range takes
    /// its end.
    fn step_word(
        &self,
        to: &To,
        word: &Word,
        dir: &Direction,
        spare: bool,
        at: (Pos, bool),
    ) -> (r: (Pos, bool))
        requires
            self@.lines.len() > 0,
        ensures
            r == word_step(self@.lines, *to, *word, *dir, spare, at),
    {
        match (to, dir) {
            (To::Start, Direction::Forward) => {
                let mut inclusive = at.1;
                match self.word_motion_w(word, at.0, spare, &mut inclusive) {
                    Some(p) => (p, inclusive),
                    None => (Pos::end(), true),
                }
            },
            (To::End, Direction::Forward) => {
                match self.word_motion_e(word, at.0) {
                    Some(p) => (p, true),
                    None => (Pos::end(), true),
                }
            },
            (To::Start, Direction::Backward) => {
                match self.word_motion_b(word, at.0) {
                    Some(p) => (p, at.1),
                    None => (Pos { row: 0, col: 0 }, at.1),
                }
            },
            (To::End, Direction::Backward) => {
                match self.word_motion_ge(word, at.0) {
                    Some(p) => (p, true),
                    None => (Pos { row: 0, col: 0 }, true),
                }
            },
        }
    }

    /// What `count` steps over words cover.
    pub fn eval_word_motion(
        &self,
        count: usize,
        to: &To,
        word: &Word,
        dir: &Direction,
        ignore_trailing_ws: bool,
        inclusive: bool,
    ) -> (m: Option<MotionKind>)
        requires
            self@.lines.len() > 0,
        ensures
            m == Some(
                word_motion(
                    self@,
                    count as int,
                    *to,
                    *word,
                    *dir,
                    ignore_trailing_ws,
                    inclusive,
                ),
            ),
    {
        reveal(word_motion);
        let ghost ls = self@.lines;
        let from = (self.cursor.pos, inclusive);
        let mut at: (Pos, bool) = from;
        let mut i: usize = 0;
        while i < count
            invariant
                i <= count,
                ls == self@.lines,
                ls.len() > 0,
                at == word_steps(
                    ls,
                    *to,
                    *word,
                    *dir,
                    ignore_trailing_ws,
                    from,
                    count as int,
                    i as int,
                ),
            decreases count - i,
        {
            let spare = ignore_trailing_ws && i == count - 1;
            at = self.step_word(to, word, dir, spare, at);
            i += 1;
        }
        let end = self.clamp_place(at.0, self.cursor.exclusive);
        Some(MotionKind::Char { start: self.cursor.pos, end, inclusive: at.1 })
    }

    /// The word at a place, or the white space there.
    pub fn text_obj_word(&self, from: Pos, word: Word, bound: Bound) -> (m: Option<MotionKind>)
        requires
            self@.lines.len() > 0,
        ensures
            m == word_object(self@.lines, from, word, bound),
    {
        reveal(word_object);
        let head = self.char_classes_forward_from(from);
        if head.len() == 0 {
            return None;
        }
        let (pos, class) = head[0];
        let fwd_cells = self.char_classes_forward_from(pos);
        let bwd_cells = self.char_classes_backward_from(pos);
        let fwd = fwd_cells.as_slice();
        let bwd = bwd_cells.as_slice();
        let stop = if class.is_ws() {
            Want::NoSpace
        } else {
            match word {
                Word::Big => Want::Space,
                Word::Normal => Want::Not(class),
            }
        };
        let start = cell_before(bwd, seek_from(bwd, stop, 0), pos);
        let n = seek_from(fwd, stop, 0);
        match bound {
            Bound::Inside => {
                let end = cell_before(fwd, n, pos);
                Some(MotionKind::Char { start, end, inclusive: true })
            },
            Bound::Around => {
                if !class.is_ws() {
                    let end = cell_before(fwd, seek_from(fwd, Want::NoSpace, n), pos);
                    return Some(MotionKind::Char { start, end, inclusive: true });
                }
                if n >= fwd.len() {
                    return None;
                }
                let out = match word {
                    Word::Big => Want::Space,
                    Word::Normal => Want::Break(fwd[n].1),
                };
                let j = seek_from(fwd, out, n + 1);
                Some(MotionKind::Char { start, end: fwd[j - 1].0, inclusive: true })
            },
        }
    }

    /// From the start of the big word before the cursor to the cursor.
    pub fn word_before_cursor(&self) -> (r: Option<(Pos, Pos)>)
        requires
            self@.lines.len() > 0,
        ensures
            r == match prev_start(backward_cells(self@.lines, self@.cursor.pos), Word::Big) {
                Some(p) => Some(crate::linebuf::pos::in_order(p, self@.cursor.pos)),
                None => None,
            },
    {
        match self.word_motion_b(&Word::Big, self.cursor.pos) {
            Some(p) => Some(crate::linebuf::pos::earlier_first(p, self.cursor.pos)),
            None => None,
        }
    }
}

} // verus!
