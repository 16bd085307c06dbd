//! Changes that put one character in place of another: case, rot13,
//! replacement.

use vstd::prelude::*;
use crate::linebuf::buffer::{line_at, with_cursor, with_lines, BufV, LineBuf};
use crate::linebuf::grapheme::{sole_char, Grapheme};
use crate::linebuf::line::{Line, LineV};
use crate::linebuf::lines::LinesV;
use crate::linebuf::places::place_off;
use crate::linebuf::pos::{cut_row, in_order, earlier_first, MotionKind};
use crate::text::{
    ascii_lower, ascii_upper, is_lower, is_upper, lower_of, to_lower, to_upper, upper_of,
};

verus! {

/// The letter thirteen places on in the alphabet, going round.
pub open spec fn rot(c: char) -> char {
    if is_lower(c) {
        ((c as int - 97 + 13) % 26 + 97) as u8 as char
    } else if is_upper(c) {
        ((c as int - 65 + 13) % 26 + 65) as u8 as char
    } else {
        c
    }
}

/// The letter in the other case.
pub open spec fn toggled(c: char) -> char {
    if is_lower(c) {
        upper_of(c)
    } else {
        lower_of(c)
    }
}

pub fn rot13_char(c: char) -> (r: char)
    ensures
        r == rot(c),
{
    if ascii_lower(c) {
        ((c as u8 - 97 + 13) % 26 + 97) as char
    } else if ascii_upper(c) {
        ((c as u8 - 65 + 13) % 26 + 65) as char
    } else {
        c
    }
}

pub fn toggle_case_char(c: char) -> (r: char)
    ensures
        r == toggled(c),
{
    if ascii_lower(c) {
        to_upper(c)
    } else {
        to_lower(c)
    }
}

/// A text with every letter thirteen places on.
pub fn rot13(input: &str) -> (s: String)
    ensures
        s@ == input@.map_values(|c: char| rot(c)),
{
    let chars = crate::text::chars_of(input);
    let mut s = String::new();
    let mut i: usize = 0;
    while i < chars.len()
        invariant
            i <= chars@.len(),
            chars@ == input@,
            s@ == input@.map_values(|c: char| rot(c)).take(i as int),
        decreases chars@.len() - i,
    {
        s.push(rot13_char(chars[i]));
        i += 1;
        assert(s@ =~= input@.map_values(|c: char| rot(c)).take(i as int));
    }
    assert(s@ =~= input@.map_values(|c: char| rot(c)));
    s
}

/// Rot13 undoes itself.
pub proof fn law_rot13_undoes_itself(c: char)
    ensures
        rot(rot(c)) == c,
{
    if is_lower(c) {
        let n = (c as int - 97 + 13) % 26 + 97;
        assert(97 <= n < 97 + 26);
        let r = n as u8 as char;
        assert(r as int == n);
    } else if is_upper(c) {
        let n = (c as int - 65 + 13) % 26 + 65;
        assert(65 <= n < 65 + 26);
        let r = n as u8 as char;
        assert(r as int == n);
    }
}

/// Toggling the case twice changes nothing.
pub proof fn law_toggle_undoes_itself(c: char)
    ensures
        toggled(toggled(c)) == c,
{
    if is_lower(c) {
        let n = (c as u8) - 32;
        let r = n as u8 as char;
        assert(r as int == n);
    } else if is_upper(c) {
        let n = (c as u8) + 32;
        let r = n as u8 as char;
        assert(r as int == n);
    }
}

/// What to make of a character.
#[derive(Clone, Copy, Debug, PartialEq, Eq, Structural)]
pub enum Recase {
    Rot13,
    Toggle,
    Lower,
    Upper,
    /// Another character in place of every cluster.
    Replace(char),
    /// The first letter in upper case, the others in lower case.
    Capitalize,
}

/// What becomes of a cluster, and whether a letter was capitalized by then.
pub open spec fn recased(k: Recase, done: bool, g: Seq<char>) -> (Seq<char>, bool) {
    match k {
        Recase::Replace(c) => (seq![c], done),
        _ => match sole_char(g) {
            None => (g, done),
            Some(c) => match k {
                Recase::Rot13 => (seq![rot(c)], done),
                Recase::Toggle => (seq![toggled(c)], done),
                Recase::Lower => (seq![lower_of(c)], done),
                Recase::Upper => (seq![upper_of(c)], done),
                Recase::Replace(_) => (g, done),
                Recase::Capitalize => if !is_lower(c) && !is_upper(c) {
                    (g, done)
                } else if done {
                    (seq![lower_of(c)], true)
                } else {
                    (seq![upper_of(c)], true)
                },
            },
        },
    }
}

/// A line with the columns `from..to`, as far as there are, recased.
pub open spec fn recased_line(k: Recase, done: bool, l: LineV, from: int, to: int) -> (LineV, bool)
    decreases to - from,
{
    if to <= from {
        (l, done)
    } else {
        let (m, d) = recased_line(k, done, l, from, to - 1);
        if to <= l.len() {
            let (g, e) = recased(k, d, m[to - 1]);
            (m.update(to - 1, g), e)
        } else {
            (m, d)
        }
    }
}

/// The lines with the columns `from..to` of row `row` recased. A row past the
/// end counts as the last.
pub open spec fn recased_row(k: Recase, st: (LinesV, bool), row: usize, from: int, to: int) -> (LinesV, bool) {
    let i = cut_row(row, st.0.len() as int) as int;
    let (l, d) = recased_line(k, st.1, st.0[i], from, to);
    (st.0.update(i, l), d)
}

/// The lines with the rows `from..to` recased.
pub open spec fn recased_rows(k: Recase, st: (LinesV, bool), from: int, to: int) -> (LinesV, bool)
    decreases to - from,
{
    if to <= from {
        st
    } else {
        let before = recased_rows(k, st, from, to - 1);
        recased_row(
            k,
            before,
            (to - 1) as usize,
            0,
            line_at(before.0, (to - 1) as usize).len() as int,
        )
    }
}

/// The lines with what a motion covers recased. A rectangle is left alone.
pub open spec fn recased_range(k: Recase, ls: LinesV, m: MotionKind) -> LinesV {
    match m {
        MotionKind::Char { start, end, inclusive } => {
            let (s, e) = in_order(start, end);
            let stop = if inclusive {
                e.col + 1
            } else {
                e.col as int
            };
            if s.row == e.row {
                recased_row(k, (ls, false), s.row, s.col as int, stop).0
            } else {
                let head = recased_row(
                    k,
                    (ls, false),
                    s.row,
                    s.col as int,
                    line_at(ls, s.row).len() as int,
                );
                let mid = recased_rows(k, head, s.row + 1, e.row as int);
                recased_row(k, mid, e.row, 0, stop).0
            }
        },
        MotionKind::Line { start, end, inclusive } => {
            let last = if inclusive || end == 0 {
                end as int
            } else {
                end - 1
            };
            recased_rows(k, (ls, false), start as int, last + 1).0
        },
        MotionKind::Block { .. } => ls,
    }
}

/// The buffer with `n` clusters from the cursor on recased, the cursor on the
/// last of them.
pub open spec fn recased_here(k: Recase, b: BufV, n: int) -> BufV
    decreases n,
{
    if n <= 0 {
        b
    } else {
        let c = if n == 1 {
            b
        } else {
            let d = recased_here(k, b, n - 1);
            with_cursor(d, place_off(d, 0, 1))
        };
        let p = c.cursor.pos;
        with_lines(
            c,
            recased_range(k, c.lines, MotionKind::Char { start: p, end: p, inclusive: true }),
        )
    }
}

fn recase(k: Recase, done: bool, g: &Grapheme) -> (r: (Grapheme, bool))
    ensures
        (r.0@, r.1) == recased(k, done, g@),
{
    if let Recase::Replace(c) = k {
        return (Grapheme::from(c), done);
    }
    match g.as_char() {
        None => (g.clone(), done),
        Some(c) => match k {
            Recase::Rot13 => (Grapheme::from(rot13_char(c)), done),
            Recase::Toggle => (Grapheme::from(toggle_case_char(c)), done),
            Recase::Lower => (Grapheme::from(to_lower(c)), done),
            Recase::Upper => (Grapheme::from(to_upper(c)), done),
            Recase::Replace(_) => (g.clone(), done),
            Recase::Capitalize => {
                if !ascii_lower(c) && !ascii_upper(c) {
                    (g.clone(), done)
                } else if done {
                    (Grapheme::from(to_lower(c)), true)
                } else {
                    (Grapheme::from(to_upper(c)), true)
                }
            },
        },
    }
}

proof fn lemma_recased_line_len(k: Recase, done: bool, l: LineV, from: int, to: int)
    requires
        0 <= from,
    ensures
        recased_line(k, done, l, from, to).0.len() == l.len(),
        l.len() <= to ==> recased_line(k, done, l, from, to) == recased_line(
            k,
            done,
            l,
            from,
            l.len() as int,
        ),
    decreases to - from,
{
    if to > from {
        lemma_recased_line_len(k, done, l, from, to - 1);
        if l.len() < to && l.len() < from {
            lemma_recased_line_short(k, done, l, from, to);
        }
    }
}

proof fn lemma_recased_line_short(k: Recase, done: bool, l: LineV, from: int, to: int)
    requires
        l.len() <= from,
        0 <= from,
    ensures
        recased_line(k, done, l, from, to) == (l, done),
    decreases to - from,
{
    if to > from {
        lemma_recased_line_short(k, done, l, from, to - 1);
    }
}

fn recase_line(k: Recase, done: bool, line: &mut Line, from: usize, to: usize) -> (d: bool)
    ensures
        (final(line)@, d) == recased_line(k, done, old(line)@, from as int, to as int),
{
    let ghost l = line@;
    let mut d: bool = done;
    let mut col: usize = from;
    let stop = if to <= line.len() {
        to
    } else {
        line.len()
    };
    while col < stop
        invariant
            from <= col,
            stop <= l.len(),
            col <= stop || col == from,
            line@.len() == l.len(),
            (line@, d) == recased_line(k, done, l, from as int, col as int),
        decreases stop - col,
    {
        let (g, e) = recase(k, d, line.at(col));
        line.replace_at(col, g);
        d = e;
        col += 1;
    }
    proof {
        lemma_recased_line_len(k, done, l, from as int, to as int);
        if from > stop {
            if to > l.len() {
                lemma_recased_line_short(k, done, l, from as int, to as int);
            }
        }
    }
    d
}

impl LineBuf {
    fn recase_row(&mut self, k: Recase, done: bool, row: usize, from: usize, to: usize) -> (d: bool)
        requires
            old(self)@.lines.len() > 0,
        ensures
            (final(self)@.lines, d) == recased_row(
                k,
                (old(self)@.lines, done),
                row,
                from as int,
                to as int,
            ),
            final(self)@ == with_lines(old(self)@, final(self)@.lines),
            final(self)@.lines.len() == old(self)@.lines.len(),
    {
        let mut line = self.line(row).clone();
        let d = recase_line(k, done, &mut line, from, to);
        self.replace_line(row, line);
        d
    }

    fn recase_rows(&mut self, k: Recase, done: bool, from: usize, to: usize) -> (d: bool)
        requires
            old(self)@.lines.len() > 0,
        ensures
            (final(self)@.lines, d) == recased_rows(
                k,
                (old(self)@.lines, done),
                from as int,
                to as int,
            ),
            final(self)@ == with_lines(old(self)@, final(self)@.lines),
            final(self)@.lines.len() == old(self)@.lines.len(),
    {
        let mut d: bool = done;
        let mut row: usize = from;
        while row < to
            invariant
                from <= row,
                row <= to || row == from,
                self@.lines.len() > 0,
                self@.lines.len() == old(self)@.lines.len(),
                self@ == with_lines(old(self)@, self@.lines),
                (self@.lines, d) == recased_rows(
                    k,
                    (old(self)@.lines, done),
                    from as int,
                    row as int,
                ),
            decreases to - row,
        {
            let len = self.line(row).len();
            d = self.recase_row(k, d, row, 0, len);
            row += 1;
        }
        d
    }

    /// Puts another character in place of each that a motion covers.
    pub fn motion_mutation(&mut self, motion: &MotionKind, k: Recase)
        requires
            old(self)@.lines.len() > 0,
        ensures
            final(self)@ == with_lines(old(self)@, recased_range(k, old(self)@.lines, *motion)),
            final(self)@.lines.len() == old(self)@.lines.len(),
    {
        match motion {
            MotionKind::Char { start, end, inclusive } => {
                let (s, e) = earlier_first(*start, *end);
                if s.row == e.row {
                    let _ = self.recase_to(k, false, s.row, s.col, e.col, *inclusive);
                } else {
                    let len = self.line(s.row).len();
                    let d = self.recase_row(k, false, s.row, s.col, len);
                    let d = self.recase_rows(k, d, s.row + 1, e.row);
                    let _ = self.recase_to(k, d, e.row, 0, e.col, *inclusive);
                }
            },
            MotionKind::Line { start, end, inclusive } => {
                let last = if *inclusive {
                    *end
                } else {
                    end.saturating_sub(1)
                };
                if *start <= last {
                    let d = self.recase_rows(k, false, *start, last);
                    let len = self.line(last).len();
                    let _ = self.recase_row(k, d, last, 0, len);
                }
            },
            MotionKind::Block { .. } => {},
        }
        assert(self@ =~= with_lines(old(self)@, recased_range(k, old(self)@.lines, *motion)));
    }

    /// Recases the columns of a row from `from` up to `end`, or with it where
    /// `inclusive`.
    fn recase_to(
        &mut self,
        k: Recase,
        done: bool,
        row: usize,
        from: usize,
        end: usize,
        inclusive: bool,
    ) -> (d: bool)
        requires
            old(self)@.lines.len() > 0,
        ensures
            (final(self)@.lines, d) == recased_row(
                k,
                (old(self)@.lines, done),
                row,
                from as int,
                if inclusive {
                    end + 1
                } else {
                    end as int
                },
            ),
            final(self)@ == with_lines(old(self)@, final(self)@.lines),
            final(self)@.lines.len() == old(self)@.lines.len(),
    {
        let ghost want = if inclusive {
            end + 1
        } else {
            end as int
        };
        let len = self.line(row).len();
        let stop = if inclusive && end < len {
            end + 1
        } else if inclusive {
            len
        } else {
            end
        };
        proof {
            let l = line_at(self@.lines, row);
            lemma_recased_line_len(k, done, l, from as int, want);
            lemma_recased_line_len(k, done, l, from as int, stop as int);
        }
        self.recase_row(k, done, row, from, stop)
    }

    /// Recases `count` clusters from the cursor on; the cursor stays on the
    /// last.
    pub fn inplace_mutation(&mut self, count: u16, k: Recase)
        requires
            old(self)@.lines.len() > 0,
        ensures
            final(self)@ == recased_here(k, old(self)@, count as int),
            final(self)@.lines.len() == old(self)@.lines.len(),
    {
        let mut i: u16 = 0;
        while i < count
            invariant
                i <= count,
                self@.lines.len() > 0,
                self@.lines.len() == old(self)@.lines.len(),
                self@ == recased_here(k, old(self)@, i as int),
            decreases count - i,
        {
            if i > 0 {
                let ghost d = self@;
                self.cursor.pos = self.offset_cursor(0, 1);
                assert(self@ =~= with_cursor(d, place_off(d, 0, 1)));
            }
            let p = self.cursor.pos;
            self.motion_mutation(&MotionKind::Char { start: p, end: p, inclusive: true }, k);
            i += 1;
        }
    }
}

/// What becomes of a cluster does not depend on those before it.
pub open spec fn each_alone(k: Recase) -> bool {
    !(k is Capitalize)
}

/// The cluster in row `i`, column `j` lies in what a motion covers.
pub open spec fn in_range(m: MotionKind, i: int, j: int) -> bool {
    match m {
        MotionKind::Char { start, end, inclusive } => {
            let (s, e) = in_order(start, end);
            let stop = if inclusive {
                e.col + 1
            } else {
                e.col as int
            };
            s.row <= i <= e.row && (i == s.row ==> s.col <= j) && (i == e.row ==> j < stop)
        },
        MotionKind::Line { start, end, inclusive } => {
            let last = if inclusive || end == 0 {
                end as int
            } else {
                end - 1
            };
            start <= i <= last
        },
        MotionKind::Block { .. } => false,
    }
}

/// The last row that a motion covers.
pub open spec fn last_row(m: MotionKind) -> int {
    match m {
        MotionKind::Char { start, end, .. } => in_order(start, end).1.row as int,
        MotionKind::Line { end, .. } => end as int,
        MotionKind::Block { .. } => 0,
    }
}

proof fn lemma_line_clusters(k: Recase, done: bool, l: LineV, from: int, to: int)
    requires
        each_alone(k),
        0 <= from,
    ensures
        ({
            let r = recased_line(k, done, l, from, to);
            &&& r.1 == done
            &&& r.0.len() == l.len()
            &&& forall|j: int|
                0 <= j < l.len() ==> (#[trigger] r.0[j]) == if from <= j < to {
                    recased(k, false, l[j]).0
                } else {
                    l[j]
                }
        }),
    decreases to - from,
{
    if to > from {
        lemma_line_clusters(k, done, l, from, to - 1);
    }
}

/// The line with all of it recased.
spec fn whole_recased(k: Recase, l: LineV) -> LineV {
    recased_line(k, false, l, 0, l.len() as int).0
}

proof fn lemma_rows_recased(k: Recase, st: (LinesV, bool), from: int, to: int)
    requires
        each_alone(k),
        !st.1,
        0 <= from,
        to <= st.0.len() <= usize::MAX,
    ensures
        ({
            let r = recased_rows(k, st, from, to);
            &&& !r.1
            &&& r.0.len() == st.0.len()
            &&& forall|i: int|
                0 <= i < st.0.len() ==> (#[trigger] r.0[i]) == if from <= i < to {
                    whole_recased(k, st.0[i])
                } else {
                    st.0[i]
                }
        }),
    decreases to - from,
{
    if to > from {
        lemma_rows_recased(k, st, from, to - 1);
        let before = recased_rows(k, st, from, to - 1);
        assert(before.0[to - 1] == st.0[to - 1]);
        lemma_line_clusters(k, false, st.0[to - 1], 0, st.0[to - 1].len() as int);
    }
}

/// What becomes of a range, cluster for cluster: those that lie in it are
/// recased, all others stay.
pub proof fn law_recasing_keeps_to_its_range(k: Recase, ls: LinesV, m: MotionKind)
    requires
        each_alone(k),
        0 < ls.len() <= usize::MAX,
        last_row(m) < ls.len(),
    ensures
        recased_range(k, ls, m).len() == ls.len(),
        forall|i: int|
            0 <= i < ls.len() ==> (#[trigger] recased_range(k, ls, m)[i]).len() == ls[i].len(),
        forall|i: int, j: int|
            0 <= i < ls.len() && 0 <= j < ls[i].len() ==> (#[trigger] recased_range(k, ls, m)[i][j])
                == if in_range(m, i, j) {
                recased(k, false, ls[i][j]).0
            } else {
                ls[i][j]
            },
{
    let r = recased_range(k, ls, m);
    match m {
        MotionKind::Char { start, end, inclusive } => {
            let (s, e) = in_order(start, end);
            let stop = if inclusive {
                e.col + 1
            } else {
                e.col as int
            };
            assert(s.row <= e.row);
            if s.row == e.row {
                lemma_line_clusters(k, false, ls[s.row as int], s.col as int, stop);
            } else {
                let len = ls[s.row as int].len() as int;
                lemma_line_clusters(k, false, ls[s.row as int], s.col as int, len);
                let head = recased_row(k, (ls, false), s.row, s.col as int, len);
                lemma_rows_recased(k, head, s.row + 1, e.row as int);
                let mid = recased_rows(k, head, s.row + 1, e.row as int);
                assert(mid.0[e.row as int] == ls[e.row as int]);
                lemma_line_clusters(k, false, ls[e.row as int], 0, stop);
                assert forall|i: int| 0 <= i < ls.len() implies (#[trigger] r[i]).len()
                    == ls[i].len() by {
                    lemma_line_clusters(k, false, ls[i], 0, ls[i].len() as int);
                    assert(mid.0[i] == if s.row + 1 <= i < e.row {
                        whole_recased(k, head.0[i])
                    } else {
                        head.0[i]
                    });
                }
                assert forall|i: int, j: int|
                    0 <= i < ls.len() && 0 <= j < ls[i].len() implies (#[trigger] r[i][j])
                    == if in_range(m, i, j) {
                    recased(k, false, ls[i][j]).0
                } else {
                    ls[i][j]
                } by {
                    lemma_line_clusters(k, false, ls[i], 0, ls[i].len() as int);
                    assert(mid.0[i] == if s.row + 1 <= i < e.row {
                        whole_recased(k, head.0[i])
                    } else {
                        head.0[i]
                    });
                }
            }
        },
        MotionKind::Line { start, end, inclusive } => {
            let last = if inclusive || end == 0 {
                end as int
            } else {
                end - 1
            };
            lemma_rows_recased(k, (ls, false), start as int, last + 1);
            assert forall|i: int| 0 <= i < ls.len() implies (#[trigger] r[i]).len()
                == ls[i].len() by {
                lemma_line_clusters(k, false, ls[i], 0, ls[i].len() as int);
            }
            assert forall|i: int, j: int|
                0 <= i < ls.len() && 0 <= j < ls[i].len() implies (#[trigger] r[i][j])
                == if in_range(m, i, j) {
                recased(k, false, ls[i][j]).0
            } else {
                ls[i][j]
            } by {
                lemma_line_clusters(k, false, ls[i], 0, ls[i].len() as int);
            }
        },
        MotionKind::Block { .. } => {},
    }
}

proof fn lemma_cluster_recased_twice(k: Recase, g: Seq<char>)
    requires
        k is Rot13 || k is Toggle,
    ensures
        recased(k, false, recased(k, false, g).0).0 == g,
{
    match sole_char(g) {
        Some(c) => {
            law_rot13_undoes_itself(c);
            law_toggle_undoes_itself(c);
            assert(g =~= seq![c]);
        },
        None => {},
    }
}

/// Rot13 and the toggling of case undo themselves on any range.
pub proof fn law_recasing_twice_restores(k: Recase, ls: LinesV, m: MotionKind)
    requires
        k is Rot13 || k is Toggle,
        0 < ls.len() <= usize::MAX,
        last_row(m) < ls.len(),
    ensures
        recased_range(k, recased_range(k, ls, m), m) == ls,
{
    let r = recased_range(k, ls, m);
    let t = recased_range(k, r, m);
    law_recasing_keeps_to_its_range(k, ls, m);
    law_recasing_keeps_to_its_range(k, r, m);
    assert forall|i: int| 0 <= i < ls.len() implies (#[trigger] t[i]) == ls[i] by {
        assert(r[i].len() == ls[i].len());
        assert forall|j: int| 0 <= j < ls[i].len() implies (#[trigger] t[i][j]) == ls[i][j] by {
            assert(r[i][j] == if in_range(m, i, j) {
                recased(k, false, ls[i][j]).0
            } else {
                ls[i][j]
            });
            lemma_cluster_recased_twice(k, ls[i][j]);
        }
        assert(t[i] =~= ls[i]);
    }
    assert(t =~= ls);
}

} // verus!
