//! What is shown of a buffer: its window, the matches of a search, and the
//! selection.

use vstd::prelude::*;
use crate::linebuf::buffer::{moved, viewport, wf, BufV, LineBuf};
use crate::linebuf::hint::shown;
use crate::linebuf::line::{spliced, Line};
use crate::linebuf::lines::{lines_of, text_of, Lines, LinesV};
use crate::linebuf::places::{byte_mark, byte_table, place_at_byte};
use crate::linebuf::pos::{cut_row, earlier_first, in_order, pos_lt, rows_in_order, Pos};
use crate::linebuf::select::SelectMode;
use crate::patterns::{all_matches, compile, find_all, is_pattern};
use crate::seqs::{first_from, min_of};
use crate::shell::Opts;

verus! {

/// The characters that stand for the start and the end of a match, and of the
/// selection.
#[derive(Clone, Copy, Debug, PartialEq, Eq, Structural)]
pub struct Markers {
    pub match_start: char,
    pub match_end: char,
    pub visual_start: char,
    pub visual_end: char,
}

/// The matches of the pattern being searched for.
pub open spec fn pending_matches(b: BufV) -> Seq<(usize, usize)> {
    match b.pending_search {
        Some(p) => if p.len() > 0 && is_pattern(p) {
            all_matches(p, text_of(b.lines))
        } else {
            Seq::empty()
        },
        None => Seq::empty(),
    }
}

/// The bytes of the first `n` matches, each moved to where a cluster starts.
pub open spec fn match_bytes(ls: LinesV, ms: Seq<(usize, usize)>, n: int) -> Seq<(usize, usize)>
    decreases n,
{
    if n <= 0 {
        Seq::empty()
    } else {
        match (byte_mark(ls, ms[n - 1].0), byte_mark(ls, ms[n - 1].1)) {
            (Some(s), Some(e)) => match_bytes(ls, ms, n - 1).push((s, e)),
            _ => match_bytes(ls, ms, n - 1),
        }
    }
}

/// The places of a match.
pub open spec fn match_place(ls: LinesV, m: (usize, usize)) -> Option<(Pos, Pos)> {
    match (place_at_byte(ls, m.0), place_at_byte(ls, m.1)) {
        (Some(s), Some(e)) => Some((s, e)),
        _ => None,
    }
}

/// `x` put behind the spans that start where it does or later.
pub open spec fn put_down(spans: Seq<(Pos, Pos)>, x: (Pos, Pos)) -> Seq<(Pos, Pos)>
    decreases spans.len(),
{
    if spans.len() > 0 && pos_lt(spans.last().0, x.0) {
        put_down(spans.drop_last(), x).push(spans.last())
    } else {
        spans.push(x)
    }
}

/// The places of the first `n` matches, the last one first.
pub open spec fn match_places(ls: LinesV, ms: Seq<(usize, usize)>, n: int) -> Seq<(Pos, Pos)>
    decreases n,
{
    if n <= 0 {
        Seq::empty()
    } else {
        match match_place(ls, ms[n - 1]) {
            Some(p) => put_down(match_places(ls, ms, n - 1), p),
            None => match_places(ls, ms, n - 1),
        }
    }
}

/// The lines with a character put into a row. A row past the end counts as the
/// last.
pub open spec fn with_char(ls: LinesV, row: usize, col: int, c: char) -> LinesV {
    let r = cut_row(row, ls.len() as int) as int;
    ls.update(r, spliced(ls[r], col, seq![seq![c]]))
}

/// The lines with the first `n` spans marked.
pub open spec fn spans_marked(ls: LinesV, spans: Seq<(Pos, Pos)>, m: Markers, n: int) -> LinesV
    decreases n,
{
    if n <= 0 {
        ls
    } else {
        let (s, e) = spans[n - 1];
        with_char(
            with_char(
                spans_marked(ls, spans, m, n - 1),
                e.row,
                e.col as int,
                m.match_end,
            ),
            s.row,
            s.col as int,
            m.match_start,
        )
    }
}

/// The first `n` rows from `from` on with a mark at their start, and at their
/// end where `closed`.
pub open spec fn rows_marked(ls: LinesV, from: int, n: int, m: Markers, closed: bool) -> LinesV {
    Seq::new(
        ls.len(),
        |i: int|
            if from <= i < from + n {
                if closed {
                    (seq![seq![m.visual_start]] + ls[i]).push(seq![m.visual_end])
                } else {
                    seq![seq![m.visual_start]] + ls[i]
                }
            } else {
                ls[i]
            },
    )
}

/// The lines with the selection marked.
pub open spec fn selection_marked(ls: LinesV, b: BufV, m: Markers) -> LinesV {
    match b.select_mode {
        Some(SelectMode::Char(p)) => {
            let (s, e) = in_order(b.cursor.pos, p);
            if s.row == e.row {
                with_char(
                    with_char(ls, s.row, e.col + 1, m.visual_end),
                    s.row,
                    s.col as int,
                    m.visual_start,
                )
            } else {
                let r = cut_row(s.row, ls.len() as int) as int;
                let head = with_char(ls, s.row, s.col as int, m.visual_start);
                let first = head.update(r, head[r].push(seq![m.visual_end]));
                let mid = rows_marked(first, s.row + 1, e.row - s.row - 1, m, true);
                with_char(
                    with_char(mid, e.row, e.col + 1, m.visual_end),
                    e.row,
                    0,
                    m.visual_start,
                )
            }
        },
        Some(SelectMode::Line(p)) => {
            let (s, e) = rows_in_order(b.cursor.pos.row, p.row);
            let all = rows_marked(ls, s as int, e - s + 1, m, false);
            let r = cut_row(e, ls.len() as int) as int;
            all.update(r, all[r].push(seq![m.visual_end]))
        },
        _ => ls,
    }
}

/// The buffer as it is shown: matches and the selection marked.
pub open spec fn marked(b: BufV, m: Markers) -> LinesV {
    let ms = pending_matches(b);
    let spans = match_places(b.lines, ms, ms.len() as int);
    selection_marked(spans_marked(b.lines, spans, m, spans.len() as int), b, m)
}

/// The part of some lines that the viewport shows.
pub open spec fn window_of(ls: LinesV, from: int, height: int) -> LinesV {
    let s = if from <= ls.len() {
        from
    } else {
        ls.len() as int
    };
    let e = if height <= ls.len() - s {
        s + height
    } else {
        ls.len() as int
    };
    ls.subrange(s, e)
}

/// Puts a character into a row.
fn mark_at(lines: &mut Lines, row: usize, col: usize, c: char)
    requires
        old(lines)@.len() > 0,
    ensures
        final(lines)@ == with_char(old(lines)@, row, col as int, c),
        final(lines)@.len() == old(lines)@.len(),
{
    let last = lines.len() - 1;
    let r = min_of(row, last);
    let mut line = lines.at(r).clone();
    line.insert_char(col, c);
    lines.replace_at(r, line);
}

/// Puts a character behind column `col` of a row.
fn mark_behind(lines: &mut Lines, row: usize, col: usize, c: char)
    requires
        old(lines)@.len() > 0,
    ensures
        final(lines)@ == with_char(old(lines)@, row, col + 1, c),
        final(lines)@.len() == old(lines)@.len(),
{
    let last = lines.len() - 1;
    let r = min_of(row, last);
    let mut line = lines.at(r).clone();
    if col < line.len() {
        line.insert_char(col + 1, c);
    } else {
        line.push_char(c);
        assert(line@ =~= spliced(old(lines)@[r as int], col + 1, seq![seq![c]]));
    }
    lines.replace_at(r, line);
}

/// Puts a character at the end of a row.
fn mark_end(lines: &mut Lines, row: usize, c: char)
    requires
        old(lines)@.len() > 0,
    ensures
        ({
            let r = cut_row(row, old(lines)@.len() as int) as int;
            final(lines)@ == old(lines)@.update(r, old(lines)@[r].push(seq![c]))
        }),
        final(lines)@.len() == old(lines)@.len(),
{
    let last = lines.len() - 1;
    let r = min_of(row, last);
    let mut line = lines.at(r).clone();
    line.push_char(c);
    lines.replace_at(r, line);
}

/// Marks the rows from `from` to before `to`.
fn mark_rows(lines: &mut Lines, from: usize, to: usize, m: &Markers, closed: bool)
    requires
        from <= to,
    ensures
        final(lines)@ == rows_marked(old(lines)@, from as int, to - from, *m, closed),
        final(lines)@.len() == old(lines)@.len(),
{
    let ghost ls = lines@;
    let ghost goal = rows_marked(ls, from as int, to - from, *m, closed);
    let n = lines.len();
    let stop = min_of(to, n);
    let mut row: usize = from;
    while row < stop
        invariant
            n == ls.len(),
            from <= to,
            stop <= n,
            stop <= to,
            stop == to || stop == n,
            from <= row,
            row <= stop || row == from,
            goal == rows_marked(ls, from as int, to - from, *m, closed),
            lines@.len() == ls.len(),
            forall|i: int|
                0 <= i < ls.len() ==> (#[trigger] lines@[i]) == if i < row {
                    goal[i]
                } else {
                    ls[i]
                },
        decreases stop - row,
    {
        let mut line = lines.at(row).clone();
        line.insert_char(0, m.visual_start);
        assert(line@ =~= seq![seq![m.visual_start]] + ls[row as int]);
        if closed {
            line.push_char(m.visual_end);
        }
        lines.replace_at(row, line);
        row += 1;
    }
    assert(lines@ =~= goal);
}

impl LineBuf {
    /// The matches of the pattern being searched for.
    fn pending(&self) -> (v: Vec<(usize, usize)>)
        ensures
            v@ == pending_matches(self@),
    {
        let none: Vec<(usize, usize)> = Vec::new();
        match &self.pending_search {
            Some(p) => {
                if p.as_str().is_empty() {
                    return none;
                }
                match compile(p.as_str()) {
                    Ok(re) => {
                        let text = self.joined();
                        find_all(&re, text.as_str())
                    },
                    Err(_) => none,
                }
            },
            None => none,
        }
    }

    /// The first byte of the table at or behind a byte.
    fn mark_byte(&self, b: usize) -> (r: Option<usize>)
        ensures
            r == byte_mark(self@.lines, b),
    {
        let table = self.byte_positions();
        let ghost p = |e: (usize, Pos)| e.0 >= b;
        let mut i: usize = 0;
        while i < table.len()
            invariant
                i <= table@.len(),
                table@ == byte_table(self@.lines),
                p == |e: (usize, Pos)| e.0 >= b,
                first_from(table@, p, 0) == first_from(table@, p, i as int),
            decreases table@.len() - i,
        {
            if table[i].0 >= b {
                return Some(table[i].0);
            }
            i += 1;
        }
        None
    }

    /// The bytes of the matches of the pattern being searched for.
    pub fn search_match_spans(&self) -> (v: Vec<(usize, usize)>)
        ensures
            v@ == match_bytes(
                self@.lines,
                pending_matches(self@),
                pending_matches(self@).len() as int,
            ),
    {
        let ms = self.pending();
        let mut v: Vec<(usize, usize)> = Vec::new();
        let mut i: usize = 0;
        while i < ms.len()
            invariant
                i <= ms@.len(),
                ms@ == pending_matches(self@),
                v@ == match_bytes(self@.lines, ms@, i as int),
            decreases ms@.len() - i,
        {
            let (a, b) = ms[i];
            if let (Some(s), Some(e)) = (self.mark_byte(a), self.mark_byte(b)) {
                v.push((s, e));
            }
            i += 1;
        }
        v
    }

    /// The places of the matches, the last one first.
    fn match_spans(&self) -> (v: Vec<(Pos, Pos)>)
        ensures
            v@ == match_places(
                self@.lines,
                pending_matches(self@),
                pending_matches(self@).len() as int,
            ),
    {
        let ms = self.pending();
        let mut v: Vec<(Pos, Pos)> = Vec::new();
        let mut i: usize = 0;
        while i < ms.len()
            invariant
                i <= ms@.len(),
                ms@ == pending_matches(self@),
                v@ == match_places(self@.lines, ms@, i as int),
            decreases ms@.len() - i,
        {
            let (a, b) = ms[i];
            if let (Some(s), Some(e)) = (self.byte_to_pos(a), self.byte_to_pos(b)) {
                sort_in(&mut v, (s, e));
            }
            i += 1;
        }
        v
    }

    /// The text with the matches of a search and the selection marked. A
    /// rectangle is not marked.
    pub fn marked_string(&self, m: &Markers) -> (s: String)
        requires
            self@.lines.len() > 0,
        ensures
            s@ == text_of(marked(self@, *m)),
    {
        let mut lines = self.lines.clone();
        let spans = self.match_spans();
        let mut i: usize = 0;
        while i < spans.len()
            invariant
                i <= spans@.len(),
                lines@.len() > 0,
                lines@ == spans_marked(self@.lines, spans@, *m, i as int),
            decreases spans@.len() - i,
        {
            let (s, e) = spans[i];
            mark_at(&mut lines, e.row, e.col, m.match_end);
            mark_at(&mut lines, s.row, s.col, m.match_start);
            i += 1;
        }
        match &self.select_mode {
            Some(SelectMode::Char(p)) => {
                let (s, e) = earlier_first(self.cursor.pos, *p);
                if s.row == e.row {
                    mark_behind(&mut lines, s.row, e.col, m.visual_end);
                    mark_at(&mut lines, s.row, s.col, m.visual_start);
                } else {
                    mark_at(&mut lines, s.row, s.col, m.visual_start);
                    mark_end(&mut lines, s.row, m.visual_end);
                    mark_rows(&mut lines, s.row + 1, e.row, m, true);
                    mark_behind(&mut lines, e.row, e.col, m.visual_end);
                    mark_at(&mut lines, e.row, 0, m.visual_start);
                }
            },
            Some(SelectMode::Line(p)) => {
                let row = self.cursor.pos.row;
                let (s, e) = if p.row < row {
                    (p.row, row)
                } else {
                    (row, p.row)
                };
                let n = lines.len();
                let ghost before = lines@;
                if e < n {
                    mark_rows(&mut lines, s, e + 1, m, false);
                } else if s <= n {
                    mark_rows(&mut lines, s, n, m, false);
                }
                assert(lines@ =~= rows_marked(before, s as int, e - s + 1, *m, false));
                mark_end(&mut lines, e, m.visual_end);
            },
            _ => {},
        }
        lines.join()
    }

    /// The lines shown.
    pub fn get_window(&self, opts: &Opts) -> (l: Lines)
        ensures
            l@ == window_of(self@.lines, self@.scroll_offset as int, viewport(self@, *opts)),
    {
        let height = self.get_viewport_height(opts);
        cut_window(self.lines.clone(), self.scroll_offset, height)
    }

    /// The text of the lines shown.
    pub fn window_joined(&self, opts: &Opts) -> (s: String)
        ensures
            s@ == text_of(
                window_of(self@.lines, self@.scroll_offset as int, viewport(self@, *opts)),
            ),
    {
        self.get_window(opts).join()
    }

    /// The lines shown of a highlighted text with the hint behind it.
    pub fn display_window_joined(&self, highlighted: &str, opts: &Opts) -> (s: String)
        ensures
            s@ == text_of(
                window_of(
                    lines_of(
                        highlighted@ + match self@.hint {
                            Some(h) => shown(h, Some(text_of(self@.lines))),
                            None => Seq::empty(),
                        },
                    ),
                    self@.scroll_offset as int,
                    viewport(self@, *opts),
                ),
            ),
    {
        let hint = self.get_hint_text();
        let mut text = String::from_str(highlighted);
        text.append(hint.as_str());
        let lines = Lines::to_lines(text.as_str());
        let height = self.get_viewport_height(opts);
        cut_window(lines, self.scroll_offset, height).join()
    }

    /// Moves the cursor to another column of its row.
    pub fn set_col(&mut self, col: usize)
        requires
            old(self)@.lines.len() > 0,
        ensures
            final(self)@ == moved(old(self)@, Pos { row: old(self)@.cursor.pos.row, col }),
            wf(final(self)@),
    {
        let row = self.cursor.pos.row;
        self.set_cursor(Pos { row, col });
    }
}

fn cut_window(lines: Lines, from: usize, height: usize) -> (l: Lines)
    ensures
        l@ == window_of(lines@, from as int, height as int),
{
    let mut lines = lines;
    let n = lines.len();
    let s = min_of(from, n);
    let e = if height <= n - s {
        s + height
    } else {
        n
    };
    lines.drain(s, e)
}

/// Puts a span where it belongs, the later ones first.
fn sort_in(v: &mut Vec<(Pos, Pos)>, x: (Pos, Pos))
    ensures
        final(v)@ == put_down(old(v)@, x),
    decreases old(v)@.len(),
{
    let n = v.len();
    if n > 0 && v[n - 1].0 < x.0 {
        let ghost was = v@;
        match v.pop() {
            Some(last) => {
                assert(v@ =~= was.drop_last());
                sort_in(v, x);
                v.push(last);
            },
            None => {},
        }
    } else {
        v.push(x);
    }
}

} // verus!
