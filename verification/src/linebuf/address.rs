//! Selections as ranges, and the addresses of lines.

use core::ops::Range;
use vstd::prelude::*;
use crate::editcmd::{range_motion, AddressRange, ExNdRule, ExNode, LineAddr, Motion};
use crate::error::ShResult;
use crate::linebuf::buffer::{line_at, wf, BufV, LineBuf};
use crate::linebuf::line::line_text;
use crate::linebuf::lines::LinesV;
use crate::linebuf::places::byte_of;
use crate::linebuf::pos::{
    cut_row, in_order, earlier_first, rows_in_order, shifted, MotionKind, Pos,
};
use crate::linebuf::select::{
    anchor_of, placed, shape_of, shape_offset, SelectMode, SelectShape,
};
use crate::patterns::{compile, is_match, is_pattern, matches_in};
use crate::seqs::{sat, sat_add_signed};

verus! {

/// The range from the start of a selection to the cursor.
pub open spec fn selected(b: BufV, mode: SelectMode) -> Motion {
    match mode {
        SelectMode::Char(p) => Motion::CharRange(
            in_order(b.cursor.pos, p).0,
            in_order(b.cursor.pos, p).1,
        ),
        SelectMode::Line(p) => {
            let r = rows_in_order(sat(b.cursor.pos.row + 1), sat(p.row + 1));
            Motion::LineRange(LineAddr::Number(r.0), LineAddr::Number(r.1))
        },
        SelectMode::Block(p) => Motion::BlockRange(
            in_order(b.cursor.pos, p).0,
            in_order(b.cursor.pos, p).1,
        ),
    }
}

/// The range of the active selection.
pub open spec fn selection(b: BufV) -> Option<Motion> {
    match b.select_mode {
        Some(m) => Some(selected(b, m)),
        None => None,
    }
}

/// A shape placed at the cursor.
pub open spec fn shape_at_cursor(b: BufV, shape: SelectShape) -> Motion {
    let off = shape_offset(shape);
    selected(b, placed(shape, shifted(b.cursor.pos, off.row as int, off.col as int)))
}

/// The row `k` rows from `row`, going round a buffer of `n` lines.
pub open spec fn row_round(row: int, k: int, n: int, forward: bool) -> int {
    if forward {
        if row + k < n {
            row + k
        } else {
            row + k - n
        }
    } else if row >= k {
        row - k
    } else {
        row + n - k
    }
}

/// The first row that matches, from `k` rows away on, the row itself last.
pub open spec fn match_round(ls: LinesV, pat: Seq<char>, row: int, forward: bool, k: int) -> Option<
    usize,
>
    decreases ls.len() + 1 - k,
{
    if k > ls.len() {
        None
    } else {
        let r = row_round(row, k, ls.len() as int, forward);
        if matches_in(pat, line_text(ls[r])) {
            Some(r as usize)
        } else {
            match_round(ls, pat, row, forward, k + 1)
        }
    }
}

/// The line with a number, counted from one; the nearest where there is none.
pub open spec fn numbered(n: usize, count: int) -> usize {
    let i = if n == 0 {
        0
    } else {
        (n - 1) as usize
    };
    cut_row(i, count)
}

/// The rows of the first and the last line of the active selection.
pub open spec fn selected_rows(b: BufV) -> Option<(usize, usize)> {
    match b.select_mode {
        Some(SelectMode::Line(p)) => {
            let r = rows_in_order(sat(b.cursor.pos.row + 1), sat(p.row + 1));
            Some((numbered(r.0, b.lines.len() as int), numbered(r.1, b.lines.len() as int)))
        },
        Some(m) => {
            let r = in_order(b.cursor.pos, anchor_of(m));
            Some((r.0.row, r.1.row))
        },
        None => None,
    }
}

/// Whole lines from one row to another.
pub open spec fn line_cover(rows: Option<(usize, usize)>) -> Option<MotionKind> {
    match rows {
        Some((a, b)) => Some(
            MotionKind::Line {
                start: rows_in_order(a, b).0,
                end: rows_in_order(a, b).1,
                inclusive: true,
            },
        ),
        None => None,
    }
}

/// The row an address stands for.
pub open spec fn addressed(b: BufV, addr: LineAddr) -> Option<usize> {
    match addr {
        LineAddr::Number(n) => Some(numbered(n, b.lines.len() as int)),
        LineAddr::Current => Some(b.cursor.pos.row),
        LineAddr::Last => Some((b.lines.len() - 1) as usize),
        LineAddr::Offset(i) => Some(sat(b.cursor.pos.row + i)),
        LineAddr::Pattern(re) => if is_pattern(re@) {
            match_round(b.lines, re@, b.cursor.pos.row as int, true, 1)
        } else {
            None
        },
        LineAddr::PatternRev(re) => if is_pattern(re@) {
            match_round(b.lines, re@, b.cursor.pos.row as int, false, 1)
        } else {
            None
        },
        LineAddr::Mark(c) => if c == '<' || c == '>' {
            match selected_rows(b) {
                Some(r) => Some(if c == '<' {
                    r.0
                } else {
                    r.1
                }),
                None => None,
            }
        } else {
            None
        },
    }
}

/// The rows of `s..e` that match, or that do not where `negated`.
pub open spec fn matching(ls: LinesV, pat: Seq<char>, negated: bool, s: int, e: int) -> Seq<usize>
    decreases e - s,
{
    if e <= s {
        Seq::empty()
    } else {
        let rest = matching(ls, pat, negated, s, e - 1);
        if matches_in(pat, line_text(ls[e - 1])) != negated {
            rest.push((e - 1) as usize)
        } else {
            rest
        }
    }
}

/// The rows a constraint names, both ends included; none where an address
/// stands for no line.
pub open spec fn constrained(b: BufV, constraint: Motion) -> Option<(usize, usize)> {
    match constraint {
        Motion::LineRange(s, e) => match (addressed(b, s), addressed(b, e)) {
            (Some(s), Some(e)) => Some(rows_in_order(s, e)),
            _ => None,
        },
        Motion::Line(a) => match addressed(b, a) {
            Some(l) => Some((l, l)),
            None => None,
        },
        _ => Some((0, (b.lines.len() - 1) as usize)),
    }
}

/// The rows within a constraint that match a pattern.
pub open spec fn rows_matching(b: BufV, constraint: Motion, re: Seq<char>, negated: bool) -> Seq<
    usize,
> {
    match constrained(b, constraint) {
        Some((s, e)) => if is_pattern(re) {
            let end = if e < b.lines.len() {
                e + 1
            } else {
                b.lines.len() as int
            };
            matching(b.lines, re, negated, s as int, end)
        } else {
            Seq::empty()
        },
        None => Seq::empty(),
    }
}

/// `s`, `s + 1` and so on, up to and with `e`.
pub open spec fn row_span(s: usize, e: usize) -> Seq<usize> {
    Seq::new((e - s + 1) as nat, |i: int| (s + i) as usize)
}

/// An address, or the cursor's row where it stands for no line.
pub open spec fn addressed_or_row(b: BufV, a: LineAddr) -> usize {
    match addressed(b, a) {
        Some(l) => l,
        None => b.cursor.pos.row,
    }
}

/// The rows an address range names.
pub open spec fn rows_addressed(b: BufV, addr: Option<AddressRange>) -> Seq<usize> {
    match addr {
        None => seq![b.cursor.pos.row],
        Some(AddressRange::Single(a)) => seq![addressed_or_row(b, a)],
        Some(AddressRange::Range(s, e)) => {
            let r = rows_in_order(addressed_or_row(b, s), addressed_or_row(b, e));
            row_span(r.0, r.1)
        },
    }
}

/// The items of `s` that `t` holds too.
pub open spec fn kept(s: Seq<usize>, t: Seq<usize>) -> Seq<usize>
    decreases s.len(),
{
    if s.len() == 0 {
        Seq::empty()
    } else if t.contains(s.last()) {
        kept(s.drop_last(), t).push(s.last())
    } else {
        kept(s.drop_last(), t)
    }
}

pub open spec fn whole_or(addr: Option<AddressRange>) -> AddressRange {
    match addr {
        Some(a) => a,
        None => AddressRange::Range(LineAddr::Number(1), LineAddr::Last),
    }
}

/// The rows an ex command acts on. A global command narrows them to those
/// that match, a global command within it narrows them further.
pub open spec fn ex_rows(b: BufV, node: ExNode) -> Seq<usize>
    decreases node,
{
    match node.kind {
        ExNdRule::Global { pat, nested } => {
            let outer = rows_matching(
                b,
                range_motion(whole_or(node.address)),
                pat@,
                node.bang,
            );
            if nested.kind is Global {
                kept(ex_rows(b, *nested), outer)
            } else {
                outer
            }
        },
        _ => rows_addressed(b, node.address),
    }
}

/// The bytes of the active selection: from its first cluster to before its
/// last, or whole lines.
pub open spec fn selected_bytes(b: BufV) -> Option<(usize, usize)> {
    match b.select_mode {
        Some(SelectMode::Char(p)) => {
            let r = in_order(b.cursor.pos, p);
            match (byte_of(b.lines, r.0), byte_of(b.lines, r.1)) {
                (Some(s), Some(e)) => Some(rows_in_order(s, e)),
                _ => None,
            }
        },
        Some(SelectMode::Line(_)) => {
            let (s, e) = selected_rows(b)->0;
            let end = Pos { row: e, col: line_at(b.lines, e).len() as usize };
            match (byte_of(b.lines, Pos { row: s, col: 0 }), byte_of(b.lines, end)) {
                (Some(s), Some(e)) => Some(rows_in_order(s, e)),
                _ => None,
            }
        },
        _ => None,
    }
}

impl LineBuf {
    pub fn start_char_select(&mut self)
        ensures
            final(self)@ == (BufV {
                select_mode: Some(SelectMode::Char(old(self)@.cursor.pos)),
                ..old(self)@
            }),
    {
        self.select_mode = Some(SelectMode::Char(self.cursor.pos));
        assert(self@ =~= (BufV {
            select_mode: Some(SelectMode::Char(old(self)@.cursor.pos)),
            ..old(self)@
        }));
    }

    pub fn start_line_select(&mut self)
        ensures
            final(self)@ == (BufV {
                select_mode: Some(SelectMode::Line(old(self)@.cursor.pos)),
                ..old(self)@
            }),
    {
        self.select_mode = Some(SelectMode::Line(self.cursor.pos));
        assert(self@ =~= (BufV {
            select_mode: Some(SelectMode::Line(old(self)@.cursor.pos)),
            ..old(self)@
        }));
    }

    pub fn start_block_select(&mut self)
        ensures
            final(self)@ == (BufV {
                select_mode: Some(SelectMode::Block(old(self)@.cursor.pos)),
                ..old(self)@
            }),
    {
        self.select_mode = Some(SelectMode::Block(self.cursor.pos));
        assert(self@ =~= (BufV {
            select_mode: Some(SelectMode::Block(old(self)@.cursor.pos)),
            ..old(self)@
        }));
    }

    /// Ends the selection and remembers it.
    pub fn stop_selecting(&mut self)
        ensures
            final(self)@ == (BufV {
                select_mode: None,
                last_selection: match old(self)@.select_mode {
                    Some(m) => Some((m, anchor_of(m))),
                    None => old(self)@.last_selection,
                },
                ..old(self)@
            }),
    {
        if let Some(m) = self.select_mode {
            self.last_selection = Some((m, m.anchor()));
        }
        self.select_mode = None;
        assert(self@ =~= (BufV {
            select_mode: None,
            last_selection: match old(self)@.select_mode {
                Some(m) => Some((m, anchor_of(m))),
                None => old(self)@.last_selection,
            },
            ..old(self)@
        }));
    }

    pub fn is_selecting(&self) -> (r: bool)
        ensures
            r == self@.select_mode is Some,
    {
        self.select_mode.is_some()
    }

    /// The range from the start of a selection to the cursor.
    pub fn evaluate_selection(&self, mode: &SelectMode) -> (m: Motion)
        ensures
            m == selected(self@, *mode),
    {
        match mode {
            SelectMode::Char(pos) => {
                let (s, e) = earlier_first(self.cursor.pos, *pos);
                Motion::CharRange(s, e)
            },
            SelectMode::Line(pos) => {
                let a = self.cursor.pos.row.saturating_add(1);
                let b = pos.row.saturating_add(1);
                let (s, e) = if b < a {
                    (b, a)
                } else {
                    (a, b)
                };
                Motion::LineRange(LineAddr::Number(s), LineAddr::Number(e))
            },
            SelectMode::Block(pos) => {
                let (s, e) = earlier_first(self.cursor.pos, *pos);
                Motion::BlockRange(s, e)
            },
        }
    }

    /// The range of the active selection.
    pub fn select_range(&self) -> (m: Option<Motion>)
        ensures
            m == selection(self@),
    {
        match &self.select_mode {
            Some(mode) => Some(self.evaluate_selection(mode)),
            None => None,
        }
    }

    /// A shape placed at the cursor.
    pub fn evaluate_select_shape(&self, shape: &SelectShape) -> (m: Motion)
        ensures
            m == shape_at_cursor(self@, *shape),
    {
        let anchor = self.cursor.pos.add_signed(shape.pos());
        let mode = shape.into_select_mode(anchor);
        self.evaluate_selection(&mode)
    }

    /// The shape of the active selection, as a motion.
    pub fn select_mode(&self) -> (m: Option<Motion>)
        ensures
            m == match self@.select_mode {
                Some(mode) => Some(Motion::Selection(shape_of(mode, self@.cursor.pos))),
                None => None,
            },
    {
        match &self.select_mode {
            Some(mode) => Some(Motion::Selection(mode.shape(self.cursor.pos))),
            None => None,
        }
    }

    /// What the active selection covers, unless it is a rectangle.
    pub fn select_motion(&self) -> (m: Option<MotionKind>)
        requires
            wf(self@),
            !(self@.select_mode matches Some(SelectMode::Block(_))),
        ensures
            m == match self@.select_mode {
                Some(SelectMode::Char(p)) => Some(
                    MotionKind::Char {
                        start: in_order(self@.cursor.pos, p).0,
                        end: in_order(self@.cursor.pos, p).1,
                        inclusive: true,
                    },
                ),
                Some(_) => line_cover(selected_rows(self@)),
                None => None,
            },
    {
        match &self.select_mode {
            Some(SelectMode::Char(p)) => {
                let (start, end) = earlier_first(self.cursor.pos, *p);
                Some(MotionKind::Char { start, end, inclusive: true })
            },
            Some(_) => {
                match self.selected_rows() {
                    Some((s, e)) => {
                        let (start, end) = if e < s {
                            (e, s)
                        } else {
                            (s, e)
                        };
                        Some(MotionKind::Line { start, end, inclusive: true })
                    },
                    None => None,
                }
            },
            None => None,
        }
    }

    /// The rows of the first and the last line of the active selection.
    fn selected_rows(&self) -> (r: Option<(usize, usize)>)
        requires
            self@.lines.len() > 0,
        ensures
            r == selected_rows(self@),
    {
        match &self.select_mode {
            Some(SelectMode::Line(p)) => {
                let a = self.cursor.pos.row.saturating_add(1);
                let b = p.row.saturating_add(1);
                let (s, e) = if b < a {
                    (b, a)
                } else {
                    (a, b)
                };
                Some((self.clamp_to_row(s.saturating_sub(1)), self.clamp_to_row(e.saturating_sub(1))))
            },
            Some(m) => {
                let (s, e) = earlier_first(self.cursor.pos, m.anchor());
                Some((s.row, e.row))
            },
            None => None,
        }
    }

    /// The first row that matches, going round from the cursor's.
    fn find_row(&self, pat: &str, forward: bool) -> (r: Option<usize>)
        requires
            wf(self@),
        ensures
            r == if is_pattern(pat@) {
                match_round(self@.lines, pat@, self@.cursor.pos.row as int, forward, 1)
            } else {
                None
            },
    {
        let re = match compile(pat) {
            Ok(re) => re,
            Err(_) => {
                return None;
            },
        };
        let ghost ls = self@.lines;
        let n = self.lines.len();
        let row = self.cursor.pos.row;
        let mut acc: usize = row;
        let mut k: usize = 1;
        loop
            invariant
                ls == self@.lines,
                n == ls.len(),
                row == self@.cursor.pos.row,
                row < n,
                acc < n,
                1 <= k <= n,
                is_pattern(pat@),
                crate::patterns::source(re) == pat@,
                k == 1 ==> acc == row,
                k > 1 ==> acc == row_round(row as int, k - 1, n as int, forward),
                match_round(ls, pat@, row as int, forward, 1) == match_round(
                    ls,
                    pat@,
                    row as int,
                    forward,
                    k as int,
                ),
            decreases n - k,
        {
            if forward {
                acc =
                if acc == n - 1 {
                    0
                } else {
                    acc + 1
                };
            } else {
                acc =
                if acc == 0 {
                    n - 1
                } else {
                    acc - 1
                };
            }
            assert(acc == row_round(row as int, k as int, n as int, forward));
            let text = self.lines.at(acc).to_string();
            if is_match(&re, text.as_str()) {
                return Some(acc);
            }
            if k >= n {
                assert(match_round(ls, pat@, row as int, forward, k + 1) is None);
                return None;
            }
            k += 1;
        }
    }

    /// The row an address stands for. A pattern that is none stands for no
    /// row, nor does one that nothing matches.
    pub fn resolve_line_addr(&self, addr: &LineAddr) -> (r: ShResult<Option<usize>>)
        requires
            wf(self@),
        ensures
            r == Ok::<Option<usize>, crate::error::ShErr>(addressed(self@, *addr)),
    {
        Ok(self.row_of(addr))
    }

    /// The row an address stands for.
    pub(crate) fn row_of(&self, addr: &LineAddr) -> (r: Option<usize>)
        requires
            wf(self@),
        ensures
            r == addressed(self@, *addr),
    {
        match addr {
            LineAddr::Number(n) => Some(self.clamp_to_row(n.saturating_sub(1))),
            LineAddr::Current => Some(self.cursor.pos.row),
            LineAddr::Last => Some(self.lines.len() - 1),
            LineAddr::Offset(i) => Some(sat_add_signed(self.cursor.pos.row, *i)),
            LineAddr::Pattern(re) => self.find_row(re.as_str(), true),
            LineAddr::PatternRev(re) => self.find_row(re.as_str(), false),
            LineAddr::Mark(c) => {
                if *c != '<' && *c != '>' {
                    return None;
                }
                match self.selected_rows() {
                    Some((s, e)) => if *c == '<' {
                        Some(s)
                    } else {
                        Some(e)
                    },
                    None => None,
                }
            },
        }
    }

    /// The rows a constraint names.
    pub(crate) fn constraint_rows(&self, constraint: &Motion) -> (r: Option<(usize, usize)>)
        requires
            wf(self@),
        ensures
            r == constrained(self@, *constraint),
    {
        match constraint {
            Motion::LineRange(s, e) => {
                match (self.row_of(s), self.row_of(e)) {
                    (Some(s), Some(e)) => if e < s {
                        Some((e, s))
                    } else {
                        Some((s, e))
                    },
                    _ => None,
                }
            },
            Motion::Line(a) => {
                match self.row_of(a) {
                    Some(l) => Some((l, l)),
                    None => None,
                }
            },
            _ => Some((0, self.lines.len() - 1)),
        }
    }

    /// The rows within a constraint that match a pattern, or that do not where
    /// `negated`.
    pub fn get_matching_lines(&self, constraint: &Motion, re: &str, negated: bool) -> (r: ShResult<
        Vec<usize>,
    >)
        requires
            wf(self@),
        ensures
            r matches Ok(v) && v@ == rows_matching(self@, *constraint, re@, negated),
    {
        let mut v: Vec<usize> = Vec::new();
        let (s, e) = match self.constraint_rows(constraint) {
            Some(r) => r,
            None => {
                return Ok(v);
            },
        };
        let pat = match compile(re) {
            Ok(p) => p,
            Err(_) => {
                return Ok(v);
            },
        };
        let ghost ls = self@.lines;
        let end = if e < self.lines.len() {
            e + 1
        } else {
            self.lines.len()
        };
        let mut row: usize = s;
        while row < end
            invariant
                ls == self@.lines,
                end <= ls.len(),
                s <= row,
                row <= end || row == s,
                crate::patterns::source(pat) == re@,
                v@ == matching(ls, re@, negated, s as int, row as int),
            decreases end - row,
        {
            let text = self.lines.at(row).to_string();
            if is_match(&pat, text.as_str()) != negated {
                v.push(row);
            }
            row += 1;
        }
        Ok(v)
    }

    /// The rows an address range names.
    pub fn lines_for_address(&self, addr: Option<&AddressRange>) -> (r: ShResult<Vec<usize>>)
        requires
            wf(self@),
        ensures
            r matches Ok(v) && v@ == rows_addressed(
                self@,
                match addr {
                    Some(a) => Some(*a),
                    None => None,
                },
            ),
    {
        let mut v: Vec<usize> = Vec::new();
        match addr {
            None => {
                v.push(self.cursor.pos.row);
                assert(v@ =~= seq![self@.cursor.pos.row]);
            },
            Some(AddressRange::Single(a)) => {
                let l = match self.row_of(a) {
                    Some(l) => l,
                    None => self.cursor.pos.row,
                };
                v.push(l);
                assert(v@ =~= seq![addressed_or_row(self@, *a)]);
            },
            Some(AddressRange::Range(s, e)) => {
                let a = match self.row_of(s) {
                    Some(l) => l,
                    None => self.cursor.pos.row,
                };
                let b = match self.row_of(e) {
                    Some(l) => l,
                    None => self.cursor.pos.row,
                };
                let (lo, hi) = if b < a {
                    (b, a)
                } else {
                    (a, b)
                };
                let mut row: usize = lo;
                while row < hi
                    invariant
                        lo <= row <= hi,
                        v@ == row_span(lo, hi).take(row - lo),
                    decreases hi - row,
                {
                    v.push(row);
                    row += 1;
                    assert(v@ =~= row_span(lo, hi).take(row - lo));
                }
                v.push(row);
                assert(v@ =~= row_span(lo, hi));
            },
        }
        Ok(v)
    }

    /// The bytes of the active selection, unless it is a rectangle.
    pub fn select_range_byte_pos(&self) -> (r: Option<Range<usize>>)
        requires
            wf(self@),
            !(self@.select_mode matches Some(SelectMode::Block(_))),
        ensures
            r is Some <==> selected_bytes(self@) is Some,
            r is Some ==> Some((r->0.start, r->0.end)) == selected_bytes(self@),
    {
        let (from, to) = match &self.select_mode {
            Some(SelectMode::Char(p)) => earlier_first(self.cursor.pos, *p),
            Some(_) => {
                match self.selected_rows() {
                    Some((s, e)) => {
                        let len = self.line(e).len();
                        (Pos { row: s, col: 0 }, Pos { row: e, col: len })
                    },
                    None => {
                        return None;
                    },
                }
            },
            None => {
                return None;
            },
        };
        match (self.pos_to_byte(from), self.pos_to_byte(to)) {
            (Some(s), Some(e)) => if e < s {
                Some(e..s)
            } else {
                Some(s..e)
            },
            _ => None,
        }
    }
}

/// Placing the shape of a selection at its earlier end selects it again.
pub proof fn law_selection_replays(b: BufV, anchor: Pos)
    requires
        b.cursor.pos.row <= isize::MAX,
        b.cursor.pos.col <= isize::MAX,
        anchor.row <= isize::MAX,
        anchor.col <= isize::MAX,
    ensures
        ({
            let mode = SelectMode::Char(anchor);
            let at_start = crate::linebuf::buffer::with_cursor(
                b,
                in_order(b.cursor.pos, anchor).0,
            );
            shape_at_cursor(at_start, shape_of(mode, b.cursor.pos)) == selected(b, mode)
        }),
{
}

} // verus!
