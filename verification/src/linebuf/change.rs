//! Changes to the text: putting text in, taking text out, and keeping the
//! indentation of blocks.

use vstd::prelude::*;
use crate::linebuf::buffer::{
    clamped, fixed, line_at, moved, opt_view, with_cursor, with_lines, wf, BufV, LineBuf,
};
use crate::linebuf::edit::{levels_of, parse_fails};
use crate::linebuf::grapheme::{sole_char, Grapheme};
use crate::linebuf::line::{line_text, spliced, to_graphemes, trimmed_end, unindented, Line, LineV};
use crate::linebuf::lines::{
    attached, before, behind, lines_of, or_blank, text_of, without_head_blanks, without_tail_blanks,
    Lines, LinesV,
};
use crate::linebuf::pos::{
    cut_row, in_order, earlier_first, pos_le, rows_in_order, shifted, MotionKind, Pos,
};
use crate::seqs::{group_views, min_of, views};
use crate::shell::{answer, consult, env_ok, Answer, Ask, Env, Opts};
use crate::text::{clusters, ends_with, trim_back, trim_text, trim_text_end, trimmed};

verus! {

broadcast use group_views;

/// The lines with `new` put in at `pos`.
pub open spec fn put_at(ls: LinesV, pos: Pos, new: LinesV) -> LinesV {
    if new.len() == 0 {
        ls
    } else {
        attached(attached(before(ls, pos), new), behind(ls, pos))
    }
}

/// The lines without what lies from `s` to before `e`.
pub open spec fn without(ls: LinesV, s: Pos, e: Pos) -> LinesV {
    attached(before(ls, s), behind(ls, e))
}

/// What lies from `s` to before `e`.
pub open spec fn taken(ls: LinesV, s: Pos, e: Pos) -> LinesV {
    behind(before(ls, e), s)
}

/// `pos`, or the end of the buffer where it lies in no row.
pub open spec fn within(ls: LinesV, pos: Pos) -> Pos {
    if pos.row < ls.len() {
        pos
    } else {
        Pos { row: (ls.len() - 1) as usize, col: usize::MAX }
    }
}

/// The first place of a span, and the one behind its last.
pub open spec fn span_ends(ls: LinesV, a: Pos, b: Pos, inclusive: bool) -> (Pos, Pos) {
    let (s, e) = in_order(a, b);
    (
        within(ls, s),
        within(
            ls,
            if inclusive {
                shifted(e, 0, 1)
            } else {
                e
            },
        ),
    )
}

/// The first row of a run of lines, and the one behind its last.
pub open spec fn row_ends(ls: LinesV, start: usize, end: usize, inclusive: bool) -> (int, int) {
    let last = if inclusive || end == 0 {
        end as int
    } else {
        end - 1
    };
    let stop = if last < ls.len() {
        last + 1
    } else {
        ls.len() as int
    };
    if start < stop {
        (start as int, stop)
    } else {
        (0, 0)
    }
}

/// The columns of a line that lie in a rectangle.
pub open spec fn block_ends(l: LineV, s: Pos, e: Pos) -> (int, int) {
    let n = l.len() as int;
    let from = if s.col <= n {
        s.col as int
    } else {
        n
    };
    let to = if e.col < n {
        e.col + 1
    } else {
        n
    };
    if from <= to {
        (from, to)
    } else {
        (0, 0)
    }
}

/// Whether row `i` is one of a rectangle's.
pub open spec fn in_block(i: int, s: Pos, e: Pos) -> bool {
    s.row <= i <= e.row
}

/// The lines without a rectangle.
pub open spec fn without_block(ls: LinesV, s: Pos, e: Pos) -> LinesV {
    Seq::new(
        ls.len(),
        |i: int|
            if in_block(i, s, e) {
                let (from, to) = block_ends(ls[i], s, e);
                ls[i].take(from) + ls[i].skip(to)
            } else {
                ls[i]
            },
    )
}

/// The pieces of the first `n` lines that lie in a rectangle.
pub open spec fn block_taken(ls: LinesV, s: Pos, e: Pos, n: int) -> LinesV
    decreases n,
{
    if n <= 0 {
        Seq::empty()
    } else if in_block(n - 1, s, e) {
        let (from, to) = block_ends(ls[n - 1], s, e);
        block_taken(ls, s, e, n - 1).push(ls[n - 1].subrange(from, to))
    } else {
        block_taken(ls, s, e, n - 1)
    }
}

/// The lines without what a motion covers; a blank line where nothing is left.
pub open spec fn uncovered(ls: LinesV, m: MotionKind) -> LinesV {
    or_blank(
        match m {
            MotionKind::Char { start, end, inclusive } => {
                let (s, e) = span_ends(ls, start, end, inclusive);
                without(ls, s, e)
            },
            MotionKind::Line { start, end, inclusive } => {
                let (s, e) = row_ends(ls, start, end, inclusive);
                ls.take(s) + ls.skip(e)
            },
            MotionKind::Block { start, end } => without_block(
                ls,
                in_order(start, end).0,
                in_order(start, end).1,
            ),
        },
    )
}

/// What a motion covers of the lines.
pub open spec fn covered(ls: LinesV, m: MotionKind) -> LinesV {
    match m {
        MotionKind::Char { start, end, inclusive } => {
            let (s, e) = span_ends(ls, start, end, inclusive);
            taken(ls, s, e)
        },
        MotionKind::Line { start, end, inclusive } => {
            let (s, e) = row_ends(ls, start, end, inclusive);
            ls.subrange(s, e)
        },
        MotionKind::Block { start, end } => block_taken(
            ls,
            in_order(start, end).0,
            in_order(start, end).1,
            ls.len() as int,
        ),
    }
}

/// `n` tabs.
pub open spec fn tabs(n: int) -> LineV {
    Seq::new(n as nat, |i: int| seq!['\t'])
}

/// The buffer with the nesting of its rows known.
pub open spec fn with_levels<S: Fn(&str, Ask) -> Answer>(b: BufV, shell: S) -> BufV {
    match b.indent_cache {
        Some(_) => b,
        None => BufV {
            indent_cache: Some(levels_of(shell, text_of(b.lines))),
            parse_status: parse_fails(shell, text_of(b.lines)),
            ..b
        },
    }
}

/// How deep a row is nested at its start and its end, as far as known.
pub open spec fn level_in(b: BufV, row: int) -> (usize, usize) {
    match b.indent_cache {
        Some(c) => if row < c.len() {
            c[row]
        } else {
            (0, 0)
        },
        None => (0, 0),
    }
}

/// The buffer with the line at `pos` broken there, the new line indented to
/// the depth it is nested at its end, the cursor behind the indentation.
pub open spec fn broken<S: Fn(&str, Ask) -> Answer>(b: BufV, pos: Pos, forget: bool, shell: S) -> BufV {
    let lines = before(b.lines, pos) + behind(b.lines, pos);
    let c = with_levels(
        BufV {
            lines,
            indent_cache: if forget {
                None
            } else {
                b.indent_cache
            },
            ..b
        },
        shell,
    );
    let depth = level_in(c, pos.row + 1).1;
    with_cursor(
        with_lines(
            c,
            c.lines.update(pos.row + 1, tabs(depth as int) + c.lines[pos.row + 1]),
        ),
        Pos { row: (pos.row + 1) as usize, col: depth },
    )
}

/// How many of the first `n` clusters at the front are tabs.
pub open spec fn tabs_within(l: LineV, n: int) -> int
    decreases n,
{
    if n > 0 && l.len() > 0 && sole_char(l[0]) == Some('\t') {
        1 + tabs_within(l.skip(1), n - 1)
    } else {
        0
    }
}

/// The buffer with the cursor's line, where it holds nothing but a keyword
/// that ends a block or begins its next part, indented less by as many blocks
/// as row `row` closes.
pub open spec fn dedented<S: Fn(&str, Ask) -> Answer>(b: BufV, row: int, shell: S) -> BufV {
    let here = line_at(b.lines, b.cursor.pos.row);
    if answer(shell, trimmed(line_text(here)), Ask::Closes).closes {
        let c = with_levels(b, shell);
        let (start, end) = level_in(c, row);
        if start > end {
            with_lines(
                c,
                c.lines.update(
                    cut_row(b.cursor.pos.row, b.lines.len() as int) as int,
                    here.skip(tabs_within(here, start - end)),
                ),
            )
        } else {
            c
        }
    } else {
        b
    }
}

/// The buffer with a cluster put in at `pos`.
pub open spec fn with_cluster<S: Fn(&str, Ask) -> Answer>(b: BufV, pos: Pos, g: Seq<char>, shell: S) -> BufV {
    if g == seq!['\n'] {
        dedented(broken(b, pos, true, shell), pos.row + 1, shell)
    } else {
        dedented(
            BufV {
                lines: b.lines.update(
                    pos.row as int,
                    spliced(b.lines[pos.row as int], pos.col as int, seq![g]),
                ),
                indent_cache: None,
                ..b
            },
            pos.row as int,
            shell,
        )
    }
}

/// The buffer with the first `n` clusters typed at the cursor.
pub open spec fn typed<S: Fn(&str, Ask) -> Answer>(b: BufV, cs: Seq<Seq<char>>, n: int, shell: S) -> BufV
    decreases n,
{
    if n <= 0 {
        b
    } else {
        let c = typed(b, cs, n - 1, shell);
        if cs[n - 1] == seq!['\n'] {
            broken(c, c.cursor.pos, false, shell)
        } else {
            let d = with_cluster(c, c.cursor.pos, cs[n - 1], shell);
            with_cursor(d, shifted(d.cursor.pos, 0, 1))
        }
    }
}

/// The buffer with a text typed at the cursor.
pub open spec fn with_text<S: Fn(&str, Ask) -> Answer>(b: BufV, s: Seq<char>, shell: S) -> BufV {
    typed(b, clusters(s), clusters(s).len() as int, shell)
}

/// The buffer with the first `n` of some rows indented as they are nested.
pub open spec fn equalized<S: Fn(&str, Ask) -> Answer>(b: BufV, rows: Seq<usize>, n: int, shell: S) -> BufV
    decreases n,
{
    if n <= 0 {
        b
    } else {
        let c = with_levels(equalized(b, rows, n - 1, shell), shell);
        let row = rows[n - 1];
        let (start, end) = level_in(c, row as int);
        let depth = if start <= end {
            start
        } else {
            end
        };
        with_lines(
            c,
            c.lines.update(
                cut_row(row, c.lines.len() as int) as int,
                tabs(depth as int) + unindented(line_at(c.lines, row)),
            ),
        )
    }
}

/// A buffer's lines without blank lines and white space around the text. The
/// white space at the end of every line goes.
pub open spec fn trimmed_lines(ls: LinesV) -> LinesV {
    let inner = without_tail_blanks(without_head_blanks(ls));
    let bare = Seq::new(
        inner.len(),
        |i: int|
            if i == 0 {
                trimmed_end(unindented(inner[0]))
            } else {
                trimmed_end(inner[i])
            },
    );
    without_tail_blanks(without_head_blanks(bare))
}

/// What goes between two texts that are put together: the separator, unless
/// the buffer ends with it already.
pub open spec fn joint(ls: LinesV, sep: Seq<char>) -> LineV {
    if trimmed(sep).is_suffix_of(trim_back(text_of(ls))) {
        Seq::empty()
    } else {
        clusters(sep)
    }
}

/// A text put before the buffer's.
pub open spec fn left_part(ls: LinesV, sep: Seq<char>, other: Seq<char>) -> LinesV {
    let new = lines_of(other);
    new.update(new.len() - 1, new.last() + joint(ls, sep))
}

/// What the buffer's text becomes behind one put before it.
pub open spec fn left_rest(ls: LinesV) -> LinesV {
    ls.update(0, unindented(ls[0]))
}

/// A text put behind the buffer's.
pub open spec fn right_part(ls: LinesV, sep: Seq<char>, other: Seq<char>) -> LinesV {
    let new = lines_of(other);
    new.update(0, joint(ls, sep) + new[0])
}

/// What the buffer's text becomes before one put behind it.
pub open spec fn right_rest(ls: LinesV) -> LinesV {
    ls.update(ls.len() - 1, trimmed_end(ls.last()))
}

/// The end of some lines.
pub open spec fn end_of(ls: LinesV) -> Pos {
    Pos { row: (ls.len() - 1) as usize, col: ls.last().len() as usize }
}

fn push_tabs(line: &mut Line, n: usize)
    ensures
        final(line)@ == tabs(n as int) + old(line)@,
{
    let mut i: usize = 0;
    assert(tabs(0) + line@ =~= line@);
    while i < n
        invariant
            i <= n,
            line@ == tabs(i as int) + old(line)@,
        decreases n - i,
    {
        line.insert(0, Grapheme::from('\t'));
        i += 1;
        assert(line@ =~= tabs(i as int) + old(line)@);
    }
}

/// What lies before a place does not depend on what is cut off behind it.
pub proof fn lemma_before_before(ls: LinesV, s: Pos, e: Pos)
    requires
        pos_le(s, e),
        e.row < ls.len(),
    ensures
        before(before(ls, e), s) == before(ls, s),
{
    let a = before(before(ls, e), s);
    let b = before(ls, s);
    assert(a.last() =~= b.last());
    assert(a =~= b);
}

/// Takes what lies from `start` to before `end` out of the lines.
pub fn extract_range_contiguous(buf: &mut Lines, start: Pos, end: Pos) -> (out: Lines)
    requires
        pos_le(start, end),
        end.row < old(buf)@.len(),
    ensures
        out@ == taken(old(buf)@, start, end),
        final(buf)@ == without(old(buf)@, start, end),
{
    let ghost ls = buf@;
    let mut rest = buf.split_lines_at(end);
    let out = buf.split_lines_at(start);
    buf.attach_lines(&mut rest);
    proof {
        lemma_before_before(ls, start, end);
    }
    out
}

impl LineBuf {
    /// Puts lines in at `pos`; the first continues what lies before, the last
    /// what lies behind.
    pub fn insert_lines_at(&mut self, pos: Pos, lines: Lines)
        requires
            pos.row < old(self)@.lines.len(),
        ensures
            final(self)@ == with_lines(old(self)@, put_at(old(self)@.lines, pos, lines@)),
            final(self)@.lines.len() >= old(self)@.lines.len(),
    {
        if lines.is_empty() {
            assert(self@ =~= with_lines(old(self)@, put_at(old(self)@.lines, pos, lines@)));
            return;
        }
        let ghost new = lines@;
        let mut lines = lines;
        let mut rest = self.lines.split_lines_at(pos);
        self.lines.attach_lines(&mut lines);
        self.lines.attach_lines(&mut rest);
        assert(self@ =~= with_lines(old(self)@, put_at(old(self)@.lines, pos, new)));
    }

    /// Takes the cluster at `pos` out, where there is one.
    pub fn remove_at(&mut self, pos: Pos) -> (g: Option<Grapheme>)
        ensures
            opt_view(g) == crate::linebuf::buffer::cluster_at(old(self)@.lines, pos),
            g is None ==> final(self)@ == old(self)@,
            g is Some ==> final(self)@ == with_lines(
                old(self)@,
                old(self)@.lines.update(
                    pos.row as int,
                    old(self)@.lines[pos.row as int].remove(pos.col as int),
                ),
            ),
    {
        if pos.row >= self.lines.len() || pos.col >= self.lines.at(pos.row).len() {
            return None;
        }
        let mut line = self.lines.at(pos.row).clone();
        let g = line.remove(pos.col);
        self.lines.replace_at(pos.row, line);
        assert(self@ =~= with_lines(
            old(self)@,
            old(self)@.lines.update(
                pos.row as int,
                old(self)@.lines[pos.row as int].remove(pos.col as int),
            ),
        ));
        Some(g)
    }

    /// Finds how deep every row is nested, unless that is known.
    pub fn indent_levels<S: Fn(&str, Ask) -> Answer>(&mut self, env: &Env<S>) -> (v: Vec<
        (usize, usize),
    >)
        requires
            env_ok(*env),
        ensures
            final(self)@ == with_levels(old(self)@, env.shell),
            Some(v@) == final(self)@.indent_cache,
    {
        self.learn_levels(env);
        match &self.indent_cache {
            Some(c) => {
                let mut v: Vec<(usize, usize)> = Vec::new();
                let mut i: usize = 0;
                while i < c.len()
                    invariant
                        i <= c@.len(),
                        v@ == c@.take(i as int),
                    decreases c@.len() - i,
                {
                    v.push(c[i]);
                    i += 1;
                }
                assert(c@.take(c@.len() as int) =~= c@);
                v
            },
            None => Vec::new(),
        }
    }

    fn learn_levels<S: Fn(&str, Ask) -> Answer>(&mut self, env: &Env<S>)
        requires
            env_ok(*env),
        ensures
            final(self)@ == with_levels(old(self)@, env.shell),
            final(self).indent_cache is Some,
    {
        if self.indent_cache.is_none() {
            let joined = self.joined();
            let (levels, failed) = self.indent_ctx.check_levels_per_row(&env.shell, joined.as_str());
            self.indent_cache = Some(levels);
            self.parse_status = failed;
        }
        assert(self@ =~= with_levels(old(self)@, env.shell));
    }

    /// How deep a row is nested at its start and its end.
    pub fn indent_levels_for_row<S: Fn(&str, Ask) -> Answer>(&mut self, row: usize, env: &Env<S>) -> (r:
        (usize, usize))
        requires
            env_ok(*env),
        ensures
            final(self)@ == with_levels(old(self)@, env.shell),
            r == level_in(final(self)@, row as int),
    {
        self.learn_levels(env);
        match &self.indent_cache {
            Some(c) => if row < c.len() {
                c[row]
            } else {
                (0, 0)
            },
            None => (0, 0),
        }
    }

    /// For each row of a text how deep it is nested, and whether the text
    /// fails to parse.
    pub fn indent_levels_for<S: Fn(&str, Ask) -> Answer>(&mut self, buf: &str, env: &Env<S>) -> (r: (
        Vec<(usize, usize)>,
        bool,
    ))
        requires
            env_ok(*env),
        ensures
            r.0@ == levels_of(env.shell, buf@),
            r.1 == parse_fails(env.shell, buf@),
            final(self)@ == old(self)@,
    {
        self.indent_ctx.check_levels_per_row(&env.shell, buf)
    }

    /// How many blocks are open at the cursor, and whether the text before it
    /// fails to parse.
    pub fn cursor_indent_level<S: Fn(&str, Ask) -> Answer>(&mut self, env: &Env<S>) -> (r: (
        usize,
        bool,
    ))
        requires
            wf(old(self)@),
            env_ok(*env),
        ensures
            ({
                let text = text_of(before(old(self)@.lines, old(self)@.cursor.pos));
                r == (levels_of(env.shell, text).last().1, parse_fails(env.shell, text))
            }),
            final(self)@ == old(self)@,
    {
        let whole = self.lines.clone();
        let (to_cursor, _) = whole.split_lines(self.cursor.pos);
        let raw = to_cursor.join();
        let (levels, failed) = self.indent_levels_for(raw.as_str(), env);
        proof {
            crate::linebuf::edit::lemma_row_starts(raw@);
        }
        let depth = levels[levels.len() - 1].1;
        (depth, failed)
    }

    /// Breaks the line at `pos` and indents the new line; the cursor goes
    /// behind the indentation.
    pub fn break_line_at_inner<S: Fn(&str, Ask) -> Answer>(
        &mut self,
        pos: Pos,
        invalidate_cache: bool,
        env: &Env<S>,
    )
        requires
            pos.row < old(self)@.lines.len(),
            env_ok(*env),
        ensures
            final(self)@ == broken(old(self)@, pos, invalidate_cache, env.shell),
            final(self)@.lines.len() == old(self)@.lines.len() + 1,
            wf(final(self)@),
    {
        let ghost b = self@;
        let mut rest = self.lines.split_lines_at(pos);
        self.lines.append(&mut rest);
        if invalidate_cache {
            self.indent_cache = None;
        }
        let ghost split = self@;
        assert(split =~= (BufV {
            lines: before(b.lines, pos) + behind(b.lines, pos),
            indent_cache: if invalidate_cache {
                None
            } else {
                b.indent_cache
            },
            ..b
        }));
        let n = self.lines.len();
        assert(n == b.lines.len() + 1);
        let (_, end) = self.indent_levels_for_row(pos.row + 1, env);
        let mut line = self.lines.at(pos.row + 1).clone();
        push_tabs(&mut line, end);
        self.lines.replace_at(pos.row + 1, line);
        self.cursor.pos = Pos { row: pos.row + 1, col: end };
        assert(self@ =~= broken(b, pos, invalidate_cache, env.shell));
    }

    pub fn break_line_at<S: Fn(&str, Ask) -> Answer>(&mut self, pos: Pos, env: &Env<S>)
        requires
            pos.row < old(self)@.lines.len(),
            env_ok(*env),
        ensures
            final(self)@ == broken(old(self)@, pos, true, env.shell),
            wf(final(self)@),
    {
        self.break_line_at_inner(pos, true, env);
    }

    pub fn break_line_unchecked<S: Fn(&str, Ask) -> Answer>(&mut self, env: &Env<S>)
        requires
            wf(old(self)@),
            env_ok(*env),
        ensures
            final(self)@ == broken(old(self)@, old(self)@.cursor.pos, false, env.shell),
            wf(final(self)@),
    {
        self.break_line_at_inner(self.cursor.pos, false, env);
    }

    /// Indents a line that closes a block less.
    fn dedent_closer<S: Fn(&str, Ask) -> Answer>(&mut self, row: usize, env: &Env<S>)
        requires
            old(self)@.lines.len() > 0,
            env_ok(*env),
        ensures
            final(self)@ == dedented(old(self)@, row as int, env.shell),
            final(self)@.lines.len() == old(self)@.lines.len(),
            final(self)@.cursor == old(self)@.cursor,
    {
        let line = self.cur_line().to_string();
        let trimmed = trim_text(line.as_str());
        let ans = consult(&env.shell, trimmed.as_str(), Ask::Closes);
        if ans.closes {
            let (start, end) = self.indent_levels_for_row(row, env);
            if start > end {
                let delta = start - end;
                let mut line = self.cur_line().clone();
                let ghost here = line@;
                let mut n: usize = 0;
                assert(here.skip(0) =~= here);
                while n < delta && n < line.len() && line.at(n).is_char('\t')
                    invariant
                        n <= delta,
                        n <= line@.len(),
                        line@ == here,
                        tabs_within(here, delta as int) == n + tabs_within(
                            here.skip(n as int),
                            delta - n,
                        ),
                    decreases delta - n,
                {
                    assert(here.skip(n as int).skip(1) =~= here.skip(n + 1));
                    n += 1;
                }
                let _ = line.drain(0, n);
                assert(line@ =~= here.skip(n as int));
                let at = self.cursor.pos.row;
                self.replace_line(at, line);
            }
        }
    }

    /// Puts a cluster in at `pos`. A line feed breaks the line; a line that is
    /// now a keyword which ends a block is indented less.
    pub fn insert_at<S: Fn(&str, Ask) -> Answer>(&mut self, pos: Pos, gr: Grapheme, env: &Env<S>)
        requires
            pos.row < old(self)@.lines.len(),
            env_ok(*env),
        ensures
            final(self)@ == with_cluster(old(self)@, pos, gr@, env.shell),
            final(self)@.lines.len() >= old(self)@.lines.len(),
            wf(old(self)@) ==> wf(final(self)@),
            gr@ != seq!['\n'] ==> final(self)@.cursor == old(self)@.cursor,
    {
        if gr.is_lf() {
            let n = self.lines.len();
            assert(pos.row < n);
            self.break_line_at(pos, env);
            self.dedent_closer(pos.row + 1, env);
        } else {
            let mut line = self.lines.at(pos.row).clone();
            line.insert(pos.col, gr);
            self.lines.replace_at(pos.row, line);
            self.indent_cache = None;
            assert(self@ =~= (BufV {
                lines: old(self)@.lines.update(
                    pos.row as int,
                    spliced(old(self)@.lines[pos.row as int], pos.col as int, seq![gr@]),
                ),
                indent_cache: None,
                ..old(self)@
            }));
            self.dedent_closer(pos.row, env);
        }
    }

    /// Puts a cluster in at the cursor.
    pub fn insert<S: Fn(&str, Ask) -> Answer>(&mut self, gr: Grapheme, env: &Env<S>)
        requires
            wf(old(self)@),
            env_ok(*env),
        ensures
            final(self)@ == with_cluster(old(self)@, old(self)@.cursor.pos, gr@, env.shell),
            wf(final(self)@),
            gr@ != seq!['\n'] ==> final(self)@.cursor == old(self)@.cursor,
    {
        self.insert_at(self.cursor.pos, gr, env);
    }

    /// Types a text at the cursor.
    pub fn insert_str<S: Fn(&str, Ask) -> Answer>(&mut self, s: &str, env: &Env<S>)
        requires
            wf(old(self)@),
            env_ok(*env),
        ensures
            final(self)@ == with_text(old(self)@, s@, env.shell),
            wf(final(self)@),
    {
        let grs = to_graphemes(s);
        let ghost cs = clusters(s@);
        let mut i: usize = 0;
        assert(grs@.len() == cs.len());
        while i < grs.len()
            invariant
                env_ok(*env),
                wf(self@),
                i <= grs@.len(),
                views(grs@) == cs,
                grs@.len() == cs.len(),
                self@ == typed(old(self)@, cs, i as int, env.shell),
            decreases grs@.len() - i,
        {
            let gr = grs[i].clone();
            assert(gr@ == cs[i as int]);
            if gr.is_lf() {
                self.break_line_unchecked(env);
            } else {
                self.insert(gr, env);
                let ghost d = self@;
                self.cursor.pos = self.cursor.pos.col_add(1);
                assert(self@ =~= with_cursor(d, shifted(d.cursor.pos, 0, 1)));
            }
            i += 1;
        }
    }

    /// Indents rows as they are nested.
    pub fn equalize_rows<S: Fn(&str, Ask) -> Answer>(&mut self, line_nums: &[usize], env: &Env<S>)
        requires
            old(self)@.lines.len() > 0,
            env_ok(*env),
        ensures
            final(self)@ == equalized(
                old(self)@,
                line_nums@,
                line_nums@.len() as int,
                env.shell,
            ),
            final(self)@.lines.len() == old(self)@.lines.len(),
            final(self)@.cursor == old(self)@.cursor,
    {
        let mut i: usize = 0;
        while i < line_nums.len()
            invariant
                env_ok(*env),
                i <= line_nums@.len(),
                self@.lines.len() > 0,
                self@.lines.len() == old(self)@.lines.len(),
                self@.cursor == old(self)@.cursor,
                self@ == equalized(old(self)@, line_nums@, i as int, env.shell),
            decreases line_nums@.len() - i,
        {
            let row = line_nums[i];
            let (start, end) = self.indent_levels_for_row(row, env);
            let mut line = self.line(row).clone();
            line.unindent();
            push_tabs(&mut line, min_of(start, end));
            self.replace_line(row, line);
            i += 1;
        }
    }

    /// `pos`, or the end of the buffer where it lies in no row.
    fn pull_in(&self, pos: Pos) -> (p: Pos)
        requires
            self@.lines.len() > 0,
        ensures
            p == within(self@.lines, pos),
            p.row < self@.lines.len(),
    {
        if pos.row < self.lines.len() {
            pos
        } else {
            Pos { row: self.lines.len() - 1, col: usize::MAX }
        }
    }

    /// Takes a span out.
    pub fn extract_span(&mut self, span: (Pos, Pos), inclusive: bool) -> (out: Lines)
        requires
            old(self)@.lines.len() > 0,
        ensures
            out@ == covered(
                old(self)@.lines,
                MotionKind::Char { start: span.0, end: span.1, inclusive },
            ),
            final(self)@ == with_lines(
                old(self)@,
                uncovered(
                    old(self)@.lines,
                    MotionKind::Char { start: span.0, end: span.1, inclusive },
                ),
            ),
            final(self)@.lines.len() > 0,
    {
        let (s, e) = earlier_first(span.0, span.1);
        let last = if inclusive {
            e.col_add(1)
        } else {
            e
        };
        let start = self.pull_in(s);
        let end = self.pull_in(last);
        let out = extract_range_contiguous(&mut self.lines, start, end);
        assert(self@ =~= with_lines(old(self)@, without(old(self)@.lines, start, end)));
        out
    }

    /// Copies a span.
    pub fn yank_span(&self, span: (Pos, Pos), inclusive: bool) -> (out: Lines)
        requires
            self@.lines.len() > 0,
        ensures
            out@ == covered(
                self@.lines,
                MotionKind::Char { start: span.0, end: span.1, inclusive },
            ),
    {
        self.yank_range(&MotionKind::Char { start: span.0, end: span.1, inclusive })
    }

    /// Takes what a motion covers out.
    pub fn extract_range(&mut self, motion: &MotionKind) -> (out: Lines)
        requires
            old(self)@.lines.len() > 0,
        ensures
            out@ == covered(old(self)@.lines, *motion),
            final(self)@ == with_lines(old(self)@, uncovered(old(self)@.lines, *motion)),
            final(self)@.lines.len() > 0,
    {
        match motion {
            MotionKind::Char { start, end, inclusive } => {
                self.extract_span((*start, *end), *inclusive)
            },
            MotionKind::Line { start, end, inclusive } => {
                let last = if *inclusive {
                    *end
                } else {
                    end.saturating_sub(1)
                };
                let n = self.lines.len();
                let stop = if last < n {
                    last + 1
                } else {
                    n
                };
                let (from, to) = if *start < stop {
                    (*start, stop)
                } else {
                    (0, 0)
                };
                let out = self.lines.drain(from, to);
                self.lines.push_empty();
                assert(self@ =~= with_lines(old(self)@, uncovered(old(self)@.lines, *motion)));
                out
            },
            MotionKind::Block { start, end } => {
                let (s, e) = earlier_first(*start, *end);
                self.extract_block(s, e)
            },
        }
    }

    fn extract_block(&mut self, s: Pos, e: Pos) -> (out: Lines)
        requires
            old(self)@.lines.len() > 0,
        ensures
            out@ == block_taken(old(self)@.lines, s, e, old(self)@.lines.len() as int),
            final(self)@ == with_lines(
                old(self)@,
                or_blank(without_block(old(self)@.lines, s, e)),
            ),
            final(self)@.lines.len() > 0,
    {
        let ghost ls = self@.lines;
        let ghost goal = without_block(ls, s, e);
        let mut out = Lines::none();
        let mut row: usize = 0;
        while row < self.lines.len()
            invariant
                row <= ls.len(),
                ls == old(self)@.lines,
                goal == without_block(ls, s, e),
                self@.lines.len() == ls.len(),
                self@ == with_lines(old(self)@, self@.lines),
                forall|i: int| 0 <= i < row ==> (#[trigger] self@.lines[i]) == goal[i],
                forall|i: int| row <= i < ls.len() ==> (#[trigger] self@.lines[i]) == ls[i],
                out@ == block_taken(ls, s, e, row as int),
            decreases ls.len() - row,
        {
            if s.row <= row && row <= e.row {
                let mut line = self.lines.at(row).clone();
                let n = line.len();
                let from = min_of(s.col, n);
                let to = if e.col < n {
                    e.col + 1
                } else {
                    n
                };
                let (from, to) = if from <= to {
                    (from, to)
                } else {
                    (0, 0)
                };
                let piece = line.drain(from, to);
                out.push(piece);
                let ghost was = self@;
                self.lines.replace_at(row, line);
                assert(self@ =~= with_lines(was, was.lines.update(row as int, line@)));
            }
            row += 1;
        }
        assert(self@.lines =~= goal);
        out
    }

    /// Copies what a motion covers.
    pub fn yank_range(&self, motion: &MotionKind) -> (out: Lines)
        requires
            self@.lines.len() > 0,
        ensures
            out@ == covered(self@.lines, *motion),
    {
        let mut tmp = LineBuf::default();
        tmp.lines = self.lines.clone();
        tmp.cursor = self.cursor;
        tmp.extract_range(motion)
    }

    /// Takes what a motion covers out.
    pub fn delete_range(&mut self, motion: &MotionKind) -> (out: Lines)
        requires
            old(self)@.lines.len() > 0,
        ensures
            out@ == covered(old(self)@.lines, *motion),
            final(self)@ == with_lines(old(self)@, uncovered(old(self)@.lines, *motion)),
            final(self)@.lines.len() > 0,
    {
        self.extract_range(motion)
    }

    /// Types a text in place of a span, both ends of which go too.
    pub fn replace_range<S: Fn(&str, Ask) -> Answer>(
        &mut self,
        span: (Pos, Pos),
        new: &str,
        env: &Env<S>,
    ) -> (out: Lines)
        requires
            old(self)@.lines.len() > 0,
            env_ok(*env),
        ensures
            out@ == covered(
                old(self)@.lines,
                MotionKind::Char { start: span.0, end: span.1, inclusive: true },
            ),
            final(self)@ == retyped(old(self)@, span, new@, env.shell),
            wf(final(self)@),
    {
        let m = MotionKind::Char { start: span.0, end: span.1, inclusive: true };
        let out = self.extract_range(&m);
        let ghost c = self@;
        self.cursor.pos = self.clamp_place(span.0, false);
        assert(self@ =~= with_cursor(c, clamped(c.lines, span.0, false)));
        self.insert_str(new, env);
        out
    }

    /// Moves the cursor to the start of what a motion covers. A rectangle
    /// leaves it where it is.
    pub fn move_to_start(&mut self, motion: MotionKind)
        requires
            old(self)@.lines.len() > 0,
        ensures
            final(self)@ == at_start(old(self)@, motion),
            final(self)@.lines.len() > 0,
    {
        match motion {
            MotionKind::Char { start, end, .. } => {
                let (s, _) = earlier_first(start, end);
                self.set_cursor(s);
            },
            MotionKind::Line { start, end, .. } => {
                self.set_cursor(Pos { row: min_of(start, end), col: 0 });
            },
            MotionKind::Block { .. } => {},
        }
    }

    /// Takes blank lines and white space around the text out.
    pub fn trim(&mut self)
        ensures
            final(self)@ == with_lines(old(self)@, trimmed_lines(old(self)@.lines)),
    {
        self.lines.drop_head_blanks();
        self.lines.drop_tail_blanks();
        let ghost inner = self@.lines;
        let ghost bare = Seq::new(
            inner.len(),
            |i: int|
                if i == 0 {
                    trimmed_end(unindented(inner[0]))
                } else {
                    trimmed_end(inner[i])
                },
        );
        let mut i: usize = 0;
        while i < self.lines.len()
            invariant
                i <= inner.len(),
                self@.lines.len() == inner.len(),
                self@ == with_lines(old(self)@, self@.lines),
                bare == Seq::new(
                    inner.len(),
                    |i: int|
                        if i == 0 {
                            trimmed_end(unindented(inner[0]))
                        } else {
                            trimmed_end(inner[i])
                        },
                ),
                forall|k: int| 0 <= k < i ==> (#[trigger] self@.lines[k]) == bare[k],
                forall|k: int| i <= k < inner.len() ==> (#[trigger] self@.lines[k]) == inner[k],
            decreases inner.len() - i,
        {
            let mut line = self.lines.at(i).clone();
            if i == 0 {
                line.unindent();
            }
            line.trim_end();
            let ghost was = self@;
            self.lines.replace_at(i, line);
            assert(self@ =~= with_lines(was, was.lines.update(i as int, line@)));
            i += 1;
        }
        assert(self@.lines =~= bare);
        self.lines.drop_head_blanks();
        self.lines.drop_tail_blanks();
        assert(self@ =~= with_lines(old(self)@, trimmed_lines(old(self)@.lines)));
    }

    /// Puts a cluster behind the text.
    pub fn push(&mut self, gr: Grapheme)
        requires
            old(self)@.lines.len() > 0,
        ensures
            final(self)@ == with_lines(
                old(self)@,
                old(self)@.lines.update(
                    old(self)@.lines.len() - 1,
                    old(self)@.lines.last().push(gr@),
                ),
            ),
    {
        let last = self.lines.len() - 1;
        let mut line = self.lines.at(last).clone();
        line.push(gr);
        self.lines.replace_at(last, line);
        assert(self@ =~= with_lines(
            old(self)@,
            old(self)@.lines.update(last as int, old(self)@.lines.last().push(gr@)),
        ));
    }

    /// Puts a text behind the buffer's.
    pub fn push_str(&mut self, s: &str)
        ensures
            final(self)@ == with_lines(
                old(self)@,
                attached(old(self)@.lines, lines_of(s@)),
            ),
    {
        let mut lines = Lines::to_lines(s);
        self.lines.attach_lines(&mut lines);
        assert(self@ =~= with_lines(old(self)@, attached(old(self)@.lines, lines_of(s@))));
    }

    /// What goes between two texts.
    fn joint_for(&self, sep: &str) -> (v: Line)
        ensures
            v@ == joint(self@.lines, sep@),
    {
        let joined = self.joined();
        let body = trim_text_end(joined.as_str());
        let bare = trim_text(sep);
        let mut line = Line::default();
        if !ends_with(body.as_str(), bare.as_str()) {
            line.push_str(sep);
            assert(line@ =~= clusters(sep@));
        }
        line
    }

    /// Puts a text before the buffer's, with a separator between, and keeps in
    /// mind where they meet.
    pub fn concat_left(&mut self, sep: &str, other: &str)
        ensures
            final(self)@ == joined_left(old(self)@, sep@, other@),
            final(self)@.lines.len() > 0,
    {
        if self.is_empty() {
            self.lines = Lines::to_lines(other);
            assert(self@ =~= with_lines(old(self)@, lines_of(other@)));
            return;
        }
        let ghost ls = self@.lines;
        let mut mid = self.joint_for(sep);
        let mut new = Lines::to_lines(other);
        let mut first = self.lines.at(0).clone();
        first.unindent();
        self.lines.replace_at(0, first);
        let last = new.len() - 1;
        let mut line = new.at(last).clone();
        line.append(&mut mid);
        let col = line.len();
        new.replace_at(last, line);
        assert(new@ =~= left_part(ls, sep@, other@));
        let mut rest = self.lines.clone();
        assert(rest@ =~= left_rest(ls));
        new.attach_lines(&mut rest);
        self.lines = new;
        self.concat_points.push_front(Pos { row: last, col });
        assert(self@ =~= joined_left(old(self)@, sep@, other@));
    }

    /// Puts a text behind the buffer's, with a separator between, and keeps in
    /// mind where they meet.
    pub fn concat_right(&mut self, sep: &str, other: &str)
        ensures
            final(self)@ == joined_right(old(self)@, sep@, other@),
            final(self)@.lines.len() > 0,
    {
        if self.is_empty() {
            self.lines = Lines::to_lines(other);
            assert(self@ =~= with_lines(old(self)@, lines_of(other@)));
            return;
        }
        let ghost ls = self@.lines;
        let mut head = self.joint_for(sep);
        let mut new = Lines::to_lines(other);
        let row = self.lines.len() - 1;
        let mut last = self.lines.at(row).clone();
        last.trim_end();
        let col = last.len();
        self.lines.replace_at(row, last);
        let mut first = new.at(0).clone();
        head.append(&mut first);
        new.replace_at(0, head);
        assert(new@ =~= right_part(ls, sep@, other@));
        assert(self@.lines =~= right_rest(ls));
        self.lines.attach_lines(&mut new);
        self.concat_points.push_back(Pos { row, col });
        assert(self@ =~= joined_right(old(self)@, sep@, other@));
    }

    /// Takes the text put before the buffer's last out again.
    pub fn pop_left(&mut self, opts: &Opts) -> (r: bool)
        requires
            old(self)@.lines.len() > 0,
        ensures
            r == (old(self)@.concat_points.len() > 0),
            final(self)@ == popped_left(old(self)@, *opts),
    {
        match self.concat_points.pop_front() {
            Some(pos) => {
                assert(self.concat_points@ =~= old(self)@.concat_points.skip(1));
                let row = self.clamp_to_row(pos.row);
                self.lines = self.lines.split_lines_at(Pos { row, col: pos.col });
                assert(self@ =~= (BufV {
                    lines: behind(old(self)@.lines, Pos { row, col: pos.col }),
                    concat_points: old(self)@.concat_points.skip(1),
                    ..old(self)@
                }));
                self.fix_cursor(opts);
                true
            },
            None => {
                assert(self.concat_points@ =~= old(self)@.concat_points);
                assert(self@ =~= old(self)@);
                false
            },
        }
    }

    /// Takes the text put behind the buffer's last out again.
    pub fn pop_right(&mut self, opts: &Opts) -> (r: bool)
        requires
            old(self)@.lines.len() > 0,
        ensures
            r == (old(self)@.concat_points.len() > 0),
            final(self)@ == popped_right(old(self)@, *opts),
    {
        match self.concat_points.pop_back() {
            Some(pos) => {
                assert(self.concat_points@ =~= old(self)@.concat_points.drop_last());
                let row = self.clamp_to_row(pos.row);
                let _ = self.lines.split_lines_at(Pos { row, col: pos.col });
                assert(self@ =~= (BufV {
                    lines: before(old(self)@.lines, Pos { row, col: pos.col }),
                    concat_points: old(self)@.concat_points.drop_last(),
                    ..old(self)@
                }));
                self.fix_cursor(opts);
                true
            },
            None => {
                assert(self.concat_points@ =~= old(self)@.concat_points);
                assert(self@ =~= old(self)@);
                false
            },
        }
    }
}

/// The buffer with a text typed in place of a span.
pub open spec fn retyped<S: Fn(&str, Ask) -> Answer>(b: BufV, span: (Pos, Pos), new: Seq<char>, shell: S) -> BufV {
    let m = MotionKind::Char { start: span.0, end: span.1, inclusive: true };
    let c = with_lines(b, uncovered(b.lines, m));
    with_text(with_cursor(c, clamped(c.lines, span.0, false)), new, shell)
}

/// The buffer with the cursor at the start of what a motion covers.
pub open spec fn at_start(b: BufV, m: MotionKind) -> BufV {
    match m {
        MotionKind::Char { start, end, .. } => moved(b, in_order(start, end).0),
        MotionKind::Line { start, end, .. } => moved(
            b,
            Pos { row: rows_in_order(start, end).0, col: 0 },
        ),
        MotionKind::Block { .. } => b,
    }
}

/// The buffer with a text put before its own.
pub open spec fn joined_left(b: BufV, sep: Seq<char>, other: Seq<char>) -> BufV {
    if crate::linebuf::buffer::no_text(b.lines) {
        with_lines(b, lines_of(other))
    } else {
        BufV {
            lines: attached(left_part(b.lines, sep, other), left_rest(b.lines)),
            concat_points: seq![end_of(left_part(b.lines, sep, other))] + b.concat_points,
            ..b
        }
    }
}

/// The buffer with a text put behind its own.
pub open spec fn joined_right(b: BufV, sep: Seq<char>, other: Seq<char>) -> BufV {
    if crate::linebuf::buffer::no_text(b.lines) {
        with_lines(b, lines_of(other))
    } else {
        BufV {
            lines: attached(right_rest(b.lines), right_part(b.lines, sep, other)),
            concat_points: b.concat_points.push(end_of(right_rest(b.lines))),
            ..b
        }
    }
}

/// `p` with its row cut to the lines.
pub open spec fn row_cut(ls: LinesV, p: Pos) -> Pos {
    Pos { row: cut_row(p.row, ls.len() as int), ..p }
}

/// The buffer without the text put before it last.
pub open spec fn popped_left(b: BufV, opts: Opts) -> BufV {
    if b.concat_points.len() == 0 {
        b
    } else {
        fixed(
            BufV {
                lines: behind(b.lines, row_cut(b.lines, b.concat_points.first())),
                concat_points: b.concat_points.skip(1),
                ..b
            },
            opts,
        )
    }
}

/// The buffer without the text put behind it last.
pub open spec fn popped_right(b: BufV, opts: Opts) -> BufV {
    if b.concat_points.len() == 0 {
        b
    } else {
        fixed(
            BufV {
                lines: before(b.lines, row_cut(b.lines, b.concat_points.last())),
                concat_points: b.concat_points.drop_last(),
                ..b
            },
            opts,
        )
    }
}

} // verus!
