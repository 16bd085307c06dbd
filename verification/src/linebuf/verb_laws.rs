//! What the verbs make of a stretch of text, and where they leave the cursor.

use vstd::prelude::*;
use crate::editcmd::{Anchor, Cmd, EditCmd, Verb};
use crate::linebuf::buffer::{clamped, wf, BufV};
use crate::linebuf::change::{covered, put_at, taken, uncovered, without, without_block};
use crate::linebuf::char_class::is_ws;
use crate::linebuf::edit_laws::lemma_runs_plainly;
use crate::linebuf::line::{leading, unindented, LineV};
use crate::linebuf::lines::{attached, before, behind, cluster_count, LinesV};
use crate::linebuf::motion::{after_motion, cmd_after, cmd_cover};
use crate::linebuf::pos::{in_order, MotionKind, Pos};
use crate::linebuf::verb::{begun, plain, run_cmd};
use crate::linebuf::verb_ops::{dcy_buf, dcy_regs, joined_line, joined_rows, line_opened, span_pasted};
use crate::linebuf::word_laws::{earlier, indexable};
use crate::register::{held_by, RegV};
use crate::shell::{answer, Answer, Ask, Env};

verus! {

/// The column behind the last cluster of a stretch that ends in a line.
pub open spec fn col_behind(l: LineV, e: Pos, inclusive: bool) -> int {
    if e.col >= l.len() {
        l.len() as int
    } else if inclusive {
        e.col + 1
    } else {
        e.col as int
    }
}

/// The text without the stretch from column `c` of row `s` up to column `f` of
/// row `e`: what is left of the two rows is one.
pub open spec fn cut_out(ls: LinesV, s: int, c: int, e: int, f: int) -> LinesV {
    ls.take(s) + seq![ls[s].take(c) + ls[e].skip(f)] + ls.skip(e + 1)
}

/// That stretch: a piece of one row, or the end of the first row, the rows
/// between and the start of the last.
pub open spec fn stretch(ls: LinesV, s: int, c: int, e: int, f: int) -> LinesV {
    if s == e {
        seq![ls[s].subrange(c, f)]
    } else {
        seq![ls[s].skip(c)] + ls.subrange(s + 1, e) + seq![ls[e].take(f)]
    }
}

/// A text put in at column `c` of a row: the first of its lines goes on behind
/// what stands before the column, the last goes on with what stands behind.
pub open spec fn put_in(ls: LinesV, row: int, c: int, new: LinesV) -> LinesV {
    if new.len() == 1 {
        ls.take(row) + seq![ls[row].take(c) + new[0] + ls[row].skip(c)] + ls.skip(row + 1)
    } else {
        ls.take(row) + seq![ls[row].take(c) + new[0]] + new.subrange(1, new.len() - 1) + seq![
            new.last() + ls[row].skip(c),
        ] + ls.skip(row + 1)
    }
}

pub proof fn lemma_stretch(ls: LinesV, s: Pos, e: Pos, start: Pos, end: Pos, inclusive: bool)
    requires
        indexable(ls),
        e.row < ls.len(),
        !earlier(e, s),
        s.col <= ls[s.row as int].len(),
        (start == s && end == e) || (start == e && end == s),
    ensures
        ({
            let f = col_behind(ls[e.row as int], e, inclusive);
            let m = MotionKind::Char { start, end, inclusive };
            &&& uncovered(ls, m) == cut_out(ls, s.row as int, s.col as int, e.row as int, f)
            &&& covered(ls, m) == stretch(ls, s.row as int, s.col as int, e.row as int, f)
            &&& in_order(start, end).0 == s
        }),
{
    let f = col_behind(ls[e.row as int], e, inclusive);
    let m = MotionKind::Char { start, end, inclusive };
    assert(ls[e.row as int].len() <= usize::MAX);
    assert(in_order(start, end) == (s, e));
    let z = Pos {
        row: e.row,
        col: if inclusive && e.col < usize::MAX {
            (e.col + 1) as usize
        } else {
            e.col
        },
    };
    assert(crate::linebuf::change::span_ends(ls, start, end, inclusive) == (s, z));
    assert(before(ls, s) =~= ls.take(s.row as int) + seq![ls[s.row as int].take(s.col as int)]);
    assert(behind(ls, z) =~= seq![ls[e.row as int].skip(f)] + ls.skip(e.row + 1));
    assert(without(ls, s, z) =~= cut_out(ls, s.row as int, s.col as int, e.row as int, f));
    let b = before(ls, z);
    assert(b =~= ls.take(e.row as int) + seq![ls[e.row as int].take(f)]);
    if s.row == e.row {
        assert(b[s.row as int] =~= ls[e.row as int].take(f));
        assert(b[s.row as int].skip(s.col as int) =~= ls[s.row as int].subrange(s.col as int, f));
    } else {
        assert(b[s.row as int] == ls[s.row as int]);
    }
    assert(taken(ls, s, z) =~= stretch(ls, s.row as int, s.col as int, e.row as int, f));
}

/// What a motion of a command with a verb leaves behind has the text and the
/// cursor that there were.
proof fn lemma_after_keeps<S: Fn(&str, Ask) -> Answer>(b: BufV, cmd: EditCmd, env: Env<S>)
    ensures
        cmd_after(b, cmd, env.opts).lines == b.lines,
        cmd_after(b, cmd, env.opts).cursor == b.cursor,
        cmd_after(b, cmd, env.opts).select_mode == b.select_mode,
{
    reveal(after_motion);
}

/// Deleting or changing a stretch takes it out of the text, and what is left of
/// its first and its last row becomes one row; copying leaves the text alone.
/// Each keeps the stretch in the register, and leaves the cursor at its start.
#[verifier::rlimit(40)]
pub proof fn law_stretch_is_taken<S: Fn(&str, Ask) -> Answer>(b: BufV, regs: Seq<RegV>, cmd: EditCmd, s: Pos, e: Pos, start: Pos, end: Pos, inclusive: bool, env: Env<S>)
    requires
        wf(b),
        indexable(b.lines),
        cmd.verb matches Some(Cmd(_, v)) && (v is Delete || v is Change || v is Yank),
        cmd_cover(begun(b, cmd, env), cmd, env.opts) == Some(
            MotionKind::Char { start, end, inclusive },
        ),
        (start == s && end == e) || (start == e && end == s),
        e.row < b.lines.len(),
        !earlier(e, s),
        s.col <= b.lines[s.row as int].len(),
        !cmd.register.appends(),
        held_by(regs, cmd.register.letter()) is Some,
    ensures
        ({
            let r = run_cmd(b, regs, cmd, env);
            let ls = b.lines;
            let f = col_behind(ls[e.row as int], e, inclusive);
            let yank = cmd.verb.unwrap().1 is Yank;
            let row = r.buf.lines[s.row as int];
            &&& r.effect is Done
            &&& yank ==> r.buf.lines == ls
            &&& !yank ==> r.buf.lines == cut_out(ls, s.row as int, s.col as int, e.row as int, f)
            &&& held_by(r.regs, cmd.register.letter()) == Some(
                RegV::Span(stretch(ls, s.row as int, s.col as int, e.row as int, f)),
            )
            &&& r.buf.cursor.pos.row == s.row
            &&& r.buf.cursor.pos.col == if b.cursor.exclusive && s.col >= row.len() && row.len() > 0 {
                row.len() - 1
            } else if s.col > row.len() {
                row.len() as int
            } else {
                s.col as int
            }
        }),
{
    reveal(plain);
    lemma_runs_plainly(b, regs, cmd, env);
    let c = begun(b, cmd, env);
    lemma_after_keeps(c, cmd, env);
    lemma_stretch(b.lines, s, e, start, end, inclusive);
    lemma_taken(c, regs, cmd, s, e, start, end, inclusive, env);
}

proof fn lemma_taken<S: Fn(&str, Ask) -> Answer>(c: BufV, regs: Seq<RegV>, cmd: EditCmd, s: Pos, e: Pos, start: Pos, end: Pos, inclusive: bool, env: Env<S>)
    requires
        wf(c),
        indexable(c.lines),
        cmd.verb matches Some(Cmd(_, v)) && (v is Delete || v is Change || v is Yank),
        cmd_cover(c, cmd, env.opts) == Some(MotionKind::Char { start, end, inclusive }),
        (start == s && end == e) || (start == e && end == s),
        e.row < c.lines.len(),
        !earlier(e, s),
        s.col <= c.lines[s.row as int].len(),
        !cmd.register.appends(),
        held_by(regs, cmd.register.letter()) is Some,
    ensures
        ({
            let ls = c.lines;
            let f = col_behind(ls[e.row as int], e, inclusive);
            let d = dcy_buf(c, cmd, env);
            &&& d.lines == if cmd.verb.unwrap().1 is Yank {
                ls
            } else {
                cut_out(ls, s.row as int, s.col as int, e.row as int, f)
            }
            &&& d.cursor.exclusive == c.cursor.exclusive
            &&& d.cursor.pos == clamped(d.lines, s, c.cursor.exclusive)
            &&& held_by(dcy_regs(c, regs, cmd, env), cmd.register.letter()) == Some(
                RegV::Span(stretch(ls, s.row as int, s.col as int, e.row as int, f)),
            )
        }),
{
    lemma_after_keeps(c, cmd, env);
    lemma_stretch(c.lines, s, e, start, end, inclusive);
}

/// The column in which a text from a register goes.
pub open spec fn put_col(b: BufV, anchor: Anchor) -> int {
    let len = b.lines[b.cursor.pos.row as int].len();
    if anchor == Anchor::After && b.cursor.pos.col < len {
        b.cursor.pos.col + 1
    } else {
        b.cursor.pos.col as int
    }
}

proof fn lemma_put_in(ls: LinesV, row: usize, col: usize, new: LinesV)
    requires
        row < ls.len(),
        col <= ls[row as int].len(),
        new.len() > 0,
    ensures
        put_at(ls, Pos { row, col }, new) == put_in(ls, row as int, col as int, new),
{
    let p = Pos { row, col };
    let a = attached(before(ls, p), new);
    assert(before(ls, p) =~= ls.take(row as int) + seq![ls[row as int].take(col as int)]);
    assert(behind(ls, p) =~= seq![ls[row as int].skip(col as int)] + ls.skip(row + 1));
    if new.len() == 1 {
        assert(a =~= ls.take(row as int) + seq![ls[row as int].take(col as int) + new[0]]);
    } else {
        assert(a =~= ls.take(row as int) + seq![ls[row as int].take(col as int) + new[0]]
            + new.subrange(1, new.len() - 1) + seq![new.last()]);
    }
    assert(put_at(ls, p, new) =~= put_in(ls, row as int, col as int, new));
}

proof fn lemma_put_cursor(c: BufV, new: LinesV, anchor: Anchor)
    requires
        wf(c),
        indexable(c.lines),
        new.len() > 0,
        c.cursor.pos.col <= c.lines[c.cursor.pos.row as int].len(),
    ensures
        ({
            let d = span_pasted(c, new, None, anchor);
            &&& d.lines == put_in(c.lines, c.cursor.pos.row as int, put_col(c, anchor), new)
            &&& d.cursor.exclusive == c.cursor.exclusive
            &&& new.len() == 1 && new[0].len() > 0 && c.cursor.exclusive && put_col(c, anchor)
                + new[0].len() <= isize::MAX && (c.cursor.pos.col == 0 || c.cursor.pos.col
                < c.lines[c.cursor.pos.row as int].len()) ==> d.cursor.pos == (Pos {
                row: c.cursor.pos.row,
                col: (put_col(c, anchor) + new[0].len() - 1) as usize,
            })
        }),
{
    let row = c.cursor.pos.row as int;
    assert(c.lines[row].len() <= usize::MAX);
    lemma_put_in(c.lines, c.cursor.pos.row, put_col(c, anchor) as usize, new);
    if new.len() == 1 {
        let d = span_pasted(c, new, None, anchor);
        assert(d.lines[row].len() == c.lines[row].len() + new[0].len());
        reveal_with_fuel(cluster_count, 2);
        assert(new.drop_last() =~= Seq::empty());
        assert(cluster_count(new) == new[0].len());
    }
}

/// A text put in after the cursor comes directly behind its cluster, put in
/// before it directly before; everything else stays. Where the text is of one
/// line the cursor of a mode that keeps it on clusters goes to its last one.
#[verifier::rlimit(40)]
pub proof fn law_text_is_put_beside_the_cursor<S: Fn(&str, Ask) -> Answer>(b: BufV, regs: Seq<RegV>, cmd: EditCmd, new: LinesV, anchor: Anchor, env: Env<S>)
    requires
        wf(b),
        indexable(b.lines),
        b.select_mode is None,
        b.cursor.pos.col <= b.lines[b.cursor.pos.row as int].len(),
        cmd.verb matches Some(Cmd(_, v)) && v == Verb::Put(anchor),
        held_by(regs, cmd.register.letter()) == Some(RegV::Span(new)),
        new.len() > 0,
    ensures
        ({
            let r = run_cmd(b, regs, cmd, env);
            &&& r.effect is Done
            &&& r.regs == regs
            &&& r.buf.lines == put_in(
                b.lines,
                b.cursor.pos.row as int,
                put_col(b, anchor),
                new,
            )
            &&& new.len() == 1 && new[0].len() > 0 && b.cursor.exclusive && put_col(b, anchor)
                + new[0].len() <= isize::MAX && (b.cursor.pos.col == 0 || b.cursor.pos.col
                < b.lines[b.cursor.pos.row as int].len()) ==> {
                &&& r.buf.cursor.pos.row == b.cursor.pos.row
                &&& r.buf.cursor.pos.col == put_col(b, anchor) + new[0].len() - 1
            }
        }),
{
    reveal(plain);
    lemma_runs_plainly(b, regs, cmd, env);
    lemma_put_in(b.lines, b.cursor.pos.row, put_col(b, anchor) as usize, new);
    lemma_put_cursor(begun(b, cmd, env), new, anchor);
    assert(b.lines[b.cursor.pos.row as int].len() <= usize::MAX);
}

/// Joining makes one line of the cursor's and the next: the white space at the
/// start of the next goes, and a space comes between two texts where none
/// stands there. All other lines stay.
#[verifier::rlimit(40)]
pub proof fn law_joined_lines_are_one<S: Fn(&str, Ask) -> Answer>(b: BufV, regs: Seq<RegV>, cmd: EditCmd, indent: LineV, rest: LineV, env: Env<S>)
    requires
        wf(b),
        indexable(b.lines),
        b.select_mode is None,
        cmd.verb matches Some(Cmd(_, Verb::JoinLines)),
        cmd.motion matches Some(Cmd(n, _)) ==> n == 1,
        b.cursor.pos.row + 1 < b.lines.len(),
        b.lines[b.cursor.pos.row + 1] == indent + rest,
        forall|i: int| 0 <= i < indent.len() ==> is_ws(#[trigger] indent[i]),
        rest.len() > 0 ==> !is_ws(rest[0]),
    ensures
        ({
            let r = run_cmd(b, regs, cmd, env);
            let row = b.cursor.pos.row as int;
            let a = b.lines[row];
            let one = if a.len() > 0 && !is_ws(a.last()) && rest.len() > 0 {
                a + seq![seq![' ']] + rest
            } else {
                a + rest
            };
            &&& r.effect is Done
            &&& r.regs == regs
            &&& r.buf.lines == b.lines.take(row) + seq![one] + b.lines.skip(row + 2)
            &&& r.buf.cursor.pos.row == row
        }),
{
    reveal(plain);
    lemma_runs_plainly(b, regs, cmd, env);
    reveal_with_fuel(joined_rows, 2);
    let row = b.cursor.pos.row as int;
    lemma_unindented(indent, rest);
    let a = b.lines[row];
    let one = if a.len() > 0 && !is_ws(a.last()) && rest.len() > 0 {
        a + seq![seq![' ']] + rest
    } else {
        a + rest
    };
    assert(joined_line(a, b.lines[row + 1]) =~= one);
    assert(b.lines.remove(row + 1).update(row, one) =~= b.lines.take(row) + seq![one]
        + b.lines.skip(row + 2));
}

pub proof fn lemma_unindented(indent: LineV, rest: LineV)
    requires
        forall|i: int| 0 <= i < indent.len() ==> is_ws(#[trigger] indent[i]),
        rest.len() > 0 ==> !is_ws(rest[0]),
    ensures
        leading(indent + rest, |g: Seq<char>| is_ws(g)) == indent.len(),
        unindented(indent + rest) == rest,
    decreases indent.len(),
{
    let l = indent + rest;
    if indent.len() > 0 {
        lemma_unindented(indent.skip(1), rest);
        assert(l.skip(1) =~= indent.skip(1) + rest);
        assert(is_ws(indent[0]));
        assert(l[0] == indent[0]);
    } else {
        assert(l =~= rest);
    }
    assert(l.skip(indent.len() as int) =~= rest);
}

proof fn lemma_opened<S: Fn(&str, Ask) -> Answer>(c: BufV, anchor: Anchor, at: int, shell: S)
    requires
        wf(c),
        c.lines.len() < usize::MAX,
        at == if anchor == Anchor::After {
            c.cursor.pos.row + 1
        } else {
            c.cursor.pos.row as int
        },
    ensures
        ({
            let d = line_opened(c, anchor, shell);
            &&& d.lines.len() == c.lines.len() + 1
            &&& d.lines.remove(at) == c.lines
            &&& forall|i: int| 0 <= i < d.lines[at].len() ==> #[trigger] d.lines[at][i] == seq!['\t']
            &&& d.lines[at].len() <= usize::MAX
            &&& d.cursor.pos == (Pos { row: at as usize, col: d.lines[at].len() as usize })
            &&& d.cursor.exclusive == c.cursor.exclusive
        }),
{
    let d = line_opened(c, anchor, shell);
    assert(d.lines.remove(at) =~= c.lines);
}

/// A line opened below or above the cursor's comes directly beside it, holds
/// nothing but tabs, and has the cursor behind them; all other lines stay.
#[verifier::rlimit(40)]
pub proof fn law_opened_line_stands_beside<S: Fn(&str, Ask) -> Answer>(b: BufV, regs: Seq<RegV>, cmd: EditCmd, anchor: Anchor, env: Env<S>)
    requires
        wf(b),
        b.lines.len() < usize::MAX,
        !b.cursor.exclusive,
        cmd.verb matches Some(Cmd(_, v)) && v == Verb::InsertModeLineBreak(anchor),
    ensures
        ({
            let r = run_cmd(b, regs, cmd, env);
            let at = if anchor == Anchor::After {
                b.cursor.pos.row + 1
            } else {
                b.cursor.pos.row as int
            };
            &&& r.effect is Done
            &&& r.regs == regs
            &&& r.buf.lines.len() == b.lines.len() + 1
            &&& r.buf.lines.remove(at) == b.lines
            &&& forall|i: int|
                0 <= i < r.buf.lines[at].len() ==> #[trigger] r.buf.lines[at][i] == seq!['\t']
            &&& r.buf.cursor.pos.row == at
            &&& r.buf.cursor.pos.col == r.buf.lines[at].len()
        }),
{
    reveal(plain);
    lemma_runs_plainly(b, regs, cmd, env);
    let at = if anchor == Anchor::After {
        b.cursor.pos.row + 1
    } else {
        b.cursor.pos.row as int
    };
    let c = begun(b, cmd, env);
    lemma_opened(c, anchor, at, env.shell);
    let p = plain(c, regs, cmd, cmd.verb.unwrap().1, env);
    assert(p.buf == line_opened(c, anchor, env.shell));
}

/// Transposing swaps the cluster under the cursor and the one before it, and
/// moves the cursor on by one.
#[verifier::rlimit(40)]
pub proof fn law_transposed_clusters_are_swapped<S: Fn(&str, Ask) -> Answer>(b: BufV, regs: Seq<RegV>, cmd: EditCmd, env: Env<S>)
    requires
        wf(b),
        indexable(b.lines),
        cmd.verb matches Some(Cmd(_, Verb::TransposeChar)),
        0 < b.cursor.pos.col < b.lines[b.cursor.pos.row as int].len(),
        b.lines[b.cursor.pos.row as int][b.cursor.pos.col - 1] != seq!['\n'],
        forall|s: Seq<char>| !(#[trigger] answer(env.shell, s, Ask::Closes)).closes,
    ensures
        ({
            let r = run_cmd(b, regs, cmd, env);
            let l = b.lines[b.cursor.pos.row as int];
            let c = b.cursor.pos.col as int;
            &&& r.effect is Done
            &&& r.buf.lines.len() == b.lines.len()
            &&& forall|i: int|
                0 <= i < b.lines.len() && i != b.cursor.pos.row ==> #[trigger] r.buf.lines[i]
                    == b.lines[i]
            &&& r.buf.lines[b.cursor.pos.row as int] == l.remove(c - 1).insert(c, l[c - 1])
        }),
{
    reveal(plain);
    lemma_runs_plainly(b, regs, cmd, env);
    let row = b.cursor.pos.row as int;
    let l = b.lines[row];
    let c = b.cursor.pos.col as int;
    let r = run_cmd(b, regs, cmd, env);
    assert(l.len() <= usize::MAX);
    assert(r.buf.lines[row] =~= l.remove(c - 1).insert(c, l[c - 1]));
}

/// A rectangle that is deleted goes from each of its rows: what is left of such
/// a row is what stood before its first column and behind its last. Other rows
/// stay.
#[verifier::rlimit(40)]
pub proof fn law_rectangle_is_deleted<S: Fn(&str, Ask) -> Answer>(b: BufV, regs: Seq<RegV>, cmd: EditCmd, s: Pos, e: Pos, env: Env<S>)
    requires
        wf(b),
        cmd.verb matches Some(Cmd(_, Verb::Delete)),
        cmd_cover(begun(b, cmd, env), cmd, env.opts) == Some(
            MotionKind::Block { start: s, end: e },
        ),
        s.row <= e.row,
        s.col <= e.col,
    ensures
        ({
            let r = run_cmd(b, regs, cmd, env);
            &&& r.effect is Done
            &&& r.buf.lines.len() == b.lines.len()
            &&& forall|i: int|
                0 <= i < b.lines.len() && !(s.row <= i <= e.row) ==> #[trigger] r.buf.lines[i]
                    == b.lines[i]
            &&& forall|i: int|
                s.row <= i <= e.row && i < b.lines.len() && b.lines[i].len() <= s.col
                    ==> #[trigger] r.buf.lines[i] == b.lines[i]
            &&& forall|i: int|
                s.row <= i <= e.row && i < b.lines.len() && s.col <= e.col < b.lines[i].len()
                    ==> #[trigger] r.buf.lines[i] == b.lines[i].take(s.col as int)
                    + b.lines[i].skip(e.col + 1)
            &&& forall|i: int|
                s.row <= i <= e.row && i < b.lines.len() && s.col < b.lines[i].len() <= e.col
                    ==> #[trigger] r.buf.lines[i] == b.lines[i].take(s.col as int)
        }),
{
    reveal(plain);
    lemma_runs_plainly(b, regs, cmd, env);
    let c = begun(b, cmd, env);
    lemma_deleted_block(c, cmd, s, e, env);
    lemma_without_block(b.lines, s, e);
}

proof fn lemma_deleted_block<S: Fn(&str, Ask) -> Answer>(c: BufV, cmd: EditCmd, s: Pos, e: Pos, env: Env<S>)
    requires
        wf(c),
        cmd.verb matches Some(Cmd(_, Verb::Delete)),
        cmd_cover(c, cmd, env.opts) == Some(MotionKind::Block { start: s, end: e }),
        s.row <= e.row,
        s.col <= e.col,
    ensures
        dcy_buf(c, cmd, env).lines == without_block(c.lines, s, e),
{
    lemma_after_keeps(c, cmd, env);
    assert(in_order(s, e) == (s, e));
}

proof fn lemma_without_block(ls: LinesV, s: Pos, e: Pos)
    requires
        s.col <= e.col,
    ensures
        ({
            let n = without_block(ls, s, e);
            &&& n.len() == ls.len()
            &&& forall|i: int|
                0 <= i < ls.len() && !(s.row <= i <= e.row) ==> #[trigger] n[i] == ls[i]
            &&& forall|i: int|
                s.row <= i <= e.row && i < ls.len() && ls[i].len() <= s.col ==> #[trigger] n[i]
                    == ls[i]
            &&& forall|i: int|
                s.row <= i <= e.row && i < ls.len() && s.col <= e.col < ls[i].len()
                    ==> #[trigger] n[i] == ls[i].take(s.col as int) + ls[i].skip(e.col + 1)
            &&& forall|i: int|
                s.row <= i <= e.row && i < ls.len() && s.col < ls[i].len() <= e.col
                    ==> #[trigger] n[i] == ls[i].take(s.col as int)
        }),
{
    let n = without_block(ls, s, e);
    assert forall|i: int| s.row <= i <= e.row && i < ls.len() && ls[i].len() <= s.col implies #[trigger] n[i]
        == ls[i] by {
        assert(n[i] =~= ls[i]);
    }
    assert forall|i: int|
        s.row <= i <= e.row && i < ls.len() && s.col < ls[i].len() <= e.col implies #[trigger] n[i]
        == ls[i].take(s.col as int) by {
        assert(n[i] =~= ls[i].take(s.col as int));
    }
}

} // verus!
