//! What is shown of the text, and how blocks are indented.

use vstd::prelude::*;
use crate::editcmd::{Cmd, EditCmd, Verb};
use crate::linebuf::address::row_span;
use crate::linebuf::buffer::{fixed, viewport, wf, BufV};
use crate::linebuf::change::{equalized, tabs, with_levels};
use crate::linebuf::char_class::is_ws;
use crate::linebuf::edit::levels_of;
use crate::linebuf::edit_laws::lemma_runs_plainly;
use crate::linebuf::line::LineV;
use crate::linebuf::lines::{text_of, LinesV};
use crate::linebuf::marks::{selection_marked, window_of, Markers};
use crate::linebuf::motion::{after_motion, cmd_after, cmd_cover};
use crate::linebuf::pos::{MotionKind, Pos};
use crate::linebuf::select::SelectMode;
use crate::linebuf::verb::{begun, plain, run_cmd};
use crate::linebuf::verb_laws::lemma_unindented;
use crate::linebuf::verb_ops::cmd_equalized;
use crate::register::RegV;
use crate::shell::{Answer, Ask, Env, Opts};

verus! {

/// The cursor's line is always one of those shown, with as many lines above and
/// below it as the margin asks for, unless the text begins or ends before that.
/// A cursor that has them moves nothing.
pub proof fn law_cursor_stays_in_view(b: BufV, opts: Opts)
    requires
        wf(b),
        b.lines.len() <= usize::MAX,
        2 * opts.scroll_offset < viewport(fixed(b, opts), opts),
        viewport(fixed(b, opts), opts) <= b.lines.len(),
    ensures
        ({
            let c = fixed(b, opts);
            let row = c.cursor.pos.row as int;
            let top = c.scroll_offset as int;
            let height = viewport(c, opts);
            let off = opts.scroll_offset as int;
            &&& top <= row < top + height
            &&& top + height <= c.lines.len()
            &&& top == 0 || row - top >= off
            &&& top + height == c.lines.len() || top + height - row > off
            &&& b.scroll_offset + off <= row && row + off < b.scroll_offset + height
                && b.scroll_offset + height <= c.lines.len() ==> top == b.scroll_offset
        }),
{
}

/// The part shown holds the lines from its first one on, as many as there is
/// room for and as there are.
pub proof fn law_window_holds_the_lines_from_its_first(ls: LinesV, from: int, height: int)
    requires
        0 <= from <= ls.len(),
        0 <= height,
    ensures
        ({
            let w = window_of(ls, from, height);
            &&& w.len() == if from + height <= ls.len() {
                height
            } else {
                ls.len() - from
            }
            &&& forall|i: int| 0 <= i < w.len() ==> #[trigger] w[i] == ls[from + i]
        }),
{
}

/// A selection of clusters is marked before its first and behind its last
/// cluster, and in each of its lines by itself where it holds several.
pub proof fn law_selected_clusters_are_marked(b: BufV, m: Markers, s: Pos, e: Pos)
    requires
        wf(b),
        b.select_mode == Some(SelectMode::Char(s)),
        b.cursor.pos == e,
        e.row < b.lines.len() <= usize::MAX,
        s.row < e.row || (s.row == e.row && s.col <= e.col),
        s.col <= b.lines[s.row as int].len(),
        e.col < b.lines[e.row as int].len(),
    ensures
        ({
            let ls = b.lines;
            let r = selection_marked(ls, b, m);
            let a = seq![seq![m.visual_start]];
            let z = seq![seq![m.visual_end]];
            let first = ls[s.row as int];
            let last = ls[e.row as int];
            &&& r.len() == ls.len()
            &&& forall|i: int|
                0 <= i < ls.len() && !(s.row <= i <= e.row) ==> #[trigger] r[i] == ls[i]
            &&& forall|i: int| s.row < i < e.row ==> #[trigger] r[i] == a + ls[i] + z
            &&& s.row == e.row ==> r[s.row as int] == first.take(s.col as int) + a + first.subrange(
                s.col as int,
                e.col + 1,
            ) + z + first.skip(e.col + 1)
            &&& s.row < e.row ==> r[s.row as int] == first.take(s.col as int) + a + first.skip(
                s.col as int,
            ) + z
            &&& s.row < e.row ==> r[e.row as int] == a + last.take(e.col + 1) + z + last.skip(
                e.col + 1,
            )
        }),
{
    let ls = b.lines;
    let r = selection_marked(ls, b, m);
    let a = seq![seq![m.visual_start]];
    let z = seq![seq![m.visual_end]];
    let first = ls[s.row as int];
    let last = ls[e.row as int];
    assert forall|i: int| s.row < i < e.row implies #[trigger] r[i] == a + ls[i] + z by {
        assert(r[i] =~= a + ls[i] + z);
    }
    if s.row == e.row {
        assert(r[s.row as int] =~= first.take(s.col as int) + a + first.subrange(
            s.col as int,
            e.col + 1,
        ) + z + first.skip(e.col + 1));
    } else {
        assert(r[s.row as int] =~= first.take(s.col as int) + a + first.skip(s.col as int) + z);
        assert(r[e.row as int] =~= a + last.take(e.col + 1) + z + last.skip(e.col + 1));
    }
}

/// A selection of lines has a mark before each of them and one behind the last.
pub proof fn law_selected_lines_are_marked(b: BufV, m: Markers, p: Pos, s: int, e: int)
    requires
        wf(b),
        b.lines.len() <= usize::MAX,
        b.select_mode == Some(SelectMode::Line(p)),
        (s == p.row && e == b.cursor.pos.row) || (s == b.cursor.pos.row && e == p.row),
        s <= e < b.lines.len(),
    ensures
        ({
            let ls = b.lines;
            let r = selection_marked(ls, b, m);
            let a = seq![seq![m.visual_start]];
            &&& r.len() == ls.len()
            &&& forall|i: int| 0 <= i < ls.len() && !(s <= i <= e) ==> #[trigger] r[i] == ls[i]
            &&& forall|i: int| s <= i < e ==> #[trigger] r[i] == a + ls[i]
            &&& r[e] == a + ls[e] + seq![seq![m.visual_end]]
        }),
{
    let ls = b.lines;
    let r = selection_marked(ls, b, m);
    let a = seq![seq![m.visual_start]];
    assert(r[e] =~= a + ls[e] + seq![seq![m.visual_end]]);
}

/// How deep the shell says a row is nested, at its start or at its end,
/// whichever is less.
pub open spec fn depth_of<S: Fn(&str, Ask) -> Answer>(ls: LinesV, i: int, shell: S) -> int {
    let v = levels_of(shell, text_of(ls));
    if i < v.len() {
        if v[i].0 <= v[i].1 {
            v[i].0 as int
        } else {
            v[i].1 as int
        }
    } else {
        0
    }
}

/// A line without the white space at its start.
pub open spec fn is_bare(l: LineV, indent: int, rest: LineV) -> bool {
    &&& 0 <= indent <= l.len()
    &&& rest == l.skip(indent)
    &&& forall|j: int| 0 <= j < indent ==> is_ws(#[trigger] l[j])
    &&& rest.len() > 0 ==> !is_ws(rest[0])
}

proof fn lemma_equalized<S: Fn(&str, Ask) -> Answer>(b: BufV, s: usize, e: usize, n: int, shell: S)
    requires
        wf(b),
        b.indent_cache is None,
        s <= e < b.lines.len() <= usize::MAX,
        0 <= n <= e - s + 1,
    ensures
        ({
            let d = equalized(b, row_span(s, e), n, shell);
            &&& d.lines.len() == b.lines.len()
            &&& d.cursor == b.cursor
            &&& n == 0 ==> d == b
            &&& n > 0 ==> d.indent_cache == Some(levels_of(shell, text_of(b.lines)))
            &&& forall|i: int|
                0 <= i < b.lines.len() && !(s <= i < s + n) ==> #[trigger] d.lines[i] == b.lines[i]
            &&& forall|i: int|
                s <= i < s + n ==> #[trigger] d.lines[i] == tabs(depth_of(b.lines, i, shell))
                    + crate::linebuf::line::unindented(b.lines[i])
        }),
    decreases n,
{
    if n > 0 {
        lemma_equalized(b, s, e, n - 1, shell);
        let c = with_levels(equalized(b, row_span(s, e), n - 1, shell), shell);
        assert(row_span(s, e)[n - 1] == s + n - 1);
        assert(c.lines[s + n - 1] == b.lines[s + n - 1]);
    }
}

/// Indenting as nested gives every line that the motion touches as many tabs as
/// the shell says it is nested deep, in place of the white space it began with,
/// and leaves all others alone.
#[verifier::rlimit(40)]
pub proof fn law_touched_lines_are_indented_as_nested<S: Fn(&str, Ask) -> Answer>(b: BufV, regs: Seq<RegV>, cmd: EditCmd, k: MotionKind, s: usize, e: usize, env: Env<S>)
    requires
        wf(b),
        b.lines.len() <= usize::MAX,
        cmd.verb matches Some(Cmd(_, Verb::Equalize)),
        cmd_cover(begun(b, cmd, env), cmd, env.opts) == Some(k),
        s <= e < b.lines.len(),
        match k {
            MotionKind::Line { start, end, .. } => (start == s && end == e) || (start == e && end
                == s),
            MotionKind::Char { start, end, .. } => (start.row == s && end.row == e) || (start.row
                == e && end.row == s),
            MotionKind::Block { .. } => false,
        },
    ensures
        ({
            let r = run_cmd(b, regs, cmd, env);
            &&& r.effect is Done
            &&& r.regs == regs
            &&& r.buf.lines.len() == b.lines.len()
            &&& forall|i: int|
                0 <= i < b.lines.len() && !(s <= i <= e) ==> #[trigger] r.buf.lines[i] == b.lines[i]
            &&& forall|i: int, indent: int, rest: LineV|
                s <= i <= e && #[trigger] is_bare(b.lines[i], indent, rest) ==> r.buf.lines[i]
                    == tabs(depth_of(b.lines, i, env.shell)) + rest
        }),
{
    reveal(plain);
    lemma_runs_plainly(b, regs, cmd, env);
    let c = begun(b, cmd, env);
    lemma_equalized_buffer(c, cmd, k, s, e, env);
    let p = plain(c, regs, cmd, cmd.verb.unwrap().1, env);
    assert(p.buf == cmd_equalized(c, cmd, env));
    assert forall|i: int, indent: int, rest: LineV|
        s <= i <= e && #[trigger] is_bare(b.lines[i], indent, rest) implies p.buf.lines[i] == tabs(
        depth_of(b.lines, i, env.shell),
    ) + rest by {
        let l = b.lines[i];
        assert(l.take(indent) + rest =~= l);
        lemma_unindented(l.take(indent), rest);
    }
}

proof fn lemma_equalized_buffer<S: Fn(&str, Ask) -> Answer>(c: BufV, cmd: EditCmd, k: MotionKind, s: usize, e: usize, env: Env<S>)
    requires
        wf(c),
        c.indent_cache is None,
        c.lines.len() <= usize::MAX,
        cmd_cover(c, cmd, env.opts) == Some(k),
        s <= e < c.lines.len(),
        match k {
            MotionKind::Line { start, end, .. } => (start == s && end == e) || (start == e && end
                == s),
            MotionKind::Char { start, end, .. } => (start.row == s && end.row == e) || (start.row
                == e && end.row == s),
            MotionKind::Block { .. } => false,
        },
    ensures
        ({
            let d = cmd_equalized(c, cmd, env);
            &&& d.lines.len() == c.lines.len()
            &&& forall|i: int|
                0 <= i < c.lines.len() && !(s <= i <= e) ==> #[trigger] d.lines[i] == c.lines[i]
            &&& forall|i: int|
                s <= i <= e ==> #[trigger] d.lines[i] == tabs(depth_of(c.lines, i, env.shell))
                    + crate::linebuf::line::unindented(c.lines[i])
        }),
{
    reveal(after_motion);
    let x = cmd_after(c, cmd, env.opts);
    lemma_equalized(x, s, e, e - s + 1, env.shell);
}

} // verus!
