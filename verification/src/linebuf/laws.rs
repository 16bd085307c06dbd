//! What holds of the buffer across commands.

use vstd::prelude::*;
use crate::editcmd::{types_char, undoes, Anchor, Cmd, EditCmd};
use crate::linebuf::address::selection;
use crate::linebuf::buffer::{clamped, no_text, with_cursor, with_lines, wf, BufV};
use crate::linebuf::change::{
    covered, end_of, joined_left, joined_right, left_part, left_rest, popped_left, popped_right,
    put_at, right_part, right_rest, taken, uncovered, within, without,
};
use crate::linebuf::effect::SnapshotV;
use crate::linebuf::line::{line_text, LineV};
use crate::linebuf::lines::{attached, before, behind, lines_of, text_of, LinesV};
use crate::linebuf::motion::cmd_after;
use crate::linebuf::pos::{pos_le, MotionKind, Pos};
use crate::linebuf::undo::undone;
use crate::linebuf::verb::{begun, edit_kept, ended, run_cmd, run_verb, snap};
use crate::linebuf::verb_ops::{content_pasted, kill_put_at, lines_pasted, shifted_line, swapped};
use crate::register::{content_of, RegV};
use crate::shell::{Answer, Ask, Env, Opts};

verus! {

/// A buffer cut in two at a place and put together again is what it was.
pub proof fn law_split_then_attach(ls: LinesV, pos: Pos)
    requires
        pos.row < ls.len(),
    ensures
        attached(before(ls, pos), behind(ls, pos)) == ls,
{
    let a = before(ls, pos);
    let b = behind(ls, pos);
    let l = ls[pos.row as int];
    let k = crate::linebuf::lines::cut_at(ls, pos);
    assert(l.take(k) + l.skip(k) =~= l);
    assert(attached(a, b) =~= ls);
}

/// What lies between two places of a buffer, taken out and put back where it
/// was, makes the buffer what it was.
pub proof fn law_extract_then_put_back(ls: LinesV, s: Pos, e: Pos)
    requires
        e.row < ls.len(),
        pos_le(s, e),
        s.col <= ls[s.row as int].len(),
        e.col <= ls[e.row as int].len(),
    ensures
        put_at(without(ls, s, e), s, taken(ls, s, e)) == ls,
{
    let w = without(ls, s, e);
    let t = taken(ls, s, e);
    let first = ls[s.row as int];
    let last = ls[e.row as int];
    assert(before(ls, e)[s.row as int] == if s.row < e.row {
        first
    } else {
        first.take(e.col as int)
    });
    assert(before(ls, s).drop_last() =~= ls.take(s.row as int));
    assert(w =~= ls.take(s.row as int).push(first.take(s.col as int) + last.skip(e.col as int))
        + ls.skip(e.row + 1));
    assert(w[s.row as int] == first.take(s.col as int) + last.skip(e.col as int));
    assert(w[s.row as int].take(s.col as int) =~= first.take(s.col as int));
    assert(w[s.row as int].skip(s.col as int) =~= last.skip(e.col as int));
    assert(w.take(s.row as int) =~= ls.take(s.row as int));
    assert(w.skip(s.row + 1) =~= ls.skip(e.row + 1));
    assert(before(w, s) =~= before(ls, s));
    assert(behind(w, s) =~= seq![last.skip(e.col as int)] + ls.skip(e.row + 1));
    assert(behind(w, s) =~= behind(ls, e));
    if s.row == e.row {
        assert(t =~= seq![first.take(e.col as int).skip(s.col as int)]);
        assert(first.take(s.col as int) + first.take(e.col as int).skip(s.col as int)
            =~= first.take(e.col as int));
        assert(attached(before(ls, s), t) =~= before(ls, e));
    } else {
        assert(first.take(s.col as int) + first.skip(s.col as int) =~= first);
        assert(attached(before(ls, s), t) =~= before(ls, e));
    }
    law_split_then_attach(ls, e);
}

proof fn lemma_line_text_add(a: LineV, b: LineV)
    ensures
        line_text(a + b) == line_text(a) + line_text(b),
    decreases b.len(),
{
    if b.len() == 0 {
        assert(a + b =~= a);
        assert(line_text(b) =~= Seq::<char>::empty());
        assert(line_text(a) + line_text(b) =~= line_text(a));
    } else {
        lemma_line_text_add(a, b.drop_last());
        assert((a + b).drop_last() =~= a + b.drop_last());
        crate::layout::lemma_flatten_last(a + b);
        crate::layout::lemma_flatten_last(b);
        assert(line_text(a) + line_text(b.drop_last()) + b.last() =~= line_text(a) + (line_text(
            b.drop_last(),
        ) + b.last()));
    }
}

/// The text of two buffers put together is the text of the one and then the
/// text of the other.
pub proof fn law_texts_concatenate(a: LinesV, b: LinesV)
    ensures
        text_of(attached(a, b)) == text_of(a) + text_of(b),
    decreases b.len(),
{
    if b.len() == 0 {
        assert(text_of(a) + text_of(b) =~= text_of(a));
    } else if a.len() == 0 {
        assert(text_of(a) + text_of(b) =~= text_of(b));
    } else if b.len() == 1 {
        lemma_line_text_add(a.last(), b[0]);
        let c = attached(a, b);
        assert(c.drop_last() =~= a.drop_last());
        assert(c.last() == a.last() + b[0]);
        if a.len() == 1 {
            assert(c[0] == a[0] + b[0]);
        } else {
            let head = text_of(a.drop_last()).push('\n');
            assert(head + (line_text(a.last()) + line_text(b[0])) =~= head + line_text(a.last())
                + line_text(b[0]));
        }
    } else {
        let c = attached(a, b);
        law_texts_concatenate(a, b.drop_last());
        assert(c.drop_last() =~= attached(a, b.drop_last()));
        assert(c.last() == b.last());
        let ta = text_of(a);
        let tb = text_of(b.drop_last());
        assert((ta + tb).push('\n') + line_text(b.last()) =~= ta + (tb.push('\n') + line_text(
            b.last(),
        )));
    }
}

/// A text put before the buffer's goes again when it is popped: what stays is
/// the buffer's own text, without its indentation.
pub proof fn law_pop_left_undoes_concat_left(b: BufV, sep: Seq<char>, other: Seq<char>, opts: Opts)
    requires
        wf(b),
        !no_text(b.lines),
        lines_of(other).len() > 0,
        lines_of(other).len() <= usize::MAX,
        left_part(b.lines, sep, other).last().len() <= usize::MAX,
    ensures
        popped_left(joined_left(b, sep, other), opts).lines == left_rest(b.lines),
        popped_left(joined_left(b, sep, other), opts).concat_points == b.concat_points,
{
    let part = left_part(b.lines, sep, other);
    let rest = left_rest(b.lines);
    let c = joined_left(b, sep, other);
    let p = end_of(part);
    assert(c.concat_points.first() == p);
    assert(c.concat_points.skip(1) =~= b.concat_points);
    assert(c.lines[p.row as int] == part.last() + rest.first());
    assert(c.lines[p.row as int].skip(p.col as int) =~= rest.first());
    assert(c.lines.skip(p.row + 1) =~= rest.skip(1));
    assert(behind(c.lines, p) =~= rest);
}

/// A text put behind the buffer's goes again when it is popped: what stays is
/// the buffer's own text, without the white space at its end.
pub proof fn law_pop_right_undoes_concat_right(b: BufV, sep: Seq<char>, other: Seq<char>, opts: Opts)
    requires
        wf(b),
        !no_text(b.lines),
        lines_of(other).len() > 0,
        b.lines.len() <= usize::MAX,
        right_rest(b.lines).last().len() <= usize::MAX,
    ensures
        popped_right(joined_right(b, sep, other), opts).lines == right_rest(b.lines),
        popped_right(joined_right(b, sep, other), opts).concat_points == b.concat_points,
{
    let part = right_part(b.lines, sep, other);
    let rest = right_rest(b.lines);
    let c = joined_right(b, sep, other);
    let p = end_of(rest);
    assert(c.concat_points.last() == p);
    assert(c.concat_points.drop_last() =~= b.concat_points);
    assert(c.lines[p.row as int] == rest.last() + part.first());
    assert(c.lines[p.row as int].take(p.col as int) =~= rest.last());
    assert(c.lines.take(p.row as int) =~= rest.drop_last());
    assert(before(c.lines, p) =~= rest);
}

/// Characters typed one behind the other are undone at once: the text is what
/// it was before the first.
pub proof fn law_typing_is_one_edit<S: Fn(&str, Ask) -> Answer>(b: BufV, regs: Seq<RegV>, cmd: EditCmd, env: Env<S>)
    requires
        types_char(cmd),
        ({
            let r = run_verb(begun(b, cmd, env), regs, cmd, env);
            &&& r.effect is Done || r.effect is Report
            &&& r.buf.lines != b.lines
            &&& r.buf.undo_stack.len() > 0
            &&& r.buf.undo_stack.last().merging
            &&& r.buf.undo_stack.last().old != r.buf.lines
        }),
    ensures
        undone(run_cmd(b, regs, cmd, env).buf).lines == run_verb(
            begun(b, cmd, env),
            regs,
            cmd,
            env,
        ).buf.undo_stack.last().old,
{
    let r = run_verb(begun(b, cmd, env), regs, cmd, env);
    let was = snap(b);
    let c = if no_text(r.buf.lines) {
        BufV { hint: None, ..r.buf }
    } else {
        r.buf
    };
    let k = edit_kept(c, cmd, was);
    assert(k.undo_stack.last().old == r.buf.undo_stack.last().old);
    assert(k.undo_stack.last().new == r.buf.lines);
    assert(ended(r.buf, cmd, was, env.opts).undo_stack == k.undo_stack);
}

/// A command that only moves leaves the text as it is, where no hint is there
/// to move into.
pub proof fn law_moving_keeps_text<S: Fn(&str, Ask) -> Answer>(b: BufV, regs: Seq<RegV>, cmd: EditCmd, env: Env<S>)
    requires
        wf(b),
        cmd.verb is None,
        b.hint is None,
    ensures
        run_cmd(b, regs, cmd, env).buf.lines == b.lines,
        run_cmd(b, regs, cmd, env).regs == regs,
        run_cmd(b, regs, cmd, env).effect is Done,
{
    reveal(crate::linebuf::motion::after_motion);
    let c = begun(b, cmd, env);
    assert(c.lines == b.lines);
    assert(cmd_after(c, cmd, env.opts).lines == b.lines);
    assert(cmd_after(c, cmd, env.opts).hint is None);
}

/// Yanking leaves the text as it is.
pub proof fn law_yanking_keeps_text<S: Fn(&str, Ask) -> Answer>(b: BufV, regs: Seq<RegV>, cmd: EditCmd, env: Env<S>)
    requires
        wf(b),
        cmd.verb matches Some(Cmd(_, v)) && v is Yank,
    ensures
        run_cmd(b, regs, cmd, env).buf.lines == b.lines,
{
    reveal(crate::linebuf::motion::after_motion);
    reveal(crate::linebuf::verb::plain);
    let c = begun(b, cmd, env);
    assert(c.lines == b.lines);
    assert(cmd_after(c, cmd, env.opts).lines == b.lines);
}

/// Swapping the ends of a selection twice leaves it as it was.
pub proof fn law_swapping_ends_twice(b: BufV)
    requires
        wf(b),
        b.select_mode matches Some(m) ==> clamped(
            b.lines,
            crate::linebuf::select::anchor_of(m),
            b.cursor.exclusive,
        ) == crate::linebuf::select::anchor_of(m),
        clamped(b.lines, b.cursor.pos, b.cursor.exclusive) == b.cursor.pos,
    ensures
        swapped(swapped(b)) == b,
        selection(swapped(b)) == selection(b),
{
    assert(swapped(swapped(b)) =~= b);
}

/// A kill put back at the place it was taken from makes the text what it was.
pub proof fn law_kill_put_back_restores(b: BufV, s: Pos, e: Pos)
    requires
        e.row < b.lines.len(),
        pos_le(s, e),
        s.col <= b.lines[s.row as int].len(),
        e.col <= b.lines[e.row as int].len(),
    ensures
        ({
            let m = MotionKind::Char { start: s, end: e, inclusive: false };
            kill_put_at(with_lines(b, uncovered(b.lines, m)), s, covered(b.lines, m)).lines
                == b.lines
        }),
{
    let m = MotionKind::Char { start: s, end: e, inclusive: false };
    law_extract_then_put_back(b.lines, s, e);
    let w = without(b.lines, s, e);
    assert(before(b.lines, s).len() == s.row + 1);
    assert(uncovered(b.lines, m) == w);
    assert(covered(b.lines, m) == taken(b.lines, s, e));
    assert(within(w, s) == s);
}

/// What an indented line loses when it is dedented is what it got.
pub proof fn law_dedent_undoes_indent(l: LineV)
    ensures
        shifted_line(shifted_line(l, true), false) == l,
{
    assert(shifted_line(shifted_line(l, true), false) =~= l);
}

/// A command that changes the text leaves nothing to redo.
pub proof fn law_new_edit_drops_redo(b: BufV, cmd: EditCmd, was: SnapshotV, opts: Opts)
    requires
        b.lines != was.lines,
        !undoes(cmd),
    ensures
        ended(b, cmd, was, opts).redo_stack == Seq::<crate::linebuf::edit::EditV>::empty(),
{
}

/// Text deleted from within a line or over several, put in again before the
/// cursor where it was taken from, makes the text what it was.
pub proof fn law_deleted_text_put_back(b: BufV, s: Pos, e: Pos)
    requires
        e.row < b.lines.len(),
        pos_le(s, e),
        s.col <= b.lines[s.row as int].len(),
        e.col <= b.lines[e.row as int].len(),
    ensures
        ({
            let m = MotionKind::Char { start: s, end: e, inclusive: false };
            let c = with_cursor(with_lines(b, uncovered(b.lines, m)), s);
            let content = content_of(covered(b.lines, m), m);
            content_pasted(c, content, None, Anchor::Before, Anchor::Before).lines == b.lines
        }),
{
    let m = MotionKind::Char { start: s, end: e, inclusive: false };
    law_extract_then_put_back(b.lines, s, e);
    let w = without(b.lines, s, e);
    assert(before(b.lines, s).len() == s.row + 1);
    assert(uncovered(b.lines, m) == w);
    assert(covered(b.lines, m) == taken(b.lines, s, e));
}

proof fn lemma_lines_pasted(b: BufV, row: int, new: LinesV, n: int)
    requires
        0 <= row <= b.lines.len(),
        0 <= n <= new.len(),
    ensures
        lines_pasted(b, row, new, n).lines == b.lines.take(row) + new.take(n) + b.lines.skip(row),
    decreases n,
{
    if n > 0 {
        lemma_lines_pasted(b, row, new, n - 1);
    }
    assert(lines_pasted(b, row, new, n).lines =~= b.lines.take(row) + new.take(n) + b.lines.skip(
        row,
    ));
}

/// Whole lines that were deleted, put in again above the line they stood
/// before, make the text what it was.
pub proof fn law_deleted_lines_put_back(b: BufV, s: usize, e: usize)
    requires
        s < e < b.lines.len(),
    ensures
        ({
            let m = MotionKind::Line { start: s, end: e, inclusive: false };
            let c = with_cursor(
                with_lines(b, uncovered(b.lines, m)),
                Pos { row: s, col: b.cursor.pos.col },
            );
            let content = content_of(covered(b.lines, m), m);
            content_pasted(c, content, None, Anchor::Before, Anchor::Before).lines == b.lines
        }),
{
    let m = MotionKind::Line { start: s, end: e, inclusive: false };
    let rest = b.lines.take(s as int) + b.lines.skip(e as int);
    let c = with_cursor(with_lines(b, rest), Pos { row: s, col: b.cursor.pos.col });
    let new = b.lines.subrange(s as int, e as int);
    assert(uncovered(b.lines, m) == rest);
    assert(covered(b.lines, m) == new);
    lemma_lines_pasted(c, s as int, new, new.len() as int);
    assert(rest.take(s as int) + new.take(new.len() as int) + rest.skip(s as int) =~= b.lines);
}

} // verus!
