//! What the verbs make of the text, line by line and cluster by cluster.

use vstd::prelude::*;
use crate::editcmd::{types_char, types_separator, undoes, Anchor, Cmd, EditCmd, Motion, Verb};
use crate::linebuf::buffer::{clamped, wf, BufV};
use crate::linebuf::grapheme::sole_char;
use crate::linebuf::line::LineV;
use crate::linebuf::lines::LinesV;
use crate::linebuf::motion::{after_motion, cmd_after, cmd_cover, cover};
use crate::linebuf::pos::MotionKind;
use crate::linebuf::verb::{begun, plain, run_cmd};
use crate::linebuf::verb_ops::lines_pasted;
use crate::register::{held_by, RegV};
use crate::shell::{Answer, Ask, Env};

verus! {

/// A verb that runs by itself: it is no ex command, neither undoes nor does
/// again, and types nothing.
pub open spec fn runs_plainly(cmd: EditCmd) -> bool {
    &&& cmd.verb is Some
    &&& !(cmd.verb.unwrap().1 is ExCmd)
    &&& !undoes(cmd)
    &&& !types_char(cmd)
    &&& !types_separator(cmd)
}

/// What such a command makes of the text is what its verb makes of it, and a
/// blank line where nothing is left.
pub proof fn lemma_runs_plainly<S: Fn(&str, Ask) -> Answer>(b: BufV, regs: Seq<RegV>, cmd: EditCmd, env: Env<S>)
    requires
        runs_plainly(cmd),
    ensures
        ({
            let p = plain(begun(b, cmd, env), regs, cmd, cmd.verb.unwrap().1, env);
            let r = run_cmd(b, regs, cmd, env);
            &&& r.regs == p.regs
            &&& p.effect is Done ==> r.effect is Done
            &&& p.effect is Done && p.buf.lines.len() > 0 ==> r.buf.lines == p.buf.lines
            &&& p.effect is Done && p.buf.lines.len() == 0 ==> r.buf.lines == seq![LineV::empty()]
            &&& p.effect is Done && p.buf.lines.len() > 0 ==> r.buf.cursor.pos == clamped(
                p.buf.lines,
                p.buf.cursor.pos,
                p.buf.cursor.exclusive,
            )
            &&& p.effect is Done ==> r.buf.cursor.exclusive == p.buf.cursor.exclusive
            &&& p.effect is Done ==> r.buf.select_mode == p.buf.select_mode
        }),
        begun(b, cmd, env).lines == b.lines,
        begun(b, cmd, env).cursor == b.cursor,
        begun(b, cmd, env).select_mode == b.select_mode,
        begun(b, cmd, env).last_search == b.last_search,
        begun(b, cmd, env).hint == b.hint,
{
}

proof fn lemma_lines_put<S: Fn(&str, Ask) -> Answer>(b: BufV, row: int, new: LinesV, n: int, env: Env<S>)
    requires
        0 <= row <= b.lines.len(),
        0 <= n <= new.len(),
        b.lines.len() + new.len() <= usize::MAX,
    ensures
        ({
            let p = lines_pasted(b, row, new, n);
            &&& p.lines == b.lines.take(row) + new.take(n) + b.lines.skip(row)
            &&& n > 0 ==> p.cursor.pos.row == row + n - 1
            &&& p.cursor.exclusive == b.cursor.exclusive
        }),
    decreases n,
{
    if n > 0 {
        lemma_lines_put(b, row, new, n - 1, env);
    }
    assert(lines_pasted(b, row, new, n).lines =~= b.lines.take(row) + new.take(n) + b.lines.skip(
        row,
    ));
}

/// Whole lines put in after the cursor come directly below its line, put in
/// before it directly above: the rows on either side stay as they are, and the
/// cursor goes to the last of the new ones.
#[verifier::rlimit(40)]
pub proof fn law_lines_are_put_beside_the_cursor<S: Fn(&str, Ask) -> Answer>(b: BufV, regs: Seq<RegV>, cmd: EditCmd, new: LinesV, env: Env<S>)
    requires
        wf(b),
        b.select_mode is None,
        cmd.verb matches Some(Cmd(_, Verb::Put(_))),
        held_by(regs, cmd.register.letter()) == Some(RegV::Line(new)),
        new.len() > 0,
        b.lines.len() + new.len() <= usize::MAX,
    ensures
        ({
            let r = run_cmd(b, regs, cmd, env);
            let row = b.cursor.pos.row as int;
            &&& r.effect is Done
            &&& r.regs == regs
            &&& cmd.verb.unwrap().1->Put_0 == Anchor::After ==> {
                &&& r.buf.lines == b.lines.take(row + 1) + new + b.lines.skip(row + 1)
                &&& r.buf.cursor.pos.row == row + new.len()
            }
            &&& cmd.verb.unwrap().1->Put_0 == Anchor::Before ==> {
                &&& r.buf.lines == b.lines.take(row) + new + b.lines.skip(row)
                &&& r.buf.cursor.pos.row == row + new.len() - 1
            }
        }),
{
    reveal(plain);
    lemma_runs_plainly(b, regs, cmd, env);
    let c = begun(b, cmd, env);
    let row = b.cursor.pos.row as int;
    lemma_lines_put(c, row, new, new.len() as int, env);
    lemma_lines_put(c, row + 1, new, new.len() as int, env);
    assert(new.take(new.len() as int) =~= new);
}

/// The rows from the cursor's on that a count of lines takes.
proof fn lemma_whole_lines<S: Fn(&str, Ask) -> Answer>(b: BufV, cmd: EditCmd, env: Env<S>)
    requires
        wf(b),
        b.lines.len() <= usize::MAX,
        cmd.motion matches Some(Cmd(_, Motion::WholeLine)),
    ensures
        ({
            let n = cmd.motion.unwrap().0;
            let last = b.cursor.pos.row + if n == 0 {
                0
            } else {
                n - 1
            };
            let k = cmd_cover(b, cmd, env.opts);
            &&& k matches Some(MotionKind::Line { start, end, inclusive }) && start
                == b.cursor.pos.row && inclusive && end == if last < b.lines.len() {
                last
            } else {
                b.lines.len() - 1
            }
        }),
        cmd_after(b, cmd, env.opts).lines == b.lines,
        cmd_after(b, cmd, env.opts).cursor == b.cursor,
        cmd_after(b, cmd, env.opts).select_mode == b.select_mode,
        cmd_after(b, cmd, env.opts).saved_col == b.saved_col,
{
    reveal(cover);
    reveal(after_motion);
}

/// Lines that are copied and put in again below are doubled: the copy of the
/// cursor's line and those that a count takes with it follows that line, and
/// everything else stays as it is.
#[verifier::rlimit(40)]
pub proof fn law_copied_lines_are_doubled<S: Fn(&str, Ask) -> Answer>(b: BufV, regs: Seq<RegV>, yank: EditCmd, put: EditCmd, env: Env<S>)
    requires
        wf(b),
        b.select_mode is None,
        2 * b.lines.len() <= usize::MAX,
        yank.verb matches Some(Cmd(_, Verb::Yank)),
        yank.motion matches Some(Cmd(n, Motion::WholeLine)) && n > 0,
        !yank.register.appends(),
        put.verb matches Some(Cmd(_, Verb::Put(Anchor::After))),
        put.register.letter() == yank.register.letter(),
        held_by(regs, yank.register.letter()) is Some,
    ensures
        ({
            let y = run_cmd(b, regs, yank, env);
            let p = run_cmd(y.buf, y.regs, put, env);
            let row = b.cursor.pos.row as int;
            let n = yank.motion.unwrap().0 as int;
            let end = if row + n <= b.lines.len() {
                row + n
            } else {
                b.lines.len() as int
            };
            &&& y.buf.lines == b.lines
            &&& p.buf.lines == b.lines.take(row + 1) + b.lines.subrange(row, end) + b.lines.skip(
                row + 1,
            )
            &&& p.buf.cursor.pos.row == row + (end - row)
        }),
{
    reveal(plain);
    lemma_runs_plainly(b, regs, yank, env);
    let c = begun(b, yank, env);
    lemma_whole_lines(c, yank, env);
    let y = run_cmd(b, regs, yank, env);
    let row = b.cursor.pos.row as int;
    let n = yank.motion.unwrap().0 as int;
    let end = if row + n <= b.lines.len() {
        row + n
    } else {
        b.lines.len() as int
    };
    let new = b.lines.subrange(row, end);
    assert(y.buf.lines == b.lines);
    assert(y.buf.cursor.pos.row == row);
    assert(held_by(y.regs, yank.register.letter()) == Some(RegV::Line(new)));
    law_lines_are_put_beside_the_cursor(y.buf, y.regs, put, new, env);
}

/// Deleting whole lines takes the cursor's line and those that a count takes
/// with it, no others, and keeps them in the register.
#[verifier::rlimit(40)]
pub proof fn law_whole_lines_are_deleted<S: Fn(&str, Ask) -> Answer>(b: BufV, regs: Seq<RegV>, cmd: EditCmd, env: Env<S>)
    requires
        wf(b),
        b.lines.len() <= usize::MAX,
        cmd.verb matches Some(Cmd(_, Verb::Delete)),
        cmd.motion matches Some(Cmd(n, Motion::WholeLine)) && n > 0,
        !cmd.register.appends(),
        held_by(regs, cmd.register.letter()) is Some,
    ensures
        ({
            let r = run_cmd(b, regs, cmd, env);
            let row = b.cursor.pos.row as int;
            let n = cmd.motion.unwrap().0 as int;
            let end = if row + n <= b.lines.len() {
                row + n
            } else {
                b.lines.len() as int
            };
            let rest = b.lines.take(row) + b.lines.skip(end);
            &&& r.effect is Done
            &&& r.buf.lines == if rest.len() > 0 {
                rest
            } else {
                seq![LineV::empty()]
            }
            &&& held_by(r.regs, cmd.register.letter()) == Some(
                RegV::Line(b.lines.subrange(row, end)),
            )
            &&& row < rest.len() ==> r.buf.cursor.pos.row == row
            &&& r.buf.select_mode == b.select_mode
        }),
{
    reveal(plain);
    lemma_runs_plainly(b, regs, cmd, env);
    lemma_whole_lines(begun(b, cmd, env), cmd, env);
}

proof fn lemma_lines_put_back<S: Fn(&str, Ask) -> Answer>(x: BufV, regs: Seq<RegV>, put: EditCmd, ls: LinesV, row: int, end: int, env: Env<S>)
    requires
        0 <= row < end < ls.len() <= usize::MAX,
        x.lines == ls.take(row) + ls.skip(end),
        x.cursor.pos.row == row,
        x.select_mode is None,
        put.verb matches Some(Cmd(_, Verb::Put(Anchor::Before))),
        held_by(regs, put.register.letter()) == Some(RegV::Line(ls.subrange(row, end))),
    ensures
        run_cmd(x, regs, put, env).buf.lines == ls,
{
    let new = ls.subrange(row, end);
    law_lines_are_put_beside_the_cursor(x, regs, put, new, env);
    assert(x.lines.take(row) + new + x.lines.skip(row) =~= ls);
}

/// Lines that were deleted and are put in again above come back where they
/// were, as long as a line stands below them.
#[verifier::rlimit(40)]
pub proof fn law_deleted_lines_come_back<S: Fn(&str, Ask) -> Answer>(b: BufV, regs: Seq<RegV>, delete: EditCmd, put: EditCmd, env: Env<S>)
    requires
        wf(b),
        b.select_mode is None,
        b.lines.len() <= usize::MAX,
        delete.verb matches Some(Cmd(_, Verb::Delete)),
        delete.motion matches Some(Cmd(n, Motion::WholeLine)) && 0 < n && b.cursor.pos.row + n
            < b.lines.len(),
        !delete.register.appends(),
        put.verb matches Some(Cmd(_, Verb::Put(Anchor::Before))),
        put.register.letter() == delete.register.letter(),
        held_by(regs, delete.register.letter()) is Some,
    ensures
        ({
            let d = run_cmd(b, regs, delete, env);
            run_cmd(d.buf, d.regs, put, env).buf.lines == b.lines
        }),
{
    law_whole_lines_are_deleted(b, regs, delete, env);
    let d = run_cmd(b, regs, delete, env);
    let row = b.cursor.pos.row as int;
    let end = row + delete.motion.unwrap().0 as int;
    assert((b.lines.take(row) + b.lines.skip(end)).len() > row);
    lemma_lines_put_back(d.buf, d.regs, put, b.lines, row, end, env);
}

/// A verb on a motion down or up takes the cursor's line, the line it leads to
/// and every line between.
proof fn lemma_vertical_lines<S: Fn(&str, Ask) -> Answer>(b: BufV, cmd: EditCmd, env: Env<S>)
    requires
        wf(b),
        b.lines.len() <= usize::MAX,
        cmd.verb is Some,
        cmd.motion matches Some(Cmd(n, m)) && (m is LineDown || m is LineUp) && n <= isize::MAX,
    ensures
        ({
            let row = b.cursor.pos.row as int;
            let n = cmd.motion.unwrap().0 as int;
            let (s, e) = if cmd.motion.unwrap().1 is LineDown {
                (
                    row,
                    if row + n < b.lines.len() {
                        row + n
                    } else {
                        b.lines.len() - 1
                    },
                )
            } else {
                (
                    if row >= n {
                        row - n
                    } else {
                        0
                    },
                    row,
                )
            };
            cmd_cover(b, cmd, env.opts) == Some(
                MotionKind::Line { start: s as usize, end: e as usize, inclusive: true },
            )
        }),
        cmd_after(b, cmd, env.opts).lines == b.lines,
        cmd_after(b, cmd, env.opts).cursor == b.cursor,
        cmd_after(b, cmd, env.opts).select_mode == b.select_mode,
{
    reveal(cover);
    reveal(after_motion);
}

/// The rows that a motion touches, from the first to the last.
pub open spec fn touches(k: MotionKind, i: int) -> bool {
    match k {
        MotionKind::Line { start, end, .. } => start <= i <= end || end <= i <= start,
        MotionKind::Char { start, end, .. } => start.row <= i <= end.row || end.row <= i
            <= start.row,
        MotionKind::Block { .. } => false,
    }
}

/// Indenting puts a tab before every line that the motion touches, the first
/// and the last included, and leaves all others alone. Dedenting takes a tab
/// off each of them that begins with one.
#[verifier::rlimit(40)]
pub proof fn law_every_touched_line_is_indented<S: Fn(&str, Ask) -> Answer>(b: BufV, regs: Seq<RegV>, cmd: EditCmd, k: MotionKind, env: Env<S>)
    requires
        wf(b),
        cmd.verb matches Some(Cmd(_, v)) && (v is Indent || v is Dedent),
        cmd_cover(begun(b, cmd, env), cmd, env.opts) == Some(k),
    ensures
        ({
            let r = run_cmd(b, regs, cmd, env);
            &&& r.effect is Done
            &&& r.regs == regs
            &&& r.buf.lines.len() == b.lines.len()
            &&& forall|i: int|
                0 <= i < b.lines.len() && !touches(k, i) ==> #[trigger] r.buf.lines[i] == b.lines[i]
            &&& forall|i: int|
                0 <= i < b.lines.len() && touches(k, i) && cmd.verb.unwrap().1 is Indent
                    ==> #[trigger] r.buf.lines[i] == seq![seq!['\t']] + b.lines[i]
            &&& forall|i: int|
                0 <= i < b.lines.len() && touches(k, i) && cmd.verb.unwrap().1 is Dedent
                    && b.lines[i].len() > 0 && sole_char(b.lines[i][0]) == Some('\t')
                    ==> #[trigger] r.buf.lines[i] == b.lines[i].skip(1)
            &&& forall|i: int|
                0 <= i < b.lines.len() && touches(k, i) && cmd.verb.unwrap().1 is Dedent && !(
                b.lines[i].len() > 0 && sole_char(b.lines[i][0]) == Some('\t'))
                    ==> #[trigger] r.buf.lines[i] == b.lines[i]
        }),
{
    reveal(plain);
    reveal(after_motion);
    lemma_runs_plainly(b, regs, cmd, env);
    let c = begun(b, cmd, env);
    assert(cmd_after(c, cmd, env.opts).lines == b.lines);
}

/// Indenting over a motion down puts a tab before the cursor's line and each of
/// the lines below that the count reaches, and leaves all others alone.
#[verifier::rlimit(40)]
pub proof fn law_lines_down_to_the_last_are_indented<S: Fn(&str, Ask) -> Answer>(b: BufV, regs: Seq<RegV>, cmd: EditCmd, env: Env<S>)
    requires
        wf(b),
        b.lines.len() <= usize::MAX,
        cmd.verb matches Some(Cmd(_, Verb::Indent)),
        cmd.motion matches Some(Cmd(n, Motion::LineDown)) && n <= isize::MAX,
    ensures
        ({
            let r = run_cmd(b, regs, cmd, env).buf.lines;
            let row = b.cursor.pos.row as int;
            let n = cmd.motion.unwrap().0 as int;
            &&& r.len() == b.lines.len()
            &&& forall|i: int|
                0 <= i < b.lines.len() ==> #[trigger] r[i] == if row <= i <= row + n {
                    seq![seq!['\t']] + b.lines[i]
                } else {
                    b.lines[i]
                }
        }),
{
    let c = begun(b, cmd, env);
    lemma_runs_plainly(b, regs, cmd, env);
    lemma_vertical_lines(c, cmd, env);
    let k = cmd_cover(c, cmd, env.opts)->0;
    law_every_touched_line_is_indented(b, regs, cmd, k, env);
    let r = run_cmd(b, regs, cmd, env).buf.lines;
    let row = b.cursor.pos.row as int;
    let n = cmd.motion.unwrap().0 as int;
    assert forall|i: int| 0 <= i < b.lines.len() implies #[trigger] r[i] == if row <= i <= row + n {
        seq![seq!['\t']] + b.lines[i]
    } else {
        b.lines[i]
    } by {
        assert(touches(k, i) == (row <= i <= row + n));
    }
}

} // verus!
