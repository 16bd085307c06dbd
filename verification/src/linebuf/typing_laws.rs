//! What typing, breaking a line and killing make of the text.

use vstd::prelude::*;
use crate::editcmd::{Cmd, EditCmd, Motion, Verb};
use crate::linebuf::buffer::{wf, BufV};
use crate::linebuf::change::{broken, tabs, with_cluster};
use crate::linebuf::edit_laws::lemma_runs_plainly;
use crate::linebuf::killring::{is_nothing, MAX_KILL_RING};
use crate::linebuf::lines::{before, behind, LinesV};
use crate::linebuf::motion::{after_motion, cmd_cover, cover};
use crate::linebuf::pos::{MotionKind, Pos};
use crate::linebuf::verb::{begun, plain, run_cmd, run_verb};
use crate::linebuf::verb_laws::{col_behind, cut_out, lemma_stretch, stretch};
use crate::linebuf::verb_ops::{char_inserted, killed};
use crate::linebuf::word_laws::{earlier, indexable};
use crate::register::RegV;
use crate::shell::{answer, Answer, Ask, Env};

verus! {

/// The shell takes no line for the end of a block.
pub open spec fn closes_nothing<S: Fn(&str, Ask) -> Answer>(shell: S) -> bool {
    forall|s: Seq<char>| !(#[trigger] answer(shell, s, Ask::Closes)).closes
}

proof fn lemma_cluster_in<S: Fn(&str, Ask) -> Answer>(c: BufV, g: Seq<char>, shell: S)
    requires
        wf(c),
        c.cursor.pos.col <= c.lines[c.cursor.pos.row as int].len(),
        g != seq!['\n'],
        closes_nothing(shell),
    ensures
        ({
            let d = with_cluster(c, c.cursor.pos, g, shell);
            let row = c.cursor.pos.row as int;
            &&& d.lines == c.lines.update(row, c.lines[row].insert(c.cursor.pos.col as int, g))
            &&& d.cursor == c.cursor
            &&& d.hint == c.hint
            &&& d.select_mode == c.select_mode
        }),
{
    let row = c.cursor.pos.row as int;
    let l = c.lines[row];
    let col = c.cursor.pos.col as int;
    assert(l.take(col) + seq![g] + l.skip(col) =~= l.insert(col, g));
}

/// A character that is typed comes in before the cursor, and the cursor of a
/// motion to the right goes behind it. Nothing else changes.
#[verifier::rlimit(40)]
pub proof fn law_typed_character_comes_in_at_the_cursor<S: Fn(&str, Ask) -> Answer>(b: BufV, regs: Seq<RegV>, cmd: EditCmd, ch: char, env: Env<S>)
    requires
        wf(b),
        b.cursor.pos.col <= b.lines[b.cursor.pos.row as int].len() < isize::MAX,
        !b.cursor.exclusive,
        cmd.verb matches Some(Cmd(_, v)) && v == Verb::InsertChar(ch),
        cmd.motion == Some(Cmd(1usize, Motion::ForwardChar)),
        ch != '\n',
        closes_nothing(env.shell),
        !env.opts.expand_aliases,
    ensures
        ({
            let r = run_cmd(b, regs, cmd, env);
            let row = b.cursor.pos.row as int;
            let col = b.cursor.pos.col as int;
            &&& r.effect is Done
            &&& r.regs == regs
            &&& r.buf.lines == b.lines.update(row, b.lines[row].insert(col, seq![ch]))
            &&& r.buf.cursor.pos.row == row
            &&& r.buf.cursor.pos.col == col + 1
        }),
{
    reveal(plain);
    let c = begun(b, cmd, env);
    assert(c.lines == b.lines && c.cursor == b.cursor);
    let g = seq![ch];
    assert(g[0] == ch);
    assert(g != seq!['\n']) by {
        assert(seq!['\n'][0] == '\n');
    }
    lemma_typed(c, cmd, ch, env);
    let v = run_verb(c, regs, cmd, env);
    assert(v.buf == char_inserted(c, cmd, ch, env));
}

proof fn lemma_typed<S: Fn(&str, Ask) -> Answer>(c: BufV, cmd: EditCmd, ch: char, env: Env<S>)
    requires
        wf(c),
        c.cursor.pos.col <= c.lines[c.cursor.pos.row as int].len() < isize::MAX,
        !c.cursor.exclusive,
        cmd.motion == Some(Cmd(1usize, Motion::ForwardChar)),
        seq![ch] != seq!['\n'],
        closes_nothing(env.shell),
    ensures
        ({
            let d = char_inserted(c, cmd, ch, env);
            let row = c.cursor.pos.row as int;
            let col = c.cursor.pos.col as int;
            &&& d.lines == c.lines.update(row, c.lines[row].insert(col, seq![ch]))
            &&& d.cursor.pos == (Pos { row: c.cursor.pos.row, col: (col + 1) as usize })
            &&& d.cursor.exclusive == c.cursor.exclusive
        }),
{
    reveal(cover);
    reveal(after_motion);
    lemma_cluster_in(c, seq![ch], env.shell);
}

proof fn lemma_broken<S: Fn(&str, Ask) -> Answer>(c: BufV, shell: S)
    requires
        wf(c),
        c.cursor.pos.col <= c.lines[c.cursor.pos.row as int].len(),
        c.lines.len() < usize::MAX,
        closes_nothing(shell),
    ensures
        ({
            let d = with_cluster(c, c.cursor.pos, seq!['\n'], shell);
            let row = c.cursor.pos.row as int;
            let l = c.lines[row];
            let col = c.cursor.pos.col as int;
            let n = d.lines[row + 1].len() - (l.len() - col);
            &&& n >= 0
            &&& d.lines == c.lines.take(row) + seq![l.take(col), tabs(n) + l.skip(col)]
                + c.lines.skip(row + 1)
            &&& d.cursor.pos.row == row + 1
            &&& d.cursor.pos.col == n
            &&& d.cursor.exclusive == c.cursor.exclusive
        }),
{
    let p = c.cursor.pos;
    let row = p.row as int;
    let l = c.lines[row];
    let col = p.col as int;
    let two = before(c.lines, p) + behind(c.lines, p);
    assert(two =~= c.lines.take(row) + seq![l.take(col), l.skip(col)] + c.lines.skip(row + 1));
    let d = broken(c, p, true, shell);
    assert(d == with_cluster(c, p, seq!['\n'], shell));
    let n = d.lines[row + 1].len() - (l.len() - col);
    assert(d.lines =~= c.lines.take(row) + seq![l.take(col), tabs(n) + l.skip(col)] + c.lines.skip(
        row + 1,
    ));
}

/// A line that is broken at the cursor becomes two: what stood before the
/// cursor, and below it tabs and what stood behind. The cursor goes behind the
/// tabs, and all other lines stay.
#[verifier::rlimit(40)]
pub proof fn law_broken_line_becomes_two<S: Fn(&str, Ask) -> Answer>(b: BufV, regs: Seq<RegV>, cmd: EditCmd, env: Env<S>)
    requires
        wf(b),
        b.cursor.pos.col <= b.lines[b.cursor.pos.row as int].len(),
        b.lines.len() < usize::MAX,
        !b.cursor.exclusive,
        cmd.verb matches Some(Cmd(_, Verb::AcceptLineOrNewline)),
        closes_nothing(env.shell),
    ensures
        ({
            let r = run_cmd(b, regs, cmd, env);
            let row = b.cursor.pos.row as int;
            let l = b.lines[row];
            let col = b.cursor.pos.col as int;
            let n = r.buf.lines[row + 1].len() - (l.len() - col);
            &&& r.effect is Done
            &&& r.regs == regs
            &&& r.buf.lines.len() == b.lines.len() + 1
            &&& forall|i: int| 0 <= i < row ==> #[trigger] r.buf.lines[i] == b.lines[i]
            &&& forall|i: int|
                row < i < b.lines.len() ==> r.buf.lines[i + 1] == #[trigger] b.lines[i]
            &&& r.buf.lines[row] == l.take(col)
            &&& n >= 0
            &&& forall|j: int| 0 <= j < n ==> #[trigger] r.buf.lines[row + 1][j] == seq!['\t']
            &&& r.buf.lines[row + 1].skip(n) == l.skip(col)
            &&& r.buf.cursor.pos.row == row + 1
            &&& r.buf.cursor.pos.col == n
        }),
{
    reveal(plain);
    lemma_runs_plainly(b, regs, cmd, env);
    let c = begun(b, cmd, env);
    lemma_broken(c, env.shell);
    let p = plain(c, regs, cmd, cmd.verb.unwrap().1, env);
    assert(p.buf == with_cluster(c, c.cursor.pos, seq!['\n'], env.shell));
    let row = b.cursor.pos.row as int;
    let n = p.buf.lines[row + 1].len() - (b.lines[row].len() - b.cursor.pos.col);
    lemma_two_rows(b.lines, p.buf.lines, row, b.cursor.pos.col as int, n);
}

proof fn lemma_two_rows(ls: LinesV, new: LinesV, row: int, col: int, n: int)
    requires
        0 <= row < ls.len(),
        0 <= col <= ls[row].len(),
        n >= 0,
        new == ls.take(row) + seq![ls[row].take(col), tabs(n) + ls[row].skip(col)] + ls.skip(
            row + 1,
        ),
    ensures
        new.len() == ls.len() + 1,
        forall|i: int| 0 <= i < row ==> #[trigger] new[i] == ls[i],
        forall|i: int| row < i < ls.len() ==> new[i + 1] == #[trigger] ls[i],
        new[row] == ls[row].take(col),
        forall|j: int| 0 <= j < n ==> #[trigger] new[row + 1][j] == seq!['\t'],
        new[row + 1].skip(n) == ls[row].skip(col),
{
    assert(new[row + 1] == tabs(n) + ls[row].skip(col));
    assert(new[row + 1].skip(n) =~= ls[row].skip(col));
}

proof fn lemma_killed<S: Fn(&str, Ask) -> Answer>(c: BufV, cmd: EditCmd, s: Pos, e: Pos, start: Pos, end: Pos, inclusive: bool, env: Env<S>)
    requires
        wf(c),
        indexable(c.lines),
        cmd_cover(c, cmd, env.opts) == Some(MotionKind::Char { start, end, inclusive }),
        (start == s && end == e) || (start == e && end == s),
        e.row < c.lines.len(),
        !earlier(e, s),
        s.col <= c.lines[s.row as int].len(),
    ensures
        ({
            let f = col_behind(c.lines[e.row as int], e, inclusive);
            let d = killed(c, cmd, env.opts);
            let kill = stretch(c.lines, s.row as int, s.col as int, e.row as int, f);
            let was = c.kill_ring.kills;
            &&& d.lines == cut_out(c.lines, s.row as int, s.col as int, e.row as int, f)
            &&& c.kill_ring.merging && was.len() > 0 ==> d.kill_ring.kills == was.drop_last().push(
                was.last() + kill,
            )
            &&& !c.kill_ring.merging && !is_nothing(kill) && was.len() < MAX_KILL_RING
                ==> d.kill_ring.kills == was.push(kill)
            &&& !c.kill_ring.merging && !is_nothing(kill) && was.len() == MAX_KILL_RING
                ==> d.kill_ring.kills == was.skip(1).push(kill)
            &&& d.kill_ring.merging
        }),
{
    reveal(after_motion);
    lemma_stretch(c.lines, s, e, start, end, inclusive);
    let f = col_behind(c.lines[e.row as int], e, inclusive);
    let kill = stretch(c.lines, s.row as int, s.col as int, e.row as int, f);
    let was = c.kill_ring.kills;
    let d = killed(c, cmd, env.opts);
    if c.kill_ring.merging && was.len() > 0 {
        assert(d.kill_ring.kills =~= was.drop_last().push(was.last() + kill));
    }
    if !c.kill_ring.merging && was.len() == MAX_KILL_RING && !is_nothing(kill) {
        assert(was.push(kill).skip(1) =~= was.skip(1).push(kill));
    }
}

/// Killing a stretch takes it out of the text and keeps it as the latest kill;
/// a kill right behind another goes on with that one. The registers stay. A full
/// ring gives up its oldest kill.
#[verifier::rlimit(40)]
pub proof fn law_killed_stretch_is_kept<S: Fn(&str, Ask) -> Answer>(b: BufV, regs: Seq<RegV>, cmd: EditCmd, s: Pos, e: Pos, start: Pos, end: Pos, inclusive: bool, env: Env<S>)
    requires
        wf(b),
        indexable(b.lines),
        cmd.verb matches Some(Cmd(_, Verb::Kill)),
        cmd_cover(begun(b, cmd, env), cmd, env.opts) == Some(
            MotionKind::Char { start, end, inclusive },
        ),
        (start == s && end == e) || (start == e && end == s),
        e.row < b.lines.len(),
        !earlier(e, s),
        s.col <= b.lines[s.row as int].len(),
    ensures
        ({
            let r = run_cmd(b, regs, cmd, env);
            let f = col_behind(b.lines[e.row as int], e, inclusive);
            let kill = stretch(b.lines, s.row as int, s.col as int, e.row as int, f);
            let was = b.kill_ring.kills;
            &&& r.effect is Done
            &&& r.regs == regs
            &&& r.buf.lines == cut_out(b.lines, s.row as int, s.col as int, e.row as int, f)
            &&& b.kill_ring.merging && was.len() > 0 ==> r.buf.kill_ring.kills
                == was.drop_last().push(was.last() + kill)
            &&& !b.kill_ring.merging && !is_nothing(kill) && was.len() < MAX_KILL_RING
                ==> r.buf.kill_ring.kills == was.push(kill)
            &&& !b.kill_ring.merging && !is_nothing(kill) && was.len() == MAX_KILL_RING
                ==> r.buf.kill_ring.kills == was.skip(1).push(kill)
            &&& r.buf.kill_ring.merging
        }),
{
    reveal(plain);
    lemma_runs_plainly(b, regs, cmd, env);
    let c = begun(b, cmd, env);
    assert(c.kill_ring == b.kill_ring);
    lemma_killed(c, cmd, s, e, start, end, inclusive, env);
    let v = run_verb(c, regs, cmd, env);
    assert(v.buf == killed(c, cmd, env.opts));
}

} // verus!
