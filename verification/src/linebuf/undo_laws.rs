//! Undo and redo across commands.

use vstd::prelude::*;
use crate::editcmd::{
    range_motion, types_char, undoes, Anchor, Cmd, EditCmd, ExNdRule, ExNode, Verb,
};
use crate::linebuf::address::{rows_matching, whole_or};
use crate::linebuf::buffer::{clamped, moved, wf, with_lines, BufV};
use crate::linebuf::change::{equalized, typed, with_cluster};
use crate::linebuf::effect::{EffectV, ShellJobV, SnapshotV};
use crate::linebuf::excmd::{expansion_put, merged, node_cmd, shell_ended, ShellReplyV};
use crate::linebuf::lines::{or_blank, LinesV};
use crate::linebuf::motion::{after_motion, cmd_after};
use crate::linebuf::notices::{matching_flaws, noted};
use crate::linebuf::places::col_off;
use crate::linebuf::pos::{MotionKind, Pos};
use crate::linebuf::recase::{recased_here, Recase};
use crate::linebuf::stash::{inserted, put_aside, restored};
use crate::linebuf::undo::{last_marked, recorded, without_idle};
use crate::linebuf::verb::{
    begun, ended, hint_moved, node_of, plain, run_again, run_cmd, run_node, run_rows, run_verb, snap,
    Ran, MAX_REPEATS,
};
use crate::linebuf::verb_ops::{
    capitalized, char_inserted, char_transposed, cmd_equalized, cmd_indented, dcy_buf, joined_line,
    joined_rows, kill_cycled, kill_pasted, killed, line_opened, lines_joined, lines_pasted, number_moved, put_buf,
    range_recased, selection_delete, word_transposed,
};
use crate::register::RegV;
use crate::shell::{Answer, Ask, Env, Opts};
use crate::text::clusters;

verus! {

/// Two buffers agree on whether edits are merged, and on whether the cursor
/// may stand behind the last cluster of a line.
pub open spec fn alike(a: BufV, b: BufV) -> bool {
    a.merging_undos == b.merging_undos && a.cursor.exclusive == b.cursor.exclusive
}

proof fn lemma_typed_alike<S: Fn(&str, Ask) -> Answer>(b: BufV, cs: Seq<Seq<char>>, n: int, shell: S)
    ensures
        alike(typed(b, cs, n, shell), b),
    decreases n,
{
    if n > 0 {
        lemma_typed_alike(b, cs, n - 1, shell);
    }
}

proof fn lemma_equalized_alike<S: Fn(&str, Ask) -> Answer>(b: BufV, rows: Seq<usize>, n: int, shell: S)
    ensures
        alike(equalized(b, rows, n, shell), b),
    decreases n,
{
    if n > 0 {
        lemma_equalized_alike(b, rows, n - 1, shell);
    }
}

proof fn lemma_recased_alike(k: Recase, b: BufV, n: int)
    ensures
        alike(recased_here(k, b, n), b),
    decreases n,
{
    if n > 1 {
        lemma_recased_alike(k, b, n - 1);
    }
}

proof fn lemma_joined_alike(b: BufV, row: usize, n: int)
    ensures
        alike(joined_rows(b, row, n), b),
    decreases n,
{
    if n > 0 && row + 1 < b.lines.len() {
        let at = Pos { row, col: col_off(b, row, isize::MAX as int) };
        let lines = b.lines.remove(row + 1).update(
            row as int,
            joined_line(b.lines[row as int], b.lines[row + 1]),
        );
        lemma_joined_alike(moved(with_lines(b, lines), at), row, n - 1);
    }
}

proof fn lemma_pasted_alike(b: BufV, row: int, new: LinesV, n: int)
    ensures
        alike(lines_pasted(b, row, new, n), b),
    decreases n,
{
    if n > 0 {
        lemma_pasted_alike(b, row, new, n - 1);
    }
}

proof fn lemma_begun_alike<S: Fn(&str, Ask) -> Answer>(b: BufV, cmd: EditCmd, env: Env<S>)
    ensures
        alike(begun(b, cmd, env), b),
{
    assert forall|c: BufV, cs: Seq<Seq<char>>, n: int| alike(
        #[trigger] typed(c, cs, n, env.shell),
        c,
    ) by {
        lemma_typed_alike(c, cs, n, env.shell);
    }
}

proof fn lemma_ended_alike(b: BufV, cmd: EditCmd, was: SnapshotV, opts: Opts)
    ensures
        alike(ended(b, cmd, was, opts), b),
{
}

proof fn lemma_after_alike(b: BufV, cmd: EditCmd, opts: Opts)
    ensures
        alike(cmd_after(b, cmd, opts), b),
{
    reveal(after_motion);
}

proof fn lemma_hint_moved_alike<S: Fn(&str, Ask) -> Answer>(b: BufV, cmd: EditCmd, env: Env<S>)
    ensures
        alike(hint_moved(b, cmd, env), b),
{
    reveal(after_motion);
    assert forall|c: BufV, cs: Seq<Seq<char>>, n: int| alike(
        #[trigger] typed(c, cs, n, env.shell),
        c,
    ) by {
        lemma_typed_alike(c, cs, n, env.shell);
    }
}

proof fn lemma_dcy_alike<S: Fn(&str, Ask) -> Answer>(b: BufV, cmd: EditCmd, env: Env<S>)
    ensures
        alike(dcy_buf(b, cmd, env), b),
{
    lemma_after_alike(b, cmd, env.opts);
    assert forall|c: BufV, cs: Seq<Seq<char>>, n: int| alike(
        #[trigger] typed(c, cs, n, env.shell),
        c,
    ) by {
        lemma_typed_alike(c, cs, n, env.shell);
    }
    assert forall|c: BufV, rows: Seq<usize>, n: int| alike(
        #[trigger] equalized(c, rows, n, env.shell),
        c,
    ) by {
        lemma_equalized_alike(c, rows, n, env.shell);
    }
}

proof fn lemma_killed_alike(b: BufV, cmd: EditCmd, opts: Opts)
    ensures
        alike(killed(b, cmd, opts), b),
{
    lemma_after_alike(b, cmd, opts);
}

proof fn lemma_ring_alike(b: BufV)
    ensures
        alike(kill_cycled(b), b),
        alike(kill_pasted(b), b),
{
}

proof fn lemma_range_alike(b: BufV, cmd: EditCmd, k: Recase, opts: Opts)
    ensures
        alike(range_recased(b, cmd, k, opts), b),
{
    lemma_after_alike(b, cmd, opts);
}

proof fn lemma_capitalized_alike(b: BufV, cmd: EditCmd, opts: Opts)
    ensures
        alike(capitalized(b, cmd, opts), b),
{
    lemma_after_alike(b, cmd, opts);
}

proof fn lemma_put_alike<S: Fn(&str, Ask) -> Answer>(b: BufV, regs: Seq<RegV>, cmd: EditCmd, anchor: Anchor, env: Env<S>)
    ensures
        alike(put_buf(b, regs, cmd, anchor, env), b),
{
    lemma_dcy_alike(b, selection_delete(b, cmd), env);
    assert forall|c: BufV, row: int, new: LinesV, n: int| alike(
        #[trigger] lines_pasted(c, row, new, n),
        c,
    ) by {
        lemma_pasted_alike(c, row, new, n);
    }
}

proof fn lemma_lines_joined_alike(b: BufV, cmd: EditCmd, n: usize, opts: Opts)
    ensures
        alike(lines_joined(b, cmd, n, opts), b),
{
    lemma_after_alike(b, cmd, opts);
    assert forall|c: BufV, row: usize, n: int| alike(
        #[trigger] joined_rows(c, row, n),
        c,
    ) by {
        lemma_joined_alike(c, row, n);
    }
}

proof fn lemma_char_alike<S: Fn(&str, Ask) -> Answer>(b: BufV, cmd: EditCmd, c: char, env: Env<S>)
    ensures
        alike(char_inserted(b, cmd, c, env), b),
{
    let d = with_cluster(b, b.cursor.pos, seq![c], env.shell);
    lemma_after_alike(d, cmd, env.opts);
}

proof fn lemma_opened_alike<S: Fn(&str, Ask) -> Answer>(b: BufV, a: Anchor, env: Env<S>)
    ensures
        alike(line_opened(b, a, env.shell), b),
{
}

proof fn lemma_indented_alike(b: BufV, cmd: EditCmd, up: bool, opts: Opts)
    ensures
        alike(cmd_indented(b, cmd, up, opts), b),
{
    lemma_after_alike(b, cmd, opts);
}

proof fn lemma_levelled_alike<S: Fn(&str, Ask) -> Answer>(b: BufV, cmd: EditCmd, env: Env<S>)
    ensures
        alike(cmd_equalized(b, cmd, env), b),
{
    lemma_after_alike(b, cmd, env.opts);
    assert forall|c: BufV, rows: Seq<usize>, n: int| alike(
        #[trigger] equalized(c, rows, n, env.shell),
        c,
    ) by {
        lemma_equalized_alike(c, rows, n, env.shell);
    }
}

proof fn lemma_number_alike<S: Fn(&str, Ask) -> Answer>(b: BufV, n: int, env: Env<S>)
    ensures
        alike(number_moved(b, n, env.shell), b),
{
    assert forall|c: BufV, cs: Seq<Seq<char>>, n: int| alike(
        #[trigger] typed(c, cs, n, env.shell),
        c,
    ) by {
        lemma_typed_alike(c, cs, n, env.shell);
    }
}

proof fn lemma_transposed_alike<S: Fn(&str, Ask) -> Answer>(b: BufV, env: Env<S>)
    ensures
        alike(char_transposed(b, env.shell), b),
        alike(word_transposed(b), b),
{
}

#[verifier::rlimit(40)]
#[verifier::spinoff_prover]
proof fn lemma_plain_alike<S: Fn(&str, Ask) -> Answer>(b: BufV, regs: Seq<RegV>, cmd: EditCmd, verb: Verb, env: Env<S>)
    ensures
        alike(plain(b, regs, cmd, verb, env).buf, b),
{
    reveal(plain);
    let o = env.opts;
    lemma_hint_moved_alike(b, cmd, env);
    lemma_after_alike(b, cmd, o);
    match verb {
        Verb::Delete => lemma_dcy_alike(b, cmd, env),
        Verb::Change => lemma_dcy_alike(b, cmd, env),
        Verb::Yank => lemma_dcy_alike(b, cmd, env),
        Verb::Kill => lemma_killed_alike(b, cmd, o),
        Verb::KillCycle => lemma_ring_alike(b),
        Verb::KillPut => lemma_ring_alike(b),
        Verb::Rot13 => lemma_range_alike(b, cmd, Recase::Rot13, o),
        Verb::ReplaceChar(c) => lemma_range_alike(b, cmd, Recase::Replace(c), o),
        Verb::ReplaceCharInplace(c, n) => {
            lemma_recased_alike(Recase::Replace(c), b, n as int);
            lemma_hint_moved_alike(recased_here(Recase::Replace(c), b, n as int), cmd, env);
        },
        Verb::ToggleCaseRange => lemma_range_alike(b, cmd, Recase::Toggle, o),
        Verb::ToggleCaseInplace(n) => lemma_recased_alike(Recase::Toggle, b, n as int),
        Verb::ToLower => lemma_range_alike(b, cmd, Recase::Lower, o),
        Verb::ToUpper => lemma_range_alike(b, cmd, Recase::Upper, o),
        Verb::Capitalize => lemma_capitalized_alike(b, cmd, o),
        Verb::Put(anchor) => lemma_put_alike(b, regs, cmd, anchor, env),
        Verb::JoinLines => {
            let n = match cmd.motion {
                Some(Cmd(n, _)) => n,
                None => 1,
            };
            lemma_lines_joined_alike(b, cmd, n, o);
        },
        Verb::InsertChar(c) => lemma_char_alike(b, cmd, c, env),
        Verb::Insert(s) => lemma_typed_alike(
            b,
            clusters(s@),
            clusters(s@).len() as int,
            env.shell,
        ),
        Verb::InsertModeLineBreak(a) => lemma_opened_alike(b, a, env),
        Verb::Indent => lemma_indented_alike(b, cmd, true, o),
        Verb::Dedent => lemma_indented_alike(b, cmd, false, o),
        Verb::Equalize => lemma_levelled_alike(b, cmd, env),
        Verb::IncrementNumber(n) => lemma_number_alike(b, n as int, env),
        Verb::DecrementNumber(n) => lemma_number_alike(b, -(n as int), env),
        Verb::TransposeChar => lemma_transposed_alike(b, env),
        Verb::TransposeWord => lemma_transposed_alike(b, env),
        _ => {},
    }
}

proof fn lemma_rows_alike<S: Fn(&str, Ask) -> Answer>(b: BufV, regs: Seq<RegV>, cmd: EditCmd, nested: ExNode, rows: Seq<usize>, n: int, env: Env<S>, fuel: nat)
    ensures
        alike(run_rows(b, regs, cmd, nested, rows, n, env, fuel).buf, b),
    decreases fuel, nested, n + 2,
{
    if n > 0 {
        let c = moved(b, Pos { row: rows[n - 1], col: 0 });
        let sub = node_cmd(cmd, nested);
        lemma_node_alike(c, regs, sub, nested, env, fuel);
        let r = run_node(c, regs, sub, nested, env, fuel);
        lemma_rows_alike(r.buf, r.regs, cmd, nested, rows, n - 1, env, fuel);
    }
}

proof fn lemma_node_alike<S: Fn(&str, Ask) -> Answer>(b: BufV, regs: Seq<RegV>, cmd: EditCmd, node: ExNode, env: Env<S>, fuel: nat)
    ensures
        alike(run_node(b, regs, cmd, node, env, fuel).buf, b),
    decreases fuel, node, 1int,
{
    reveal(after_motion);
    assert forall|c: EditCmd, v: Verb| alike(
        #[trigger] plain(b, regs, c, v, env).buf,
        b,
    ) by {
        lemma_plain_alike(b, regs, c, v, env);
    }
    match node.kind {
        ExNdRule::Global { pat, nested } => {
            let within = range_motion(whole_or(node.address));
            let rows = rows_matching(b, within, pat@, node.bang);
            let c = noted(b, matching_flaws(b, within, pat@));
            lemma_rows_alike(c, regs, cmd, *nested, rows, rows.len() as int, env, fuel);
        },
        ExNdRule::RepeatSubstitute => {
            lemma_again_alike(b, regs, cmd, b.last_substitute, env, fuel, node);
        },
        ExNdRule::RepeatGlobal => {
            lemma_again_alike(b, regs, cmd, b.last_global, env, fuel, node);
        },
        _ => {},
    }
}

proof fn lemma_again_alike<S: Fn(&str, Ask) -> Answer>(b: BufV, regs: Seq<RegV>, cmd: EditCmd, saved: Option<EditCmd>, env: Env<S>, fuel: nat, node: ExNode)
    ensures
        alike(run_again(b, regs, cmd, saved, env, fuel, node).buf, b),
    decreases fuel, node, 0int,
{
    if let Some(s) = saved {
        if let Some(again) = merged(cmd, s) {
            if fuel > 0 {
                let c = begun(b, again, env);
                let inner = node_of(again);
                lemma_begun_alike(b, again, env);
                lemma_node_alike(c, regs, again, inner, env, (fuel - 1) as nat);
                let r = run_node(c, regs, again, inner, env, (fuel - 1) as nat);
                lemma_ended_alike(r.buf, again, snap(b), env.opts);
            }
        }
    }
}

/// No command switches the merging of edits on or off, nor changes how far the
/// cursor may go.
pub proof fn law_commands_keep_merging<S: Fn(&str, Ask) -> Answer>(b: BufV, regs: Seq<RegV>, cmd: EditCmd, env: Env<S>)
    ensures
        alike(run_cmd(b, regs, cmd, env).buf, b),
{
    lemma_verb_alike(begun(b, cmd, env), regs, cmd, env);
    lemma_begun_alike(b, cmd, env);
    let r = run_verb(begun(b, cmd, env), regs, cmd, env);
    lemma_ended_alike(r.buf, cmd, snap(b), env.opts);
}

/// Nor does what is done outside before a command ends: a shell command, a text
/// expanded, or a buffer put aside and taken back.
pub proof fn law_outside_work_keeps_merging<S: Fn(&str, Ask) -> Answer>(
    b: BufV,
    job: ShellJobV,
    reply: ShellReplyV,
    text: Seq<char>,
    cursor: Seq<char>,
    m: MotionKind,
    env: Env<S>,
)
    ensures
        alike(shell_ended(b, job, reply, env.opts), b),
        alike(expansion_put(b, m, text), b),
        alike(put_aside(b, env.opts), b),
        alike(restored(b, text, cursor, env.opts), b),
        alike(inserted(b, text, cursor, env), b),
{
    assert forall|c: BufV, rows: Seq<usize>, n: int| alike(
        #[trigger] equalized(c, rows, n, env.shell),
        c,
    ) by {
        lemma_equalized_alike(c, rows, n, env.shell);
    }
}

proof fn lemma_verb_alike<S: Fn(&str, Ask) -> Answer>(b: BufV, regs: Seq<RegV>, cmd: EditCmd, env: Env<S>)
    ensures
        alike(run_verb(b, regs, cmd, env).buf, b),
{
    match cmd.verb {
        Some(Cmd(_, Verb::ExCmd(node))) => {
            lemma_node_alike(b, regs, cmd, node, env, MAX_REPEATS as nat);
        },
        Some(Cmd(_, verb)) => {
            lemma_plain_alike(b, regs, cmd, verb, env);
        },
        None => {
            lemma_hint_moved_alike(b, cmd, env);
        },
    }
}

/// A command that undoes.
pub open spec fn is_undo(cmd: EditCmd) -> bool {
    cmd.verb matches Some(Cmd(_, Verb::Undo))
}

/// A command that does again what was undone.
pub open spec fn is_redo(cmd: EditCmd) -> bool {
    cmd.verb matches Some(Cmd(_, Verb::Redo))
}

/// The last edit leads from `from`, the cursor at `at`, to what the buffer
/// holds.
spec fn last_edit(b: BufV, from: LinesV, at: Pos) -> bool {
    &&& b.undo_stack.len() > 0
    &&& b.undo_stack.last().old == from
    &&& b.undo_stack.last().old_cursor == at
    &&& b.undo_stack.last().new != from
    &&& or_blank(b.undo_stack.last().new) == b.lines
}

proof fn lemma_ended_records(x: BufV, cmd: EditCmd, was: SnapshotV, opts: Opts)
    requires
        !undoes(cmd),
        !types_char(cmd),
        !x.merging_undos,
        was.lines.len() > 0,
        ended(x, cmd, was, opts).lines != was.lines,
    ensures
        ended(x, cmd, was, opts).lines == or_blank(x.lines),
        last_edit(ended(x, cmd, was, opts), was.lines, was.cursor),
{
    assert(x.lines != was.lines);
    let stack = last_marked(x.undo_stack, false);
    let t = recorded(stack, was.lines, x.lines, was.cursor, x.cursor.pos);
    assert(t.last().old == was.lines);
    assert(t.last().new == x.lines);
}

proof fn lemma_undo_then_redo<S: Fn(&str, Ask) -> Answer>(b: BufV, was: SnapshotV, regs: Seq<RegV>, undo: EditCmd, redo: EditCmd, env: Env<S>)
    requires
        last_edit(b, was.lines, was.cursor),
        was.lines.len() > 0,
        is_undo(undo),
        is_redo(redo),
    ensures
        ({
            let u = run_cmd(b, regs, undo, env);
            let r = run_cmd(u.buf, u.regs, redo, env);
            &&& u.effect is Done
            &&& u.regs == regs
            &&& u.buf.lines == was.lines
            &&& u.buf.cursor.pos == clamped(was.lines, was.cursor, b.cursor.exclusive)
            &&& r.effect is Done
            &&& r.regs == regs
            &&& r.buf.lines == b.lines
        }),
{
    reveal(plain);
    let c = begun(b, undo, env);
    assert(c.undo_stack == b.undo_stack);
    assert(without_idle(c.undo_stack) == c.undo_stack);
    let e = b.undo_stack.last();
    let u = run_cmd(b, regs, undo, env).buf;
    assert(u.redo_stack == b.redo_stack.push(e));
    let d = begun(u, redo, env);
    assert(d.redo_stack == u.redo_stack);
    assert(d.redo_stack.last() == e);
}

/// A command that changed the text, whatever had to be done outside before it
/// could end, is undone as a whole and done again as a whole: a command to undo
/// gives the text and the cursor from before it, and a command to redo behind
/// that gives the text it made.
pub proof fn law_ended_command_is_undone_and_redone<S: Fn(&str, Ask) -> Answer>(
    x: BufV,
    cmd: EditCmd,
    was: SnapshotV,
    opts: Opts,
    regs: Seq<RegV>,
    undo: EditCmd,
    redo: EditCmd,
    env: Env<S>,
)
    requires
        !undoes(cmd),
        !types_char(cmd),
        !x.merging_undos,
        was.lines.len() > 0,
        clamped(was.lines, was.cursor, x.cursor.exclusive) == was.cursor,
        ended(x, cmd, was, opts).lines != was.lines,
        is_undo(undo),
        is_redo(redo),
    ensures
        ({
            let b = ended(x, cmd, was, opts);
            let u = run_cmd(b, regs, undo, env);
            let r = run_cmd(u.buf, u.regs, redo, env);
            &&& u.effect is Done
            &&& u.buf.lines == was.lines
            &&& u.buf.cursor.pos == was.cursor
            &&& r.effect is Done
            &&& r.buf.lines == b.lines
        }),
{
    lemma_ended_records(x, cmd, was, opts);
    lemma_undo_then_redo(ended(x, cmd, was, opts), was, regs, undo, redo, env);
}

/// The buffer when a command has ended: at once, or from `y` on, which is what
/// the work done outside made of the buffer.
pub open spec fn finished(d: Ran, y: BufV, opts: Opts) -> BufV {
    match d.effect {
        EffectV::Finish { cmd, before, .. } => ended(y, cmd, before, opts),
        _ => d.buf,
    }
}

/// Any command that changed the text is undone as a whole and done again as a
/// whole: a command to undo gives the text and the cursor from before it, and
/// a command to redo behind that gives the text it made. Where the command
/// left work to be done outside, `y` is what that made of the buffer.
pub proof fn law_command_is_undone_and_redone<S: Fn(&str, Ask) -> Answer>(
    b: BufV,
    regs: Seq<RegV>,
    cmd: EditCmd,
    y: BufV,
    undo: EditCmd,
    redo: EditCmd,
    env: Env<S>,
)
    requires
        wf(b),
        clamped(b.lines, b.cursor.pos, b.cursor.exclusive) == b.cursor.pos,
        !b.merging_undos,
        !undoes(cmd),
        !types_char(cmd),
        is_undo(undo),
        is_redo(redo),
        alike(y, run_cmd(b, regs, cmd, env).buf),
        finished(run_cmd(b, regs, cmd, env), y, env.opts).lines != b.lines,
    ensures
        ({
            let d = run_cmd(b, regs, cmd, env);
            let f = finished(d, y, env.opts);
            let u = run_cmd(f, d.regs, undo, env);
            let r = run_cmd(u.buf, u.regs, redo, env);
            &&& u.effect is Done
            &&& u.buf.lines == b.lines
            &&& u.buf.cursor.pos == b.cursor.pos
            &&& r.effect is Done
            &&& r.buf.lines == f.lines
        }),
{
    let v = run_verb(begun(b, cmd, env), regs, cmd, env);
    let d = run_cmd(b, regs, cmd, env);
    lemma_begun_alike(b, cmd, env);
    lemma_verb_alike(begun(b, cmd, env), regs, cmd, env);
    let x = if d.effect is Finish {
        y
    } else {
        v.buf
    };
    assert(finished(d, y, env.opts) == ended(x, cmd, snap(b), env.opts));
    law_ended_command_is_undone_and_redone(
        x,
        cmd,
        snap(b),
        env.opts,
        d.regs,
        undo,
        redo,
        env,
    );
}

} // verus!
