//! Running commands.

use vstd::prelude::*;
use crate::editcmd::{
    goes_vertical, may_edit, range_motion, recast, types_char, types_separator, undoes,
    AddressRange, Cmd, EditCmd, ExNdRule, ExNode, LineAddr, Motion, Verb,
};
use crate::linebuf::address::{rows_matching, whole_or};
use crate::linebuf::buffer::{cluster_at, fixed, moved, no_text, place_before, wf, with_lines, BufV, LineBuf};
use crate::linebuf::change::{with_cluster, with_text};
use crate::linebuf::char_class::is_ws;
use crate::linebuf::edit::{Edit, EditV};
use crate::linebuf::effect::{Effect, EffectV, Position, Snapshot, SnapshotV};
use crate::linebuf::excmd::{
    merge_repeat_addr, merged, node_cmd, shell_begun, shell_job, subst_done,
};
use crate::linebuf::grapheme::Grapheme;
use crate::linebuf::hint::{Hint, HintV};
use crate::linebuf::killring::KillRingV;
use crate::linebuf::lines::{before, begins, cluster_count, LinesV};
use crate::linebuf::motion::{alias_put, cmd_after, cmd_cover, hint_after, hint_cover, hint_followed};
use crate::linebuf::notices::{matching_flaws, noted};
use crate::linebuf::pos::{shifted, Pos};
use crate::linebuf::recase::{recased_here, Recase};
use crate::linebuf::undo::{last_marked, recorded, redone, undone};
use crate::linebuf::verb_ops::{
    capitalized, char_inserted, char_transposed, cmd_equalized, cmd_indented, dcy_buf, dcy_regs, kill_cycled,
    kill_pasted, killed, line_opened, lines_joined, number_moved, put_buf, put_regs, range_recased, swapped,
    word_transposed,
};
use crate::register::{RegV, Registers};
use crate::seqs::{group_views, sat, views};
use crate::shell::{env_ok, Answer, Ask, Env, Opts};

verus! {

broadcast use group_views;

/// How often a global command may repeat a global command within itself.
pub const MAX_REPEATS: usize = 64;

/// What a command makes of the buffer and the registers, and what is left to
/// do.
pub struct Ran {
    pub buf: BufV,
    pub regs: Seq<RegV>,
    pub effect: EffectV,
}

/// A command that changes the buffer alone.
pub open spec fn ran(buf: BufV, regs: Seq<RegV>) -> Ran {
    Ran { buf, regs, effect: EffectV::Done }
}

/// The buffer once the cursor followed the motion of a command, into the hint
/// where it leads there.
pub open spec fn hint_moved<S: Fn(&str, Ask) -> Answer>(b: BufV, cmd: EditCmd, env: Env<S>) -> BufV {
    let c = hint_after(b, cmd, env.opts);
    match hint_cover(b, cmd, env.opts) {
        Some(k) => hint_followed(c, k, env.shell),
        None => c,
    }
}

/// Where the cursor is.
pub open spec fn position_of(b: BufV) -> Position {
    Position {
        row: sat(b.cursor.pos.row + 1),
        lines: b.lines.len() as usize,
        col: sat(b.cursor.pos.col + 1),
        before: sat(cluster_count(before(b.lines, b.cursor.pos))),
        total: sat(cluster_count(b.lines)),
    }
}

/// What a verb makes of the buffer and the registers, ex commands apart.
#[verifier::opaque]
pub open spec fn plain<S: Fn(&str, Ask) -> Answer>(b: BufV, regs: Seq<RegV>, cmd: EditCmd, verb: Verb, env: Env<S>) -> Ran {
    let o = env.opts;
    match verb {
        Verb::Delete => ran(dcy_buf(b, cmd, env), dcy_regs(b, regs, cmd, env)),
        Verb::Change => ran(dcy_buf(b, cmd, env), dcy_regs(b, regs, cmd, env)),
        Verb::Yank => ran(dcy_buf(b, cmd, env), dcy_regs(b, regs, cmd, env)),
        Verb::Kill => ran(killed(b, cmd, o), regs),
        Verb::KillCycle => ran(kill_cycled(b), regs),
        Verb::KillPut => ran(kill_pasted(b), regs),
        Verb::Rot13 => ran(range_recased(b, cmd, Recase::Rot13, o), regs),
        Verb::ReplaceChar(c) => ran(range_recased(b, cmd, Recase::Replace(c), o), regs),
        Verb::ReplaceCharInplace(c, n) => ran(
            hint_moved(recased_here(Recase::Replace(c), b, n as int), cmd, env),
            regs,
        ),
        Verb::ToggleCaseRange => ran(range_recased(b, cmd, Recase::Toggle, o), regs),
        Verb::ToggleCaseInplace(n) => {
            let d = recased_here(Recase::Toggle, b, n as int);
            ran(
                crate::linebuf::buffer::with_cursor(d, shifted(d.cursor.pos, 0, 1)),
                regs,
            )
        },
        Verb::ToLower => ran(range_recased(b, cmd, Recase::Lower, o), regs),
        Verb::ToUpper => ran(range_recased(b, cmd, Recase::Upper, o), regs),
        Verb::Capitalize => ran(capitalized(b, cmd, o), regs),
        Verb::Undo => ran(undone(b), regs),
        Verb::Redo => ran(redone(b), regs),
        Verb::Put(anchor) => ran(
            put_buf(b, regs, cmd, anchor, env),
            put_regs(b, regs, cmd, env),
        ),
        Verb::SwapVisualAnchor => ran(swapped(b), regs),
        Verb::JoinLines => ran(
            lines_joined(
                b,
                cmd,
                match cmd.motion {
                    Some(Cmd(n, _)) => n,
                    None => 1,
                },
                o,
            ),
            regs,
        ),
        Verb::InsertChar(c) => ran(char_inserted(b, cmd, c, env), regs),
        Verb::Insert(s) => ran(with_text(b, s@, env.shell), regs),
        Verb::InsertModeLineBreak(a) => ran(line_opened(b, a, env.shell), regs),
        Verb::AcceptLineOrNewline => ran(
            with_cluster(b, b.cursor.pos, seq!['\n'], env.shell),
            regs,
        ),
        Verb::Indent => ran(cmd_indented(b, cmd, true, o), regs),
        Verb::Dedent => ran(cmd_indented(b, cmd, false, o), regs),
        Verb::Equalize => ran(cmd_equalized(b, cmd, env), regs),
        Verb::IncrementNumber(n) => ran(number_moved(b, n as int, env.shell), regs),
        Verb::DecrementNumber(n) => ran(number_moved(b, -(n as int), env.shell), regs),
        Verb::TransposeChar => ran(char_transposed(b, env.shell), regs),
        Verb::TransposeWord => ran(word_transposed(b), regs),
        Verb::PrintPosition => Ran { buf: b, regs, effect: EffectV::Report(position_of(b)) },
        Verb::EndOfFile => ran(with_lines(b, Seq::empty()), regs),
        Verb::ExCmd(_) => ran(b, regs),
        Verb::Complete => ran(hint_moved(b, cmd, env), regs),
        Verb::ExMode => ran(hint_moved(b, cmd, env), regs),
        Verb::InsertMode => ran(hint_moved(b, cmd, env), regs),
        Verb::SearchMode => ran(hint_moved(b, cmd, env), regs),
        Verb::RevSearchMode => ran(hint_moved(b, cmd, env), regs),
        Verb::NormalMode => ran(hint_moved(b, cmd, env), regs),
        Verb::VisualMode => ran(hint_moved(b, cmd, env), regs),
        Verb::VerbatimMode => ran(hint_moved(b, cmd, env), regs),
        Verb::ReplaceMode => ran(hint_moved(b, cmd, env), regs),
        Verb::VisualModeLine => ran(hint_moved(b, cmd, env), regs),
        Verb::VisualModeSelectLast => ran(hint_moved(b, cmd, env), regs),
        Verb::RepeatLast => ran(b, regs),
        Verb::RecordMacro => ran(b, regs),
        Verb::PlayMacro => ran(b, regs),
        Verb::Interrupt => ran(b, regs),
        Verb::HistoryUp => ran(b, regs),
        Verb::HistoryDown => ran(b, regs),
        Verb::DeleteOrEof => ran(b, regs),
        Verb::AcceptHint => ran(b, regs),
        Verb::ClearScreen => ran(b, regs),
        Verb::Expand => Ran {
            buf: cmd_after(b, cmd, o),
            regs,
            effect: EffectV::Expand { all: false, range: cmd_cover(b, cmd, o) },
        },
        Verb::ExpandAll => Ran {
            buf: cmd_after(b, cmd, o),
            regs,
            effect: EffectV::Expand { all: true, range: cmd_cover(b, cmd, o) },
        },
    }
}

/// The motion an ex command's address stands for; the cursor's line where it
/// has none.
pub open spec fn here_or(addr: Option<AddressRange>) -> Motion {
    match addr {
        Some(a) => range_motion(a),
        None => Motion::Line(LineAddr::Current),
    }
}

/// What is kept for the time a command runs.
pub open spec fn snap(b: BufV) -> SnapshotV {
    SnapshotV { lines: b.lines, cursor: b.cursor.pos }
}

/// The buffer when a command begins: columns of vertical moves and the nesting
/// of rows are forgotten where they no longer hold, and a character that ends
/// a command word has the word's alias put in.
pub open spec fn begun<S: Fn(&str, Ask) -> Answer>(b: BufV, cmd: EditCmd, env: Env<S>) -> BufV {
    let c = BufV {
        saved_col: if goes_vertical(cmd) {
            b.saved_col
        } else {
            None
        },
        indent_cache: if may_edit(cmd) {
            None
        } else {
            b.indent_cache
        },
        ..b
    };
    let word = match cluster_at(c.lines, place_before(c)) {
        Some(g) => !is_ws(g),
        None => false,
    };
    if types_separator(cmd) && word && env.opts.expand_aliases {
        alias_put(c, env.shell)
    } else {
        c
    }
}

pub open spec fn is_kill(cmd: EditCmd) -> bool {
    cmd.verb matches Some(Cmd(_, Verb::Kill))
}

pub open spec fn uses_ring(cmd: EditCmd) -> bool {
    cmd.verb matches Some(Cmd(_, v)) && (v is KillCycle || v is KillPut)
}

pub open spec fn opens_merge(cmd: EditCmd) -> bool {
    cmd.verb matches Some(Cmd(_, Verb::Change))
}

/// The edits once a command changed the text. Characters typed one behind the
/// other make one edit; a change takes the characters typed behind it.
pub open spec fn edits_after(s: Seq<EditV>, cmd: EditCmd, was: SnapshotV, now: LinesV, cursor: Pos, merging: bool) -> Seq<EditV> {
    let r = if types_char(cmd) {
        if s.len() > 0 && s.last().merging {
            s.update(s.len() - 1, EditV { new: now, new_cursor: cursor, ..s.last() })
        } else {
            s.push(
                EditV {
                    old_cursor: was.cursor,
                    new_cursor: cursor,
                    old: was.lines,
                    new: now,
                    merging: true,
                },
            )
        }
    } else {
        let t = recorded(s, was.lines, now, was.cursor, cursor);
        if opens_merge(cmd) || merging {
            last_marked(t, true)
        } else {
            t
        }
    };
    if r.len() > 0 && r.last().old == r.last().new {
        r.drop_last()
    } else {
        r
    }
}

/// The buffer with the edit of a command recorded.
pub open spec fn edit_kept(b: BufV, cmd: EditCmd, was: SnapshotV) -> BufV {
    let stack = if !b.merging_undos && !types_char(cmd) && !undoes(cmd) {
        last_marked(b.undo_stack, false)
    } else {
        b.undo_stack
    };
    if b.lines != was.lines && !undoes(cmd) {
        BufV {
            redo_stack: Seq::empty(),
            undo_stack: edits_after(
                stack,
                cmd,
                was,
                b.lines,
                b.cursor.pos,
                b.merging_undos,
            ),
            ..b
        }
    } else {
        BufV { undo_stack: stack, ..b }
    }
}

/// The ring when a command ends.
pub open spec fn ring_after(r: KillRingV, cmd: EditCmd) -> KillRingV {
    let s = if is_kill(cmd) {
        r
    } else {
        KillRingV { merging: false, ..r }
    };
    if uses_ring(cmd) {
        s
    } else {
        KillRingV { selected: None, kill_cycle_span: None, ..s }
    }
}

/// The buffer when a command ends.
pub open spec fn ended(b: BufV, cmd: EditCmd, was: SnapshotV, opts: Opts) -> BufV {
    let c = if no_text(b.lines) {
        BufV { hint: None, ..b }
    } else {
        b
    };
    let d = fixed(edit_kept(c, cmd, was), opts);
    let e = BufV { kill_ring: ring_after(d.kill_ring, cmd), ..d };
    match e.hint {
        Some(HintV::Override(h)) => if begins(e.lines, h) {
            e
        } else {
            BufV { hint: None, ..e }
        },
        _ => e,
    }
}

/// What a verb run over rows, from the last of the first `n`, makes of the
/// buffer. It is cut short where something outside is to be done first.
pub open spec fn run_rows<S: Fn(&str, Ask) -> Answer>(b: BufV, regs: Seq<RegV>, cmd: EditCmd, nested: ExNode, rows: Seq<usize>, n: int, env: Env<S>, fuel: nat) -> Ran
    decreases fuel, nested, n + 2,
{
    if n <= 0 {
        ran(BufV { last_global: Some(cmd), ..b }, regs)
    } else {
        let r = run_node(
            moved(b, Pos { row: rows[n - 1], col: 0 }),
            regs,
            node_cmd(cmd, nested),
            nested,
            env,
            fuel,
        );
        match r.effect {
            EffectV::Done => run_rows(r.buf, r.regs, cmd, nested, rows, n - 1, env, fuel),
            _ => Ran {
                effect: EffectV::Rows {
                    first: Box::new(r.effect),
                    rest: rows.take(n - 1),
                    global: cmd,
                },
                ..r
            },
        }
    }
}

/// What an ex command makes of the buffer and the registers, and what it asks
/// of the outside.
pub open spec fn run_node<S: Fn(&str, Ask) -> Answer>(b: BufV, regs: Seq<RegV>, cmd: EditCmd, node: ExNode, env: Env<S>, fuel: nat) -> Ran
    decreases fuel, node, 1int,
{
    match node.kind {
        ExNdRule::Expand => {
            let verb = if node.bang {
                Verb::ExpandAll
            } else {
                Verb::Expand
            };
            plain(
                b,
                regs,
                recast(cmd, verb, range_motion(whole_or(node.address))),
                verb,
                env,
            )
        },
        ExNdRule::Delete => plain(
            b,
            regs,
            recast(cmd, Verb::Delete, here_or(node.address)),
            Verb::Delete,
            env,
        ),
        ExNdRule::Yank => plain(
            b,
            regs,
            recast(cmd, Verb::Yank, here_or(node.address)),
            Verb::Yank,
            env,
        ),
        ExNdRule::Put(anchor) => plain(
            b,
            regs,
            recast(cmd, Verb::Put(anchor), here_or(node.address)),
            Verb::Put(anchor),
            env,
        ),
        ExNdRule::Edit(paths) => Ran { buf: b, regs, effect: EffectV::Edit(paths@) },
        ExNdRule::Write(dest) => Ran { buf: b, regs, effect: EffectV::Write(dest) },
        ExNdRule::Read(src) => Ran { buf: b, regs, effect: EffectV::Read(src) },
        ExNdRule::Stash(args) => Ran { buf: b, regs, effect: EffectV::Stash(args) },
        ExNdRule::Shell(command) => Ran {
            buf: shell_begun(b, cmd, env.opts),
            regs,
            effect: EffectV::Shell(shell_job(b, cmd, command@, env.opts)),
        },
        ExNdRule::Substitute { pat, repl, flags } => ran(
            subst_done(b, cmd, pat@, repl@, flags, node.address),
            regs,
        ),
        ExNdRule::Global { pat, nested } => {
            let within = range_motion(whole_or(node.address));
            let rows = rows_matching(b, within, pat@, node.bang);
            run_rows(
                noted(b, matching_flaws(b, within, pat@)),
                regs,
                cmd,
                *nested,
                rows,
                rows.len() as int,
                env,
                fuel,
            )
        },
        ExNdRule::RepeatSubstitute => run_again(b, regs, cmd, b.last_substitute, env, fuel, node),
        ExNdRule::RepeatGlobal => run_again(b, regs, cmd, b.last_global, env, fuel, node),
        ExNdRule::Normal(_) => ran(b, regs),
        ExNdRule::Quit => ran(b, regs),
    }
}

/// The ex command that is a command's verb.
pub open spec fn node_of(cmd: EditCmd) -> ExNode {
    match cmd.verb {
        Some(Cmd(_, Verb::ExCmd(n))) => n,
        _ => arbitrary(),
    }
}

/// What repeating a command makes of the buffer.
pub open spec fn run_again<S: Fn(&str, Ask) -> Answer>(b: BufV, regs: Seq<RegV>, cmd: EditCmd, saved: Option<EditCmd>, env: Env<S>, fuel: nat, node: ExNode) -> Ran
    decreases fuel, node, 0int,
{
    match saved {
        None => ran(b, regs),
        Some(saved) => match merged(cmd, saved) {
            Some(again) => if fuel == 0 {
                ran(b, regs)
            } else {
                let r = run_node(
                    begun(b, again, env),
                    regs,
                    again,
                    node_of(again),
                    env,
                    (fuel - 1) as nat,
                );
                match r.effect {
                    EffectV::Done => ran(ended(r.buf, again, snap(b), env.opts), r.regs),
                    _ => Ran {
                        effect: EffectV::Finish {
                            first: Box::new(r.effect),
                            cmd: again,
                            before: snap(b),
                        },
                        ..r
                    },
                }
            },
            None => ran(b, regs),
        },
    }
}

/// What the verb of a command makes of the buffer; without a verb, the cursor
/// follows the motion.
pub open spec fn run_verb<S: Fn(&str, Ask) -> Answer>(b: BufV, regs: Seq<RegV>, cmd: EditCmd, env: Env<S>) -> Ran {
    match cmd.verb {
        Some(Cmd(_, Verb::ExCmd(node))) => run_node(
            b,
            regs,
            cmd,
            node,
            env,
            MAX_REPEATS as nat,
        ),
        Some(Cmd(_, verb)) => plain(b, regs, cmd, verb, env),
        None => ran(hint_moved(b, cmd, env), regs),
    }
}

/// What a command makes of the buffer from beginning to end. Where something
/// outside is to be done first, the end is left for then.
pub open spec fn run_cmd<S: Fn(&str, Ask) -> Answer>(b: BufV, regs: Seq<RegV>, cmd: EditCmd, env: Env<S>) -> Ran {
    let r = run_verb(begun(b, cmd, env), regs, cmd, env);
    match r.effect {
        EffectV::Done => Ran { buf: ended(r.buf, cmd, snap(b), env.opts), ..r },
        EffectV::Report(_) => Ran { buf: ended(r.buf, cmd, snap(b), env.opts), ..r },
        _ => Ran {
            effect: EffectV::Finish { first: Box::new(r.effect), cmd, before: snap(b) },
            ..r
        },
    }
}

impl LineBuf {
    /// Follows the motion of a command, into the hint where it leads there.
    fn follow_with_hint<S: Fn(&str, Ask) -> Answer>(&mut self, cmd: &EditCmd, env: &Env<S>)
        requires
            wf(old(self)@),
            env_ok(*env),
        ensures
            final(self)@ == hint_moved(old(self)@, *cmd, *env),
            final(self)@.lines.len() > 0,
    {
        match self.eval_motion_with_hint(cmd, &env.opts) {
            Some(k) => self.apply_motion_with_hint(k, env),
            None => {},
        }
    }

    /// Where the cursor is.
    pub fn report_position(&self) -> (p: Position)
        requires
            wf(self@),
        ensures
            p == position_of(self@),
    {
        let whole = self.lines.clone();
        let (left, _) = whole.split_lines(self.cursor.pos);
        Position {
            row: self.cursor.pos.row.saturating_add(1),
            lines: self.lines.len(),
            col: self.cursor.pos.col.saturating_add(1),
            before: left.count_graphemes(),
            total: self.count_graphemes(),
        }
    }

    /// Runs a verb that acts on the buffer alone.
    #[verifier::rlimit(40)]
    fn exec_plain<S: Fn(&str, Ask) -> Answer>(
        &mut self,
        cmd: &EditCmd,
        verb: &Verb,
        env: &Env<S>,
        regs: &mut Registers,
    ) -> (e: Effect)
        requires
            wf(old(self)@),
            env_ok(*env),
            cmd.verb matches Some(Cmd(_, v)) && v == *verb,
        ensures
            (Ran { buf: final(self)@, regs: final(regs)@, effect: e@ }) == plain(
                old(self)@,
                old(regs)@,
                *cmd,
                *verb,
                *env,
            ),
            !(verb is EndOfFile || verb is Undo || verb is Redo) ==> final(self)@.lines.len() > 0,
    {
        reveal(plain);
        let opts = &env.opts;
        match verb {
            Verb::Delete => self.delete_change_yank(cmd, env, regs),
            Verb::Change => self.delete_change_yank(cmd, env, regs),
            Verb::Yank => self.delete_change_yank(cmd, env, regs),
            Verb::Kill => self.kill(cmd, opts),
            Verb::KillCycle => self.kill_cycle(),
            Verb::KillPut => self.kill_put(),
            Verb::Rot13 => self.eval_map(cmd, Recase::Rot13, opts),
            Verb::ReplaceChar(c) => self.eval_map(cmd, Recase::Replace(*c), opts),
            Verb::ToggleCaseRange => self.eval_map(cmd, Recase::Toggle, opts),
            Verb::ToLower => self.eval_map(cmd, Recase::Lower, opts),
            Verb::ToUpper => self.eval_map(cmd, Recase::Upper, opts),
            Verb::ReplaceCharInplace(c, n) => {
                self.inplace_mutation(*n, Recase::Replace(*c));
                self.follow_with_hint(cmd, env);
            },
            Verb::ToggleCaseInplace(n) => self.toggle_case_inplace(*n),
            Verb::Capitalize => self.capitalize(cmd, opts),
            Verb::Undo => self.undo(),
            Verb::Redo => self.redo(),
            Verb::Put(anchor) => self.put(cmd, anchor, env, regs),
            Verb::SwapVisualAnchor => self.swap_visual_anchor(),
            Verb::JoinLines => {
                let count = match &cmd.motion {
                    Some(Cmd(n, _)) => *n,
                    None => 1,
                };
                self.join_lines(cmd, count, opts);
            },
            Verb::InsertChar(c) => self.insert_char_verb(cmd, *c, env),
            Verb::Insert(s) => self.insert_str(s.as_str(), env),
            Verb::InsertModeLineBreak(a) => self.break_line_verb(a, env),
            Verb::AcceptLineOrNewline => self.insert(Grapheme::from('\n'), env),
            Verb::Indent => self.alter_indentation(cmd, true, opts),
            Verb::Dedent => self.alter_indentation(cmd, false, opts),
            Verb::Equalize => self.equalize_verb(cmd, env),
            Verb::IncrementNumber(n) => self.adjust_number(*n as i64, env),
            Verb::DecrementNumber(n) => self.adjust_number(-(*n as i64), env),
            Verb::TransposeChar => self.transpose_char(env),
            Verb::TransposeWord => self.transpose_word(),
            Verb::PrintPosition => {
                return Effect::Report(self.report_position());
            },
            Verb::EndOfFile => {
                self.lines.clear();
                assert(self@ =~= with_lines(old(self)@, Seq::empty()));
            },
            Verb::Expand => {
                let range = self.eval_motion(cmd, opts);
                return Effect::Expand { all: false, range };
            },
            Verb::ExpandAll => {
                let range = self.eval_motion(cmd, opts);
                return Effect::Expand { all: true, range };
            },
            Verb::Complete => self.follow_with_hint(cmd, env),
            Verb::ExMode => self.follow_with_hint(cmd, env),
            Verb::InsertMode => self.follow_with_hint(cmd, env),
            Verb::SearchMode => self.follow_with_hint(cmd, env),
            Verb::RevSearchMode => self.follow_with_hint(cmd, env),
            Verb::NormalMode => self.follow_with_hint(cmd, env),
            Verb::VisualMode => self.follow_with_hint(cmd, env),
            Verb::VerbatimMode => self.follow_with_hint(cmd, env),
            Verb::ReplaceMode => self.follow_with_hint(cmd, env),
            Verb::VisualModeLine => self.follow_with_hint(cmd, env),
            Verb::VisualModeSelectLast => self.follow_with_hint(cmd, env),
            Verb::ExCmd(_) => {},
            Verb::RepeatLast => {},
            Verb::RecordMacro => {},
            Verb::PlayMacro => {},
            Verb::Interrupt => {},
            Verb::HistoryUp => {},
            Verb::HistoryDown => {},
            Verb::DeleteOrEof => {},
            Verb::AcceptHint => {},
            Verb::ClearScreen => {},
        }
        Effect::Done
    }

    /// Prepares the buffer for a command.
    pub fn begin_cmd<S: Fn(&str, Ask) -> Answer>(&mut self, cmd: &EditCmd, env: &Env<S>) -> (s:
        Snapshot)
        requires
            wf(old(self)@),
            env_ok(*env),
        ensures
            s@ == snap(old(self)@),
            final(self)@ == begun(old(self)@, *cmd, *env),
            wf(final(self)@),
    {
        if !cmd.is_vertical() {
            self.saved_col = None;
        }
        if cmd.is_edit() {
            self.indent_cache = None;
        }
        let s = Snapshot { lines: self.lines.clone(), cursor: self.cursor.pos };
        assert(self@ =~= (BufV {
            saved_col: if goes_vertical(*cmd) {
                old(self)@.saved_col
            } else {
                None
            },
            indent_cache: if may_edit(*cmd) {
                None
            } else {
                old(self)@.indent_cache
            },
            ..old(self)@
        }));
        let word = match self.grapheme_before_cursor() {
            Some(g) => !g.is_ws(),
            None => false,
        };
        if cmd.is_separator_insert() && word && env.opts.expand_aliases {
            let _ = self.attempt_alias_expansion(env);
        }
        s
    }

    /// Records what a command changed, and brings the cursor, the kill ring
    /// and the hint in order.
    pub fn end_cmd(&mut self, cmd: &EditCmd, was: Snapshot, opts: &Opts)
        ensures
            final(self)@ == ended(old(self)@, *cmd, was@, *opts),
            wf(final(self)@),
    {
        let ghost sv = was@;
        if self.is_empty() {
            self.clear_hint();
        }
        let ghost c = self@;
        let typing = cmd.is_char_insert();
        let undoing = cmd.is_undo_op();
        if !self.merging_undos && !typing && !undoing {
            self.mark_last_edit(false);
        }
        if self.lines != was.lines && !undoing {
            self.keep_edit(cmd, was, typing);
        }
        assert(self@ =~= edit_kept(c, *cmd, sv));
        self.fix_cursor(opts);
        let ghost d = self@;
        let (kill, ring) = match &cmd.verb {
            Some(Cmd(_, Verb::Kill)) => (true, false),
            Some(Cmd(_, Verb::KillCycle)) => (false, true),
            Some(Cmd(_, Verb::KillPut)) => (false, true),
            _ => (false, false),
        };
        if !kill {
            self.kill_ring.merging = false;
        }
        if !ring {
            self.kill_ring.reset();
        }
        assert(self@ =~= (BufV { kill_ring: ring_after(d.kill_ring, *cmd), ..d }));
        let stale = match &self.hint {
            Some(Hint::Override(h)) => !self.lines.is_prefix_lines(h),
            _ => false,
        };
        if stale {
            self.clear_hint();
        }
    }

    /// Records a change of the text.
    fn keep_edit(&mut self, cmd: &EditCmd, was: Snapshot, typing: bool)
        requires
            typing == types_char(*cmd),
        ensures
            final(self)@ == (BufV {
                redo_stack: Seq::empty(),
                undo_stack: edits_after(
                    old(self)@.undo_stack,
                    *cmd,
                    was@,
                    old(self)@.lines,
                    old(self)@.cursor.pos,
                    old(self)@.merging_undos,
                ),
                ..old(self)@
            }),
    {
        let ghost b = self@;
        self.redo_stack.clear();
        assert(views(self.redo_stack@) =~= Seq::<EditV>::empty());
        let cursor = self.cursor.pos;
        let ghost sv = was@;
        if typing {
            let now = self.lines.clone();
            if self.is_merging() {
                match self.undo_stack.pop() {
                    Some(e) => {
                        let mut e = e;
                        e.new = now;
                        e.new_cursor = cursor;
                        self.undo_stack.push(e);
                    },
                    None => {},
                }
                assert(views(self.undo_stack@) =~= b.undo_stack.update(
                    b.undo_stack.len() - 1,
                    EditV { new: b.lines, new_cursor: cursor, ..b.undo_stack.last() },
                ));
            } else {
                self.undo_stack.push(
                    Edit {
                        old_cursor: was.cursor,
                        new_cursor: cursor,
                        old: was.lines,
                        new: now,
                        merging: true,
                    },
                );
            }
        } else {
            let at = was.cursor;
            self.handle_edit(was.lines, cursor, at);
            let opens = match &cmd.verb {
                Some(Cmd(_, Verb::Change)) => true,
                _ => false,
            };
            if opens || self.merging_undos {
                self.mark_last_edit(true);
            }
        }
        let ghost r = self@.undo_stack;
        let n = self.undo_stack.len();
        if n > 0 && self.undo_stack[n - 1].is_empty() {
            let _ = self.undo_stack.pop();
            assert(views(self.undo_stack@) =~= r.drop_last());
        }
        assert(self@ =~= (BufV {
            redo_stack: Seq::empty(),
            undo_stack: edits_after(
                b.undo_stack,
                *cmd,
                sv,
                b.lines,
                b.cursor.pos,
                b.merging_undos,
            ),
            ..b
        }));
    }

    /// Runs an ex command over rows, from the last of the first `n`.
    fn run_over_rows<S: Fn(&str, Ask) -> Answer>(
        &mut self,
        cmd: &EditCmd,
        nested: &ExNode,
        rows: &Vec<usize>,
        n: usize,
        env: &Env<S>,
        regs: &mut Registers,
        fuel: usize,
    ) -> (e: Effect)
        requires
            old(self)@.lines.len() > 0,
            env_ok(*env),
            n <= rows@.len(),
        ensures
            (Ran { buf: final(self)@, regs: final(regs)@, effect: e@ }) == run_rows(
                old(self)@,
                old(regs)@,
                *cmd,
                *nested,
                rows@,
                n as int,
                *env,
                fuel as nat,
            ),
            final(self)@.lines.len() > 0,
        decreases fuel, nested, n + 2,
    {
        if n == 0 {
            self.last_global = Some(cmd.copy());
            assert(self@ =~= (BufV { last_global: Some(*cmd), ..old(self)@ }));
            return Effect::Done;
        }
        self.set_cursor(Pos { row: rows[n - 1], col: 0 });
        let inner = cmd.new_with_verb(Some(Cmd(1, Verb::ExCmd(nested.copy()))));
        let e = self.dispatch_ex_node(&inner, nested, env, regs, fuel);
        if e.is_done() {
            return self.run_over_rows(cmd, nested, rows, n - 1, env, regs, fuel);
        }
        let mut rest: Vec<usize> = Vec::new();
        let mut i: usize = 0;
        while i < n - 1
            invariant
                1 <= n <= rows@.len(),
                i <= n - 1,
                rest@ == rows@.take(i as int),
            decreases n - i,
        {
            rest.push(rows[i]);
            i += 1;
            assert(rest@ =~= rows@.take(i as int));
        }
        Effect::Rows { first: Box::new(e), rest, global: cmd.copy() }
    }

    /// Runs a command once more, on the lines addressed now.
    fn repeat_saved<S: Fn(&str, Ask) -> Answer>(
        &mut self,
        cmd: &EditCmd,
        saved: Option<EditCmd>,
        env: &Env<S>,
        regs: &mut Registers,
        fuel: usize,
        node: &ExNode,
    ) -> (e: Effect)
        requires
            wf(old(self)@),
            env_ok(*env),
        ensures
            (Ran { buf: final(self)@, regs: final(regs)@, effect: e@ }) == run_again(
                old(self)@,
                old(regs)@,
                *cmd,
                saved,
                *env,
                fuel as nat,
                *node,
            ),
            final(self)@.lines.len() > 0,
        decreases fuel, node, 0int,
    {
        let saved = match saved {
            Some(s) => s,
            None => {
                return Effect::Done;
            },
        };
        let again = match merge_repeat_addr(cmd, &saved) {
            Some(a) => a,
            None => {
                return Effect::Done;
            },
        };
        if fuel == 0 {
            return Effect::Done;
        }
        let was = self.begin_cmd(&again, env);
        let inner = match &again.verb {
            Some(Cmd(_, Verb::ExCmd(n))) => n,
            _ => {
                return Effect::Done;
            },
        };
        let e = self.dispatch_ex_node(&again, inner, env, regs, fuel - 1);
        if e.is_done() {
            self.end_cmd(&again, was, &env.opts);
            return Effect::Done;
        }
        Effect::Finish { first: Box::new(e), cmd: again.copy(), before: was }
    }

    /// Runs an ex command.
    pub fn dispatch_ex_node<S: Fn(&str, Ask) -> Answer>(
        &mut self,
        cmd: &EditCmd,
        node: &ExNode,
        env: &Env<S>,
        regs: &mut Registers,
        fuel: usize,
    ) -> (e: Effect)
        requires
            wf(old(self)@),
            env_ok(*env),
        ensures
            (Ran { buf: final(self)@, regs: final(regs)@, effect: e@ }) == run_node(
                old(self)@,
                old(regs)@,
                *cmd,
                *node,
                *env,
                fuel as nat,
            ),
            final(self)@.lines.len() > 0,
        decreases fuel, node, 1int,
    {
        match &node.kind {
            ExNdRule::Expand => {
                let range = match &node.address {
                    Some(a) => a.clone(),
                    None => AddressRange::all_lines(),
                };
                let verb = if node.bang {
                    Verb::ExpandAll
                } else {
                    Verb::Expand
                };
                let new = cmd.recast(verb.copy(), range.as_motion());
                self.exec_plain(&new, &verb, env, regs)
            },
            ExNdRule::Delete => {
                let new = cmd.recast(Verb::Delete, address_motion(&node.address));
                self.exec_plain(&new, &Verb::Delete, env, regs)
            },
            ExNdRule::Yank => {
                let new = cmd.recast(Verb::Yank, address_motion(&node.address));
                self.exec_plain(&new, &Verb::Yank, env, regs)
            },
            ExNdRule::Put(anchor) => {
                let new = cmd.recast(Verb::Put(*anchor), address_motion(&node.address));
                self.exec_plain(&new, &Verb::Put(*anchor), env, regs)
            },
            ExNdRule::Edit(paths) => Effect::Edit(paths.clone()),
            ExNdRule::Write(dest) => Effect::Write(dest.clone()),
            ExNdRule::Read(src) => Effect::Read(src.clone()),
            ExNdRule::Stash(args) => Effect::Stash(args.clone()),
            ExNdRule::Shell(command) => {
                let job = self.ex_shell_cmd(cmd, command.as_str(), &env.opts);
                Effect::Shell(job)
            },
            ExNdRule::Substitute { pat, repl, flags } => {
                match &node.address {
                    Some(a) => self.ex_substitute(
                        cmd,
                        pat.as_str(),
                        repl.as_str(),
                        *flags,
                        Some(a),
                    ),
                    None => self.ex_substitute(cmd, pat.as_str(), repl.as_str(), *flags, None),
                }
                Effect::Done
            },
            ExNdRule::Global { pat, nested } => {
                let range = match &node.address {
                    Some(a) => a.clone(),
                    None => AddressRange::all_lines(),
                };
                let constraint = range.as_motion();
                let rows = match self.get_matching_lines(&constraint, pat.as_str(), node.bang) {
                    Ok(v) => v,
                    Err(_) => Vec::new(),
                };
                let msgs = self.matching_notices(&constraint, pat.as_str());
                self.note(msgs);
                let n = rows.len();
                self.run_over_rows(cmd, &**nested, &rows, n, env, regs, fuel)
            },
            ExNdRule::RepeatSubstitute => {
                let saved = match &self.last_substitute {
                    Some(c) => Some(c.copy()),
                    None => None,
                };
                self.repeat_saved(cmd, saved, env, regs, fuel, node)
            },
            ExNdRule::RepeatGlobal => {
                let saved = match &self.last_global {
                    Some(c) => Some(c.copy()),
                    None => None,
                };
                self.repeat_saved(cmd, saved, env, regs, fuel, node)
            },
            ExNdRule::Normal(_) => Effect::Done,
            ExNdRule::Quit => Effect::Done,
        }
    }

    /// Goes on with the rows left of a global command.
    pub fn resume_global<S: Fn(&str, Ask) -> Answer>(
        &mut self,
        global: &EditCmd,
        rest: &Vec<usize>,
        env: &Env<S>,
        regs: &mut Registers,
    ) -> (e: Effect)
        requires
            old(self)@.lines.len() > 0,
            env_ok(*env),
        ensures
            match global.verb {
                Some(Cmd(_, Verb::ExCmd(n))) => match n.kind {
                    ExNdRule::Global { nested, .. } => (Ran {
                        buf: final(self)@,
                        regs: final(regs)@,
                        effect: e@,
                    }) == run_rows(
                        old(self)@,
                        old(regs)@,
                        *global,
                        *nested,
                        rest@,
                        rest@.len() as int,
                        *env,
                        MAX_REPEATS as nat,
                    ),
                    _ => e@ == EffectV::Done && final(self)@ == old(self)@ && final(regs)@ == old(
                        regs,
                    )@,
                },
                _ => e@ == EffectV::Done && final(self)@ == old(self)@ && final(regs)@ == old(
                    regs,
                )@,
            },
    {
        match &global.verb {
            Some(Cmd(_, Verb::ExCmd(n))) => {
                match &n.kind {
                    ExNdRule::Global { nested, .. } => {
                        let len = rest.len();
                        self.run_over_rows(global, &**nested, rest, len, env, regs, MAX_REPEATS)
                    },
                    _ => Effect::Done,
                }
            },
            _ => Effect::Done,
        }
    }

    /// Runs the verb of a command; without a verb, the cursor follows the
    /// motion.
    pub fn exec_verb<S: Fn(&str, Ask) -> Answer>(
        &mut self,
        cmd: &EditCmd,
        env: &Env<S>,
        regs: &mut Registers,
    ) -> (e: Effect)
        requires
            wf(old(self)@),
            env_ok(*env),
        ensures
            (Ran { buf: final(self)@, regs: final(regs)@, effect: e@ }) == run_verb(
                old(self)@,
                old(regs)@,
                *cmd,
                *env,
            ),
    {
        match &cmd.verb {
            Some(Cmd(_, verb)) => {
                match verb {
                    Verb::ExCmd(node) => self.dispatch_ex_node(cmd, node, env, regs, MAX_REPEATS),
                    _ => self.exec_plain(cmd, verb, env, regs),
                }
            },
            None => {
                self.follow_with_hint(cmd, env);
                Effect::Done
            },
        }
    }
}

impl LineBuf {
    /// Runs a command from beginning to end. Where something outside is to be
    /// done first, the end is left for [`LineBuf::end_cmd`].
    pub fn exec_cmd<S: Fn(&str, Ask) -> Answer>(
        &mut self,
        cmd: &EditCmd,
        env: &Env<S>,
        regs: &mut Registers,
    ) -> (e: Effect)
        requires
            wf(old(self)@),
            env_ok(*env),
        ensures
            (Ran { buf: final(self)@, regs: final(regs)@, effect: e@ }) == run_cmd(
                old(self)@,
                old(regs)@,
                *cmd,
                *env,
            ),
            e@ is Done || e@ is Report ==> wf(final(self)@),
    {
        let was = self.begin_cmd(cmd, env);
        let e = self.exec_verb(cmd, env, regs);
        match e {
            Effect::Done => {
                self.end_cmd(cmd, was, &env.opts);
                Effect::Done
            },
            Effect::Report(p) => {
                self.end_cmd(cmd, was, &env.opts);
                Effect::Report(p)
            },
            _ => Effect::Finish { first: Box::new(e), cmd: cmd.copy(), before: was },
        }
    }
}

/// The motion an address stands for.
fn address_motion(a: &Option<AddressRange>) -> (m: Motion)
    ensures
        m == here_or(*a),
{
    match a {
        Some(a) => a.as_motion(),
        None => Motion::Line(LineAddr::Current),
    }
}

} // verus!
