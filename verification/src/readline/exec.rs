//! How a command changes the mode, and what can be repeated of it.

use vstd::prelude::*;
use crate::editcmd::{
    changes_mode, inverted, invert_char_motion, may_edit, no_flags, repeatable, repeats_cmd,
    repeats_motion, runs_shell, searches_char, Cmd, CmdFlags, EditCmd, Motion, Verb,
};
use crate::linebuf::address::selection;
use crate::linebuf::buffer::BufV;
use crate::linebuf::edit::EditV;
use crate::linebuf::number::{count_text, digits_of};
use crate::linebuf::select::{anchor_of, shape_of, SelectMode};
use crate::linebuf::undo::last_marked;
use crate::readline::mode::{anew, mode_anew, CmdReplay, ModeReport, NewMode};
use crate::readline::session::{clamp_set, refreshed, shed_wf, ShedLine, ShedV};
use crate::register::{reg_name, RegisterName};

verus! {

/// How a command is run.
#[derive(Debug)]
pub enum ExecPlan {
    /// It leads to another mode.
    Transition(EditCmd),
    /// It repeats a command.
    Repeat(EditCmd),
    /// It repeats a character search.
    RepeatMotion(EditCmd),
    /// It goes to the buffer, from normal mode where that is said.
    Fire { cmd: EditCmd, to_normal: bool },
}

/// Where a command that went to the buffer leads: to normal mode first, where
/// that is said, and then to another.
#[derive(Debug)]
pub struct ExecEnd {
    pub to_normal: bool,
    pub exit: Option<NewMode>,
}

/// The mode a command leads to.
#[derive(Debug)]
pub struct Transition {
    pub mode: NewMode,
    /// Text is typed in it.
    pub insert: bool,
    /// The command goes to the buffer as it is, and nothing follows.
    pub fire_only: bool,
}

/// What repeating a command comes to.
#[derive(Debug)]
pub enum RepeatPlan {
    Nothing,
    /// The steps of a round, so many times.
    Mode { round: Vec<RepeatStep>, repeat: u16 },
    Single(EditCmd),
}

/// A step of repeating what was done in a mode.
#[derive(Debug)]
pub enum RepeatStep {
    Exec(EditCmd),
    /// The edits that follow become one with the last.
    StartMerge,
    StopMerge,
    /// The mode is entered anew.
    Back(NewMode),
}

/// The buffer with the selection ended.
pub open spec fn unselected(b: BufV) -> BufV {
    BufV {
        select_mode: None,
        last_selection: match b.select_mode {
            Some(m) => Some((m, anchor_of(m))),
            None => b.last_selection,
        },
        ..b
    }
}

/// The command on what is selected, where something is.
pub open spec fn on_selection(b: BufV, cmd: EditCmd) -> EditCmd {
    if cmd.verb is Some && selection(b) is Some {
        EditCmd { motion: Some(Cmd(1, selection(b).unwrap())), ..cmd }
    } else {
        cmd
    }
}

/// The state as the command begins.
pub open spec fn exec_begun(v: ShedV, cmd: EditCmd, from_replay: bool) -> ShedV {
    let b = if cmd.flags.is_cancel {
        BufV { pending_search: None, ..v.editor }
    } else {
        v.editor
    };
    if changes_mode(cmd) || repeats_cmd(cmd) || repeats_motion(on_selection(b, cmd)) {
        ShedV { editor: b, ..v }
    } else {
        let leaves = v.mode.report == ModeReport::Visual && b.select_mode is None;
        ShedV {
            editor: if leaves {
                unselected(b)
            } else {
                b
            },
            repeat_action: if repeatable(cmd) && !from_replay {
                Some(CmdReplay::Single(Box::new(to_repeat(v, b, on_selection(b, cmd)))))
            } else {
                v.repeat_action
            },
            repeat_motion: if searches_char(on_selection(b, cmd)) {
                on_selection(b, cmd).motion
            } else {
                v.repeat_motion
            },
            ..v
        }
    }
}

/// What is repeated of a command: on the shape of what was selected, where it
/// was given for a selection.
pub open spec fn to_repeat(v: ShedV, b: BufV, cmd: EditCmd) -> EditCmd {
    if v.mode.report == ModeReport::Visual && b.select_mode is Some {
        EditCmd {
            motion: Some(Cmd(1, Motion::Selection(shape_of(b.select_mode.unwrap(), b.cursor.pos)))),
            ..cmd
        }
    } else {
        cmd
    }
}

/// How the command is run.
pub open spec fn exec_plan(v: ShedV, cmd: EditCmd) -> ExecPlan {
    let c = on_selection(v.editor, cmd);
    if changes_mode(c) {
        ExecPlan::Transition(c)
    } else if repeats_cmd(c) {
        ExecPlan::Repeat(c)
    } else if repeats_motion(c) {
        ExecPlan::RepeatMotion(c)
    } else {
        ExecPlan::Fire {
            cmd: c,
            to_normal: v.mode.report == ModeReport::Visual && v.editor.select_mode is None,
        }
    }
}

/// A command given for a selection that ends it.
pub open spec fn ends_visual(v: ShedV, cmd: EditCmd) -> bool {
    v.mode.report == ModeReport::Visual && (may_edit(cmd) || (cmd.verb matches Some(Cmd(_, w))
        && w is Yank))
}

/// The mode behind a command that went to the buffer.
pub open spec fn report_after(v: ShedV, cmd: EditCmd) -> ModeReport {
    if ends_visual(v, cmd) {
        ModeReport::Normal
    } else {
        v.mode.report
    }
}

pub open spec fn is_guest(r: ModeReport) -> bool {
    r == ModeReport::Ex || r == ModeReport::Verbatim
}

/// The state once a command went to the buffer.
pub open spec fn exec_ended(v: ShedV, cmd: EditCmd) -> ShedV {
    ShedV {
        editor: if report_after(v, cmd) != ModeReport::Visual && v.editor.select_mode is Some {
            unselected(v.editor)
        } else {
            v.editor
        },
        saved_mode: if cmd.flags.exit_cur_mode && is_guest(report_after(v, cmd)) {
            None
        } else {
            v.saved_mode
        },
        ..v
    }
}

/// Where a command that leaves the mode leads.
pub open spec fn exit_mode(v: ShedV, cmd: EditCmd) -> Option<NewMode> {
    if !cmd.flags.exit_cur_mode {
        None
    } else if is_guest(report_after(v, cmd)) && v.saved_mode is Some {
        Some(NewMode::Saved)
    } else {
        Some(NewMode::Normal)
    }
}

/// The low half of a count.
pub open spec fn short_count(n: usize) -> u16 {
    (n % 0x1_0000) as u16
}

/// The mode that a verb leads to.
pub open spec fn verb_mode(v: ShedV, cmd: EditCmd) -> NewMode {
    let n = cmd.verb.unwrap().0;
    match cmd.verb.unwrap().1 {
        Verb::ExMode => NewMode::Ex { selecting: v.editor.select_mode is Some },
        Verb::VerbatimMode => NewMode::Verbatim { count: short_count(n) },
        Verb::NormalMode => NewMode::Normal,
        Verb::ReplaceMode => NewMode::Replace,
        Verb::VisualModeSelectLast => NewMode::Visual,
        Verb::VisualMode => NewMode::Visual,
        Verb::VisualModeLine => NewMode::Visual,
        Verb::SearchMode => NewMode::Search(n),
        Verb::RevSearchMode => NewMode::RevSearch(n),
        _ => NewMode::Insert { count: short_count(n), cmd: Some(cmd) },
    }
}

/// The command leaves a mode that was a guest.
pub open spec fn leaves_guest(v: ShedV, cmd: EditCmd) -> bool {
    is_guest(v.mode.report) && cmd.flags.exit_cur_mode
}

/// The mode that a command leads to.
pub open spec fn transition_mode(v: ShedV, cmd: EditCmd) -> NewMode {
    if leaves_guest(v, cmd) {
        if v.mode.report == ModeReport::Ex && v.saved_mode == Some(ModeReport::Visual) {
            NewMode::Normal
        } else if v.saved_mode is Some {
            NewMode::Saved
        } else {
            NewMode::Normal
        }
    } else {
        verb_mode(v, cmd)
    }
}

/// The state before the mode changes.
pub open spec fn transition_begun(v: ShedV, cmd: EditCmd) -> ShedV {
    if leaves_guest(v, cmd) {
        if v.mode.report == ModeReport::Ex && v.saved_mode == Some(ModeReport::Visual) {
            ShedV { editor: unselected(v.editor), ..v }
        } else {
            ShedV { saved_mode: None, ..v }
        }
    } else {
        let w = cmd.verb.unwrap().1;
        ShedV {
            editor: if w is VisualMode || (w is VisualModeSelectLast && v.mode.report
                != ModeReport::Visual) {
                BufV { select_mode: Some(SelectMode::Char(v.editor.cursor.pos)), ..v.editor }
            } else if w is VisualModeLine {
                BufV { select_mode: Some(SelectMode::Line(v.editor.cursor.pos)), ..v.editor }
            } else {
                v.editor
            },
            ..v
        }
    }
}

/// The buffer with a run of edits ended.
pub open spec fn unmerged(b: BufV) -> BufV {
    BufV {
        merging_undos: false,
        undo_stack: last_marked(b.undo_stack, false).push(
            EditV {
                old_cursor: b.cursor.pos,
                new_cursor: b.cursor.pos,
                old: b.lines,
                new: b.lines,
                merging: false,
            },
        ),
        ..b
    }
}

/// The state in the new mode, before the command goes to the buffer.
pub open spec fn transition_entered(v: ShedV, left: ModeReport, replay: Option<CmdReplay>, from_replay: bool) -> ShedV {
    let b = if left == ModeReport::Insert || left == ModeReport::Replace {
        unmerged(v.editor)
    } else {
        v.editor
    };
    if is_guest(v.mode.report) {
        refreshed(ShedV { editor: b, saved_mode: Some(left), ..v })
    } else {
        ShedV {
            editor: clamp_set(b, v.mode.clamp),
            repeat_action: if replay is Some && !from_replay {
                replay
            } else {
                v.repeat_action
            },
            ..v
        }
    }
}

/// The command that goes to the buffer in the new mode.
pub open spec fn transition_cmd(b: BufV, cmd: EditCmd) -> EditCmd {
    let visual = cmd.verb matches Some(Cmd(_, w)) && (w is VisualMode || w is VisualModeLine);
    if visual {
        cmd
    } else {
        on_selection(b, cmd)
    }
}

/// The state once the command went to the buffer in the new mode.
pub open spec fn transition_ended(v: ShedV, left: ModeReport, insert: bool) -> ShedV {
    let b = if left == ModeReport::Visual && v.editor.select_mode is Some {
        unselected(v.editor)
    } else {
        v.editor
    };
    refreshed(
        ShedV {
            editor: BufV {
                insert_mode_start_pos: if insert {
                    Some(b.cursor.pos)
                } else {
                    None
                },
                ..b
            },
            ..v
        },
    )
}

/// A command with another count.
pub open spec fn recounted(cmd: EditCmd, n: usize) -> EditCmd {
    EditCmd {
        verb: Some(Cmd(n, cmd.verb.unwrap().1)),
        motion: match cmd.motion {
            Some(Cmd(_, m)) => Some(Cmd(1, m)),
            None => None,
        },
        ..cmd
    }
}

/// A round of commands: they run in order, and from the first on their edits
/// become one, to be undone at once. Then the mode is as before.
pub open spec fn round_of(cmds: Seq<EditCmd>, back: NewMode) -> Seq<RepeatStep> {
    let runs = Seq::new(cmds.len(), |i: int| RepeatStep::Exec(cmds[i]));
    let merged = if cmds.len() == 0 {
        runs
    } else {
        runs.insert(1, RepeatStep::StartMerge)
    };
    merged + seq![RepeatStep::StopMerge, RepeatStep::Back(back)]
}

/// What repeating the last command comes to; a count other than one takes the
/// place of its own.
pub open spec fn repeats(v: ShedV, cmd: EditCmd, r: RepeatPlan) -> bool {
    let n = cmd.verb.unwrap().0;
    match v.repeat_action {
        None => r is Nothing,
        Some(CmdReplay::ModeReplay { cmds, repeat }) => {
            r matches RepeatPlan::Mode { round, repeat: k } && round@ == round_of(
                cmds@,
                anew(v.mode.report, v.editor.select_mode is Some),
            ) && k == (if n > 1 {
                short_count(n)
            } else {
                repeat
            })
        },
        Some(CmdReplay::Single(c)) => if n <= 1 {
            r == RepeatPlan::Single(*c)
        } else if c.verb is Some {
            r == RepeatPlan::Single(recounted(*c, n))
        } else {
            r is Nothing
        },
    }
}

/// The motion that repeating the last character search comes to.
pub open spec fn repeated_motion(v: ShedV, cmd: EditCmd) -> Option<Cmd<Motion>> {
    match v.repeat_motion {
        Some(m) => if cmd.motion.unwrap().1 is RepeatMotionRev {
            Some(Cmd(cmd.motion.unwrap().0, inverted(m).1))
        } else {
            Some(m)
        },
        None => None,
    }
}

fn shorten(n: usize) -> (r: u16)
    ensures
        r == short_count(n),
{
    (n % 0x1_0000) as u16
}

/// A round of commands.
fn repeat_round(cmds: &Vec<EditCmd>, back: NewMode) -> (r: Vec<RepeatStep>)
    ensures
        r@ == round_of(cmds@, back),
{
    let mut r: Vec<RepeatStep> = Vec::new();
    let ghost runs = Seq::new(cmds@.len(), |i: int| RepeatStep::Exec(cmds@[i]));
    let ghost merged = if cmds@.len() == 0 {
        runs
    } else {
        runs.insert(1, RepeatStep::StartMerge)
    };
    let mut i: usize = 0;
    while i < cmds.len()
        invariant
            i <= cmds@.len(),
            runs == Seq::new(cmds@.len(), |i: int| RepeatStep::Exec(cmds@[i])),
            merged == if cmds@.len() == 0 {
                runs
            } else {
                runs.insert(1, RepeatStep::StartMerge)
            },
            r@ == if i == 0 {
                Seq::empty()
            } else {
                merged.take(i + 1)
            },
        decreases cmds@.len() - i,
    {
        let again = cmds[i].copy();
        r.push(RepeatStep::Exec(again));
        if i == 0 {
            r.push(RepeatStep::StartMerge);
        }
        i += 1;
        assert(r@ =~= merged.take(i + 1));
    }
    r.push(RepeatStep::StopMerge);
    r.push(RepeatStep::Back(back));
    assert(r@ =~= round_of(cmds@, back));
    r
}

impl ShedLine {
    /// Begins a command.
    pub fn exec_cmd(&mut self, cmd: EditCmd, from_replay: bool) -> (p: ExecPlan)
        requires
            shed_wf(old(self)@),
        ensures
            p == exec_plan(old(self)@, cmd),
            final(self)@ == exec_begun(old(self)@, cmd, from_replay),
            shed_wf(final(self)@),
    {
        let mut c = cmd;
        if c.verb.is_some() {
            if let Some(range) = self.editor.select_range() {
                c.set_motion(Cmd(1, range));
            }
        }
        assert(c == on_selection(old(self)@.editor, cmd));
        if c.flags.is_cancel {
            self.editor.clear_pending_search();
        }
        let ghost b = self.editor@;
        assert(selection(b) == selection(old(self)@.editor));
        assert(self@ =~= (ShedV { editor: b, ..old(self)@ }));
        if c.is_mode_transition() {
            return ExecPlan::Transition(c);
        }
        if c.is_cmd_repeat() {
            return ExecPlan::Repeat(c);
        }
        if c.is_motion_repeat() {
            return ExecPlan::RepeatMotion(c);
        }
        let visual = self.mode.report == ModeReport::Visual;
        let leaves = visual && !self.editor.is_selecting();
        if leaves {
            self.editor.stop_selecting();
        }
        if c.is_repeatable() && !from_replay {
            let mut again = c.copy();
            if visual {
                if let Some(shape) = self.editor.select_mode() {
                    again.set_motion(Cmd(1, shape));
                }
            }
            assert(again == to_repeat(old(self)@, b, c));
            self.repeat_action = Some(CmdReplay::Single(Box::new(again)));
        }
        if c.is_char_search() {
            self.repeat_motion = match &c.motion {
                Some(Cmd(n, m)) => Some(Cmd(*n, m.clone())),
                None => None,
            };
        }
        assert(self@ =~= exec_begun(old(self)@, cmd, from_replay));
        ExecPlan::Fire { cmd: c, to_normal: leaves }
    }

    /// A command went to the buffer. One that ran a shell command may have
    /// changed what the prompt shows.
    pub fn fire_editor_command(&mut self, cmd: &EditCmd)
        ensures
            final(self)@ == if runs_shell(*cmd) {
                refreshed(ShedV { needs_redraw: true, ..old(self)@ })
            } else {
                old(self)@
            },
    {
        if cmd.is_shell_cmd() {
            self.mark_dirty();
        }
    }

    /// Ends a command that went to the buffer.
    pub fn end_exec(&mut self, cmd: &EditCmd) -> (e: ExecEnd)
        requires
            shed_wf(old(self)@),
        ensures
            e.to_normal == ends_visual(old(self)@, *cmd),
            e.exit == exit_mode(old(self)@, *cmd),
            final(self)@ == exec_ended(old(self)@, *cmd),
            shed_wf(final(self)@),
    {
        let yank = match &cmd.verb {
            Some(Cmd(_, Verb::Yank)) => true,
            _ => false,
        };
        let visual = self.mode.report == ModeReport::Visual;
        let to_normal = visual && (cmd.is_edit() || yank);
        if (!visual || to_normal) && self.editor.is_selecting() {
            self.editor.stop_selecting();
        }
        let exit = if cmd.flags.exit_cur_mode {
            let guest = match self.mode.report {
                ModeReport::Ex => true,
                ModeReport::Verbatim => true,
                _ => false,
            };
            if guest {
                let saved = self.saved_mode.is_some();
                self.saved_mode = None;
                if saved {
                    Some(NewMode::Saved)
                } else {
                    Some(NewMode::Normal)
                }
            } else {
                Some(NewMode::Normal)
            }
        } else {
            None
        };
        assert(self@ =~= exec_ended(old(self)@, *cmd));
        ExecEnd { to_normal, exit }
    }

    /// Begins a command that leads to another mode.
    pub fn exec_mode_transition(&mut self, cmd: &EditCmd) -> (t: Transition)
        requires
            shed_wf(old(self)@),
            changes_mode(*cmd),
        ensures
            t.mode == transition_mode(old(self)@, *cmd),
            t.insert == (t.mode is Insert),
            t.fire_only == (!leaves_guest(old(self)@, *cmd)
                && cmd.verb.unwrap().1 is VisualModeSelectLast),
            final(self)@ == transition_begun(old(self)@, *cmd),
            shed_wf(final(self)@),
    {
        let guest = match self.mode.report {
            ModeReport::Ex => true,
            ModeReport::Verbatim => true,
            _ => false,
        };
        if guest && cmd.flags.exit_cur_mode {
            let over_visual = match self.saved_mode {
                Some(ModeReport::Visual) => true,
                _ => false,
            };
            if self.mode.report == ModeReport::Ex && over_visual {
                self.editor.stop_selecting();
                assert(self@ =~= transition_begun(old(self)@, *cmd));
                return Transition { mode: NewMode::Normal, insert: false, fire_only: false };
            }
            let saved = self.saved_mode.is_some();
            self.saved_mode = None;
            assert(self@ =~= transition_begun(old(self)@, *cmd));
            let mode = if saved {
                NewMode::Saved
            } else {
                NewMode::Normal
            };
            return Transition { mode, insert: false, fire_only: false };
        }
        let n = cmd.verb_count();
        let mut fire_only = false;
        let mut insert = false;
        let mode = match &cmd.verb {
            Some(Cmd(_, Verb::ExMode)) => NewMode::Ex { selecting: self.editor.is_selecting() },
            Some(Cmd(_, Verb::VerbatimMode)) => NewMode::Verbatim { count: shorten(n) },
            Some(Cmd(_, Verb::NormalMode)) => NewMode::Normal,
            Some(Cmd(_, Verb::ReplaceMode)) => NewMode::Replace,
            Some(Cmd(_, Verb::VisualModeSelectLast)) => {
                fire_only = true;
                if self.mode.report != ModeReport::Visual {
                    self.editor.start_char_select();
                }
                NewMode::Visual
            },
            Some(Cmd(_, Verb::VisualMode)) => {
                self.editor.start_char_select();
                NewMode::Visual
            },
            Some(Cmd(_, Verb::VisualModeLine)) => {
                self.editor.start_line_select();
                NewMode::Visual
            },
            Some(Cmd(_, Verb::SearchMode)) => NewMode::Search(n),
            Some(Cmd(_, Verb::RevSearchMode)) => NewMode::RevSearch(n),
            _ => {
                insert = true;
                NewMode::Insert { count: shorten(n), cmd: Some(cmd.copy()) }
            },
        };
        assert(self@ =~= transition_begun(old(self)@, *cmd));
        Transition { mode, insert, fire_only }
    }

    /// The new mode is there: `left` was left for it, with `replay` to repeat
    /// from it. Gives the command that goes to the buffer now, unless the new
    /// mode is a guest.
    pub fn enter_mode(
        &mut self,
        cmd: &EditCmd,
        left: ModeReport,
        replay: Option<CmdReplay>,
        from_replay: bool,
    ) -> (r: Option<EditCmd>)
        requires
            shed_wf(old(self)@),
        ensures
            final(self)@ == transition_entered(old(self)@, left, replay, from_replay),
            r == if is_guest(old(self)@.mode.report) {
                None
            } else {
                Some(transition_cmd(old(self)@.editor, *cmd))
            },
            shed_wf(final(self)@),
    {
        let typed = match left {
            ModeReport::Insert => true,
            ModeReport::Replace => true,
            _ => false,
        };
        if typed {
            self.editor.stop_undo_merge();
        }
        let ghost b = self.editor@;
        assert(self@ =~= (ShedV { editor: b, ..old(self)@ }));
        assert(selection(b) == selection(old(self)@.editor));
        let guest = match self.mode.report {
            ModeReport::Ex => true,
            ModeReport::Verbatim => true,
            _ => false,
        };
        if guest {
            self.saved_mode = Some(left);
            assert(self@ =~= (ShedV { editor: b, saved_mode: Some(left), ..old(self)@ }));
            self.refresh_prompt();
            return None;
        }
        if replay.is_some() && !from_replay {
            self.repeat_action = replay;
        }
        let mut c = cmd.copy();
        let visual = match &cmd.verb {
            Some(Cmd(_, Verb::VisualMode)) => true,
            Some(Cmd(_, Verb::VisualModeLine)) => true,
            _ => false,
        };
        if cmd.verb.is_some() && !visual {
            if let Some(range) = self.editor.select_range() {
                c.set_motion(Cmd(1, range));
            }
        }
        self.editor.set_cursor_clamp(self.mode.clamp);
        assert(self@ =~= transition_entered(old(self)@, left, replay, from_replay));
        Some(c)
    }

    /// The command went to the buffer in the new mode.
    pub fn end_transition(&mut self, left: ModeReport, insert: bool)
        requires
            shed_wf(old(self)@),
        ensures
            final(self)@ == transition_ended(old(self)@, left, insert),
            shed_wf(final(self)@),
    {
        if left == ModeReport::Visual && self.editor.is_selecting() {
            self.editor.stop_selecting();
        }
        let ghost b = self.editor@;
        if insert {
            self.editor.mark_insert_mode_start_pos();
        } else {
            self.editor.clear_insert_mode_start_pos();
        }
        assert(self@ =~= (ShedV {
            editor: BufV {
                insert_mode_start_pos: if insert {
                    Some(b.cursor.pos)
                } else {
                    None
                },
                ..b
            },
            ..old(self)@
        }));
        self.refresh_prompt();
    }

    /// What repeating the last command comes to.
    pub fn handle_cmd_repeat(&self, cmd: &EditCmd) -> (r: RepeatPlan)
        requires
            cmd.verb is Some,
        ensures
            repeats(self@, *cmd, r),
    {
        let n = cmd.verb_count();
        match &self.repeat_action {
            None => RepeatPlan::Nothing,
            Some(CmdReplay::ModeReplay { cmds, repeat }) => {
                let again: u16 = if n > 1 {
                    shorten(n)
                } else {
                    *repeat
                };
                let back = mode_anew(self.mode.report, self.editor.is_selecting());
                RepeatPlan::Mode { round: repeat_round(cmds, back), repeat: again }
            },
            Some(CmdReplay::Single(c)) => {
                let mut again = c.copy();
                if n > 1 {
                    match again.verb {
                        Some(Cmd(_, v)) => {
                            again.verb = Some(Cmd(n, v));
                        },
                        None => {
                            return RepeatPlan::Nothing;
                        },
                    }
                    again.motion = match again.motion {
                        Some(Cmd(_, m)) => Some(Cmd(1, m)),
                        None => None,
                    };
                    assert(again == recounted(**c, n));
                }
                RepeatPlan::Single(again)
            },
        }
    }

    /// The command that repeating the last character search comes to.
    pub fn handle_motion_repeat(&self, cmd: &EditCmd) -> (r: Option<EditCmd>)
        requires
            repeats_motion(*cmd),
        ensures
            match r {
                Some(c) => {
                    &&& c.motion == repeated_motion(self@, *cmd)
                    &&& c.motion is Some
                    &&& c.verb == cmd.verb
                    &&& c.register == reg_name(None)
                    &&& c.flags == no_flags()
                    &&& c.raw_seq@ == digits_of(cmd.motion.unwrap().0 as int, 10).push(
                        if cmd.motion.unwrap().1 is RepeatMotionRev {
                            ','
                        } else {
                            ';'
                        },
                    )
                },
                None => self@.repeat_motion is None,
            },
    {
        let m = match &self.repeat_motion {
            Some(Cmd(n, m)) => Cmd(*n, m.clone()),
            None => {
                return None;
            },
        };
        let mut c = cmd.copy();
        c.register = RegisterName::default();
        c.flags = CmdFlags::empty();
        match &cmd.motion {
            Some(Cmd(n, Motion::RepeatMotionRev)) => {
                let back = invert_char_motion(m);
                c.motion = Some(Cmd(*n, back.1));
                c.raw_seq = count_text(*n);
                c.raw_seq.push(',');
            },
            Some(Cmd(n, _)) => {
                c.motion = Some(m);
                c.raw_seq = count_text(*n);
                c.raw_seq.push(';');
            },
            None => {},
        }
        Some(c)
    }
}

/// A repeated command is the same however often it is repeated: repeating does
/// not change what is repeated.
pub proof fn law_repeating_keeps_what_is_repeated(v: ShedV, cmd: EditCmd)
    ensures
        exec_begun(v, cmd, true).repeat_action == v.repeat_action,
{
}

/// Leaving a mode that was entered as a guest leads back to the mode it was
/// entered from; from a selection, an ex command leads to normal mode.
pub proof fn law_guest_mode_leads_back(v: ShedV, left: ModeReport, cmd: EditCmd)
    requires
        is_guest(v.mode.report),
        cmd.flags.exit_cur_mode,
    ensures
        transition_mode(transition_entered(v, left, None, false), cmd) == if v.mode.report
            == ModeReport::Ex && left == ModeReport::Visual {
            NewMode::Normal
        } else {
            NewMode::Saved
        },
        exit_mode(transition_entered(v, left, None, false), cmd) == Some(NewMode::Saved),
{
}

} // verus!
