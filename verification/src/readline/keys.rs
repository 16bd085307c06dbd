//! What a key leads to.

use vstd::prelude::*;
use crate::editcmd::{
    copy_text, no_flags, normal_seq, quits, scroll_offset_of, scrolls_virtually, submits, Cmd,
    EditCmd, Motion, Verb,
};
use crate::keys::{no_mods, KeyCode, KeyEvent, KeyEventV, ModKeys};
use crate::linebuf::address::ex_rows;
use crate::linebuf::buffer::{
    fixed, fresh, hinted, in_leading_ws, line_at, no_text, with_cursor, with_lines, wf, BufV, LineBuf,
};
use crate::linebuf::edit::{levels_of, parse_fails};
use crate::linebuf::history::{history_expanded, use_changes, HistUse};
use crate::linebuf::hint::hint_text;
use crate::linebuf::lines::{all_blank, before, blank, cluster_count, text_of};
use crate::linebuf::notices::{node_flaws, noted};
use crate::linebuf::places::{flat_start, place_of};
use crate::linebuf::pos::Pos;
use crate::readline::acts::{act_if, Act, ActV};
use crate::readline::complete::at_end;
use crate::readline::mode::{op_pending, Mode, ModeReport};
use crate::readline::record::fed;
use crate::readline::scroll::edit_recorded;
use crate::readline::session::{
    clamp_set, focus, focus_history, mode_swapped, refreshed, shed_wf, with_focus_history, ScrollV,
    ShedLine, ShedV,
};
use crate::register::{stored, RegV, RegisterName, Registers};
use crate::seqs::{group_views, sat, views};
use crate::shell::{env_ok, settled, Answer, Ask, Env, Opts};
use crate::statusline::StatusLine;

verus! {

broadcast use group_views;

/// What the prompt does about a key.
#[derive(Debug)]
pub enum LineCmd {
    Execute(EditCmd),
    SubmitLine(EditCmd),
    AppendHint,
    ScrollHist(isize),
    /// Put a history entry together with the text.
    ScrollHistVirtual(EditCmd),
    EndOfFile,
    Quit,
    ClearScreen,
    ResetWidget,
    /// Type keys in normal mode, in each of some rows.
    NormalSeq(Vec<usize>, String),
    TriggerCompletion,
    TriggerHistSearch,
}

#[verifier::ext_equal]
pub enum LineCmdV {
    Execute(EditCmd),
    SubmitLine(EditCmd),
    AppendHint,
    ScrollHist(isize),
    ScrollHistVirtual(EditCmd),
    EndOfFile,
    Quit,
    ClearScreen,
    ResetWidget,
    NormalSeq(Seq<usize>, Seq<char>),
    TriggerCompletion,
    TriggerHistSearch,
}

impl View for LineCmd {
    type V = LineCmdV;

    open spec fn view(&self) -> LineCmdV {
        match self {
            LineCmd::Execute(c) => LineCmdV::Execute(*c),
            LineCmd::SubmitLine(c) => LineCmdV::SubmitLine(*c),
            LineCmd::AppendHint => LineCmdV::AppendHint,
            LineCmd::ScrollHist(n) => LineCmdV::ScrollHist(*n),
            LineCmd::ScrollHistVirtual(c) => LineCmdV::ScrollHistVirtual(*c),
            LineCmd::EndOfFile => LineCmdV::EndOfFile,
            LineCmd::Quit => LineCmdV::Quit,
            LineCmd::ClearScreen => LineCmdV::ClearScreen,
            LineCmd::ResetWidget => LineCmdV::ResetWidget,
            LineCmd::NormalSeq(v, s) => LineCmdV::NormalSeq(v@, s@),
            LineCmd::TriggerCompletion => LineCmdV::TriggerCompletion,
            LineCmd::TriggerHistSearch => LineCmdV::TriggerHistSearch,
        }
    }
}

impl LineCmd {
    /// Back to normal mode.
    pub fn switch_to_normal() -> (c: LineCmd)
        ensures
            c matches LineCmd::Execute(cmd) && cmd.verb == Some(Cmd(1, Verb::NormalMode))
                && cmd.motion is None && cmd.flags == no_flags() && cmd.register
                == crate::register::reg_name(None) && cmd.raw_seq@ == Seq::<char>::empty(),
    {
        let mut cmd = EditCmd::new();
        cmd.set_verb(Cmd(1, Verb::NormalMode));
        LineCmd::Execute(cmd)
    }
}

/// A key without modifiers.
pub open spec fn is_plain(key: KeyEvent, code: KeyCode) -> bool {
    key.code == code && key.mods == no_mods()
}

fn plain(key: &KeyEvent, code: KeyCode) -> (r: bool)
    ensures
        r == is_plain(*key, code),
{
    key.code == code && !key.mods.ctrl && !key.mods.alt && !key.mods.shift
}

/// There is a hint, and the cursor is where it begins.
pub open spec fn hint_ahead(b: BufV) -> bool {
    at_end(b) && (b.hint matches Some(h) && !all_blank(hint_text(h)))
}

/// The key takes the hint over.
pub open spec fn takes_hint(v: ShedV, key: KeyEvent) -> bool {
    hint_ahead(v.editor) && match v.mode.report {
        ModeReport::Replace | ModeReport::Insert | ModeReport::Emacs => is_plain(
            key,
            KeyCode::Right,
        ),
        ModeReport::Visual | ModeReport::Normal => is_plain(key, KeyCode::Right) || (!op_pending(
            v.mode,
        ) && is_plain(key, KeyCode::Char('l'))),
        _ => false,
    }
}

/// What is done about a key before the mode sees it.
pub open spec fn resolved_key(v: ShedV, key: KeyEvent) -> Option<LineCmdV> {
    if takes_hint(v, key) {
        Some(LineCmdV::AppendHint)
    } else if key.code == KeyCode::Tab && !in_leading_ws(focus(v)) {
        Some(LineCmdV::TriggerCompletion)
    } else if key.code == KeyCode::Char('r') && key.mods == (ModKeys {
        ctrl: true,
        alt: false,
        shift: false,
    }) && (v.mode.report == ModeReport::Emacs || v.mode.report == ModeReport::Insert
        || v.mode.report == ModeReport::Ex) {
        Some(LineCmdV::TriggerHistSearch)
    } else {
        None
    }
}

/// The command goes beyond the text, into the history.
pub open spec fn grabs_history(b: BufV, cmd: EditCmd) -> bool {
    ||| scrolls_virtually(cmd)
    ||| (cmd.verb matches Some(Cmd(_, v)) && (v is HistoryUp || v is HistoryDown))
    ||| (cmd.verb is None && (cmd.motion matches Some(Cmd(_, m)) && m is LineUp) && flat_start(
        b.lines,
        b.cursor.pos.row as int,
    ) == 0)
    ||| ((cmd.motion matches Some(Cmd(_, m)) && m is LineDown) && on_last_line(b)
        && !cmd.flags.is_submit)
}

/// The cursor is in the last line, and the hint has no more.
pub open spec fn on_last_line(b: BufV) -> bool {
    b.cursor.pos.row == (if b.lines.len() > 0 {
        b.lines.len() - 1
    } else {
        0
    }) && hinted(b).len() <= 1
}

/// The line editor once it is known what is done about a command: the user is
/// told of patterns that are none in the address of a sequence of keys.
pub open spec fn resolved_in(v: ShedV, cmd: EditCmd) -> ShedV {
    if normal_seq(cmd) is Some {
        ShedV { editor: noted(v.editor, node_flaws(v.editor, node_of(cmd))), ..v }
    } else {
        v
    }
}

/// What is done about a command.
pub open spec fn resolved(v: ShedV, cmd: EditCmd, hist_cat: bool) -> LineCmdV {
    if cmd.verb matches Some(Cmd(_, w)) && w is Interrupt {
        LineCmdV::ResetWidget
    } else if normal_seq(cmd) is Some {
        LineCmdV::NormalSeq(ex_rows(v.editor, node_of(cmd)), normal_seq(cmd).unwrap()@)
    } else if grabs_history(v.editor, cmd) {
        if hist_cat && (cmd.flags.has_shift || cmd.flags.has_ctrl) {
            LineCmdV::ScrollHistVirtual(cmd)
        } else {
            LineCmdV::ScrollHist(scroll_offset_of(cmd).unwrap())
        }
    } else if submits(cmd) {
        LineCmdV::SubmitLine(cmd)
    } else if cmd.verb matches Some(Cmd(_, w)) && w is DeleteOrEof {
        if no_text(focus(v).lines) {
            LineCmdV::EndOfFile
        } else {
            LineCmdV::Execute(
                EditCmd { verb: Some(Cmd(cmd.verb.unwrap().0, Verb::Delete)), ..cmd },
            )
        }
    } else if cmd.verb matches Some(Cmd(_, w)) && w is ClearScreen {
        LineCmdV::ClearScreen
    } else if (cmd.verb matches Some(Cmd(_, w)) && w is EndOfFile) && no_text(focus(v).lines) {
        LineCmdV::EndOfFile
    } else if quits(cmd) {
        LineCmdV::Quit
    } else if cmd.verb matches Some(Cmd(_, w)) && w is AcceptHint {
        LineCmdV::AppendHint
    } else {
        LineCmdV::Execute(cmd)
    }
}

/// The ex command of a command.
pub open spec fn node_of(cmd: EditCmd) -> crate::editcmd::ExNode {
    cmd.verb.unwrap().1->ExCmd_0
}

/// Where a key goes.
#[derive(Clone, Copy, Debug, PartialEq, Eq, Structural)]
pub enum Route {
    HistSearch,
    Completion,
    /// To the mode, past the key maps.
    Direct,
    Keymap,
}

/// What becomes of keys that may be a key map.
#[derive(Debug)]
pub struct KeyRun {
    /// The keys to handle now.
    pub keys: Vec<KeyEvent>,
    /// Whether to draw again when they were handled.
    pub redraw: bool,
}

/// What a line that was entered leads to.
#[derive(Clone, Copy, Debug, PartialEq, Eq, Structural)]
pub enum SubmitStep {
    /// The history was put in; nothing is submitted yet.
    Expanded,
    Submit,
    /// The line goes on: run the command.
    Run,
}

/// What a macro or a command needs to run.
#[derive(Debug)]
pub enum RunPlan {
    Nothing,
    Replay(Vec<KeyEvent>),
    Exec,
}

/// What is drawn for a cleared screen.
#[derive(Clone, Copy, Debug, PartialEq, Eq, Structural)]
pub enum ScreenStep {
    /// Scroll by so many rows, and go to a row.
    Park { scroll: usize, row: u16 },
    /// Scroll by so many rows, and go up as many.
    Scroll(usize),
    Nothing,
}

/// What is to be done about a key.
#[derive(Debug)]
pub enum KeyStep {
    Run(EditCmd),
    Submit(EditCmd),
    AcceptHint,
    /// Scroll the history.
    Scroll(isize),
    /// Put history entries together with the text.
    Join(EditCmd),
    /// The input ends.
    Eof,
    /// Begin anew.
    Reset,
    ClearScreen,
    /// Type keys in normal mode, in each of some rows; all of it is one edit.
    Type(Vec<usize>, String),
    Complete,
    /// Search the history.
    Search,
}

#[verifier::ext_equal]
pub enum KeyStepV {
    Run(EditCmd),
    Submit(EditCmd),
    AcceptHint,
    Scroll(isize),
    Join(EditCmd),
    Eof,
    Reset,
    ClearScreen,
    Type(Seq<usize>, Seq<char>),
    Complete,
    Search,
}

impl View for KeyStep {
    type V = KeyStepV;

    open spec fn view(&self) -> KeyStepV {
        match self {
            KeyStep::Run(c) => KeyStepV::Run(*c),
            KeyStep::Submit(c) => KeyStepV::Submit(*c),
            KeyStep::AcceptHint => KeyStepV::AcceptHint,
            KeyStep::Scroll(n) => KeyStepV::Scroll(*n),
            KeyStep::Join(c) => KeyStepV::Join(*c),
            KeyStep::Eof => KeyStepV::Eof,
            KeyStep::Reset => KeyStepV::Reset,
            KeyStep::ClearScreen => KeyStepV::ClearScreen,
            KeyStep::Type(v, s) => KeyStepV::Type(v@, s@),
            KeyStep::Complete => KeyStepV::Complete,
            KeyStep::Search => KeyStepV::Search,
        }
    }
}

/// What is to be done about a key. The end of the input is one only where
/// nothing is typed.
pub open spec fn key_step(v: ShedV, c: LineCmdV) -> KeyStepV {
    match c {
        LineCmdV::Execute(c) => KeyStepV::Run(c),
        LineCmdV::SubmitLine(c) => KeyStepV::Submit(c),
        LineCmdV::AppendHint => KeyStepV::AcceptHint,
        LineCmdV::ScrollHist(n) => KeyStepV::Scroll(n),
        LineCmdV::ScrollHistVirtual(c) => KeyStepV::Join(c),
        LineCmdV::EndOfFile => if text_of(focus(v).lines).len() == 0 {
            KeyStepV::Eof
        } else {
            KeyStepV::Reset
        },
        LineCmdV::Quit => KeyStepV::Eof,
        LineCmdV::ClearScreen => KeyStepV::ClearScreen,
        LineCmdV::ResetWidget => KeyStepV::Reset,
        LineCmdV::NormalSeq(rows, s) => KeyStepV::Type(rows, s),
        LineCmdV::TriggerCompletion => KeyStepV::Complete,
        LineCmdV::TriggerHistSearch => KeyStepV::Search,
    }
}

/// The state as that begins.
pub open spec fn key_begun(v: ShedV, c: LineCmdV) -> ShedV {
    let b = if c is NormalSeq {
        merging(v.editor)
    } else {
        v.editor
    };
    ShedV {
        editor: if c is ScrollHistVirtual {
            b
        } else {
            BufV { concat_points: Seq::empty(), ..b }
        },
        needs_redraw: v.needs_redraw || c is ScrollHist || c is ScrollHistVirtual,
        ..v
    }
}

/// What the prompt came to.
#[derive(Debug)]
pub enum ReadlineEvent {
    /// A complete line was entered.
    Line(String),
    /// The input ends.
    Eof,
    /// No complete input yet.
    Pending,
}

/// What takes the keys.
#[derive(Clone, Copy, Debug, PartialEq, Eq, Structural)]
pub enum Widget {
    Completer,
    Finder,
    Nothing,
}

/// Whether a line is complete: in normal mode always, else where no backslash
/// stands before the cursor and the text to the cursor is no open block.
pub open spec fn complete_line<S: Fn(&str, Ask) -> Answer>(v: ShedV, shell: S) -> bool {
    let b = v.editor;
    let l = line_at(b.lines, b.cursor.pos.row);
    let escaped = 0 < b.cursor.pos.col <= l.len() && l[b.cursor.pos.col - 1] == seq!['\\'];
    let text = text_of(before(b.lines, b.cursor.pos));
    if v.mode.report == ModeReport::Normal {
        true
    } else if escaped && (v.mode.report == ModeReport::Emacs || v.mode.report
        == ModeReport::Insert) {
        false
    } else {
        levels_of(shell, text).last().1 == 0 && !parse_fails(shell, text)
    }
}

/// The text searched for, as the mode has it.
pub open spec fn search_shown(v: ShedV) -> ShedV {
    if v.mode.report == ModeReport::Search || v.mode.report == ModeReport::RevSearch {
        ShedV {
            editor: BufV {
                pending_search: crate::linebuf::buffer::search_after(
                    crate::linebuf::buffer::opt_view(v.mode.pending_seq),
                    v.editor.pending_search,
                ),
                ..v.editor
            },
            needs_redraw: true,
            ..v
        }
    } else {
        v
    }
}

/// The buffer when its line is submitted: no hint, the cursor at the end.
pub open spec fn submit_ready(b: BufV, opts: Opts) -> BufV {
    let c = BufV { hint: None, ..b };
    let max = if c.lines.len() == 1 {
        c.lines[0].len() as int
    } else {
        sat(cluster_count(c.lines)) as int
    };
    fixed(with_cursor(c, place_of(c.lines, max)), opts)
}

/// The words for a key that is pressed in vain.
pub open spec fn ctrl_d_text() -> Seq<char> {
    "Ctrl+D only quits in insert mode. try ':q' or entering insert mode with 'i'"@
}

/// The state after a command, from the text and the cursor before it.
pub open spec fn run_ended(v: ShedV, cmd: EditCmd, text: Seq<char>, cursor: Pos) -> ShedV {
    let idle = text == text_of(v.editor.lines) && !edits_surely(cmd) && cursor
        == v.editor.cursor.pos && (cmd.motion matches Some(Cmd(_, m)) && m is HalfScreenDown);
    ShedV {
        ctrl_d_warning_counter: if !idle {
            v.ctrl_d_warning_counter
        } else if v.ctrl_d_warning_counter == 3 || no_text(v.editor.lines) {
            0
        } else {
            sat(v.ctrl_d_warning_counter + 1)
        },
        needs_redraw: true,
        ..v
    }
}

/// What is left to do after a command.
pub open spec fn run_acts(v: ShedV, cmd: EditCmd, text: Seq<char>, cursor: Pos) -> Seq<ActV> {
    let idle = cursor == v.editor.cursor.pos && (cmd.motion matches Some(Cmd(_, m))
        && m is HalfScreenDown);
    (if text != text_of(v.editor.lines) {
        seq![ActV::MarkMaskStale]
    } else if edits_surely(cmd) {
        seq![ActV::Bell]
    } else {
        act_if(
            idle && (v.ctrl_d_warning_counter == 3 || no_text(v.editor.lines)),
            ActV::StatusMsg(ctrl_d_text()),
        )
    }).push(ActV::UpdateHint)
}

/// The command is one that changes the text, if it does anything.
pub open spec fn edits_surely(cmd: EditCmd) -> bool {
    crate::editcmd::may_edit(cmd) && !(cmd.verb matches Some(Cmd(_, v)) && v is Change)
}

/// The register a macro is played from.
pub open spec fn played(v: ShedV, cmd: EditCmd) -> Option<RegisterName> {
    if cmd.register.letter() is Some {
        Some(cmd.register)
    } else {
        v.repeat_macro
    }
}

/// The keys a register plays.
pub open spec fn macro_keys<S: Fn(&str, Ask) -> Answer>(r: Option<RegV>, shell: S) -> Option<
    Seq<KeyEventV>,
> {
    match r {
        None => None,
        Some(RegV::Empty) => None,
        Some(RegV::Span(l)) => Some(answer_keys(l, shell)),
        Some(RegV::Line(l)) => Some(answer_keys(l, shell)),
        Some(RegV::Block(l)) => Some(answer_keys(l, shell)),
        Some(RegV::Macro(keys)) => Some(keys),
    }
}

/// The keys a text spells.
pub open spec fn answer_keys<S: Fn(&str, Ask) -> Answer>(l: crate::linebuf::lines::LinesV, shell: S) -> Seq<
    KeyEventV,
> {
    crate::shell::answer(shell, text_of(l), Ask::Keys).keys
}

/// The edits that follow are one.
pub open spec fn merging(b: BufV) -> BufV {
    BufV {
        merging_undos: true,
        undo_stack: crate::linebuf::undo::last_marked(b.undo_stack, true),
        ..b
    }
}

impl ShedLine {
    /// Whether a key takes the hint over.
    pub fn should_accept_hint(&self, key: &KeyEvent) -> (r: bool)
        requires
            shed_wf(self@),
        ensures
            r == takes_hint(self@, *key),
    {
        if !(self.editor.cursor_at_max() && self.editor.has_hint()) {
            return false;
        }
        match self.mode.report {
            ModeReport::Replace => plain(key, KeyCode::Right),
            ModeReport::Insert => plain(key, KeyCode::Right),
            ModeReport::Emacs => plain(key, KeyCode::Right),
            ModeReport::Visual => plain(key, KeyCode::Right) || (!self.mode.is_op_pending() && plain(
                key,
                KeyCode::Char('l'),
            )),
            ModeReport::Normal => plain(key, KeyCode::Right) || (!self.mode.is_op_pending() && plain(
                key,
                KeyCode::Char('l'),
            )),
            _ => false,
        }
    }

    /// Whether a command goes beyond the text, into the history.
    pub fn should_grab_history(&self, cmd: &EditCmd) -> (r: bool)
        requires
            shed_wf(self@),
        ensures
            r == grabs_history(self@.editor, *cmd),
    {
        if cmd.is_virtual_scroll() {
            return true;
        }
        match &cmd.verb {
            Some(Cmd(_, Verb::HistoryUp)) => {
                return true;
            },
            Some(Cmd(_, Verb::HistoryDown)) => {
                return true;
            },
            _ => {},
        }
        match &cmd.motion {
            Some(Cmd(_, Motion::LineUp)) => {
                proof {
                    crate::linebuf::places::lemma_flat_start_nonneg(
                        self.editor@.lines,
                        self.editor@.cursor.pos.row as int,
                    );
                }
                cmd.verb.is_none() && self.editor.start_of_line() == 0
            },
            Some(Cmd(_, Motion::LineDown)) => self.editor.on_last_line() && !cmd.flags.is_submit,
            _ => false,
        }
    }

    /// What is done about a key before the mode sees it; nothing where the
    /// mode is to see it.
    pub fn resolve_key(&self, key: &KeyEvent) -> (r: Option<LineCmd>)
        requires
            shed_wf(self@),
        ensures
            match r {
                Some(c) => resolved_key(self@, *key) == Some(c@),
                None => resolved_key(self@, *key) is None,
            },
    {
        if self.should_accept_hint(key) {
            return Some(LineCmd::AppendHint);
        }
        if key.code == KeyCode::Tab && self.should_complete() {
            return Some(LineCmd::TriggerCompletion);
        }
        let typing = match self.mode.report {
            ModeReport::Emacs => true,
            ModeReport::Insert => true,
            ModeReport::Ex => true,
            _ => false,
        };
        if key.code == KeyCode::Char('r') && key.mods.ctrl && !key.mods.alt && !key.mods.shift
            && typing {
            return Some(LineCmd::TriggerHistSearch);
        }
        None
    }

    /// The rows that a command acts on.
    pub fn extract_line_nums(&self, cmd: &EditCmd) -> (v: Vec<usize>)
        requires
            shed_wf(self@),
        ensures
            v@ == match cmd.verb {
                Some(Cmd(_, Verb::ExCmd(node))) => ex_rows(self@.editor, node),
                _ => seq![self@.editor.cursor.pos.row],
            },
    {
        match &cmd.verb {
            Some(Cmd(_, Verb::ExCmd(node))) => match self.editor.lines_for_ex_node(node) {
                Ok(v) => v,
                Err(_) => Vec::new(),
            },
            _ => {
                let mut v: Vec<usize> = Vec::new();
                v.push(self.editor.row());
                assert(v@ =~= seq![self@.editor.cursor.pos.row]);
                v
            },
        }
    }

    /// What is done about a command.
    pub fn resolve_cmd(&mut self, cmd: EditCmd, hist_cat: bool) -> (r: LineCmd)
        requires
            shed_wf(old(self)@),
        ensures
            r@ == resolved(old(self)@, cmd, hist_cat),
            final(self)@ == resolved_in(old(self)@, cmd),
            shed_wf(final(self)@),
    {
        if let Some(Cmd(_, Verb::Interrupt)) = &cmd.verb {
            return LineCmd::ResetWidget;
        }
        if let Some(seq) = cmd.try_get_normal_seq() {
            let rows = self.extract_line_nums(&cmd);
            if let Some(Cmd(_, Verb::ExCmd(node))) = &cmd.verb {
                let msgs = self.editor.node_notices(node);
                self.editor.note(msgs);
            }
            assert(self@ =~= resolved_in(old(self)@, cmd));
            return LineCmd::NormalSeq(rows, seq.clone());
        }
        if self.should_grab_history(&cmd) {
            if hist_cat && (cmd.flags.has_shift || cmd.flags.has_ctrl) {
                return LineCmd::ScrollHistVirtual(cmd);
            }
            match cmd.history_scroll_offset() {
                Some(n) => {
                    return LineCmd::ScrollHist(n);
                },
                None => {},
            }
        }
        if cmd.is_submit_action() {
            return LineCmd::SubmitLine(cmd);
        }
        match &cmd.verb {
            Some(Cmd(n, Verb::DeleteOrEof)) => {
                if self.focused_editor().is_empty() {
                    return LineCmd::EndOfFile;
                }
                return LineCmd::Execute(cmd.new_with_verb(Some(Cmd(*n, Verb::Delete))));
            },
            Some(Cmd(_, Verb::ClearScreen)) => {
                return LineCmd::ClearScreen;
            },
            Some(Cmd(_, Verb::EndOfFile)) => {
                if self.focused_editor().is_empty() {
                    return LineCmd::EndOfFile;
                }
            },
            Some(Cmd(_, Verb::AcceptHint)) => {
                return LineCmd::AppendHint;
            },
            _ => {},
        }
        if cmd.is_quit() {
            return LineCmd::Quit;
        }
        LineCmd::Execute(cmd)
    }

    /// Where the next key goes. `past_completion`: the candidates have passed
    /// it on.
    pub fn dispatch_key(&self, past_completion: bool) -> (r: Route)
        ensures
            r == if focus_history(self@).searching {
                Route::HistSearch
            } else if self@.completing && !past_completion {
                Route::Completion
            } else if op_pending(self@.mode) || self@.mode.input {
                Route::Direct
            } else {
                Route::Keymap
            },
    {
        if self.is_searching() {
            Route::HistSearch
        } else if self.completing && !past_completion {
            Route::Completion
        } else if self.mode.is_op_pending() || self.mode.input {
            Route::Direct
        } else {
            Route::Keymap
        }
    }

    /// Keeps a key that may be part of a key map.
    pub fn buffer_key(&mut self, key: &KeyEvent)
        ensures
            final(self)@ == (ShedV {
                pending_keymap: old(self)@.pending_keymap.push(key@),
                ..old(self)@
            }),
    {
        self.pending_keymap.push(key.clone());
    }

    /// Goes by the key maps that begin with the keys kept: `count` of them,
    /// the first one `exact` or not, with its `action`. Where there is none
    /// the keys are themselves again; where there is more than one, or more
    /// to come, the keys stay.
    pub fn handle_keymap(&mut self, count: usize, exact: bool, action: Vec<KeyEvent>) -> (r: KeyRun)
        ensures
            if count == 0 {
                &&& views(r.keys@) == old(self)@.pending_keymap
                &&& r.redraw
                &&& final(self)@ == (ShedV { pending_keymap: Seq::empty(), ..old(self)@ })
            } else if count == 1 && exact {
                &&& views(r.keys@) == views(action@)
                &&& r.redraw
                &&& final(self)@ == (ShedV { pending_keymap: Seq::empty(), ..old(self)@ })
            } else {
                &&& views(r.keys@) == Seq::<KeyEventV>::empty()
                &&& !r.redraw
                &&& final(self)@ == old(self)@
            },
    {
        if count == 0 {
            let mut keys: Vec<KeyEvent> = Vec::new();
            std::mem::swap(&mut self.pending_keymap, &mut keys);
            assert(self@ =~= (ShedV { pending_keymap: Seq::empty(), ..old(self)@ }));
            KeyRun { keys, redraw: true }
        } else if count == 1 && exact {
            self.pending_keymap = Vec::new();
            assert(self@ =~= (ShedV { pending_keymap: Seq::empty(), ..old(self)@ }));
            KeyRun { keys: action, redraw: true }
        } else {
            KeyRun { keys: Vec::new(), redraw: false }
        }
    }

    /// Lets the macro being recorded have the key first. A plain `q` ends it,
    /// and is used up.
    pub fn record_key<S: Fn(&str, Ask) -> Answer>(
        &mut self,
        key: &KeyEvent,
        regs: &mut Registers,
        shell: &S,
    ) -> (used: bool)
        requires
            settled(*shell),
        ensures
            match old(self)@.macro_record {
                None => !used && final(self)@ == old(self)@ && final(regs)@ == old(regs)@,
                Some((reg, keys)) => if is_plain(*key, KeyCode::Char('q')) {
                    &&& used
                    &&& final(self)@ == (ShedV {
                        macro_record: None,
                        repeat_macro: Some(reg),
                        ..old(self)@
                    })
                    &&& final(regs)@ == stored(
                        old(regs)@,
                        reg.letter(),
                        reg.appends(),
                        RegV::Macro(keys),
                        *shell,
                    )
                } else {
                    &&& !used
                    &&& final(self)@ == (ShedV {
                        macro_record: fed(old(self)@.macro_record, key@),
                        ..old(self)@
                    })
                    &&& final(regs)@ == old(regs)@
                },
            },
    {
        if !self.macro_record.is_recording() {
            return false;
        }
        if plain(key, KeyCode::Char('q')) {
            let done = self.macro_record.commit_recording(regs, shell);
            self.repeat_macro = done;
            assert(self@ =~= (ShedV {
                macro_record: None,
                repeat_macro: done,
                ..old(self)@
            }));
            return true;
        }
        self.macro_record.feed_key_event(key.clone());
        false
    }

    /// Whether the line is complete.
    pub fn should_submit<S: Fn(&str, Ask) -> Answer>(&mut self, env: &Env<S>) -> (r: bool)
        requires
            shed_wf(old(self)@),
            env_ok(*env),
        ensures
            r == complete_line(old(self)@, env.shell),
            final(self)@ == old(self)@,
    {
        if self.mode.report == ModeReport::Normal {
            return true;
        }
        if self.editor.cursor_is_escaped() && (self.mode.report == ModeReport::Emacs
            || self.mode.report == ModeReport::Insert) {
            return false;
        }
        let (depth, failed) = self.editor.cursor_indent_level(env);
        assert(self@ =~= old(self)@);
        depth == 0 && !failed
    }

    /// The command has run into nothing: shows what is searched for.
    pub fn update_editor_search(&mut self)
        ensures
            final(self)@ == search_shown(old(self)@),
    {
        let searching = match self.mode.report {
            ModeReport::Search => true,
            ModeReport::RevSearch => true,
            _ => false,
        };
        if searching {
            let seq = copy_text(&self.mode.pending_seq);
            self.editor.update_pending_search(seq);
            self.needs_redraw = true;
            assert(self@ =~= search_shown(old(self)@));
        }
    }

    /// A key came to nothing yet.
    pub fn no_command(&mut self)
        ensures
            final(self)@ == (ShedV { needs_redraw: true, ..search_shown(old(self)@) }),
    {
        self.update_editor_search();
        self.needs_redraw = true;
    }

    /// A key went to the mode past the key maps.
    pub fn after_direct(&mut self)
        ensures
            ({
                let v = search_shown(old(self)@);
                final(self)@ == (ShedV { editor: clamp_set(v.editor, v.mode.clamp), ..v })
            }),
    {
        self.update_editor_search();
        let ghost v = self@;
        self.editor.set_cursor_clamp(self.mode.clamp);
        assert(self@ =~= (ShedV { editor: clamp_set(v.editor, v.mode.clamp), ..v }));
    }

    /// Begins what a key leads to, and says what is to be done. Only putting
    /// entries together goes on from where it was.
    pub fn handle_key(&mut self, cmd: LineCmd) -> (r: KeyStep)
        requires
            shed_wf(old(self)@),
        ensures
            final(self)@ == key_begun(old(self)@, cmd@),
            r@ == key_step(old(self)@, cmd@),
            shed_wf(final(self)@),
    {
        let step = match cmd {
            LineCmd::ScrollHistVirtual(c) => {
                self.needs_redraw = true;
                return KeyStep::Join(c);
            },
            LineCmd::Execute(c) => KeyStep::Run(c),
            LineCmd::SubmitLine(c) => KeyStep::Submit(c),
            LineCmd::AppendHint => KeyStep::AcceptHint,
            LineCmd::ScrollHist(n) => {
                self.needs_redraw = true;
                KeyStep::Scroll(n)
            },
            LineCmd::EndOfFile => {
                let text = self.focused_editor().joined();
                if text.as_str().is_empty() {
                    KeyStep::Eof
                } else {
                    KeyStep::Reset
                }
            },
            LineCmd::Quit => KeyStep::Eof,
            LineCmd::ClearScreen => KeyStep::ClearScreen,
            LineCmd::ResetWidget => KeyStep::Reset,
            LineCmd::NormalSeq(rows, seq) => {
                self.editor.start_undo_merge();
                KeyStep::Type(rows, seq)
            },
            LineCmd::TriggerCompletion => KeyStep::Complete,
            LineCmd::TriggerHistSearch => KeyStep::Search,
        };
        self.editor.clear_concats();
        assert(self@ =~= key_begun(old(self)@, cmd@));
        step
    }

    /// What to draw for a cleared screen: with the status line the prompt goes
    /// to the bottom of the scroll region, else to the top of the screen.
    pub fn clear_screen(
        &mut self,
        statline: bool,
        region: Option<(u16, u16)>,
        cursor_row: Option<usize>,
    ) -> (r: ScreenStep)
        ensures
            ({
                let parked = statline && region is Some;
                let top = sat(
                    (match cursor_row {
                        Some(n) => n as int,
                        None => 1,
                    }) - (match old(self)@.old_layout {
                        Some(l) => l.cursor.row as int,
                        None => 0,
                    }),
                );
                &&& final(self)@ == (ShedV {
                    needs_redraw: true,
                    old_layout: if parked {
                        None
                    } else {
                        old(self)@.old_layout
                    },
                    ..old(self)@
                })
                &&& r == if parked {
                    let (a, b) = region.unwrap();
                    ScreenStep::Park { scroll: (sat(b - a) + 1) as usize, row: b }
                } else if top > 1 {
                    ScreenStep::Scroll((top - 1) as usize)
                } else {
                    ScreenStep::Nothing
                }
            }),
    {
        self.needs_redraw = true;
        if statline {
            if let Some((a, b)) = region {
                let height: usize = b.saturating_sub(a) as usize + 1;
                self.old_layout = None;
                return ScreenStep::Park { scroll: height, row: b };
            }
        }
        let row: usize = match cursor_row {
            Some(n) => n,
            None => 1,
        };
        let off: usize = match &self.old_layout {
            Some(l) => l.cursor.row,
            None => 0,
        };
        let top = row.saturating_sub(off);
        if top > 1 {
            ScreenStep::Scroll(top - 1)
        } else {
            ScreenStep::Nothing
        }
    }

    /// What a line that was entered leads to, its alias and its history
    /// expansions put in. `found` are the exclamation marks in the text once
    /// the alias is in.
    pub fn submit_line<S: Fn(&str, Ask) -> Answer>(
        &mut self,
        found: &[HistUse],
        linebreak_on_incomplete: bool,
        env: &Env<S>,
    ) -> (r: SubmitStep)
        requires
            shed_wf(old(self)@),
            env_ok(*env),
        ensures
            ({
                let v = ShedV {
                    editor: history_expanded(old(self)@.editor, views(found@), env.shell),
                    ..old(self)@
                };
                &&& final(self)@ == v
                &&& r == if use_changes(
                    old(self)@.editor.lines,
                    views(found@),
                    found@.len() as int,
                ).len() > 0 {
                    SubmitStep::Expanded
                } else if complete_line(v, env.shell) || !linebreak_on_incomplete {
                    SubmitStep::Submit
                } else {
                    SubmitStep::Run
                }
            }),
            shed_wf(final(self)@),
    {
        let expanded = self.editor.attempt_history_expansion(found, env);
        assert(self@ =~= (ShedV {
            editor: history_expanded(old(self)@.editor, views(found@), env.shell),
            ..old(self)@
        }));
        if expanded {
            SubmitStep::Expanded
        } else if self.should_submit(env) || !linebreak_on_incomplete {
            SubmitStep::Submit
        } else {
            SubmitStep::Run
        }
    }

    /// Brings the buffer in order for the last time it is drawn.
    pub fn begin_submit(&mut self, opts: &Opts)
        requires
            shed_wf(old(self)@),
        ensures
            final(self)@ == (ShedV {
                editor: submit_ready(old(self)@.editor, *opts),
                ..old(self)@
            }),
            shed_wf(final(self)@),
    {
        self.editor.clear_hint();
        let max = self.editor.cursor_max();
        self.editor.set_cursor_from_flat(max, opts);
        assert(self@ =~= (ShedV { editor: submit_ready(old(self)@.editor, *opts), ..old(self)@ }));
    }

    /// Takes the line out of the buffer.
    pub fn submit(&mut self, trim: bool) -> (s: String)
        requires
            shed_wf(old(self)@),
        ensures
            ({
                let b = if trim {
                    with_lines(
                        old(self)@.editor,
                        crate::linebuf::change::trimmed_lines(old(self)@.editor.lines),
                    )
                } else {
                    old(self)@.editor
                };
                &&& s@ == text_of(b.lines)
                &&& final(self)@ == (ShedV {
                    editor: with_cursor(with_lines(b, seq![blank()]), Pos { row: 0, col: 0 }),
                    blank_rows_above: 0,
                    overlay_displacement: 0,
                    ..old(self)@
                })
            }),
            shed_wf(final(self)@),
    {
        if trim {
            self.editor.trim();
        }
        self.blank_rows_above = 0;
        self.overlay_displacement = 0;
        let s = self.editor.take_buf();
        assert(self@ =~= (ShedV {
            editor: self.editor@,
            blank_rows_above: 0,
            overlay_displacement: 0,
            ..old(self)@
        }));
        s
    }

    /// Takes the hint over.
    pub fn accept_hint<S: Fn(&str, Ask) -> Answer>(&mut self, at_pending: bool, env: &Env<S>) -> (v: Vec<
        Act,
    >)
        requires
            shed_wf(old(self)@),
            env_ok(*env),
        ensures
            final(self)@ == (ShedV {
                editor: edit_recorded(
                    old(self)@.editor,
                    crate::linebuf::hint_ops::hint_accepted(old(self)@.editor, *env),
                ),
                needs_redraw: true,
                ..old(self)@
            }),
            views(v@) == act_if(!at_pending, ActV::ResetToPending).push(ActV::UpdatePending),
            shed_wf(final(self)@),
    {
        let was = self.editor.snapshot();
        self.editor.accept_hint(env);
        self.editor.record_edit(was);
        self.needs_redraw = true;
        assert(self@ =~= (ShedV { editor: self.editor@, needs_redraw: true, ..old(self)@ }));
        let mut v: Vec<Act> = Vec::new();
        if !at_pending {
            v.push(Act::ResetToPending);
        }
        v.push(Act::UpdatePending);
        assert(views(v@) =~= act_if(!at_pending, ActV::ResetToPending).push(ActV::UpdatePending));
        v
    }

    /// Begins a command: macros are recorded and played here, everything else
    /// is to be run.
    pub fn begin_run<S: Fn(&str, Ask) -> Answer>(
        &mut self,
        cmd: &EditCmd,
        regs: &mut Registers,
        shell: &S,
    ) -> (r: RunPlan)
        requires
            settled(*shell),
        ensures
            ({
                let v = old(self)@;
                match cmd.verb {
                    Some(Cmd(_, Verb::RecordMacro)) => {
                        &&& r is Nothing
                        &&& if cmd.register.letter() is None {
                            final(self)@ == v && final(regs)@ == old(regs)@
                        } else {
                            &&& final(self)@ == (ShedV {
                                macro_record: Some((cmd.register, Seq::empty())),
                                ..v
                            })
                            &&& final(regs)@ == stored(
                                old(regs)@,
                                cmd.register.letter(),
                                cmd.register.appends(),
                                RegV::Empty,
                                *shell,
                            )
                        }
                    },
                    Some(Cmd(_, Verb::PlayMacro)) => {
                        let keys = match played(v, *cmd) {
                            Some(reg) => macro_keys(
                                crate::register::held_by(old(regs)@, reg.letter()),
                                *shell,
                            ),
                            None => None,
                        };
                        &&& final(regs)@ == old(regs)@
                        &&& match keys {
                            Some(k) => r matches RunPlan::Replay(w) && views(w@) == k && final(self)@ == (
                            ShedV { editor: merging(v.editor), ..v }),
                            None => r is Nothing && final(self)@ == v,
                        }
                    },
                    _ => r is Exec && final(self)@ == v && final(regs)@ == old(regs)@,
                }
            }),
    {
        match &cmd.verb {
            Some(Cmd(_, Verb::RecordMacro)) => {
                if cmd.register.is_none() {
                    return RunPlan::Nothing;
                }
                cmd.register.write_to_register(
                    regs,
                    crate::register::RegisterContent::Empty,
                    shell,
                );
                self.macro_record.start_recording(cmd.register);
                assert(self@ =~= (ShedV {
                    macro_record: Some((cmd.register, Seq::empty())),
                    ..old(self)@
                }));
                RunPlan::Nothing
            },
            Some(Cmd(_, Verb::PlayMacro)) => {
                let target = if !cmd.register.is_none() {
                    cmd.register
                } else {
                    match self.repeat_macro {
                        Some(reg) => reg,
                        None => {
                            return RunPlan::Nothing;
                        },
                    }
                };
                let content = match target.read_from_register(regs) {
                    Some(c) => c,
                    None => {
                        return RunPlan::Nothing;
                    },
                };
                let keys = match content.into_keys(shell) {
                    Some(k) => k,
                    None => {
                        return RunPlan::Nothing;
                    },
                };
                self.editor.start_undo_merge();
                assert(self@ =~= (ShedV { editor: merging(old(self)@.editor), ..old(self)@ }));
                RunPlan::Replay(keys)
            },
            _ => RunPlan::Exec,
        }
    }

    /// Ends a command, from the text and the cursor before it.
    pub fn run_cmd(&mut self, cmd: &EditCmd, text: &str, cursor: Pos) -> (v: Vec<Act>)
        requires
            shed_wf(old(self)@),
        ensures
            final(self)@ == run_ended(old(self)@, *cmd, text@, cursor),
            views(v@) == run_acts(old(self)@, *cmd, text@, cursor),
            shed_wf(final(self)@),
    {
        let mut v: Vec<Act> = Vec::new();
        let change = match &cmd.verb {
            Some(Cmd(_, Verb::Change)) => true,
            _ => false,
        };
        let down = match &cmd.motion {
            Some(Cmd(_, Motion::HalfScreenDown)) => true,
            _ => false,
        };
        let now = self.editor.joined();
        let same = crate::text::same_text(text, now.as_str());
        if !same {
            v.push(Act::MarkMaskStale);
        } else if cmd.is_edit() && !change {
            v.push(Act::Bell);
        } else if cursor == self.editor.cursor() && down {
            if self.ctrl_d_warning_counter == 3 || self.editor.is_empty() {
                v.push(
                    Act::StatusMsg(
                        String::from_str(
                            "Ctrl+D only quits in insert mode. try ':q' or entering insert mode with 'i'",
                        ),
                    ),
                );
                self.ctrl_d_warning_counter = 0;
            } else {
                self.ctrl_d_warning_counter = self.ctrl_d_warning_counter.saturating_add(1);
            }
        }
        v.push(Act::UpdateHint);
        self.needs_redraw = true;
        assert(views(v@) =~= run_acts(old(self)@, *cmd, text@, cursor));
        assert(self@ =~= run_ended(old(self)@, *cmd, text@, cursor));
        v
    }

    /// Which widget has the keys; the one that has is to be drawn again.
    pub fn reset_active_widget(&mut self) -> (w: Widget)
        ensures
            w == if old(self)@.completing {
                Widget::Completer
            } else if focus_history(old(self)@).searching {
                Widget::Finder
            } else {
                Widget::Nothing
            },
            final(self)@ == (ShedV {
                needs_redraw: old(self)@.needs_redraw || w != Widget::Nothing,
                ..old(self)@
            }),
    {
        let w = if self.completing {
            Widget::Completer
        } else if self.is_searching() {
            Widget::Finder
        } else {
            Widget::Nothing
        };
        if w != Widget::Nothing {
            self.needs_redraw = true;
        }
        assert(self@ =~= (ShedV {
            needs_redraw: old(self)@.needs_redraw || w != Widget::Nothing,
            ..old(self)@
        }));
        w
    }

    /// A new prompt in a mode. `statline` is the status line to show from now
    /// on, where there was none.
    pub fn reset(&mut self, mode: Mode, full_redraw: bool, statline: Option<StatusLine>)
        requires
            shed_wf(old(self)@),
        ensures
            final(self)@ == reset_state(old(self)@, mode, full_redraw, statline),
            shed_wf(final(self)@),
    {
        self.refresh_prompt();
        self.editor = LineBuf::new();
        assert(self@ =~= (ShedV { editor: fresh(), ..refreshed(old(self)@) }));
        self.swap_mode(mode);
        self.needs_redraw = true;
        if full_redraw {
            self.old_layout = None;
        }
        if self.statline.is_none() && statline.is_some() {
            self.old_layout = None;
            self.statline = statline;
        }
        let _ = self.take_pending();
        assert(self@ =~= reset_state(old(self)@, mode, full_redraw, statline));
    }
}

/// A new prompt: nothing typed, nothing kept of the history.
pub open spec fn reset_state(v: ShedV, mode: Mode, full_redraw: bool, statline: Option<StatusLine>) -> ShedV {
    let w = mode_swapped(ShedV { editor: fresh(), ..refreshed(v) }, mode);
    let begins = w.statline is None && statline is Some;
    let x = ShedV {
        needs_redraw: true,
        old_layout: if full_redraw || begins {
            None
        } else {
            v.old_layout
        },
        statline: if begins {
            statline
        } else {
            w.statline
        },
        ..w
    };
    with_focus_history(x, ScrollV { pending: None, ..focus_history(x) })
}

/// The last row of the scroll region when the status line appears, and how far
/// to scroll so that the cursor stays in it.
pub fn room_for_statline(total_rows: u16, cursor_row: Option<u16>) -> (r: (u16, u16))
    ensures
        r.0 == if total_rows >= 3 {
            (total_rows - 2) as u16
        } else {
            1
        },
        r.1 == match cursor_row {
            Some(n) => if n > r.0 {
                (n - r.0) as u16
            } else {
                0
            },
            None => 0,
        },
{
    let bottom: u16 = if total_rows >= 3 {
        total_rows - 2
    } else {
        1
    };
    let scroll: u16 = match cursor_row {
        Some(n) => n.saturating_sub(bottom),
        None => 0,
    };
    (bottom, scroll)
}

/// The line that is submitted is the text that was typed: bringing the buffer
/// in order for it changes nothing of the text.
pub proof fn law_submitting_keeps_text(b: BufV, opts: Opts)
    requires
        wf(b),
    ensures
        submit_ready(b, opts).lines == b.lines,
        wf(submit_ready(b, opts)),
{
}

/// The input ends only where nothing is typed, or where it is asked to.
pub proof fn law_typed_text_is_not_lost(v: ShedV, cmd: EditCmd, hist_cat: bool)
    requires
        key_step(v, resolved(v, cmd, hist_cat)) is Eof,
    ensures
        text_of(focus(v).lines).len() == 0 || quits(cmd),
{
}

} // verus!
