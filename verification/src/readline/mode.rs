//! The editing modes, as far as the prompt goes by them.

use vstd::prelude::*;
use crate::editcmd::EditCmd;

verus! {

#[derive(Clone, Copy, Debug, PartialEq, Eq, Structural)]
pub enum ModeReport {
    Insert,
    Normal,
    Ex,
    Visual,
    Replace,
    Verbatim,
    Emacs,
    Remote,
    Search,
    RevSearch,
}

/// What the prompt reads of the mode it is in.
#[derive(Debug)]
pub struct Mode {
    pub report: ModeReport,
    /// The keys typed towards the next command, where the mode keeps them.
    pub pending_seq: Option<String>,
    /// The mode takes keys as they are.
    pub input: bool,
    /// The cursor stays on clusters.
    pub clamp: bool,
}

impl Clone for Mode {
    fn clone(&self) -> (m: Mode)
        ensures
            m == *self,
    {
        Mode {
            report: self.report,
            pending_seq: crate::editcmd::copy_text(&self.pending_seq),
            input: self.input,
            clamp: self.clamp,
        }
    }
}

/// Keys are being typed towards the next command.
pub open spec fn op_pending(m: Mode) -> bool {
    m.pending_seq matches Some(s) && s@.len() > 0
}

impl Mode {
    /// Whether keys are being typed towards the next command.
    pub fn is_op_pending(&self) -> (r: bool)
        ensures
            r == op_pending(*self),
    {
        match &self.pending_seq {
            Some(s) => !s.as_str().is_empty(),
            None => false,
        }
    }
}

/// The mode to go to.
#[derive(Debug)]
pub enum NewMode {
    /// With the count and the command that led to it, for repeating.
    Insert { count: u16, cmd: Option<EditCmd> },
    Normal,
    Ex { selecting: bool },
    Visual,
    Replace,
    Verbatim { count: u16 },
    Emacs,
    Remote,
    Search(usize),
    RevSearch(usize),
    /// The mode that was left for the current one.
    Saved,
}

/// What can be done again.
#[derive(Debug)]
pub enum CmdReplay {
    /// The commands given in a mode.
    ModeReplay { cmds: Vec<EditCmd>, repeat: u16 },
    Single(Box<EditCmd>),
}

/// The modes a key map applies to.
#[derive(Clone, Copy, Debug, PartialEq, Eq, Structural)]
pub struct KeyMapFlags {
    pub insert: bool,
    pub normal: bool,
    pub ex: bool,
    pub visual: bool,
    pub replace: bool,
    pub verbatim: bool,
    pub emacs: bool,
    pub remote: bool,
    pub op_pending: bool,
}

/// The flags of a mode.
pub open spec fn keymap_flags(m: Mode) -> KeyMapFlags {
    KeyMapFlags {
        insert: m.report == ModeReport::Insert,
        normal: m.report == ModeReport::Normal,
        ex: m.report == ModeReport::Ex,
        visual: m.report == ModeReport::Visual,
        replace: m.report == ModeReport::Replace,
        verbatim: m.report == ModeReport::Verbatim,
        emacs: m.report == ModeReport::Emacs,
        remote: m.report == ModeReport::Remote,
        op_pending: op_pending(m),
    }
}

impl Mode {
    /// The flags that key maps go by.
    pub fn keymap_flags(&self) -> (f: KeyMapFlags)
        ensures
            f == keymap_flags(*self),
    {
        let r = self.report;
        KeyMapFlags {
            insert: r == ModeReport::Insert,
            normal: r == ModeReport::Normal,
            ex: r == ModeReport::Ex,
            visual: r == ModeReport::Visual,
            replace: r == ModeReport::Replace,
            verbatim: r == ModeReport::Verbatim,
            emacs: r == ModeReport::Emacs,
            remote: r == ModeReport::Remote,
            op_pending: self.is_op_pending(),
        }
    }
}

/// The mode that a report names, made anew.
pub open spec fn anew(r: ModeReport, selecting: bool) -> NewMode {
    match r {
        ModeReport::Normal => NewMode::Normal,
        ModeReport::Insert => NewMode::Insert { count: 1, cmd: None },
        ModeReport::Visual => NewMode::Visual,
        ModeReport::Replace => NewMode::Replace,
        ModeReport::Verbatim => NewMode::Verbatim { count: 1 },
        ModeReport::Emacs => NewMode::Emacs,
        ModeReport::Remote => NewMode::Remote,
        ModeReport::Ex => NewMode::Ex { selecting },
        ModeReport::Search => NewMode::Search(1),
        ModeReport::RevSearch => NewMode::RevSearch(1),
    }
}

/// The mode that a report names, made anew.
pub fn mode_anew(r: ModeReport, selecting: bool) -> (m: NewMode)
    ensures
        m == anew(r, selecting),
{
    match r {
        ModeReport::Normal => NewMode::Normal,
        ModeReport::Insert => NewMode::Insert { count: 1, cmd: None },
        ModeReport::Visual => NewMode::Visual,
        ModeReport::Replace => NewMode::Replace,
        ModeReport::Verbatim => NewMode::Verbatim { count: 1 },
        ModeReport::Emacs => NewMode::Emacs,
        ModeReport::Remote => NewMode::Remote,
        ModeReport::Ex => NewMode::Ex { selecting },
        ModeReport::Search => NewMode::Search(1),
        ModeReport::RevSearch => NewMode::RevSearch(1),
    }
}

/// The mode to start in, and to come back to.
pub open spec fn home_mode(vi: bool) -> NewMode {
    if vi {
        NewMode::Insert { count: 1, cmd: None }
    } else {
        NewMode::Emacs
    }
}

/// The mode to start in, and to come back to.
pub fn start_mode(vi: bool) -> (m: NewMode)
    ensures
        m == home_mode(vi),
{
    if vi {
        NewMode::Insert { count: 1, cmd: None }
    } else {
        NewMode::Emacs
    }
}

/// The mode to change to so that the mode fits the `vi` option, where it does
/// not.
pub fn fix_editing_mode(report: ModeReport, vi: bool) -> (r: Option<NewMode>)
    ensures
        r == if vi == (report == ModeReport::Emacs) {
            Some(home_mode(vi))
        } else {
            None
        },
{
    if vi == (report == ModeReport::Emacs) {
        Some(start_mode(vi))
    } else {
        None
    }
}

} // verus!
