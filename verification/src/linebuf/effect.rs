//! What a command asks of the outside.

use vstd::prelude::*;
use crate::editcmd::{EditCmd, ReadSrc, StashArgs, WriteDest};
use crate::linebuf::lines::{Lines, LinesV};
use crate::linebuf::pos::{MotionKind, Pos};

verus! {

/// The text and the cursor before a command.
#[derive(Debug)]
pub struct Snapshot {
    pub lines: Lines,
    pub cursor: Pos,
}

#[verifier::ext_equal]
pub struct SnapshotV {
    pub lines: LinesV,
    pub cursor: Pos,
}

impl View for Snapshot {
    type V = SnapshotV;

    open spec fn view(&self) -> SnapshotV {
        SnapshotV { lines: self.lines@, cursor: self.cursor }
    }
}

/// Where the cursor is, counted from one, and how much of the text lies before
/// it.
#[derive(Clone, Copy, Debug, PartialEq, Eq, Structural)]
pub struct Position {
    pub row: usize,
    pub lines: usize,
    pub col: usize,
    pub before: usize,
    pub total: usize,
}

/// A shell command to run, with what it is told of the buffer.
#[derive(Debug)]
pub struct ShellJob {
    pub command: String,
    /// The lines it filters, and the row they stood in.
    pub input: Option<(String, usize)>,
    pub buffer: String,
    /// The byte of the cursor in the text.
    pub cursor: usize,
    /// The byte of the start of the selection in the text.
    pub anchor: Option<usize>,
    /// The running number of the cursor's place.
    pub flat: usize,
}

#[verifier::ext_equal]
pub struct ShellJobV {
    pub command: Seq<char>,
    pub input: Option<(Seq<char>, usize)>,
    pub buffer: Seq<char>,
    pub cursor: usize,
    pub anchor: Option<usize>,
    pub flat: usize,
}

impl View for ShellJob {
    type V = ShellJobV;

    open spec fn view(&self) -> ShellJobV {
        ShellJobV {
            command: self.command@,
            input: match self.input {
                Some((s, row)) => Some((s@, row)),
                None => None,
            },
            buffer: self.buffer@,
            cursor: self.cursor,
            anchor: self.anchor,
            flat: self.flat,
        }
    }
}

/// What is left to do once a command ran.
#[derive(Debug)]
pub enum Effect {
    /// Nothing.
    Done,
    /// Tell where the cursor is.
    Report(Position),
    /// Expand what a motion covers, aliases alone or everything.
    Expand { all: bool, range: Option<MotionKind> },
    /// Open files in an editor.
    Edit(String),
    /// Write the text somewhere.
    Write(WriteDest),
    /// Read a text from somewhere and put it in.
    Read(ReadSrc),
    /// Run a shell command.
    Shell(ShellJob),
    /// Do something with the stash.
    Stash(StashArgs),
    /// Do the first thing; then go on with the rows left of a global command,
    /// from the last.
    Rows { first: Box<Effect>, rest: Vec<usize>, global: EditCmd },
    /// Do the first thing; then end the command.
    Finish { first: Box<Effect>, cmd: EditCmd, before: Snapshot },
}

pub enum EffectV {
    Done,
    Report(Position),
    Expand { all: bool, range: Option<MotionKind> },
    Edit(Seq<char>),
    Write(WriteDest),
    Read(ReadSrc),
    Shell(ShellJobV),
    Stash(StashArgs),
    Rows { first: Box<EffectV>, rest: Seq<usize>, global: EditCmd },
    Finish { first: Box<EffectV>, cmd: EditCmd, before: SnapshotV },
}

/// The view of an effect.
pub open spec fn effect_view(e: Effect) -> EffectV
    decreases e,
{
    match e {
        Effect::Done => EffectV::Done,
        Effect::Report(p) => EffectV::Report(p),
        Effect::Expand { all, range } => EffectV::Expand { all, range },
        Effect::Edit(s) => EffectV::Edit(s@),
        Effect::Write(d) => EffectV::Write(d),
        Effect::Read(s) => EffectV::Read(s),
        Effect::Shell(j) => EffectV::Shell(j@),
        Effect::Stash(a) => EffectV::Stash(a),
        Effect::Rows { first, rest, global } => EffectV::Rows {
            first: Box::new(effect_view(*first)),
            rest: rest@,
            global,
        },
        Effect::Finish { first, cmd, before } => EffectV::Finish {
            first: Box::new(effect_view(*first)),
            cmd,
            before: before@,
        },
    }
}

impl View for Effect {
    type V = EffectV;

    open spec fn view(&self) -> EffectV {
        effect_view(*self)
    }
}

impl Effect {
    pub fn is_done(&self) -> (r: bool)
        ensures
            r == (self@ == EffectV::Done),
    {
        match self {
            Effect::Done => true,
            _ => false,
        }
    }
}

} // verus!
