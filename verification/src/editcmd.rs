//! Edit commands: what a key sequence asks the buffer to do.

use vstd::prelude::*;
use crate::linebuf::grapheme::Grapheme;
use crate::linebuf::pos::Pos;
use crate::linebuf::select::SelectShape;
use crate::register::RegisterName;
use crate::seqs::{isat, to_offset};

verus! {

#[derive(Clone, Copy, Debug, PartialEq, Eq, Structural)]
pub enum Direction {
    Forward,
    Backward,
}

/// Where a character search stops.
#[derive(Clone, Copy, Debug, PartialEq, Eq, Structural)]
pub enum Dest {
    On,
    Before,
}

/// Which end of a word a motion goes to.
#[derive(Clone, Copy, Debug, PartialEq, Eq, Structural)]
pub enum To {
    Start,
    End,
}

/// Words end where the class changes, big words only at white space.
#[derive(Clone, Copy, Debug, PartialEq, Eq, Structural)]
pub enum Word {
    Big,
    Normal,
}

/// Whether a text object takes what encloses it.
#[derive(Clone, Copy, Debug, PartialEq, Eq, Structural)]
pub enum Bound {
    Inside,
    Around,
}

/// The side of the cursor that text goes to.
#[derive(Clone, Copy, Debug, PartialEq, Eq, Structural)]
pub enum Anchor {
    After,
    Before,
}

/// How many times, and what.
#[derive(Debug)]
pub struct Cmd<T>(pub usize, pub T);

#[derive(Clone, Copy, Debug, PartialEq, Eq, Structural)]
pub enum TextObj {
    Word(Word, Bound),
    Sentence(Direction),
    Paragraph(Direction),
    WholeSentence(Bound),
    WholeParagraph(Bound),
    DoubleQuote(Bound),
    SingleQuote(Bound),
    BacktickQuote(Bound),
    Paren(Bound),
    Bracket(Bound),
    Brace(Bound),
    Angle(Bound),
}

/// The address of a line in an ex command.
#[derive(Debug)]
pub enum LineAddr {
    /// Counted from one.
    Number(usize),
    Current,
    Last,
    /// Counted from the cursor's line.
    Offset(isize),
    /// The next line that matches, going round at the end.
    Pattern(String),
    /// The line before that matches, going round at the start.
    PatternRev(String),
    Mark(char),
}

impl Clone for LineAddr {
    fn clone(&self) -> (a: LineAddr)
        ensures
            a == *self,
    {
        match self {
            LineAddr::Number(n) => LineAddr::Number(*n),
            LineAddr::Current => LineAddr::Current,
            LineAddr::Last => LineAddr::Last,
            LineAddr::Offset(i) => LineAddr::Offset(*i),
            LineAddr::Pattern(s) => LineAddr::Pattern(s.clone()),
            LineAddr::PatternRev(s) => LineAddr::PatternRev(s.clone()),
            LineAddr::Mark(c) => LineAddr::Mark(*c),
        }
    }
}

#[derive(Debug)]
pub enum Motion {
    WholeLine,
    TextObj(TextObj),
    EndOfLastWord,
    StartOfFirstWord,
    StartOfLine,
    EndOfLine,
    WordMotion(To, Word, Direction),
    CharSearch(Direction, Dest, Grapheme),
    BackwardChar,
    ForwardChar,
    /// Like `BackwardChar`, and on into the line above.
    BackwardCharForced,
    /// Like `ForwardChar`, and on into the line below.
    ForwardCharForced,
    LineUp,
    LineDown,
    StartOfBuffer,
    EndOfBuffer,
    ToColumn,
    Search(String, Direction),
    RepeatSearch,
    RepeatSearchRev,
    ToDelimMatch,
    ToParen(Direction),
    ToBrace(Direction),
    CharRange(Pos, Pos),
    Line(LineAddr),
    LineRange(LineAddr, LineAddr),
    BlockRange(Pos, Pos),
    HalfScreenUp,
    HalfScreenDown,
    RepeatMotion,
    RepeatMotionRev,
    Selection(SelectShape),
    Null,
}

impl Clone for Motion {
    fn clone(&self) -> (m: Motion)
        ensures
            m == *self,
    {
        match self {
            Motion::WholeLine => Motion::WholeLine,
            Motion::TextObj(o) => Motion::TextObj(*o),
            Motion::EndOfLastWord => Motion::EndOfLastWord,
            Motion::StartOfFirstWord => Motion::StartOfFirstWord,
            Motion::StartOfLine => Motion::StartOfLine,
            Motion::EndOfLine => Motion::EndOfLine,
            Motion::WordMotion(t, w, d) => Motion::WordMotion(*t, *w, *d),
            Motion::CharSearch(d, t, g) => Motion::CharSearch(*d, *t, g.clone()),
            Motion::BackwardChar => Motion::BackwardChar,
            Motion::ForwardChar => Motion::ForwardChar,
            Motion::BackwardCharForced => Motion::BackwardCharForced,
            Motion::ForwardCharForced => Motion::ForwardCharForced,
            Motion::LineUp => Motion::LineUp,
            Motion::LineDown => Motion::LineDown,
            Motion::StartOfBuffer => Motion::StartOfBuffer,
            Motion::EndOfBuffer => Motion::EndOfBuffer,
            Motion::ToColumn => Motion::ToColumn,
            Motion::Search(p, d) => Motion::Search(p.clone(), *d),
            Motion::RepeatSearch => Motion::RepeatSearch,
            Motion::RepeatSearchRev => Motion::RepeatSearchRev,
            Motion::ToDelimMatch => Motion::ToDelimMatch,
            Motion::ToParen(d) => Motion::ToParen(*d),
            Motion::ToBrace(d) => Motion::ToBrace(*d),
            Motion::CharRange(s, e) => Motion::CharRange(*s, *e),
            Motion::Line(a) => Motion::Line(a.clone()),
            Motion::LineRange(a, b) => Motion::LineRange(a.clone(), b.clone()),
            Motion::BlockRange(s, e) => Motion::BlockRange(*s, *e),
            Motion::HalfScreenUp => Motion::HalfScreenUp,
            Motion::HalfScreenDown => Motion::HalfScreenDown,
            Motion::RepeatMotion => Motion::RepeatMotion,
            Motion::RepeatMotionRev => Motion::RepeatMotionRev,
            Motion::Selection(s) => Motion::Selection(*s),
            Motion::Null => Motion::Null,
        }
    }
}

/// The lines an ex command acts on.
#[derive(Debug)]
pub enum AddressRange {
    Single(LineAddr),
    Range(LineAddr, LineAddr),
}

impl Clone for AddressRange {
    fn clone(&self) -> (a: AddressRange)
        ensures
            a == *self,
    {
        match self {
            AddressRange::Single(a) => AddressRange::Single(a.clone()),
            AddressRange::Range(a, b) => AddressRange::Range(a.clone(), b.clone()),
        }
    }
}

/// The motion that covers an address range.
pub open spec fn range_motion(r: AddressRange) -> Motion {
    match r {
        AddressRange::Single(a) => Motion::Line(a),
        AddressRange::Range(a, b) => Motion::LineRange(a, b),
    }
}

impl Default for AddressRange {
    fn default() -> (a: AddressRange)
        ensures
            a == AddressRange::Single(LineAddr::Current),
    {
        AddressRange::Single(LineAddr::Current)
    }
}

impl AddressRange {
    pub fn all_lines() -> (a: AddressRange)
        ensures
            a == AddressRange::Range(LineAddr::Number(1), LineAddr::Last),
    {
        AddressRange::Range(LineAddr::Number(1), LineAddr::Last)
    }

    pub fn as_motion(&self) -> (m: Motion)
        ensures
            m == range_motion(*self),
    {
        match self {
            AddressRange::Single(a) => Motion::Line(a.clone()),
            AddressRange::Range(a, b) => Motion::LineRange(a.clone(), b.clone()),
        }
    }
}

/// The flags of a substitution.
#[derive(Clone, Copy, Debug, PartialEq, Eq, Structural)]
pub struct SubFlags {
    pub global: bool,
}

/// Where `:write` writes to.
#[derive(Debug)]
pub enum WriteDest {
    File(String),
    FileAppend(String),
    Cmd(String),
}

impl Clone for WriteDest {
    fn clone(&self) -> (d: WriteDest)
        ensures
            d == *self,
    {
        match self {
            WriteDest::File(p) => WriteDest::File(p.clone()),
            WriteDest::FileAppend(p) => WriteDest::FileAppend(p.clone()),
            WriteDest::Cmd(c) => WriteDest::Cmd(c.clone()),
        }
    }
}

/// Where `:read` reads from.
#[derive(Debug)]
pub enum ReadSrc {
    File(String),
    Cmd(String),
}

impl Clone for ReadSrc {
    fn clone(&self) -> (d: ReadSrc)
        ensures
            d == *self,
    {
        match self {
            ReadSrc::File(p) => ReadSrc::File(p.clone()),
            ReadSrc::Cmd(c) => ReadSrc::Cmd(c.clone()),
        }
    }
}

#[derive(Clone, Copy, Debug, PartialEq, Eq, Structural)]
pub enum StashListArg {
    Stack,
    Named,
}

/// What `:stash` is asked to do; the argument names an entry or gives its
/// place in the stack.
#[derive(Debug)]
pub enum StashArgs {
    Push(Option<String>),
    Pop(Option<String>),
    Drop(Option<String>),
    Apply(Option<String>),
    Insert(Option<String>),
    Swap(Option<String>),
    List(Option<StashListArg>),
}

/// A copy of an optional text.
pub fn copy_text(s: &Option<String>) -> (r: Option<String>)
    ensures
        r == *s,
{
    match s {
        Some(t) => Some(t.clone()),
        None => None,
    }
}

impl Clone for StashArgs {
    fn clone(&self) -> (a: StashArgs)
        ensures
            a == *self,
    {
        match self {
            StashArgs::Push(s) => StashArgs::Push(copy_text(s)),
            StashArgs::Pop(s) => StashArgs::Pop(copy_text(s)),
            StashArgs::Drop(s) => StashArgs::Drop(copy_text(s)),
            StashArgs::Apply(s) => StashArgs::Apply(copy_text(s)),
            StashArgs::Insert(s) => StashArgs::Insert(copy_text(s)),
            StashArgs::Swap(s) => StashArgs::Swap(copy_text(s)),
            StashArgs::List(a) => StashArgs::List(*a),
        }
    }
}

/// A parsed ex command.
#[derive(Debug)]
pub struct ExNode {
    pub address: Option<AddressRange>,
    pub bang: bool,
    pub kind: ExNdRule,
}

#[derive(Debug)]
pub enum ExNdRule {
    Expand,
    Delete,
    Yank,
    Put(Anchor),
    /// The paths to edit, as they go on the editor's command line.
    Edit(String),
    Write(WriteDest),
    Read(ReadSrc),
    RepeatSubstitute,
    RepeatGlobal,
    Shell(String),
    Stash(StashArgs),
    Substitute { pat: String, repl: String, flags: SubFlags },
    Global { pat: String, nested: Box<ExNode> },
    Normal(String),
    Quit,
}

/// A copy of an optional address.
pub fn copy_address(a: &Option<AddressRange>) -> (r: Option<AddressRange>)
    ensures
        r == *a,
{
    match a {
        Some(a) => Some(a.clone()),
        None => None,
    }
}

impl ExNode {
    /// A copy of the whole command, nested ones and all.
    pub fn copy(&self) -> (n: ExNode)
        ensures
            n == *self,
        decreases self,
    {
        ExNode { address: copy_address(&self.address), bang: self.bang, kind: self.kind.copy() }
    }
}

impl ExNdRule {
    pub fn copy(&self) -> (k: ExNdRule)
        ensures
            k == *self,
        decreases self,
    {
        match self {
            ExNdRule::Expand => ExNdRule::Expand,
            ExNdRule::Delete => ExNdRule::Delete,
            ExNdRule::Yank => ExNdRule::Yank,
            ExNdRule::Put(a) => ExNdRule::Put(*a),
            ExNdRule::Edit(p) => ExNdRule::Edit(p.clone()),
            ExNdRule::Write(d) => ExNdRule::Write(d.clone()),
            ExNdRule::Read(s) => ExNdRule::Read(s.clone()),
            ExNdRule::RepeatSubstitute => ExNdRule::RepeatSubstitute,
            ExNdRule::RepeatGlobal => ExNdRule::RepeatGlobal,
            ExNdRule::Shell(c) => ExNdRule::Shell(c.clone()),
            ExNdRule::Stash(a) => ExNdRule::Stash(a.clone()),
            ExNdRule::Substitute { pat, repl, flags } => ExNdRule::Substitute {
                pat: pat.clone(),
                repl: repl.clone(),
                flags: *flags,
            },
            ExNdRule::Global { pat, nested } => ExNdRule::Global {
                pat: pat.clone(),
                nested: Box::new((**nested).copy()),
            },
            ExNdRule::Normal(s) => ExNdRule::Normal(s.clone()),
            ExNdRule::Quit => ExNdRule::Quit,
        }
    }
}

#[derive(Debug)]
pub enum Verb {
    Delete,
    Change,
    Yank,
    Kill,
    KillCycle,
    KillPut,
    Rot13,
    ReplaceChar(char),
    ReplaceCharInplace(char, u16),
    ToggleCaseRange,
    ToggleCaseInplace(u16),
    ToLower,
    ToUpper,
    Capitalize,
    Undo,
    Redo,
    Put(Anchor),
    SwapVisualAnchor,
    JoinLines,
    InsertChar(char),
    Insert(String),
    InsertModeLineBreak(Anchor),
    AcceptLineOrNewline,
    Indent,
    Dedent,
    Equalize,
    IncrementNumber(u16),
    DecrementNumber(u16),
    TransposeChar,
    TransposeWord,
    PrintPosition,
    EndOfFile,
    ExCmd(ExNode),
    Complete,
    ExMode,
    InsertMode,
    SearchMode,
    RevSearchMode,
    NormalMode,
    VisualMode,
    VerbatimMode,
    ReplaceMode,
    VisualModeLine,
    VisualModeSelectLast,
    RepeatLast,
    RecordMacro,
    PlayMacro,
    Interrupt,
    HistoryUp,
    HistoryDown,
    DeleteOrEof,
    AcceptHint,
    ClearScreen,
    /// Expand the aliases of the addressed lines.
    Expand,
    /// Expand everything in the addressed lines.
    ExpandAll,
}

impl Verb {
    pub fn copy(&self) -> (v: Verb)
        ensures
            v == *self,
    {
        match self {
            Verb::Delete => Verb::Delete,
            Verb::Change => Verb::Change,
            Verb::Yank => Verb::Yank,
            Verb::Kill => Verb::Kill,
            Verb::KillCycle => Verb::KillCycle,
            Verb::KillPut => Verb::KillPut,
            Verb::Rot13 => Verb::Rot13,
            Verb::ReplaceChar(c) => Verb::ReplaceChar(*c),
            Verb::ReplaceCharInplace(c, n) => Verb::ReplaceCharInplace(*c, *n),
            Verb::ToggleCaseRange => Verb::ToggleCaseRange,
            Verb::ToggleCaseInplace(n) => Verb::ToggleCaseInplace(*n),
            Verb::ToLower => Verb::ToLower,
            Verb::ToUpper => Verb::ToUpper,
            Verb::Capitalize => Verb::Capitalize,
            Verb::Undo => Verb::Undo,
            Verb::Redo => Verb::Redo,
            Verb::Put(a) => Verb::Put(*a),
            Verb::SwapVisualAnchor => Verb::SwapVisualAnchor,
            Verb::JoinLines => Verb::JoinLines,
            Verb::InsertChar(c) => Verb::InsertChar(*c),
            Verb::Insert(s) => Verb::Insert(s.clone()),
            Verb::InsertModeLineBreak(a) => Verb::InsertModeLineBreak(*a),
            Verb::AcceptLineOrNewline => Verb::AcceptLineOrNewline,
            Verb::Indent => Verb::Indent,
            Verb::Dedent => Verb::Dedent,
            Verb::Equalize => Verb::Equalize,
            Verb::IncrementNumber(n) => Verb::IncrementNumber(*n),
            Verb::DecrementNumber(n) => Verb::DecrementNumber(*n),
            Verb::TransposeChar => Verb::TransposeChar,
            Verb::TransposeWord => Verb::TransposeWord,
            Verb::PrintPosition => Verb::PrintPosition,
            Verb::EndOfFile => Verb::EndOfFile,
            Verb::ExCmd(n) => Verb::ExCmd(n.copy()),
            Verb::Complete => Verb::Complete,
            Verb::ExMode => Verb::ExMode,
            Verb::InsertMode => Verb::InsertMode,
            Verb::SearchMode => Verb::SearchMode,
            Verb::RevSearchMode => Verb::RevSearchMode,
            Verb::NormalMode => Verb::NormalMode,
            Verb::VisualMode => Verb::VisualMode,
            Verb::VerbatimMode => Verb::VerbatimMode,
            Verb::ReplaceMode => Verb::ReplaceMode,
            Verb::VisualModeLine => Verb::VisualModeLine,
            Verb::VisualModeSelectLast => Verb::VisualModeSelectLast,
            Verb::RepeatLast => Verb::RepeatLast,
            Verb::RecordMacro => Verb::RecordMacro,
            Verb::PlayMacro => Verb::PlayMacro,
            Verb::Interrupt => Verb::Interrupt,
            Verb::HistoryUp => Verb::HistoryUp,
            Verb::HistoryDown => Verb::HistoryDown,
            Verb::DeleteOrEof => Verb::DeleteOrEof,
            Verb::AcceptHint => Verb::AcceptHint,
            Verb::ClearScreen => Verb::ClearScreen,
            Verb::Expand => Verb::Expand,
            Verb::ExpandAll => Verb::ExpandAll,
        }
    }
}

/// How a command came about.
#[derive(Clone, Copy, Debug, PartialEq, Eq, Structural)]
pub struct CmdFlags {
    pub has_shift: bool,
    pub has_ctrl: bool,
    pub is_ex_cmd: bool,
    pub is_submit: bool,
    pub is_cancel: bool,
    pub exit_cur_mode: bool,
}

pub open spec fn no_flags() -> CmdFlags {
    CmdFlags {
        has_shift: false,
        has_ctrl: false,
        is_ex_cmd: false,
        is_submit: false,
        is_cancel: false,
        exit_cur_mode: false,
    }
}

impl CmdFlags {
    pub fn empty() -> (f: CmdFlags)
        ensures
            f == no_flags(),
    {
        CmdFlags {
            has_shift: false,
            has_ctrl: false,
            is_ex_cmd: false,
            is_submit: false,
            is_cancel: false,
            exit_cur_mode: false,
        }
    }
}

/// A command: a register, a verb and a motion, each of which may be left out.
#[derive(Debug)]
pub struct EditCmd {
    pub register: RegisterName,
    pub verb: Option<Cmd<Verb>>,
    pub motion: Option<Cmd<Motion>>,
    pub raw_seq: String,
    pub flags: CmdFlags,
}

impl EditCmd {
    pub fn copy(&self) -> (c: EditCmd)
        ensures
            c == *self,
    {
        let verb = match &self.verb {
            Some(Cmd(n, v)) => Some(Cmd(*n, v.copy())),
            None => None,
        };
        self.new_with_verb(verb)
    }

    /// The command with another verb.
    pub fn new_with_verb(&self, verb: Option<Cmd<Verb>>) -> (c: EditCmd)
        ensures
            c == (EditCmd { verb, ..*self }),
    {
        let motion = match &self.motion {
            Some(Cmd(n, m)) => Some(Cmd(*n, m.clone())),
            None => None,
        };
        EditCmd {
            register: self.register,
            verb,
            motion,
            raw_seq: self.raw_seq.clone(),
            flags: self.flags,
        }
    }

    /// The command with another verb and another motion.
    pub fn recast(&self, verb: Verb, motion: Motion) -> (c: EditCmd)
        ensures
            c == recast(*self, verb, motion),
    {
        EditCmd {
            register: self.register,
            verb: Some(Cmd(1, verb)),
            motion: Some(Cmd(1, motion)),
            raw_seq: self.raw_seq.clone(),
            flags: self.flags,
        }
    }
}

impl EditCmd {
    /// A command that does nothing.
    pub fn new() -> (c: EditCmd)
        ensures
            c.register == crate::register::reg_name(None),
            c.verb is None,
            c.motion is None,
            c.raw_seq@ == Seq::<char>::empty(),
            c.flags == no_flags(),
    {
        EditCmd {
            register: RegisterName::default(),
            verb: None,
            motion: None,
            raw_seq: String::new(),
            flags: CmdFlags::empty(),
        }
    }

    pub fn set_verb(&mut self, verb: Cmd<Verb>)
        ensures
            *final(self) == (EditCmd { verb: Some(verb), ..*old(self) }),
    {
        self.verb = Some(verb);
    }

    pub fn set_motion(&mut self, motion: Cmd<Motion>)
        ensures
            *final(self) == (EditCmd { motion: Some(motion), ..*old(self) }),
    {
        self.motion = Some(motion);
    }

    /// Whether the command types a character.
    pub fn is_char_insert(&self) -> (r: bool)
        ensures
            r == types_char(*self),
    {
        match &self.verb {
            Some(Cmd(_, Verb::InsertChar(_))) => true,
            _ => false,
        }
    }

    /// Whether the command types a character that ends a command word.
    pub fn is_separator_insert(&self) -> (r: bool)
        ensures
            r == types_separator(*self),
    {
        match &self.verb {
            Some(Cmd(_, Verb::InsertChar(c))) => *c == ' ' || *c == ';' || *c == '|' || *c == '&',
            _ => false,
        }
    }

    /// Whether the command undoes an edit or does it again.
    pub fn is_undo_op(&self) -> (r: bool)
        ensures
            r == undoes(*self),
    {
        match &self.verb {
            Some(Cmd(_, Verb::Undo)) => true,
            Some(Cmd(_, Verb::Redo)) => true,
            _ => false,
        }
    }

    /// Whether the motion goes up or down lines.
    pub fn is_vertical(&self) -> (r: bool)
        ensures
            r == goes_vertical(*self),
    {
        match &self.motion {
            Some(Cmd(_, Motion::LineUp)) => true,
            Some(Cmd(_, Motion::LineDown)) => true,
            _ => false,
        }
    }

    /// Whether the verb may change the text.
    pub fn is_edit(&self) -> (r: bool)
        ensures
            r == may_edit(*self),
    {
        match &self.verb {
            Some(Cmd(_, v)) => match v {
                Verb::Yank => false,
                Verb::SwapVisualAnchor => false,
                Verb::PrintPosition => false,
                Verb::Complete => false,
                Verb::ExMode => false,
                Verb::InsertMode => false,
                Verb::SearchMode => false,
                Verb::RevSearchMode => false,
                Verb::NormalMode => false,
                Verb::VisualMode => false,
                Verb::VerbatimMode => false,
                Verb::ReplaceMode => false,
                Verb::VisualModeLine => false,
                Verb::VisualModeSelectLast => false,
                Verb::RecordMacro => false,
                Verb::PlayMacro => false,
                Verb::Interrupt => false,
                Verb::HistoryUp => false,
                Verb::HistoryDown => false,
                Verb::ClearScreen => false,
                _ => true,
            },
            None => false,
        }
    }
}

pub open spec fn types_char(cmd: EditCmd) -> bool {
    cmd.verb matches Some(Cmd(_, Verb::InsertChar(_)))
}

pub open spec fn types_separator(cmd: EditCmd) -> bool {
    cmd.verb matches Some(Cmd(_, Verb::InsertChar(c))) && (c == ' ' || c == ';' || c == '|' || c
        == '&')
}

pub open spec fn undoes(cmd: EditCmd) -> bool {
    cmd.verb matches Some(Cmd(_, v)) && (v is Undo || v is Redo)
}

pub open spec fn goes_vertical(cmd: EditCmd) -> bool {
    cmd.motion matches Some(Cmd(_, m)) && (m is LineUp || m is LineDown)
}

/// The verbs that leave the text alone do not edit.
pub open spec fn may_edit(cmd: EditCmd) -> bool {
    cmd.verb matches Some(Cmd(_, v)) && !(v is Yank || v is SwapVisualAnchor || v is PrintPosition
        || v is Complete || v is ExMode || v is InsertMode || v is SearchMode || v is RevSearchMode
        || v is NormalMode || v is VisualMode || v is VerbatimMode || v is ReplaceMode
        || v is VisualModeLine || v is VisualModeSelectLast || v is RecordMacro || v is PlayMacro
        || v is Interrupt || v is HistoryUp || v is HistoryDown || v is ClearScreen)
}

/// `cmd` with another verb and another motion, each once.
pub open spec fn recast(cmd: EditCmd, verb: Verb, motion: Motion) -> EditCmd {
    EditCmd { verb: Some(Cmd(1, verb)), motion: Some(Cmd(1, motion)), ..cmd }
}

impl EditCmd {
    /// How many times the verb is to act; once where there is none.
    pub fn verb_count(&self) -> (n: usize)
        ensures
            n == match self.verb {
                Some(Cmd(n, _)) => n,
                None => 1,
            },
    {
        match &self.verb {
            Some(Cmd(n, _)) => *n,
            None => 1,
        }
    }

    /// Whether the verb leads to another mode.
    pub fn is_mode_transition(&self) -> (r: bool)
        ensures
            r == changes_mode(*self),
    {
        match &self.verb {
            Some(Cmd(_, v)) => match v {
                Verb::Change => true,
                Verb::InsertMode => true,
                Verb::ExMode => true,
                Verb::VerbatimMode => true,
                Verb::NormalMode => true,
                Verb::ReplaceMode => true,
                Verb::VisualModeSelectLast => true,
                Verb::VisualMode => true,
                Verb::VisualModeLine => true,
                Verb::SearchMode => true,
                Verb::RevSearchMode => true,
                Verb::InsertModeLineBreak(_) => true,
                _ => false,
            },
            None => false,
        }
    }

    /// Whether the command repeats the last one.
    pub fn is_cmd_repeat(&self) -> (r: bool)
        ensures
            r == repeats_cmd(*self),
    {
        match &self.verb {
            Some(Cmd(_, Verb::RepeatLast)) => true,
            _ => false,
        }
    }

    /// Whether the command repeats the last character search.
    pub fn is_motion_repeat(&self) -> (r: bool)
        ensures
            r == repeats_motion(*self),
    {
        match &self.motion {
            Some(Cmd(_, Motion::RepeatMotion)) => true,
            Some(Cmd(_, Motion::RepeatMotionRev)) => true,
            _ => false,
        }
    }

    /// Whether the command is one that can be repeated.
    pub fn is_repeatable(&self) -> (r: bool)
        ensures
            r == repeatable(*self),
    {
        match &self.verb {
            Some(Cmd(_, v)) => match v {
                Verb::Delete => true,
                Verb::Change => true,
                Verb::Rot13 => true,
                Verb::ToggleCaseRange => true,
                Verb::ToLower => true,
                Verb::ToUpper => true,
                Verb::Capitalize => true,
                Verb::JoinLines => true,
                Verb::Indent => true,
                Verb::Dedent => true,
                Verb::Equalize => true,
                Verb::ReplaceChar(_) => true,
                Verb::ToggleCaseInplace(_) => true,
                Verb::Put(_) => true,
                Verb::InsertChar(_) => true,
                Verb::Insert(_) => true,
                Verb::InsertModeLineBreak(_) => true,
                Verb::IncrementNumber(_) => true,
                Verb::DecrementNumber(_) => true,
                Verb::ReplaceCharInplace(_, _) => true,
                _ => false,
            },
            None => false,
        }
    }

    pub fn is_char_search(&self) -> (r: bool)
        ensures
            r == searches_char(*self),
    {
        match &self.motion {
            Some(Cmd(_, Motion::CharSearch(_, _, _))) => true,
            _ => false,
        }
    }

    /// Whether the command submits the line.
    pub fn is_submit_action(&self) -> (r: bool)
        ensures
            r == submits(*self),
    {
        match &self.verb {
            Some(Cmd(_, Verb::AcceptLineOrNewline)) => true,
            _ => false,
        }
    }

    /// Whether the command asks to leave.
    pub fn is_quit(&self) -> (r: bool)
        ensures
            r == quits(*self),
    {
        match &self.verb {
            Some(Cmd(_, Verb::ExCmd(node))) => match &node.kind {
                ExNdRule::Quit => true,
                _ => false,
            },
            _ => false,
        }
    }

    /// Whether the command runs a shell command.
    pub fn is_shell_cmd(&self) -> (r: bool)
        ensures
            r == runs_shell(*self),
    {
        match &self.verb {
            Some(Cmd(_, Verb::ExCmd(node))) => match &node.kind {
                ExNdRule::Shell(_) => true,
                _ => false,
            },
            _ => false,
        }
    }

    /// Whether the command puts history entries together.
    pub fn is_virtual_scroll(&self) -> (r: bool)
        ensures
            r == scrolls_virtually(*self),
    {
        self.verb.is_none() && self.is_vertical() && (self.flags.has_shift || self.flags.has_ctrl)
    }

    /// The keys that a command has typed in normal mode.
    pub fn try_get_normal_seq(&self) -> (r: Option<&String>)
        ensures
            match r {
                Some(s) => normal_seq(*self) == Some(*s),
                None => normal_seq(*self) is None,
            },
    {
        match &self.verb {
            Some(Cmd(_, Verb::ExCmd(node))) => node.normal_seq(),
            _ => None,
        }
    }

    /// How far the command goes in the history: up for older entries.
    pub fn history_scroll_offset(&self) -> (r: Option<isize>)
        ensures
            r == scroll_offset_of(*self),
    {
        match &self.verb {
            Some(Cmd(n, Verb::HistoryUp)) => {
                return Some(-to_offset(*n));
            },
            Some(Cmd(n, Verb::HistoryDown)) => {
                return Some(to_offset(*n));
            },
            _ => {},
        }
        match &self.motion {
            Some(Cmd(n, Motion::LineUp)) => Some(-to_offset(*n)),
            Some(Cmd(n, Motion::LineDown)) => Some(to_offset(*n)),
            _ => None,
        }
    }
}

pub open spec fn changes_mode(cmd: EditCmd) -> bool {
    cmd.verb matches Some(Cmd(_, v)) && (v is Change || v is InsertMode || v is ExMode || v is VerbatimMode || v is NormalMode || v is ReplaceMode || v is VisualModeSelectLast || v is VisualMode || v is VisualModeLine || v is SearchMode || v is RevSearchMode || v is InsertModeLineBreak)
}

pub open spec fn repeats_cmd(cmd: EditCmd) -> bool {
    cmd.verb matches Some(Cmd(_, v)) && v is RepeatLast
}

pub open spec fn repeats_motion(cmd: EditCmd) -> bool {
    cmd.motion matches Some(Cmd(_, m)) && (m is RepeatMotion || m is RepeatMotionRev)
}

pub open spec fn repeatable(cmd: EditCmd) -> bool {
    cmd.verb matches Some(Cmd(_, v)) && (v is Delete || v is Change || v is Rot13 || v is ToggleCaseRange || v is ToLower || v is ToUpper || v is Capitalize || v is JoinLines || v is Indent || v is Dedent || v is Equalize || v is ReplaceChar || v is ToggleCaseInplace || v is Put || v is InsertChar || v is Insert || v is InsertModeLineBreak || v is IncrementNumber || v is DecrementNumber || v is ReplaceCharInplace)
}

pub open spec fn searches_char(cmd: EditCmd) -> bool {
    cmd.motion matches Some(Cmd(_, m)) && m is CharSearch
}

pub open spec fn submits(cmd: EditCmd) -> bool {
    cmd.verb matches Some(Cmd(_, v)) && v is AcceptLineOrNewline
}

pub open spec fn quits(cmd: EditCmd) -> bool {
    cmd.verb matches Some(Cmd(_, Verb::ExCmd(node))) && node.kind is Quit
}

pub open spec fn runs_shell(cmd: EditCmd) -> bool {
    cmd.verb matches Some(Cmd(_, Verb::ExCmd(node))) && node.kind is Shell
}

pub open spec fn scrolls_virtually(cmd: EditCmd) -> bool {
    cmd.verb is None && goes_vertical(cmd) && (cmd.flags.has_shift || cmd.flags.has_ctrl)
}

pub open spec fn normal_seq(cmd: EditCmd) -> Option<String> {
    match cmd.verb {
        Some(Cmd(_, Verb::ExCmd(node))) => typed_by(node),
        _ => None,
    }
}

/// The keys that an ex command has typed, itself or for each line of a global
/// command.
pub open spec fn typed_by(node: ExNode) -> Option<String>
    decreases node,
{
    match node.kind {
        ExNdRule::Normal(s) => Some(s),
        ExNdRule::Global { nested, .. } => typed_by(*nested),
        _ => None,
    }
}

impl ExNode {
    /// The keys that the command has typed, itself or for each line of a
    /// global command.
    pub fn normal_seq(&self) -> (r: Option<&String>)
        ensures
            match r {
                Some(s) => typed_by(*self) == Some(*s),
                None => typed_by(*self) is None,
            },
        decreases self,
    {
        match &self.kind {
            ExNdRule::Normal(s) => Some(s),
            ExNdRule::Global { nested, .. } => (**nested).normal_seq(),
            _ => None,
        }
    }
}

/// How far a command goes in the history: up for older entries.
pub open spec fn scroll_offset_of(cmd: EditCmd) -> Option<isize> {
    match cmd.verb {
        Some(Cmd(n, Verb::HistoryUp)) => Some((-isat(n as int)) as isize),
        Some(Cmd(n, Verb::HistoryDown)) => Some(isat(n as int)),
        _ => match cmd.motion {
            Some(Cmd(n, Motion::LineUp)) => Some((-isat(n as int)) as isize),
            Some(Cmd(n, Motion::LineDown)) => Some(isat(n as int)),
            _ => None,
        },
    }
}

/// A character search the other way round.
pub open spec fn inverted(m: Cmd<Motion>) -> Cmd<Motion> {
    match m {
        Cmd(n, Motion::CharSearch(d, t, g)) => Cmd(
            n,
            Motion::CharSearch(
                match d {
                    Direction::Forward => Direction::Backward,
                    Direction::Backward => Direction::Forward,
                },
                t,
                g,
            ),
        ),
        _ => m,
    }
}

/// A character search the other way round; any other motion as it is.
pub fn invert_char_motion(m: Cmd<Motion>) -> (r: Cmd<Motion>)
    ensures
        r == inverted(m),
{
    match m {
        Cmd(n, Motion::CharSearch(d, t, g)) => {
            let back = match d {
                Direction::Forward => Direction::Backward,
                Direction::Backward => Direction::Forward,
            };
            Cmd(n, Motion::CharSearch(back, t, g))
        },
        m => m,
    }
}

/// To turn a character search round twice leaves it as it was.
pub proof fn law_inversion_undoes_itself(m: Cmd<Motion>)
    ensures
        inverted(inverted(m)) == m,
{
}

} // verus!
