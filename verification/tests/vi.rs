//! Keys typed at the prompt, in the vi and the emacs modes: each test gives a
//! text, the keys, and the text and the cursor they lead to.
#![allow(non_snake_case)]

use shed_line::editcmd::{
    AddressRange, Anchor, Bound, Cmd, CmdFlags, Dest, Direction, EditCmd, ExNdRule, ExNode, LineAddr,
    Motion, SubFlags, TextObj, To, Verb, Word,
};
use shed_line::keys::{KeyCode, KeyEvent, ModKeys};
use shed_line::linebuf::buffer::LineBuf;
use shed_line::linebuf::effect::Effect;
use shed_line::linebuf::grapheme::Grapheme;
use shed_line::linebuf::hint::Hint;
use shed_line::linebuf::history::HistUse;
use shed_line::linebuf::lines::Lines;
use shed_line::linebuf::pos::Pos;
use shed_line::readline::complete::{CompOutcome, CompResponse, TabStart};
use shed_line::readline::exec::{ExecPlan, RepeatPlan, RepeatStep};
use shed_line::readline::keys::{KeyStep, LineCmd, RunPlan, SubmitStep};
use shed_line::readline::mode::{CmdReplay, Mode, ModeReport, NewMode};
use shed_line::readline::session::ShedLine;
use shed_line::register::{RegisterName, Registers};
use shed_line::shell::{AliasUse, Answer, Ask, Env, Opts};
use shed_line::statusline::Prompt;

type Shell = fn(&str, Ask) -> Answer;

fn key(c: char) -> KeyEvent {
    KeyEvent {
        code: if c == '\t' { KeyCode::Tab } else { KeyCode::Char(c) },
        mods: ModKeys::empty(),
        seq: Some(c.to_string()),
    }
}

/// The nesting of the few block words that the tests use.
fn depth_of(text: &str) -> usize {
    let mut depth: usize = 0;
    let mut cases: usize = 0;
    for token in text.split_whitespace() {
        let word = if token == ";;" { token } else { token.trim_end_matches(';') };
        match word {
            "case" => {
                cases += 1;
                depth += 1;
            }
            "then" | "do" | "{" => depth += 1,
            "esac" => {
                cases = cases.saturating_sub(1);
                depth = depth.saturating_sub(1);
            }
            "fi" | "done" | "}" | ";;" | "elif" => depth = depth.saturating_sub(1),
            "else" if text.ends_with("else") => depth = depth.saturating_sub(1),
            w if cases > 0 && w.ends_with(')') => depth += 1,
            _ => {}
        }
    }
    depth
}

const ALIASES: [(&str, &str); 7] = [
    ("a", "b"),
    ("g", "git"),
    ("gc", "git commit"),
    ("ll", "ls -la"),
    ("diff", "diff --color=auto"),
    ("gp", "git push"),
    ("foo", "bar"),
];

fn last_alias(text: &str) -> Option<AliasUse> {
    let start = text.rfind(|c| matches!(c, ';' | '|' | '&')).map_or(0, |i| i + 1);
    let from_word = text[start..].trim_start();
    let word = from_word.split_whitespace().next()?;
    let (_, alias) = ALIASES.iter().find(|(n, _)| *n == word)?;
    let at = text.len() - from_word.len();
    Some(AliasUse {
        from_word: from_word.to_string(),
        word: word.to_string(),
        alias: alias.to_string(),
        expanded: format!("{}{}{}", &text[..at], alias, &from_word[word.len()..]),
    })
}

fn shell(text: &str, ask: Ask) -> Answer {
    let mut a = Answer {
        depth: 0,
        failed: false,
        alias: None,
        keys: Vec::new(),
        closes: false,
        command: None,
    };
    match ask {
        Ask::Depth { .. } => {
            a.depth = depth_of(text);
            let count = |w: &str| text.split_whitespace().filter(|t| *t == w).count();
            a.failed = count("if") > count("fi");
        }
        Ask::Keys => a.keys = text.chars().map(key).collect(),
        Ask::Closes => a.closes = matches!(text, "fi" | "esac" | "done" | "}" | "else" | "elif" | ";;"),
        Ask::LastCommand => a.alias = last_alias(text),
        _ => {}
    }
    a
}

fn opts() -> Opts {
    Opts {
        tab_width: 4,
        scroll_offset: 2,
        viewport_rows: 50,
        auto_suggest: true,
        auto_indent: true,
        expand_aliases: true,
    }
}

fn facts(report: ModeReport) -> Mode {
    Mode {
        report,
        pending_seq: Some(String::new()),
        input: false,
        clamp: matches!(report, ModeReport::Normal | ModeReport::Visual),
    }
}

fn cmd(verb: Option<(usize, Verb)>, motion: Option<(usize, Motion)>) -> EditCmd {
    let mut c = EditCmd::new();
    if let Some((n, v)) = verb {
        c.set_verb(Cmd(n, v));
    }
    if let Some((n, m)) = motion {
        c.set_motion(Cmd(n, m));
    }
    c
}

enum Parsed {
    Pending,
    Invalid,
    Done(EditCmd),
}

fn take_count(s: &[char]) -> (Option<usize>, &[char]) {
    let mut i = 0;
    while i < s.len() && (s[i].is_ascii_digit() && !(i == 0 && s[i] == '0')) {
        i += 1;
    }
    if i == 0 {
        (None, s)
    } else {
        let n: String = s[..i].iter().collect();
        (Some(n.parse().unwrap()), &s[i..])
    }
}

enum M {
    Pending,
    Invalid,
    Done(Motion),
}

fn motion(s: &[char], op: bool) -> M {
    let done = M::Done;
    if s.is_empty() {
        return M::Pending;
    }
    let word = |to, w, d| M::Done(Motion::WordMotion(to, w, d));
    match s[0] {
        'h' | '\u{8}' => done(Motion::BackwardChar),
        'l' => done(Motion::ForwardChar),
        'j' => done(Motion::LineDown),
        'k' => done(Motion::LineUp),
        'w' => word(To::Start, Word::Normal, Direction::Forward),
        'W' => word(To::Start, Word::Big, Direction::Forward),
        'b' => word(To::Start, Word::Normal, Direction::Backward),
        'B' => word(To::Start, Word::Big, Direction::Backward),
        'e' => word(To::End, Word::Normal, Direction::Forward),
        'E' => word(To::End, Word::Big, Direction::Forward),
        '0' => done(Motion::StartOfLine),
        '^' => done(Motion::StartOfFirstWord),
        '$' => done(Motion::EndOfLine),
        '|' => done(Motion::ToColumn),
        '%' => done(Motion::ToDelimMatch),
        'G' => done(Motion::EndOfBuffer),
        ';' => done(Motion::RepeatMotion),
        ',' => done(Motion::RepeatMotionRev),
        'n' => done(Motion::RepeatSearch),
        'N' => done(Motion::RepeatSearchRev),
        '\u{4}' => done(Motion::HalfScreenDown),
        '\u{15}' => done(Motion::HalfScreenUp),
        'f' | 'F' | 't' | 'T' => {
            if s.len() < 2 {
                return M::Pending;
            }
            let d = if s[0].is_lowercase() { Direction::Forward } else { Direction::Backward };
            let at = if s[0].to_ascii_lowercase() == 'f' { Dest::On } else { Dest::Before };
            done(Motion::CharSearch(d, at, Grapheme::from(s[1])))
        }
        'g' => match s.get(1) {
            None => M::Pending,
            Some('g') => done(Motion::StartOfBuffer),
            Some('_') => done(Motion::EndOfLastWord),
            Some('e') => word(To::End, Word::Normal, Direction::Backward),
            Some('E') => word(To::End, Word::Big, Direction::Backward),
            _ => M::Invalid,
        },
        ']' | '[' => match (s[0], s.get(1)) {
            (_, None) => M::Pending,
            (']', Some(')')) => done(Motion::ToParen(Direction::Forward)),
            (']', Some('}')) => done(Motion::ToBrace(Direction::Forward)),
            ('[', Some('(')) => done(Motion::ToParen(Direction::Backward)),
            ('[', Some('{')) => done(Motion::ToBrace(Direction::Backward)),
            _ => M::Invalid,
        },
        'i' | 'a' if op => {
            let b = if s[0] == 'i' { Bound::Inside } else { Bound::Around };
            match s.get(1) {
                None => M::Pending,
                Some('w') => done(Motion::TextObj(TextObj::Word(Word::Normal, b))),
                Some('W') => done(Motion::TextObj(TextObj::Word(Word::Big, b))),
                Some('"') => done(Motion::TextObj(TextObj::DoubleQuote(b))),
                Some('\'') => done(Motion::TextObj(TextObj::SingleQuote(b))),
                Some('`') => done(Motion::TextObj(TextObj::BacktickQuote(b))),
                Some('(') | Some(')') | Some('b') => done(Motion::TextObj(TextObj::Paren(b))),
                Some('{') | Some('}') | Some('B') => done(Motion::TextObj(TextObj::Brace(b))),
                Some('[') | Some(']') => done(Motion::TextObj(TextObj::Bracket(b))),
                Some('<') | Some('>') => done(Motion::TextObj(TextObj::Angle(b))),
                _ => M::Invalid,
            }
        }
        _ => M::Invalid,
    }
}

fn with_motion(verb: Verb, n: usize, rest: &[char], double: char) -> Parsed {
    let (m, rest) = take_count(rest);
    let count = n * m.unwrap_or(1);
    if rest.first() == Some(&double) {
        return Parsed::Done(cmd(Some((1, verb)), Some((count, Motion::WholeLine))));
    }
    match motion(rest, true) {
        M::Pending => Parsed::Pending,
        M::Invalid => Parsed::Invalid,
        M::Done(m) => Parsed::Done(cmd(Some((1, verb)), Some((count, m)))),
    }
}

fn named(c: char, verb: Verb) -> EditCmd {
    let mut e = cmd(Some((1, verb)), None);
    e.register = RegisterName::new(Some(c));
    e
}

fn parse_normal(s: &[char]) -> Parsed {
    let (count, s) = take_count(s);
    let n = count.unwrap_or(1);
    if s.is_empty() {
        return Parsed::Pending;
    }
    let one = |v: Verb| Parsed::Done(cmd(Some((n, v)), None));
    let both = |v: Verb, m: Motion| Parsed::Done(cmd(Some((1, v)), Some((n, m))));
    match s[0] {
        'x' => both(Verb::Delete, Motion::ForwardChar),
        'X' => both(Verb::Delete, Motion::BackwardChar),
        's' => both(Verb::Change, Motion::ForwardChar),
        'S' => both(Verb::Change, Motion::WholeLine),
        'C' => both(Verb::Change, Motion::EndOfLine),
        'D' => both(Verb::Delete, Motion::EndOfLine),
        'Y' => both(Verb::Yank, Motion::EndOfLine),
        'p' => one(Verb::Put(Anchor::After)),
        'P' => one(Verb::Put(Anchor::Before)),
        'J' => one(Verb::JoinLines),
        'u' => one(Verb::Undo),
        '\u{12}' => one(Verb::Redo),
        '~' => Parsed::Done(cmd(Some((1, Verb::ToggleCaseInplace(n as u16))), None)),
        '.' => one(Verb::RepeatLast),
        'v' => one(Verb::VisualMode),
        'V' => one(Verb::VisualModeLine),
        'R' => one(Verb::ReplaceMode),
        'i' => one(Verb::InsertMode),
        'a' => both(Verb::InsertMode, Motion::ForwardChar),
        'I' => both(Verb::InsertMode, Motion::StartOfFirstWord),
        'A' => both(Verb::InsertMode, Motion::EndOfLine),
        'o' => one(Verb::InsertModeLineBreak(Anchor::After)),
        'O' => one(Verb::InsertModeLineBreak(Anchor::Before)),
        '\u{1}' => Parsed::Done(cmd(Some((1, Verb::IncrementNumber(n as u16))), None)),
        '\u{18}' => Parsed::Done(cmd(Some((1, Verb::DecrementNumber(n as u16))), None)),
        '\u{7}' => one(Verb::PrintPosition),
        ':' => one(Verb::ExMode),
        '/' => one(Verb::SearchMode),
        '?' => one(Verb::RevSearchMode),
        'Q' => one(Verb::PlayMacro),
        'q' | '@' => match s.get(1) {
            None => Parsed::Pending,
            Some(c) if s[0] == 'q' => Parsed::Done(named(*c, Verb::RecordMacro)),
            Some(c) => Parsed::Done(named(*c, Verb::PlayMacro)),
        },
        'r' => match s.get(1) {
            None => Parsed::Pending,
            Some(c) => Parsed::Done(cmd(Some((1, Verb::ReplaceCharInplace(*c, n as u16))), None)),
        },
        'd' => with_motion(Verb::Delete, n, &s[1..], 'd'),
        'c' => with_motion(Verb::Change, n, &s[1..], 'c'),
        'y' => with_motion(Verb::Yank, n, &s[1..], 'y'),
        '>' => with_motion(Verb::Indent, n, &s[1..], '>'),
        '<' => with_motion(Verb::Dedent, n, &s[1..], '<'),
        '=' => with_motion(Verb::Equalize, n, &s[1..], '='),
        'g' => match s.get(1) {
            None => Parsed::Pending,
            Some('u') => with_motion(Verb::ToLower, n, &s[2..], 'u'),
            Some('U') => with_motion(Verb::ToUpper, n, &s[2..], 'U'),
            Some('~') => with_motion(Verb::ToggleCaseRange, n, &s[2..], '~'),
            Some('?') => with_motion(Verb::Rot13, n, &s[2..], '?'),
            Some('v') => one(Verb::VisualModeSelectLast),
            _ => plain_motion(s, n),
        },
        _ => plain_motion(s, n),
    }
}

fn plain_motion(s: &[char], n: usize) -> Parsed {
    match motion(s, false) {
        M::Pending => Parsed::Pending,
        M::Invalid => Parsed::Invalid,
        M::Done(m) => Parsed::Done(cmd(None, Some((n, m)))),
    }
}

fn parse_visual(s: &[char]) -> Parsed {
    let (count, s) = take_count(s);
    let n = count.unwrap_or(1);
    if s.is_empty() {
        return Parsed::Pending;
    }
    let one = |v: Verb| Parsed::Done(cmd(Some((n, v)), None));
    match s[0] {
        '\u{1b}' => one(Verb::NormalMode),
        'd' | 'x' | 's' | 'X' | 'D' => one(Verb::Delete),
        'c' | 'S' | 'R' | 'C' => one(Verb::Change),
        'y' | 'Y' => one(Verb::Yank),
        '~' => one(Verb::ToggleCaseRange),
        'u' => one(Verb::ToLower),
        'U' => one(Verb::ToUpper),
        'o' | 'O' => one(Verb::SwapVisualAnchor),
        'p' => one(Verb::Put(Anchor::After)),
        'P' => one(Verb::Put(Anchor::Before)),
        'A' | 'I' => one(Verb::InsertMode),
        'J' => one(Verb::JoinLines),
        '>' => one(Verb::Indent),
        '<' => one(Verb::Dedent),
        '=' => one(Verb::Equalize),
        '.' => one(Verb::RepeatLast),
        '\u{1}' => Parsed::Done(cmd(Some((1, Verb::IncrementNumber(n as u16))), None)),
        '\u{18}' => Parsed::Done(cmd(Some((1, Verb::DecrementNumber(n as u16))), None)),
        '\u{12}' => one(Verb::Redo),
        '\u{7}' => one(Verb::PrintPosition),
        'r' => match s.get(1) {
            None => Parsed::Pending,
            Some(c) => one(Verb::ReplaceChar(*c)),
        },
        'g' => match s.get(1) {
            None => Parsed::Pending,
            Some('?') => one(Verb::Rot13),
            _ => plain_motion(s, n),
        },
        _ => match motion(s, true) {
            M::Pending => Parsed::Pending,
            M::Invalid => Parsed::Invalid,
            M::Done(m) => Parsed::Done(cmd(None, Some((n, m)))),
        },
    }
}

fn split_pat(s: &str) -> (String, &str) {
    match s.find('/') {
        Some(i) => (s[..i].to_string(), &s[i + 1..]),
        None => (s.to_string(), ""),
    }
}

fn addr(s: &str) -> (Option<LineAddr>, &str) {
    let end = s.find(|c: char| !c.is_ascii_digit()).unwrap_or(s.len());
    if end == 0 {
        (None, s)
    } else {
        (Some(LineAddr::Number(s[..end].parse().unwrap())), &s[end..])
    }
}

fn parse_ex(s: &str) -> Option<ExNode> {
    let (address, rest) = if let Some(r) = s.strip_prefix('%') {
        (Some(AddressRange::all_lines()), r)
    } else {
        match addr(s) {
            (None, r) => (None, r),
            (Some(a), r) => match r.strip_prefix(',') {
                Some(r2) => {
                    let (b, r3) = addr(r2);
                    (Some(AddressRange::Range(a, b?)), r3)
                }
                None => (Some(AddressRange::Single(a)), r),
            },
        }
    };
    let mut bang = false;
    let kind = if let Some(keys) = rest.strip_prefix("normal!") {
        ExNdRule::Normal(keys.to_string())
    } else if rest == "d" {
        ExNdRule::Delete
    } else if rest == "s" {
        ExNdRule::RepeatSubstitute
    } else if rest == "g" {
        ExNdRule::RepeatGlobal
    } else if let Some(r) = rest.strip_prefix("s/") {
        let (pat, r) = split_pat(r);
        let (repl, flags) = split_pat(r);
        ExNdRule::Substitute { pat, repl, flags: SubFlags { global: flags == "g" } }
    } else if rest.starts_with('g') {
        let r = match rest.strip_prefix("g!/") {
            Some(r) => {
                bang = true;
                r
            }
            None => rest.strip_prefix("g/")?,
        };
        let (pat, r) = split_pat(r);
        ExNdRule::Global { pat, nested: Box::new(parse_ex(r)?) }
    } else {
        return None;
    };
    Some(ExNode { address, bang, kind })
}

struct Vi {
    line: ShedLine,
    regs: Registers,
    env: Env<Shell>,
    pend: Vec<char>,
    /// The commands given in insert mode, from the one that led there.
    typed: Vec<EditCmd>,
    /// What was typed in a mode with a line of its own, with its count.
    sub: String,
    count: usize,
    once: bool,
    hist: Vec<String>,
    hist_at: usize,
    submitted: Option<String>,
}

impl Vi {
    fn new(initial: &str, mode: ModeReport) -> Vi {
        let prompt = Prompt { ps1_expanded: String::new(), psr_expanded: None, dirty: false, from_var: false };
        let mut line = ShedLine::new(prompt, None, facts(mode));
        line.editor = LineBuf::new().with_initial(initial, 0, &opts());
        line.editor.set_cursor_clamp(facts(mode).clamp);
        Vi {
            line,
            regs: Registers::new(),
            env: Env { opts: opts(), shell },
            pend: Vec::new(),
            typed: Vec::new(),
            sub: String::new(),
            count: 1,
            once: false,
            hist: Vec::new(),
            hist_at: 0,
            submitted: None,
        }
    }

    fn swap(&mut self, m: &NewMode) {
        let report = match m {
            NewMode::Insert { cmd, .. } => {
                self.typed = match cmd {
                    Some(c) => vec![c.copy()],
                    None => Vec::new(),
                };
                ModeReport::Insert
            }
            NewMode::Normal => ModeReport::Normal,
            NewMode::Ex { .. } => {
                self.sub.clear();
                ModeReport::Ex
            }
            NewMode::Visual => ModeReport::Visual,
            NewMode::Replace => ModeReport::Replace,
            NewMode::Verbatim { .. } => ModeReport::Verbatim,
            NewMode::Emacs => ModeReport::Emacs,
            NewMode::Remote => ModeReport::Remote,
            NewMode::Search(n) => {
                self.sub.clear();
                self.count = *n;
                ModeReport::Search
            }
            NewMode::RevSearch(n) => {
                self.sub.clear();
                self.count = *n;
                ModeReport::RevSearch
            }
            NewMode::Saved => ModeReport::Normal,
        };
        self.line.swap_mode(facts(report));
    }

    /// Offers the latest entry that begins with the text.
    fn update_hint(&mut self) {
        let text = self.line.editor.joined();
        let older = &self.hist[..self.hist.len() - self.hist_at];
        let found = older.iter().rev().find(|e| e.starts_with(&text) && **e != text);
        let hint = found.map(|e| Hint::History(Lines::to_lines(e)));
        let o = self.env.opts;
        self.line.editor.set_hint(hint, &o);
    }

    fn fire(&mut self, c: &EditCmd) {
        let e = self.line.editor.exec_cmd(c, &self.env, &mut self.regs);
        match e {
            Effect::Done | Effect::Report(_) => {}
            other => panic!("left to do: {other:?}"),
        }
        self.line.fire_editor_command(c);
    }

    fn exec(&mut self, c: EditCmd, from_replay: bool) {
        match self.line.exec_cmd(c, from_replay) {
            ExecPlan::Transition(c) => {
                let left = self.line.mode.report;
                let t = self.line.exec_mode_transition(&c);
                let replay = if left == ModeReport::Insert && !self.typed.is_empty() {
                    let mut cmds: Vec<EditCmd> = self.typed.drain(..).collect();
                    cmds.push(c.copy());
                    Some(CmdReplay::ModeReplay { cmds, repeat: 1 })
                } else {
                    None
                };
                self.swap(&t.mode);
                if t.fire_only {
                    self.fire(&c);
                    return;
                }
                if let Some(c2) = self.line.enter_mode(&c, left, replay, from_replay) {
                    self.fire(&c2);
                    self.line.end_transition(left, t.insert);
                }
            }
            ExecPlan::Repeat(c) => match self.line.handle_cmd_repeat(&c) {
                RepeatPlan::Nothing => {}
                RepeatPlan::Single(c) => self.fire(&c),
                RepeatPlan::Mode { round, repeat } => {
                    for _ in 0..repeat {
                        for step in &round {
                            match step {
                                RepeatStep::Exec(c) => self.exec(c.copy(), true),
                                RepeatStep::StartMerge => self.line.editor.start_undo_merge(),
                                RepeatStep::StopMerge => self.line.editor.stop_undo_merge(),
                                RepeatStep::Back(mode) => self.swap(mode),
                            }
                        }
                    }
                }
            },
            ExecPlan::RepeatMotion(c) => {
                if let Some(c) = self.line.handle_motion_repeat(&c) {
                    self.fire(&c);
                }
            }
            ExecPlan::Fire { cmd, to_normal } => {
                if to_normal {
                    self.swap(&NewMode::Normal);
                }
                self.fire(&cmd);
                let end = self.line.end_exec(&cmd);
                if end.to_normal {
                    self.swap(&NewMode::Normal);
                }
                if let Some(m) = end.exit {
                    self.swap(&m);
                }
            }
        }
    }

    fn run(&mut self, c: EditCmd) {
        let shell = self.env.shell;
        match self.line.begin_run(&c, &mut self.regs, &shell) {
            RunPlan::Nothing => {}
            RunPlan::Replay(keys) => {
                for k in keys {
                    self.handle(k);
                }
                self.line.editor.stop_undo_merge();
            }
            RunPlan::Exec => {
                let before = self.line.editor.joined();
                let cursor = self.line.editor.cursor();
                self.exec(c.copy(), false);
                self.line.run_cmd(&c, &before, cursor);
                self.update_hint();
            }
        }
    }

    fn resolve(&mut self, c: EditCmd) {
        let lc = self.line.resolve_cmd(c, true);
        match self.line.handle_key(lc) {
            KeyStep::Run(c) => self.run(c),
            KeyStep::Submit(c) => {
                self.line.editor.attempt_alias_expansion(&self.env);
                match self.line.submit_line(&[], true, &self.env) {
                    SubmitStep::Expanded => {}
                    SubmitStep::Submit => {
                        self.line.begin_submit(&self.env.opts);
                        self.submitted = Some(self.line.submit(true));
                    }
                    SubmitStep::Run => self.run(c),
                }
            }
            KeyStep::Scroll(n) => {
                if n < 0 {
                    self.hist_at = (self.hist_at + 1).min(self.hist.len());
                } else {
                    self.hist_at = self.hist_at.saturating_sub(1);
                }
                let entry = match self.hist_at {
                    0 => None,
                    n => Some(self.hist[self.hist.len() - n].clone()),
                };
                let o = self.env.opts;
                self.line.swap_history_editor(entry.as_deref(), &o);
            }
            KeyStep::Type(rows, seq) => {
                for row in rows {
                    self.line.editor.set_cursor(Pos { row, col: 0 });
                    self.swap(&NewMode::Normal);
                    for c in seq.chars() {
                        self.handle(key(c));
                    }
                }
                self.line.editor.stop_undo_merge();
                self.swap(&NewMode::Normal);
            }
            _ => {}
        }
    }

    fn insert_key(&mut self, ch: char) -> EditCmd {
        match ch {
            '\u{1b}' => cmd(Some((1, Verb::NormalMode)), Some((1, Motion::BackwardChar))),
            '\u{8}' | '\u{7f}' => cmd(Some((1, Verb::Delete)), Some((1, Motion::BackwardCharForced))),
            '\u{17}' => cmd(
                Some((1, Verb::Delete)),
                Some((1, Motion::WordMotion(To::Start, Word::Normal, Direction::Backward))),
            ),
            '\r' => cmd(Some((1, Verb::AcceptLineOrNewline)), None),
            c => cmd(Some((1, Verb::InsertChar(c))), Some((1, Motion::ForwardChar))),
        }
    }

    /// A key to complete a word: several commands fit.
    fn complete(&mut self, k: &KeyEvent) {
        let Some(c) = self.line.resolve_key(k) else { return };
        assert!(matches!(self.line.handle_key(c), KeyStep::Complete));
        let TabStart::Complete(ask) = self.line.begin_tab(k, &[], &self.env) else { return };
        let token = ask.line[..ask.cursor].to_string();
        let matches = vec![format!("{token}args"), format!("{token}xd")];
        let out = CompOutcome::Many { active: true, matches, token };
        let o = self.env.opts;
        self.line.handle_tab(&out, true, &o);
    }

    /// A key for the mode.
    fn handle(&mut self, k: KeyEvent) {
        if k.code == KeyCode::Tab {
            self.complete(&k);
            return;
        }
        let KeyCode::Char(ch) = k.code else {
            if k.code == KeyCode::Up {
                self.resolve(cmd(None, Some((1, Motion::LineUp))));
            }
            return;
        };
        self.line.mode.pending_seq = Some(self.pend.iter().collect());
        if let Some(LineCmd::AppendHint) = self.line.resolve_key(&k) {
            self.line.accept_hint(true, &self.env);
            return;
        }
        match self.line.mode.report {
            ModeReport::Insert if ch == '\u{f}' => self.once = true,
            ModeReport::Insert if !self.once => {
                let c = self.insert_key(ch);
                if ch != '\u{1b}' {
                    self.typed.push(c.copy());
                }
                self.resolve(c);
            }
            ModeReport::Replace => {
                let c = match ch {
                    '\u{1b}' => cmd(Some((1, Verb::NormalMode)), Some((1, Motion::BackwardChar))),
                    '\u{8}' => cmd(None, Some((1, Motion::BackwardChar))),
                    c => cmd(Some((1, Verb::ReplaceCharInplace(c, 1))), Some((1, Motion::ForwardChar))),
                };
                self.resolve(c);
            }
            ModeReport::Ex => {
                if ch == '\r' {
                    let node = parse_ex(&self.sub.clone()).expect("an ex command");
                    let mut c = cmd(Some((1, Verb::ExCmd(node))), None);
                    c.flags = CmdFlags { is_ex_cmd: true, exit_cur_mode: true, ..CmdFlags::empty() };
                    self.resolve(c);
                } else {
                    self.sub.push(ch);
                }
            }
            ModeReport::Search | ModeReport::RevSearch => {
                if ch == '\r' {
                    let d = if self.line.mode.report == ModeReport::Search {
                        Direction::Forward
                    } else {
                        Direction::Backward
                    };
                    let m = Motion::Search(self.sub.clone(), d);
                    let mut c = cmd(None, Some((self.count, m)));
                    c.flags = CmdFlags { exit_cur_mode: true, ..CmdFlags::empty() };
                    self.resolve(c);
                } else {
                    self.sub.push(ch);
                }
            }
            report => {
                self.pend.push(ch);
                let p = if report == ModeReport::Visual {
                    parse_visual(&self.pend)
                } else {
                    parse_normal(&self.pend)
                };
                match p {
                    Parsed::Pending => {}
                    Parsed::Invalid => self.pend.clear(),
                    Parsed::Done(c) => {
                        self.pend.clear();
                        self.once = false;
                        self.resolve(c);
                    }
                }
            }
        }
    }

    /// A key from the keyboard.
    fn press(&mut self, k: KeyEvent) {
        let shell = self.env.shell;
        if self.line.record_key(&k, &mut self.regs, &shell) {
            return;
        }
        if self.line.completing && k.code == KeyCode::Char('\u{1b}') {
            let o = self.env.opts;
            let (used, _) = self.line.handle_completion_key(&CompResponse::Dismiss, true, &o);
            assert!(used && !self.line.completing);
            return;
        }
        self.handle(k);
    }
}

fn vi(initial: &str, keys: &str, text: &str, cursor: usize) {
    let mut vi = Vi::new(initial, ModeReport::Normal);
    for c in keys.chars() {
        vi.press(key(c));
    }
    assert_eq!(vi.line.editor.joined(), text);
    assert_eq!(vi.line.editor.cursor_to_flat(), cursor);
}

/// Keys with the notation of key maps for those that have no character.
fn visual(initial: &str, keys: &str, text: &str, cursor: usize) {
    let mut k = keys.to_string();
    for (name, c) in [
        ("<Esc>", "\u{1b}"),
        ("<BS>", "\u{8}"),
        ("<Right>", "l"),
        ("<C-a>", "\u{1}"),
        ("<C-x>", "\u{18}"),
        ("<C-r>", "\u{12}"),
        ("<C-g>", "\u{7}"),
        ("<C-d>", "\u{4}"),
        ("<C-u>", "\u{15}"),
    ] {
        k = k.replace(name, c);
    }
    // An angle bracket that begins no name spells nothing.
    let k = k.trim_end_matches('<').to_string();
    vi(initial, &k, text, cursor);
}

/// Keys typed in insert mode, with a history.
fn hint(hist: &[&str], keys: &str, text: &str, hint: &str, cursor: usize) {
    let mut vi = Vi::new("", ModeReport::Insert);
    vi.hist = hist.iter().map(|s| s.to_string()).collect();
    let mut k = keys.to_string();
    for (name, c) in [("<Esc>", "\u{1b}"), ("<BS>", "\u{8}"), ("<C-o>", "\u{f}")] {
        k = k.replace(name, c);
    }
    if let Some(rest) = k.strip_prefix("<Up>") {
        vi.press(KeyEvent { code: KeyCode::Up, mods: ModKeys::empty(), seq: None });
        k = rest.to_string();
    }
    for c in k.chars() {
        vi.press(key(c));
    }
    assert_eq!(vi.line.editor.joined(), text, "buffer mismatch");
    assert_eq!(vi.line.editor.try_join_hint().unwrap_or_default(), hint, "hint mismatch");
    assert_eq!(vi.line.editor.cursor_to_flat(), cursor, "cursor mismatch");
}

/// Keys typed in insert mode, with aliases.
fn alias(keys: &str, text: &str) {
    let mut vi = Vi::new("", ModeReport::Insert);
    for c in keys.chars() {
        vi.press(key(c));
    }
    assert_eq!(vi.line.editor.joined(), text, "\nInput: {keys:?}");
}

fn no_alias(keys: &str) {
    let mut vi = Vi::new("", ModeReport::Insert);
    for c in keys.chars() {
        vi.press(key(c));
    }
    let before = vi.line.editor.joined();
    let expanded = vi.line.editor.attempt_alias_expansion(&vi.env);
    assert!(!expanded, "expected no alias expansion but expansion occurred");
    assert_eq!(vi.line.editor.joined(), before);
}

fn typed(keys: &str) -> Vi {
    let mut vi = Vi::new("", ModeReport::Insert);
    for c in keys.chars() {
        vi.press(key(c));
    }
    vi
}

/// The exclamation marks in a text.
fn expansions<S: Fn(&str, Ask) -> Answer>(b: &LineBuf, env: &Env<S>) -> Vec<HistUse> {
    let glyphs: Vec<(Pos, Option<char>)> =
        b.grapheme_positions().into_iter().map(|(p, g)| (p, g.as_char())).collect();
    let mut changes = Vec::new();
    b.find_history_expansions(&mut changes, &glyphs, Pos { row: 0, col: 0 }, env);
    changes
        .into_iter()
        .map(|c| HistUse {
            start: b.pos_to_byte(c.span.0).unwrap(),
            end: b.pos_to_byte(c.span.1.col_add(1)).unwrap(),
            raw: String::new(),
            resolved: Some(c.text),
        })
        .collect()
}

/// A text entered with a history: what it is expanded to.
fn entered(cmds: &[&str], input: &str) -> Option<String> {
    let hist: Vec<String> = cmds.iter().map(|s| s.to_string()).collect();
    let answer = move |text: &str, ask: Ask| {
        let mut a = shell(text, ask);
        a.command = match ask {
            Ask::HistoryLast => hist.last().cloned(),
            Ask::HistoryToken => match text.parse::<isize>() {
                Ok(n) if n < 0 => hist.iter().rev().nth((-n - 1) as usize).cloned(),
                Ok(n) => hist.get((n - 1) as usize).cloned(),
                Err(_) => hist.iter().rev().find(|e| e.starts_with(text)).cloned(),
            },
            _ => None,
        };
        a
    };
    let env = Env { opts: opts(), shell: answer };
    let mut b = LineBuf::new();
    b.set_buffer(input.trim_end_matches('\r'), &opts());
    b.move_cursor_to_end();
    let found = expansions(&b, &env);
    if b.attempt_history_expansion(&found, &env) {
        Some(b.joined())
    } else {
        assert!(found.is_empty());
        None
    }
}

fn emacs_cmd(name: &str) -> EditCmd {
    let word = |to, d| Motion::WordMotion(to, Word::Normal, d);
    let fwd = Direction::Forward;
    let back = Direction::Backward;
    let (v, m) = match name {
        "<BS>" => (Some(Verb::Delete), Some(Motion::BackwardCharForced)),
        "<C-a>" => (None, Some(Motion::StartOfLine)),
        "<C-e>" => (None, Some(Motion::EndOfLine)),
        "<C-f>" => (None, Some(Motion::ForwardChar)),
        "<C-b>" => (None, Some(Motion::BackwardChar)),
        "<A-f>" => (None, Some(word(To::End, fwd))),
        "<A-b>" => (None, Some(word(To::Start, back))),
        "<C-d>" => (Some(Verb::DeleteOrEof), Some(Motion::ForwardChar)),
        "<C-k>" => (Some(Verb::Kill), Some(Motion::EndOfLine)),
        "<C-u>" => (Some(Verb::Kill), Some(Motion::StartOfLine)),
        "<C-w>" | "<A-BS>" => (Some(Verb::Kill), Some(word(To::Start, back))),
        "<A-d>" => (Some(Verb::Kill), Some(word(To::End, fwd))),
        "<C-y>" => (Some(Verb::KillPut), None),
        "<C-t>" => (Some(Verb::TransposeChar), None),
        "<A-t>" => (Some(Verb::TransposeWord), None),
        "<A-u>" => (Some(Verb::ToUpper), Some(word(To::End, fwd))),
        "<A-l>" => (Some(Verb::ToLower), Some(word(To::End, fwd))),
        "<A-c>" => (Some(Verb::Capitalize), Some(word(To::End, fwd))),
        "<C-/>" => (Some(Verb::Undo), None),
        c => (Some(Verb::InsertChar(c.chars().next().unwrap())), Some(Motion::ForwardChar)),
    };
    cmd(v.map(|v| (1, v)), m.map(|m| (1, m)))
}

fn emacs(initial: &str, keys: &str, text: &str, cursor: usize) {
    let mut em = Vi::new(initial, ModeReport::Emacs);
    em.line.editor.set_cursor_from_flat(initial.chars().count(), &opts());
    let mut rest = keys;
    while !rest.is_empty() {
        let n = if rest.starts_with('<') { rest.find('>').unwrap() + 1 } else { 1 };
        em.resolve(emacs_cmd(&rest[..n]));
        rest = &rest[n..];
    }
    assert_eq!(em.line.editor.joined(), text);
    assert_eq!(em.line.editor.cursor_to_flat(), cursor);
}

#[test]
fn vi_auto_indent() {
    let lines = [
        "func() {",
        "case foo in",
        "bar)",
        "while true; do",
        "echo foo \\\rbar \\\rbiz \\\rbazz\rbreak\rdone\r;;\resac\r}",
    ];
    let vi = typed(&lines.join("\r"));
    assert_eq!(
        vi.line.editor.joined(),
        "func() {\n\tcase foo in\n\t\tbar)\n\t\t\twhile true; do\n\t\t\t\techo foo \\\n\t\t\t\tbar \\\n\t\t\t\tbiz \\\n\t\t\t\tbazz\n\t\t\t\tbreak\n\t\t\tdone\n\t\t;;\n\tesac\n}"
    );
}

#[test]
fn vi_auto_indent_siblings() {
    let lines = [
        "if foo; then",
        "echo foo",
        "elif bar; then",
        "echo biz",
        "else",
        "echo bar",
        "fi",
    ];
    let vi = typed(&lines.join("\r"));
    assert_eq!(
        vi.line.editor.joined(),
        "if foo; then\n\techo foo\nelif bar; then\n\techo biz\nelse\n\techo bar\nfi"
    );
}

#[test]
fn vi_auto_indent_funcdef() {
    let mut vi = typed("func_def() {}");
    for c in ['\u{1b}', 'i', '\r', '\u{1b}', 'O'] {
        vi.press(key(c));
    }
    assert_eq!(vi.line.editor.joined(), "func_def() {\n\t\n}");
}

#[test]
fn vi_func_def_is_finished() {
    let vi = typed("func_def() {\r}\r");
    assert_eq!(vi.line.editor.joined(), "");
    assert_eq!(vi.submitted.as_deref(), Some("func_def() {\n}"));
}

#[test]
fn case_stmt_is_finished() {
    let vi = typed("case foo in\rfoo)\rcase bar in\rbar)\recho foo\r;;\resac\r;;\resac\r");
    assert_eq!(vi.line.editor.joined(), "");
    assert!(vi.submitted.is_some());
}

#[test]
fn alias_no_expand_when_disabled() {
    let mut vi = Vi::new("", ModeReport::Insert);
    vi.env.opts.expand_aliases = false;
    for c in "gc ".chars() {
        vi.press(key(c));
    }
    assert_ne!(vi.line.editor.joined(), "git commit");
    assert_eq!(vi.line.editor.joined(), "gc ");
}

#[test]
fn dot_with_count_n_takes_override_branch() {
    vi("one two three four five", "0dw3.", "three four five", 0);
}

#[test]
fn dw_basic() {
    vi("hello world", "dw", "world", 0);
}

#[test]
fn dw_middle() {
    vi("one two three", "wdw", "one three", 4);
}

#[test]
fn dd_whole_line() {
    vi("hello world", "dd", "", 0);
}

#[test]
fn x_single() {
    vi("hello", "x", "ello", 0);
}

#[test]
fn x_middle() {
    vi("hello", "llx", "helo", 2);
}

#[test]
fn X_backdelete() {
    vi("hello", "llX", "hllo", 1);
}

#[test]
fn h_motion() {
    vi("hello", "$h", "hello", 3);
}

#[test]
fn l_motion() {
    vi("hello", "l", "hello", 1);
}

#[test]
fn h_at_start() {
    vi("hello", "h", "hello", 0);
}

#[test]
fn l_at_end() {
    vi("hello", "$l", "hello", 4);
}

#[test]
fn w_forward() {
    vi("one two three", "w", "one two three", 4);
}

#[test]
fn b_backward() {
    vi("one two three", "$b", "one two three", 8);
}

#[test]
fn e_end() {
    vi("one two three", "e", "one two three", 2);
}

#[test]
fn ge_back_end() {
    vi("one two three", "$ge", "one two three", 6);
}

#[test]
fn w_punctuation() {
    vi("foo.bar baz", "w", "foo.bar baz", 3);
}

#[test]
fn e_punctuation() {
    vi("foo.bar baz", "e", "foo.bar baz", 2);
}

#[test]
fn b_punctuation() {
    vi("foo.bar baz", "$b", "foo.bar baz", 8);
}

#[test]
fn w_at_eol() {
    vi("hello", "$w", "hello", 4);
}

#[test]
fn b_at_bol() {
    vi("hello", "b", "hello", 0);
}

#[test]
fn W_forward() {
    vi("foo.bar baz", "W", "foo.bar baz", 8);
}

#[test]
fn B_backward() {
    vi("foo.bar baz", "$B", "foo.bar baz", 8);
}

#[test]
fn E_end() {
    vi("foo.bar baz", "E", "foo.bar baz", 6);
}

#[test]
fn gE_back_end() {
    vi("one two three", "$gE", "one two three", 6);
}

#[test]
fn W_skip_punct() {
    vi("one-two three", "W", "one-two three", 8);
}

#[test]
fn B_skip_punct() {
    vi("one two-three", "$B", "one two-three", 4);
}

#[test]
fn E_skip_punct() {
    vi("one-two three", "E", "one-two three", 6);
}

#[test]
fn dW_big() {
    vi("foo.bar baz", "dW", "baz", 0);
}

#[test]
fn cW_big() {
    vi("foo.bar baz", "cWx\x1b", "x baz", 0);
}

#[test]
fn zero_bol() {
    vi("  hello", "$0", "  hello", 0);
}

#[test]
fn caret_first_char() {
    vi("  hello", "$^", "  hello", 2);
}

#[test]
fn dollar_eol() {
    vi("hello world", "$", "hello world", 10);
}

#[test]
fn g_last_nonws() {
    vi("hello   ", "g_", "hello   ", 4);
}

#[test]
fn g_no_trailing() {
    vi("hello", "g_", "hello", 4);
}

#[test]
fn pipe_column() {
    vi("hello world", "6|", "hello world", 5);
}

#[test]
fn pipe_col1() {
    vi("hello world", "1|", "hello world", 0);
}

#[test]
fn I_insert_front() {
    vi("  hello", "Iworld \x1b", "  world hello", 7);
}

#[test]
fn A_append_end() {
    vi("hello", "A world\x1b", "hello world", 10);
}

#[test]
fn f_find() {
    vi("hello world", "fo", "hello world", 4);
}

#[test]
fn F_find_back() {
    vi("hello world", "$Fo", "hello world", 7);
}

#[test]
fn t_till() {
    vi("hello world", "tw", "hello world", 5);
}

#[test]
fn T_till_back() {
    vi("hello world", "$To", "hello world", 8);
}

#[test]
fn f_no_match() {
    vi("hello", "fz", "hello", 0);
}

#[test]
fn semicolon_repeat() {
    vi("abcabc", "fa;;", "abcabc", 3);
}

#[test]
fn comma_reverse() {
    vi("abcabc", "fa;;,", "abcabc", 0);
}

#[test]
fn df_semicolon() {
    vi("abcabc", "fa;;dfa", "abcabc", 3);
}

#[test]
fn t_at_target() {
    vi("aab", "lta", "aab", 1);
}

#[test]
fn D_to_end() {
    vi("hello world", "wD", "hello ", 5);
}

#[test]
fn d_dollar() {
    vi("hello world", "wd$", "hello ", 5);
}

#[test]
fn d0_to_start() {
    vi("hello world", "$d0", "d", 0);
}

#[test]
fn dw_multiple() {
    vi("one two three", "d2w", "three", 0);
}

#[test]
fn dt_char() {
    vi("hello world", "dtw", "world", 0);
}

#[test]
fn df_char() {
    vi("hello world", "dfw", "orld", 0);
}

#[test]
fn dh_back() {
    vi("hello", "lldh", "hllo", 1);
}

#[test]
fn dl_forward() {
    vi("hello", "dl", "ello", 0);
}

#[test]
fn dge_back_end() {
    vi("one two three", "$dge", "one tw", 5);
}

#[test]
fn dG_to_end() {
    vi("hello world", "dG", "", 0);
}

#[test]
fn dgg_to_start() {
    vi("hello world", "$dgg", "", 0);
}

#[test]
fn d_semicolon() {
    vi("abcabc", "fad;", "abcabc", 3);
}

#[test]
fn cw_basic() {
    vi("hello world", "cwfoo\x1b", "foo world", 2);
}

#[test]
fn C_to_end() {
    vi("hello world", "wCfoo\x1b", "hello foo", 8);
}

#[test]
fn cc_whole() {
    vi("hello world", "ccfoo\x1b", "foo", 2);
}

#[test]
fn ct_char() {
    vi("hello world", "ctwfoo\x1b", "fooworld", 2);
}

#[test]
fn s_single() {
    vi("hello", "sfoo\x1b", "fooello", 2);
}

#[test]
fn S_whole_line() {
    vi("hello world", "Sfoo\x1b", "foo", 2);
}

#[test]
fn cl_forward() {
    vi("hello", "clX\x1b", "Xello", 0);
}

#[test]
fn ch_backward() {
    vi("hello", "llchX\x1b", "hXllo", 1);
}

#[test]
fn cb_word_back() {
    vi("hello world", "$cbfoo\x1b", "hello food", 8);
}

#[test]
fn ce_word_end() {
    vi("hello world", "cefoo\x1b", "foo world", 2);
}

#[test]
fn c0_to_start() {
    vi("hello world", "wc0foo\x1b", "fooworld", 2);
}

#[test]
fn yw_p_basic() {
    vi("hello world", "ywwP", "hello hello world", 11);
}

#[test]
fn dw_p_paste() {
    vi("hello world", "dwP", "hello world", 5);
}

#[test]
fn dd_p_paste() {
    vi("hello world", "ddp", "\nhello world", 1);
}

#[test]
fn y_dollar_p() {
    vi("hello world", "wy$P", "hello worldworld", 10);
}

#[test]
fn ye_p() {
    vi("hello world", "yewP", "hello helloworld", 10);
}

#[test]
fn yy_p() {
    vi("hello world", "yyp", "hello world\nhello world", 12);
}

#[test]
fn Y_p() {
    vi("hello world", "Yp", "hhello worldello world", 11);
}

#[test]
fn p_after_x() {
    vi("hello", "xp", "ehllo", 1);
}

#[test]
fn P_before() {
    vi("hello", "llxP", "hello", 2);
}

#[test]
fn paste_empty() {
    vi("hello", "p", "hello", 0);
}

#[test]
fn r_replace() {
    vi("hello", "ra", "aello", 0);
}

#[test]
fn r_middle() {
    vi("hello", "llra", "healo", 2);
}

#[test]
fn r_at_end() {
    vi("hello", "$ra", "hella", 4);
}

#[test]
fn r_space() {
    vi("hello", "r ", " ello", 0);
}

#[test]
fn r_with_count() {
    vi("hello", "3rx", "xxxlo", 2);
}

#[test]
fn tilde_single() {
    vi("hello", "~", "Hello", 1);
}

#[test]
fn tilde_count() {
    vi("hello", "3~", "HELlo", 3);
}

#[test]
fn tilde_at_end() {
    vi("HELLO", "$~", "HELLo", 4);
}

#[test]
fn tilde_mixed() {
    vi("hElLo", "5~", "HeLlO", 4);
}

#[test]
fn gu_word() {
    vi("HELLO world", "guw", "hello world", 0);
}

#[test]
fn gU_word() {
    vi("hello WORLD", "gUw", "HELLO WORLD", 0);
}

#[test]
fn gu_dollar() {
    vi("HELLO WORLD", "gu$", "hello world", 0);
}

#[test]
fn gU_dollar() {
    vi("hello world", "gU$", "HELLO WORLD", 0);
}

#[test]
fn gu_0() {
    vi("HELLO WORLD", "$gu0", "hello worlD", 0);
}

#[test]
fn gU_0() {
    vi("hello world", "$gU0", "HELLO WORLd", 0);
}

#[test]
fn gtilde_word() {
    vi("hello WORLD", "g~w", "HELLO WORLD", 0);
}

#[test]
fn gtilde_dollar() {
    vi("hello WORLD", "g~$", "HELLO world", 0);
}

#[test]
fn diw_inner() {
    vi("one two three", "wdiw", "one  three", 4);
}

#[test]
fn ciw_replace() {
    vi("hello world", "ciwfoo\x1b", "foo world", 2);
}

#[test]
fn daw_around() {
    vi("one two three", "wdaw", "one three", 4);
}

#[test]
fn yiw_p() {
    vi("hello world", "yiwAp \x1bp", "hello worldp hello", 17);
}

#[test]
fn diW_big_inner() {
    vi("one-two three", "diW", " three", 0);
}

#[test]
fn daW_big_around() {
    vi("one two-three end", "wdaW", "one end", 4);
}

#[test]
fn ciW_big() {
    vi("one-two three", "ciWx\x1b", "x three", 0);
}

#[test]
fn diw_on_single_space() {
    vi("foo bar", "f diw", "foobar", 3);
}

#[test]
fn diw_on_multi_space_run() {
    vi("a   b", "f diw", "ab", 1);
}

#[test]
fn diW_on_whitespace() {
    vi("foo bar", "f diW", "foobar", 3);
}

#[test]
fn diw_from_middle_of_word() {
    vi("one two three", "wldiw", "one  three", 4);
}

#[test]
fn diw_at_last_char_of_word() {
    vi("foo", "$diw", "", 0);
}

#[test]
fn diW_from_middle_punct() {
    vi("one-two three", "lldiW", " three", 0);
}

#[test]
fn daw_at_buffer_start() {
    vi("foo bar baz", "daw", "bar baz", 0);
}

#[test]
fn diw_on_punctuation_char() {
    vi("one-two", "llldiw", "onetwo", 3);
}

#[test]
fn di_dquote() {
    vi("one \"two\" three", "f\"di\"", "one \"\" three", 5);
}

#[test]
fn da_dquote() {
    vi("one \"two\" three", "f\"da\"", "one three", 4);
}

#[test]
fn ci_dquote() {
    vi("one \"two\" three", "f\"ci\"x\x1b", "one \"x\" three", 5);
}

#[test]
fn di_squote() {
    vi("one 'two' three", "f'di'", "one '' three", 5);
}

#[test]
fn da_squote() {
    vi("one 'two' three", "f'da'", "one three", 4);
}

#[test]
fn di_backtick() {
    vi("one `two` three", "f`di`", "one `` three", 5);
}

#[test]
fn da_backtick() {
    vi("one `two` three", "f`da`", "one three", 4);
}

#[test]
fn ci_dquote_empty() {
    vi("one \"\" three", "f\"ci\"x\x1b", "one \"x\" three", 5);
}

#[test]
fn di_paren() {
    vi("one (two) three", "f(di(", "one () three", 5);
}

#[test]
fn da_paren() {
    vi("one (two) three", "f(da(", "one  three", 4);
}

#[test]
fn ci_paren() {
    vi("one (two) three", "f(ci(x\x1b", "one (x) three", 5);
}

#[test]
fn di_brace() {
    vi("one {two} three", "f{di{", "one {} three", 5);
}

#[test]
fn da_brace() {
    vi("one {two} three", "f{da{", "one  three", 4);
}

#[test]
fn di_bracket() {
    vi("one [two] three", "f[di[", "one [] three", 5);
}

#[test]
fn da_bracket() {
    vi("one [two] three", "f[da[", "one  three", 4);
}

#[test]
fn di_angle() {
    vi("one <two> three", "f<di<", "one <> three", 5);
}

#[test]
fn da_angle() {
    vi("one <two> three", "f<da<", "one  three", 4);
}

#[test]
fn di_paren_nested() {
    vi("fn(a, (b, c))", "f(di(", "fn()", 3);
}

#[test]
fn di_paren_empty() {
    vi("fn() end", "f(di(", "fn() end", 3);
}

#[test]
fn dib_alias() {
    vi("one (two) three", "f(dib", "one () three", 5);
}

#[test]
fn diB_alias() {
    vi("one {two} three", "f{diB", "one {} three", 5);
}

#[test]
fn percent_paren() {
    vi("(hello) world", "%", "(hello) world", 6);
}

#[test]
fn percent_brace() {
    vi("{hello} world", "%", "{hello} world", 6);
}

#[test]
fn percent_bracket() {
    vi("[hello] world", "%", "[hello] world", 6);
}

#[test]
fn percent_from_close() {
    vi("(hello) world", "f)%", "(hello) world", 0);
}

#[test]
fn d_percent_paren() {
    vi("(hello) world", "d%", " world", 0);
}

#[test]
fn to_paren_fwd() {
    vi("foo (bar) baz", "])", "foo (bar) baz", 8);
}

#[test]
fn to_paren_bkwd() {
    vi("foo (bar) baz", "f)[(", "foo (bar) baz", 4);
}

#[test]
fn to_brace_fwd() {
    vi("foo {bar} baz", "]}", "foo {bar} baz", 8);
}

#[test]
fn to_brace_bkwd() {
    vi("foo {bar} baz", "f}[{", "foo {bar} baz", 4);
}

#[test]
fn to_paren_nested() {
    vi("((a)(b)) end", "])", "((a)(b)) end", 7);
}

#[test]
fn to_brace_nested() {
    vi("{{a}{b}} end", "]}", "{{a}{b}} end", 7);
}

#[test]
fn d_to_paren_fwd() {
    vi("foo (bar) baz", "wd])", "foo  baz", 4);
}

#[test]
fn d_to_brace_fwd() {
    vi("foo {bar} baz", "wd]}", "foo  baz", 4);
}

#[test]
fn to_paren_no_match() {
    vi("foo bar baz", "])", "foo bar baz", 0);
}

#[test]
fn to_brace_no_match() {
    vi("foo bar baz", "]}", "foo bar baz", 0);
}

#[test]
fn i_insert() {
    vi("hello", "iX\x1b", "Xhello", 0);
}

#[test]
fn a_append() {
    vi("hello", "aX\x1b", "hXello", 1);
}

#[test]
fn I_front() {
    vi("  hello", "IX\x1b", "  Xhello", 2);
}

#[test]
fn A_end() {
    vi("hello", "AX\x1b", "helloX", 5);
}

#[test]
fn o_open_below() {
    vi("hello", "oworld\x1b", "hello\nworld", 10);
}

#[test]
fn O_open_above() {
    vi("hello", "Oworld\x1b", "world\nhello", 4);
}

#[test]
fn empty_input() {
    vi("", "i hello\x1b", " hello", 5);
}

#[test]
fn insert_escape() {
    vi("hello", "aX\x1b", "hXello", 1);
}

#[test]
fn ctrl_w_del_word() {
    vi("hello world", "A\x17\x1b", "hello ", 5);
}

#[test]
fn ctrl_h_backspace() {
    vi("hello", "A\x08\x1b", "hell", 3);
}

#[test]
fn ctrl_o_dw() {
    vi("hello world", "i\x0fdw\x1b", "world", 0);
}

#[test]
fn ctrl_o_x() {
    vi("hello", "i\x0fx\x1b", "ello", 0);
}

#[test]
fn ctrl_o_motion() {
    vi("hello world", "i\x0fwX\x1b", "hello Xworld", 6);
}

#[test]
fn u_undo_delete() {
    vi("hello world", "dwu", "hello world", 0);
}

#[test]
fn u_undo_change() {
    vi("hello world", "ciwfoo\x1bu", "hello world", 0);
}

#[test]
fn u_undo_x() {
    vi("hello", "xu", "hello", 0);
}

#[test]
fn ctrl_r_redo() {
    vi("hello", "xu\x12", "ello", 0);
}

#[test]
fn u_multiple() {
    vi("hello world", "xdwu", "ello world", 0);
}

#[test]
fn redo_after_undo() {
    vi("hello world", "dwu\x12", "world", 0);
}

#[test]
fn dot_repeat_x() {
    vi("hello", "x.", "llo", 0);
}

#[test]
fn dot_repeat_dw() {
    vi("one two three", "dw.", "three", 0);
}

#[test]
fn dot_repeat_cw() {
    vi("one two three", "cwfoo\x1bw.", "foo foo three", 6);
}

#[test]
fn dot_repeat_r() {
    vi("hello", "ra..", "aello", 0);
}

#[test]
fn dot_repeat_s() {
    vi("hello", "sX\x1bl.", "XXllo", 1);
}

#[test]
fn count_h() {
    vi("hello world", "$3h", "hello world", 7);
}

#[test]
fn count_l() {
    vi("hello world", "3l", "hello world", 3);
}

#[test]
fn count_w() {
    vi("one two three four", "2w", "one two three four", 8);
}

#[test]
fn count_b() {
    vi("one two three four", "$2b", "one two three four", 8);
}

#[test]
fn count_x() {
    vi("hello", "3x", "lo", 0);
}

#[test]
fn count_dw() {
    vi("one two three four", "2dw", "three four", 0);
}

#[test]
fn verb_count_motion() {
    vi("one two three four", "d2w", "three four", 0);
}

#[test]
fn count_s() {
    vi("hello", "3sX\x1b", "Xlo", 0);
}

#[test]
fn indent_line() {
    vi("hello", ">>", "\thello", 1);
}

#[test]
fn dedent_line() {
    vi("\thello", "<<", "hello", 0);
}

#[test]
fn indent_double() {
    vi("hello", ">>>>", "\t\thello", 2);
}

#[test]
fn J_join_lines() {
    vi("hello\nworld", "J", "hello world", 5);
}

#[test]
fn v_u_lower() {
    vi("HELLO", "vlllu", "hellO", 0);
}

#[test]
fn v_U_upper() {
    vi("hello", "vlllU", "HELLo", 0);
}

#[test]
fn v_d_delete() {
    vi("hello world", "vwwd", "", 0);
}

#[test]
fn v_x_delete() {
    vi("hello world", "vwwx", "", 0);
}

#[test]
fn v_c_change() {
    vi("hello world", "vwcfoo\x1b", "fooorld", 2);
}

#[test]
fn v_y_p_yank() {
    vi("hello world", "vwyAp \x1bp", "hello worldp hello w", 19);
}

#[test]
fn v_dollar_d() {
    vi("hello world", "wv$d", "hello ", 5);
}

#[test]
fn v_0_d() {
    vi("hello world", "$v0d", "", 0);
}

#[test]
fn ve_d() {
    vi("hello world", "ved", " world", 0);
}

#[test]
fn v_o_swap() {
    vi("hello world", "vllod", "lo world", 0);
}

#[test]
fn v_r_replace() {
    vi("hello", "vlllrx", "xxxxo", 0);
}

#[test]
fn v_tilde_case() {
    vi("hello", "vlll~", "HELLo", 0);
}

#[test]
fn V_d_delete() {
    vi("hello world", "Vd", "", 0);
}

#[test]
fn V_y_p() {
    vi("hello world", "Vyp", "hello world\nhello world", 12);
}

#[test]
fn V_S_change() {
    vi("hello world", "VSfoo\x1b", "foo", 2);
}

#[test]
fn ctrl_a_inc() {
    vi("num 5 end", "w\x01", "num 6 end", 4);
}

#[test]
fn ctrl_x_dec() {
    vi("num 5 end", "w\x18", "num 4 end", 4);
}

#[test]
fn ctrl_a_negative() {
    vi("num -3 end", "w\x01", "num -2 end", 5);
}

#[test]
fn ctrl_x_to_neg() {
    vi("num 0 end", "w\x18", "num -1 end", 5);
}

#[test]
fn ctrl_a_count() {
    vi("num 5 end", "w3\x01", "num 8 end", 4);
}

#[test]
fn ctrl_a_width() {
    vi("num 0x000001 end", "w\x01", "num 0x000002 end", 11);
}

#[test]
fn delete_empty() {
    vi("", "x", "", 0);
}

#[test]
fn undo_on_empty() {
    vi("", "u", "", 0);
}

#[test]
fn w_single_char() {
    vi("a b c", "w", "a b c", 2);
}

#[test]
fn dw_last_word() {
    vi("hello", "dw", "", 0);
}

#[test]
fn dollar_single() {
    vi("h", "$", "h", 0);
}

#[test]
fn caret_no_ws() {
    vi("hello", "$^", "hello", 0);
}

#[test]
fn f_last_char() {
    vi("hello", "fo", "hello", 4);
}

#[test]
fn r_on_space() {
    vi("hello world", "5|r-", "hell- world", 4);
}

#[test]
fn vw_doesnt_crash() {
    vi("", "vw", "", 0);
}

#[test]
fn indent_cursor_pos() {
    vi("echo foo", ">>", "\techo foo", 1);
}

#[test]
fn join_indent_lines() {
    vi("echo foo\n\t\techo bar", "J", "echo foo echo bar", 8);
}

#[test]
fn cw_stays_on_line() {
    vi("echo foo\necho bar", "wcw", "echo \necho bar", 5);
}

#[test]
fn ex_sub_simple() {
    vi("echo foo\necho bar", ":%s/foo/bar/\r", "echo bar\necho bar", 0);
}

#[test]
fn ex_global_simple() {
    vi("echo foo\necho bar\necho biz", ":g/echo/normal!dw\r", "foo\nbar\nbiz", 8);
}

#[test]
fn ex_sub_first_only() {
    vi("foo foo foo", ":s/foo/X/\r", "X foo foo", 0);
}

#[test]
fn ex_sub_global_flag() {
    vi("foo foo foo", ":s/foo/X/g\r", "X X X", 0);
}

#[test]
fn ex_sub_line_range() {
    vi("foo\nfoo\nfoo", ":2,3s/foo/bar/\r", "foo\nbar\nbar", 0);
}

#[test]
fn ex_sub_single_line() {
    vi("hello\nworld", ":1s/hello/hi/\r", "hi\nworld", 0);
}

#[test]
fn ex_repeat_sub() {
    vi("foo\nfoo", ":s/foo/bar/\rj:s\r", "bar\nbar", 4);
}

#[test]
fn ex_repeat_sub_all() {
    vi("foo\nfoo\nfoo", ":s/foo/bar/\r :%s\r", "bar\nbar\nbar", 0);
}

#[test]
fn ex_delete_cur() {
    vi("hello\nworld", ":d\r", "world", 0);
}

#[test]
fn ex_delete_all() {
    vi("hello\nworld", ":%d\r", "", 0);
}

#[test]
fn ex_delete_range() {
    vi("line1\nline2\nline3", ":1,2d\r", "line3", 0);
}

#[test]
fn ex_global_delete() {
    vi("echo foo\nls\necho bar", ":g/echo/d\r", "ls", 0);
}

#[test]
fn ex_global_sub() {
    vi("foo bar\nfoo baz\nkeep", ":g/foo/s/foo/X/\r", "X bar\nX baz\nkeep", 0);
}

#[test]
fn ex_global_negated_delete() {
    vi("echo foo\nls\necho bar\nkeep", ":g!/echo/d\r", "echo foo\necho bar", 9);
}

#[test]
fn ex_global_negated_sub() {
    vi("foo bar\nkeep\nfoo biz", ":g!/keep/s/foo/X/\r", "X bar\nkeep\nX biz", 0);
}

#[test]
fn ex_normal_range() {
    vi("hello world\nfoo bar\nbiz", ":1,2normal!dw\r", "world\nbar\nbiz", 6);
}

#[test]
fn ex_repeat_global() {
    vi("echo foo\nls\necho bar\nls2", ":g/echo/d\r   :g\r", "ls\nls2", 0);
}

#[test]
fn visual_dot_repeat() {
    vi("hello\nworld\nfoo\nbar\nbiz", "jVjdu2k.", "foo\nbar\nbiz", 0);
}

#[test]
fn visual_replace() {
    vi("echo ./barbiz/baz buzz", "wvEdwvep", "echo  ./barbiz/baz", 17);
}

#[test]
fn n_char_search_f() {
    vi("foo=(bar biz bam)", "d2fb", "iz bam)", 0);
}

#[test]
fn n_char_search_t() {
    vi("foo=(bar biz bam)", "d2tb", "biz bam)", 0);
}

#[test]
fn n_char_search_bkwd_f() {
    vi("foo=(bar biz bam)", "$d2Fb", "foo=(bar )", 9);
}

#[test]
fn n_char_search_bkwd_t() {
    vi("foo=(bar biz bam)", "$d2Tb", "foo=(bar b)", 10);
}

#[test]
fn count_search_fwd() {
    vi("foo=(bar biz bam)", "2/b\rx", "foo=(bar iz bam)", 9);
}

#[test]
fn count_search_bkwd() {
    vi("foo=(bar biz bam)", "3?b\rx", "foo=(ar biz bam)", 5);
}

#[test]
fn count_n_fwd() {
    vi("foo=(bar biz bam)", "/b\r2nx", "foo=(bar biz am)", 13);
}

#[test]
fn count_n_bkwd() {
    vi("foo=(bar biz bam)", "/b\r2Nx", "foo=(bar iz bam)", 9);
}

#[test]
fn macro_record() {
    vi("foo bar biz", "qacwbam\x1bwqQQ", "bam bam bam", 10);
}

#[test]
fn macro_double() {
    vi("foo BAR biz BAM", "qag~wwqqbguwwq@a@b", "FOO bar BIZ bam", 14);
}

#[test]
fn normal_V_line_visual_d() {
    vi("abc\ndef\nghi", "jVd", "abc\nghi", 4);
}

#[test]
fn normal_ctrl_a_increments() {
    vi("42", "\x01", "43", 1);
}

#[test]
fn normal_ctrl_x_decrements() {
    vi("42", "\x18", "41", 1);
}

#[test]
fn ctrl_a_at_end_of_buffer() {
    vi("v0.19.5", "$\x01", "v0.19.6", 6);
}

#[test]
fn ctrl_x_at_end_of_buffer() {
    vi("v0.19.5", "$\x18", "v0.19.4", 6);
}

#[test]
fn ctrl_a_at_eob_grows_width() {
    vi("v9", "$\x01", "v10", 2);
}

#[test]
fn ctrl_x_at_eob_shrinks_width() {
    vi("v10", "$\x18", "v9", 1);
}

#[test]
fn normal_ctrl_g_no_change() {
    vi("hello", "\x07", "hello", 0);
}

#[test]
fn replace_one_char() {
    vi("hello", "Rx\x1b", "xello", 0);
}

#[test]
fn replace_multiple_chars() {
    vi("hello", "Rxy\x1b", "xyllo", 1);
}

#[test]
fn replace_then_backspace() {
    vi("hello", "Rxy\x08\x1b", "xyllo", 0);
}

#[test]
fn replace_then_esc_to_normal() {
    vi("hello", "Rx\x1b", "xello", 0);
}

#[test]
fn replace_tab_completes() {
    vi("hello", "Rx\x09\x1b", "xello", 1);
}

#[test]
fn daw_on_whitespace_takes_a_word_of_one_letter() {
    vi("a b", "ldaw", "a", 0);
    vi("a b c", "ldaw", "a c", 1);
    vi("a bc", "ldaw", "a", 0);
}

#[test]
fn undo_and_redo_follow_a_repeated_insertion() {
    for (keys, text) in [
        ("ix\x1b.", "xx"),
        ("ix\x1b.u", "x"),
        ("ix\x1b.u\u{12}", "xx"),
        ("ix\x1b.uu", ""),
    ] {
        let mut vi = Vi::new("", ModeReport::Normal);
        for c in keys.chars() {
            vi.press(key(c));
        }
        assert_eq!(vi.line.editor.joined(), text);
    }
}

#[test]
fn ex_nested_global() {
    vi("alpha bravo\nalpha charlie\ndelta bravo\ngamma", ":g/alpha/g/bravo/normal!dw\r", "bravo\nalpha charlie\ndelta bravo\ngamma", 0);
}

#[test]
fn daw_at_buffer_end_keeps_leading_space() {
    vi("foo bar", "$daw", "foo ", 3);
}

#[test]
fn daw_on_whitespace_takes_following_word() {
    vi("foo bar", "f daw", "foo", 2);
}

#[test]
fn daW_on_whitespace_takes_following_big_word() {
    vi("a b-c d", "f daW", "a d", 1);
}

#[test]
fn insert_chars() {
    emacs("", "hello", "hello", 5);
}

#[test]
fn insert_then_more() {
    emacs("abc", "def", "abcdef", 6);
}

#[test]
fn backspace_one() {
    emacs("hello", "<BS>", "hell", 4);
}

#[test]
fn backspace_many() {
    emacs("hello", "<BS><BS><BS>", "he", 2);
}

#[test]
fn ctrl_a_to_start() {
    emacs("hello", "<C-a>", "hello", 0);
}

#[test]
fn ctrl_e_to_end() {
    emacs("hello", "<C-a><C-e>", "hello", 5);
}

#[test]
fn ctrl_f_forward_char() {
    emacs("hello", "<C-a><C-f>", "hello", 1);
}

#[test]
fn ctrl_b_backward_char() {
    emacs("hello", "<C-b>", "hello", 4);
}

#[test]
fn alt_f_word_forward() {
    emacs("one two three", "<C-a><A-f>", "one two three", 2);
}

#[test]
fn alt_b_word_backward() {
    emacs("one two three", "<A-b>", "one two three", 8);
}

#[test]
fn ctrl_d_deletes_under_cursor() {
    emacs("hello", "<C-a><C-d>", "ello", 0);
}

#[test]
fn ctrl_k_kills_to_eol() {
    emacs("hello world", "<C-a><C-f><C-f><C-f><C-f><C-f><C-k>", "hello", 5);
}

#[test]
fn ctrl_u_kills_to_sol() {
    emacs("hello world", "<C-u>", "", 0);
}

#[test]
fn ctrl_w_kills_word_back() {
    emacs("one two three", "<C-w>", "one two ", 8);
}

#[test]
fn alt_bs_kills_word_back() {
    emacs("one two three", "<A-BS>", "one two ", 8);
}

#[test]
fn alt_d_kills_word_forward() {
    emacs("one two three", "<C-a><A-d>", " two three", 0);
}

#[test]
fn yank_after_kill_word() {
    emacs("one two", "<C-w><C-y>", "one two", 7);
}

#[test]
fn ctrl_t_transpose() {
    emacs("abc", "<C-a><C-f><C-t>", "bac", 2);
}

#[test]
fn alt_t_first_word_noop() {
    emacs("foo bar", "<C-a><A-t>", "foo bar", 0);
}

#[test]
fn alt_t_inside_second_word() {
    emacs("foo bar", "<C-b><A-t>", "bar foo", 7);
}

#[test]
fn alt_u_uppercases_word() {
    emacs("hello world", "<C-a><A-u>", "HELLO world", 0);
}

#[test]
fn alt_l_lowercases_word() {
    emacs("HELLO WORLD", "<C-a><A-l>", "hello WORLD", 0);
}

#[test]
fn alt_c_capitalizes_word() {
    emacs("hello world", "<C-a><A-c>", "Hello world", 5);
}

#[test]
fn ctrl_slash_undoes() {
    emacs("hello", "x<C-/>", "hello", 5);
}

#[test]
fn esc_in_visual_returns_to_normal() {
    visual("hello", "v<Esc>", "hello", 0);
}

#[test]
fn v_l_l_d_deletes_three() {
    visual("hello", "vlld", "lo", 0);
}

#[test]
fn v_w_d_deletes_through_word_boundary() {
    visual("hello world", "vwd", "orld", 0);
}

#[test]
fn v_l_l_c_changes_three() {
    visual("hello", "vllcX<Esc>", "Xlo", 0);
}

#[test]
fn v_l_l_bs_d_deletes_two() {
    visual("hello", "vll<BS>d", "llo", 0);
}

#[test]
fn v_count_l_d_deletes_n_plus_one() {
    visual("abcdef", "v3ld", "ef", 0);
}

#[test]
fn ctrl_a_increments_visual_number() {
    visual("5", "v<C-a>", "6", 0);
}

#[test]
fn ctrl_x_decrements_visual_number() {
    visual("5", "v<C-x>", "4", 0);
}

#[test]
fn ctrl_a_on_full_multi_digit() {
    visual("10", "vl<C-a>", "11", 1);
}

#[test]
fn visual_ctrl_r_redoes_last_change() {
    visual("hello", "vllduv<C-r>", "lo", 0);
}

#[test]
fn v_right_right_d_deletes_via_arrows() {
    visual("abcdef", "v<Right><Right>d", "def", 0);
}

#[test]
fn v_invalid_then_d_still_deletes() {
    visual("hello", "vzd", "ello", 0);
}

#[test]
fn ctrl_g_in_visual_doesnt_modify_buffer() {
    visual("hello", "v<C-g><Esc>", "hello", 0);
}

#[test]
fn ctrl_d_in_visual_single_line_noop() {
    visual("hello", "v<C-d><Esc>", "hello", 0);
}

#[test]
fn ctrl_u_in_visual_single_line_noop() {
    visual("hello", "v<C-u><Esc>", "hello", 0);
}

#[test]
fn parse_verb_y_yanks_and_p_pastes() {
    visual("hello", "vlly$p", "hellohel", 7);
}

#[test]
fn parse_verb_d_deletes_selection() {
    visual("hello", "vlld", "lo", 0);
}

#[test]
fn parse_verb_c_changes_selection() {
    visual("hello", "vllcX<Esc>", "Xlo", 0);
}

#[test]
fn parse_verb_x_deletes_selection() {
    visual("hello", "vllx", "lo", 0);
}

#[test]
fn parse_verb_s_deletes_like_d() {
    visual("hello", "vllsX<Esc>", "lo", 0);
}

#[test]
fn parse_verb_S_changes_selection() {
    visual("hello", "vllSX<Esc>", "Xlo", 0);
}

#[test]
fn parse_verb_tilde_toggles_case() {
    visual("Hello", "vll~", "hELlo", 0);
}

#[test]
fn parse_verb_u_lowers_selection() {
    visual("HELLO", "vllu", "helLO", 0);
}

#[test]
fn parse_verb_U_uppers_selection() {
    visual("hello", "vllU", "HELlo", 0);
}

#[test]
fn parse_verb_r_replaces_each_char() {
    visual("hello", "vllrX", "XXXlo", 0);
}

#[test]
fn parse_verb_capital_X_deletes_selection_only() {
    visual("foo\nbar", "vX", "oo\nbar", 0);
}

#[test]
fn parse_verb_capital_Y_yanks_selection_only() {
    visual("foo\nbar", "vYjP", "foo\nfbar", 4);
}

#[test]
fn parse_verb_capital_D_deletes_selection_only() {
    visual("foo\nbar", "vD", "oo\nbar", 0);
}

#[test]
fn parse_verb_capital_R_changes_selection_only() {
    visual("foo\nbar", "vRX<Esc>", "Xoo\nbar", 0);
}

#[test]
fn parse_verb_capital_C_changes_selection_only() {
    visual("foo\nbar", "vCX<Esc>", "Xoo\nbar", 0);
}

#[test]
fn parse_verb_gt_indents_line() {
    visual("foo\nbar", "v>", "\tfoo\nbar", 1);
}

#[test]
fn parse_verb_lt_dedent_at_indent_noop() {
    visual("\tfoo\nbar", "v<", "\tfoo\nbar", 0);
}

#[test]
fn parse_verb_p_pastes_over_selection() {
    visual("hello world", "yllvllp", "hho world", 1);
}

#[test]
fn parse_verb_capital_A_appends_at_selection_end() {
    visual("hello", "vllAX<Esc>", "heXllo", 2);
}

#[test]
fn parse_verb_capital_I_inserts_at_selection_start() {
    visual("hello", "$vlIX<Esc>", "hellXo", 4);
}

#[test]
fn parse_verb_o_swaps_anchor() {
    visual("hello", "vllo<Esc>", "hello", 2);
}

#[test]
fn parse_verb_capital_O_swaps_anchor() {
    visual("hello", "vllO<Esc>", "hello", 2);
}

#[test]
fn parse_verb_J_joins_selected_lines() {
    visual("foo\nbar", "vjJ", "foo bar", 3);
}

#[test]
fn parse_verb_gv_reselects_last_position() {
    visual("hello", "vll<Esc>gvd", "helo", 2);
}

#[test]
fn parse_verb_g_question_rot13() {
    visual("hello", "vllg?", "urylo", 0);
}

#[test]
fn parse_verb_dot_repeats_last_change() {
    visual("abcdefghij", "vllduvll.", "abcdhij", 4);
}

#[test]
fn parse_verb_eq_equalize_noop() {
    visual("foo", "v=", "foo", 0);
}

#[test]
fn parse_verb_invalid_then_d() {
    visual("hello", "vgX d", "ello", 0);
}

#[test]
fn breaks_on_metachars1() {
    let got = entered(&["cargo run"], "if !car;\r");
    assert_eq!(got.as_deref(), Some("if cargo run;"));
}

#[test]
fn breaks_on_metachars2() {
    let got = entered(&["cargo run"], "!car && true\r");
    assert_eq!(got.as_deref(), Some("cargo run && true"));
}

#[test]
fn breaks_on_metachars3() {
    let got = entered(&["cargo run"], "!car | grep foo\r");
    assert_eq!(got.as_deref(), Some("cargo run | grep foo"));
}

#[test]
fn ignores_closing_quote() {
    let got = entered(&["cargo run"], "echo \"foo !car\"\r");
    assert_eq!(got.as_deref(), Some("echo \"foo cargo run\""));
}

#[test]
fn works_in_double_quotes() {
    let got = entered(&["foo"], "\"!!\"\r");
    assert_eq!(got.as_deref(), Some("\"foo\""));
}

#[test]
fn no_match_is_passthrough() {
    let got = entered(&["foo", "bar"], "!z\r");
    assert_eq!(got.as_deref(), Some("z"));
}

#[test]
fn multiple() {
    let got = entered(&["hello", "world"], "echo !! !h\r");
    assert_eq!(got.as_deref(), Some("echo world hello"));
}

#[test]
fn inline() {
    let got = entered(&["world"], "echo !!\r");
    assert_eq!(got.as_deref(), Some("echo world"));
}

#[test]
fn positive_index() {
    let got = entered(&["alpha", "beta", "gamma"], "!1\r");
    assert_eq!(got.as_deref(), Some("alpha"));
}

#[test]
fn negative_index() {
    let got = entered(&["alpha", "beta", "gamma"], "!-2\r");
    assert_eq!(got.as_deref(), Some("beta"));
}

#[test]
fn bang_dollar_single_word() {
    let got = entered(&["solo"], "!$\r");
    assert_eq!(got.as_deref(), Some("solo"));
}

#[test]
fn bang_dollar() {
    let got = entered(&["echo hello world"], "!$\r");
    assert_eq!(got.as_deref(), Some("world"));
}

#[test]
fn bang_bang() {
    let got = entered(&["echo hello", "ls"], "!!\r");
    assert_eq!(got.as_deref(), Some("ls"));
}

#[test]
fn prefix_latest_match() {
    let got = entered(&["foo first", "bar", "foo second"], "!f\r");
    assert_eq!(got.as_deref(), Some("foo second"));
}

#[test]
fn prefix() {
    let got = entered(&["foo", "bar", "biz", "qux"], "!f\r");
    assert_eq!(got.as_deref(), Some("foo"));
}

#[test]
fn multiline() {
    let got = entered(&["echo foo", "if true; then\necho foo\nfi", "echo bar"], "!2\r");
    assert_eq!(got.as_deref(), Some("if true; then\n\techo foo\nfi"));
}

#[test]
fn parse_recurses() {
    let got = entered(&["cargo run"], "echo \"foo $(echo \"!car\") bar\"\r");
    assert_eq!(got.as_deref(), Some("echo \"foo $(echo \"cargo run\") bar\""));
}

#[test]
fn skips_param_indirection1() {
    assert_eq!(entered(&["cargo run"], "echo ${!var}"), None);
}

#[test]
fn skips_param_indirection2() {
    assert_eq!(entered(&["cargo run"], "echo ${!car}"), None);
}

#[test]
fn skips_param_indirection3() {
    assert_eq!(entered(&["cargo run"], "echo \"${!var}\""), None);
}

#[test]
fn no_recurse_in_single_quotes2() {
    assert_eq!(entered(&["cargo run"], "echo 'foo $(echo \"!car\") bar'"), None);
}

#[test]
fn no_recurse_in_single_quotes1() {
    assert_eq!(entered(&["cargo run"], "echo \"foo $(echo '!car') bar\"\r"), None);
}

#[test]
fn skips_dollar_bang() {
    assert_eq!(entered(&["foo"], "$!1"), None);
}

#[test]
fn skips_single_quotes() {
    assert_eq!(entered(&["foo"], "'!!'"), None);
}

#[test]
fn single_char_body() {
    alias("a ", "b ");
}

#[test]
fn single_char_name() {
    alias("g ", "git ");
}

#[test]
fn expand_after_semicolon() {
    alias("echo hi; gc ", "echo hi; git commit ");
}

#[test]
fn expansion_with_args() {
    alias("gc -m 'hello'", "git commit -m 'hello'");
}

#[test]
fn simple_expansion() {
    alias("ll ", "ls -la ");
}

#[test]
fn recursion_terminates() {
    alias("diff ", "diff --color=auto ");
}

#[test]
fn multiple_on_same_line() {
    alias("gc; gp ", "git commit; git push ");
}

#[test]
fn no_expand_in_quotes() {
    no_alias("echo 'gc' ");
}

#[test]
fn no_expand_in_arg_position() {
    no_alias("echo foo ");
}

#[test]
fn edit_repopulates_hint() {
    hint(&["command one", "command two", "command three"], "<Up><Esc>$bC", "command ", "command two", 8);
}

#[test]
fn prefix_suggests_hint() {
    hint(&["echo foo bar"], "echo", "echo", "echo foo bar", 4);
}

#[test]
fn full_accept_by_l() {
    hint(&["echo foo bar"], "echo<Esc>l", "echo foo bar", "", 11);
}

#[test]
fn word_accept() {
    hint(&["echo foo bar"], "echo<Esc>w", "echo f", "echo foo bar", 5);
}

#[test]
fn escape_preserves_buffer() {
    hint(&["echo foo bar"], "echo<Esc>", "echo", "echo foo bar", 3);
}

#[test]
fn word_through_brace() {
    hint(&["flog -p \"[%H:%M:%S {level}\" info foo"], "flog -p \"[%H:%M:%S {<Esc>ww", "flog -p \"[%H:%M:%S {level}", "flog -p \"[%H:%M:%S {level}\" info foo", 25);
}

#[test]
fn word_across_line_boundary() {
    hint(&["echo foo\necho bar"], "echo foo<Esc>ww", "echo foo\necho b", "echo foo\necho bar", 14);
}

#[test]
fn back_motion_no_accept() {
    hint(&["echo foo bar"], "echo<Esc>b", "echo", "echo foo bar", 0);
}

#[test]
fn j_accepts_downward() {
    hint(&["echo foo\necho bar\necho biz"], "echo f<Esc>j", "echo foo\necho b", "echo foo\necho bar\necho biz", 14);
}

#[test]
fn j_accepts_downward_insert_mode_inclusive() {
    hint(&["echo foo\necho bar\necho biz"], "echo <C-o>j", "echo foo\necho ", "echo foo\necho bar\necho biz", 14);
}

#[test]
fn most_recent_wins() {
    hint(&["echo apple", "echo banana", "echo cherry"], "echo ", "echo ", "echo cherry", 5);
}

#[test]
fn prefix_narrowing() {
    hint(&["echo apple", "echo banana"], "echo a", "echo a", "echo apple", 6);
}

#[test]
fn exact_buffer_no_hint() {
    hint(&["echo foo"], "echo foo", "echo foo", "", 8);
}

#[test]
fn no_match_no_hint() {
    hint(&["echo foo", "ls -la"], "git status", "git status", "", 10);
}

#[test]
fn backspace_revives_hint() {
    hint(&["echo foobar"], "echo z<BS>", "echo ", "echo foobar", 5);
}

#[test]
fn hint_constrained() {
    hint(&["echo foobar", "echo foo", "echo foooooo"], "echo foob<Esc>e", "echo foobar", "", 10);
}

#[test]
fn divergence_clears_hint() {
    hint(&["echo foo bar"], "echo z", "echo z", "", 6);
}
