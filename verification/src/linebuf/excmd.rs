//! Ex commands that need nothing from outside, and what the others ask for.

use vstd::prelude::*;
use crate::editcmd::{copy_address, AddressRange, Cmd, EditCmd, ExNdRule, ExNode, SubFlags, Verb};
use crate::error::{ShErr, ShErrKind, ShResult};
use crate::linebuf::address::{ex_rows, kept, rows_addressed};
use crate::linebuf::buffer::{clamped, fixed, moved, wf, with_cursor, with_lines, BufV, LineBuf};
use crate::linebuf::change::{put_at, row_ends, uncovered};
use crate::linebuf::effect::{ShellJob, ShellJobV};
use crate::linebuf::line::line_text;
use crate::linebuf::lines::{lines_of, or_blank, text_of, Lines, LinesV};
use crate::linebuf::motion::{cmd_after, cmd_cover};
use crate::linebuf::notices::{flaws, noted, range_flaws};
use crate::linebuf::places::{
    addressable, byte_at, flat_of, law_byte_leads_back, place_by_byte, place_of,
};
use crate::linebuf::pos::{earlier_first, in_order, rows_in_order, MotionKind, Pos};
use crate::linebuf::select::{anchor_of, with_anchor};
use crate::patterns::{
    all_replaced, compile, first_replaced, is_pattern, replace_all, replace_first, source,
};
use crate::seqs::sat;
use crate::shell::Opts;
use crate::text::chars_of;

verus! {

/// The command a repetition runs: what was done last, on the lines addressed
/// now.
pub open spec fn merged(new_cmd: EditCmd, saved: EditCmd) -> Option<EditCmd> {
    match saved.verb {
        Some(Cmd(_, Verb::ExCmd(node))) => Some(
            node_cmd(
                new_cmd,
                ExNode {
                    address: match new_cmd.verb {
                        Some(Cmd(_, Verb::ExCmd(n))) => n.address,
                        _ => None,
                    },
                    bang: node.bang,
                    kind: node.kind,
                },
            ),
        ),
        _ => None,
    }
}

/// `cmd` with an ex command for its verb.
pub open spec fn node_cmd(cmd: EditCmd, node: ExNode) -> EditCmd {
    EditCmd { verb: Some(Cmd(1, Verb::ExCmd(node))), ..cmd }
}

/// Makes the command a repetition runs: what was done last, on the lines
/// addressed now. Without this `:%s` behind a `:s/foo/bar/` would act on the
/// old lines.
pub fn merge_repeat_addr(new_cmd: &EditCmd, saved: &EditCmd) -> (r: Option<EditCmd>)
    ensures
        r == merged(*new_cmd, *saved),
{
    let node = match &saved.verb {
        Some(Cmd(_, Verb::ExCmd(n))) => n,
        _ => {
            return None;
        },
    };
    let address = match &new_cmd.verb {
        Some(Cmd(_, Verb::ExCmd(n))) => copy_address(&n.address),
        _ => None,
    };
    let new_node = ExNode { address, bang: node.bang, kind: node.kind.copy() };
    Some(new_cmd.new_with_verb(Some(Cmd(1, Verb::ExCmd(new_node)))))
}

/// What a substitution makes of a line.
pub open spec fn substituted(text: Seq<char>, pat: Seq<char>, by: Seq<char>, all: bool) -> LinesV {
    lines_of(
        if all {
            all_replaced(pat, text, by)
        } else {
            first_replaced(pat, text, by)
        },
    )
}

/// The first `n` lines, those of `rows` with a pattern replaced.
pub open spec fn subst_upto(ls: LinesV, rows: Seq<usize>, pat: Seq<char>, by: Seq<char>, all: bool, n: int) -> LinesV
    decreases n,
{
    if n <= 0 {
        Seq::empty()
    } else {
        let head = subst_upto(ls, rows, pat, by, all, n - 1);
        if rows.contains((n - 1) as usize) {
            head + substituted(line_text(ls[n - 1]), pat, by, all)
        } else {
            head.push(ls[n - 1])
        }
    }
}

/// The buffer with a pattern replaced in the lines addressed. A pattern that
/// is none changes nothing, and the user is told of it.
pub open spec fn subst_done(b: BufV, cmd: EditCmd, pat: Seq<char>, by: Seq<char>, flags: SubFlags, addr: Option<
    AddressRange,
>) -> BufV {
    if is_pattern(pat) {
        BufV {
            lines: subst_upto(
                b.lines,
                rows_addressed(b, addr),
                pat,
                by,
                flags.global,
                b.lines.len() as int,
            ),
            last_substitute: Some(cmd),
            notices: b.notices + range_flaws(addr),
            ..b
        }
    } else {
        noted(b, range_flaws(addr) + flaws(pat))
    }
}

/// The lines that a shell command filters: those the motion covers.
pub open spec fn filtered(b: BufV, cmd: EditCmd, opts: Opts) -> Option<(int, int)> {
    match cmd_cover(b, cmd, opts) {
        Some(MotionKind::Line { start, end, inclusive }) => {
            let (s, e) = rows_in_order(start, end);
            Some(row_ends(b.lines, s, e, inclusive))
        },
        _ => None,
    }
}

/// The buffer once a shell command took the lines it filters.
pub open spec fn shell_begun(b: BufV, cmd: EditCmd, opts: Opts) -> BufV {
    let c = cmd_after(b, cmd, opts);
    match filtered(b, cmd, opts) {
        Some((s, e)) => with_lines(c, or_blank(c.lines.take(s) + c.lines.skip(e))),
        None => c,
    }
}

/// The shell command to run.
pub open spec fn shell_job(b: BufV, cmd: EditCmd, command: Seq<char>, opts: Opts) -> ShellJobV {
    let c = shell_begun(b, cmd, opts);
    ShellJobV {
        command,
        input: match filtered(b, cmd, opts) {
            Some((s, e)) => Some((text_of(b.lines.subrange(s, e)).push('\n'), s as usize)),
            None => None,
        },
        buffer: text_of(c.lines),
        cursor: byte_at(c.lines, c.cursor.pos),
        anchor: match c.select_mode {
            Some(m) => Some(byte_at(c.lines, anchor_of(m))),
            None => None,
        },
        flat: sat(flat_of(c.lines, c.cursor.pos)),
    }
}

/// The value of a run of decimal digits that fits a machine integer.
pub open spec fn read_count(s: Seq<char>) -> Option<usize> {
    let digits = if s.len() > 0 && s[0] == '+' {
        s.skip(1)
    } else {
        s
    };
    if digits.len() == 0 {
        None
    } else {
        match crate::linebuf::number::digits_value(digits, 10) {
            Some(v) => if v <= usize::MAX {
                Some(v as usize)
            } else {
                None
            },
            None => None,
        }
    }
}

/// A text cut at its first colon.
pub open spec fn at_colon(s: Seq<char>) -> Option<(Seq<char>, Seq<char>)> {
    let i = crate::seqs::first_from(s, |c: char| c == ':', 0);
    if i < s.len() {
        Some((s.take(i), s.skip(i + 1)))
    } else {
        None
    }
}

/// The place a text names: a row and a column with a colon between, or a
/// byte of the text.
pub open spec fn read_place(ls: LinesV, s: Seq<char>) -> Option<Pos> {
    let pair = match at_colon(s) {
        Some((a, b)) => match (read_count(a), read_count(b)) {
            (Some(row), Some(col)) => Some(Pos { row, col }),
            _ => None,
        },
        None => None,
    };
    match pair {
        Some(p) => Some(p),
        None => match read_count(s) {
            Some(n) => Some(place_by_byte(ls, n)),
            None => None,
        },
    }
}

/// The number of a place's byte names the place.
pub proof fn law_byte_names_place(ls: LinesV, pos: Pos)
    requires
        addressable(ls),
        pos.row < ls.len(),
        pos.col <= ls[pos.row as int].len(),
    ensures
        read_place(ls, crate::linebuf::number::digits_of(byte_at(ls, pos) as int, 10)) == Some(pos),
{
    let n = byte_at(ls, pos);
    let s = crate::linebuf::number::digits_of(n as int, 10);
    law_byte_leads_back(ls, pos);
    crate::linebuf::number::law_digits_read_back(n as int, 10);
    let colon = |c: char| c == ':';
    crate::seqs::lemma_first_from(s, colon, 0);
    let i = crate::seqs::first_from(s, colon, 0);
    if i < s.len() {
        crate::linebuf::number::lemma_digits_grow(s, 10, i + 1);
        assert(s.take(i + 1).last() == ':');
    }
}

/// Reads a decimal number.
pub fn parse_count(s: &[char]) -> (r: Option<usize>)
    ensures
        r == read_count(s@),
{
    let from: usize = if s.len() > 0 && s[0] == '+' {
        1
    } else {
        0
    };
    let ghost digits = if s@.len() > 0 && s@[0] == '+' {
        s@.skip(1)
    } else {
        s@
    };
    assert(digits =~= s@.skip(from as int));
    if s.len() == from {
        return None;
    }
    let mut acc: u128 = 0;
    let mut i: usize = from;
    assert(digits.take(0) =~= Seq::<char>::empty());
    while i < s.len()
        invariant
            from <= i <= s@.len(),
            from <= 1,
            digits == s@.skip(from as int),
            digits == if s@.len() > 0 && s@[0] == '+' {
                s@.skip(1)
            } else {
                s@
            },
            digits.len() > 0,
            acc <= usize::MAX,
            crate::linebuf::number::digits_value(digits.take(i - from), 10) == Some(acc as int),
        decreases s@.len() - i,
    {
        proof {
            assert(digits.take(i - from + 1).drop_last() =~= digits.take(i - from));
            assert(digits.take(i - from + 1).last() == s@[i as int]);
        }
        match crate::linebuf::number::digit_at(s[i], 10) {
            Some(d) => {
                acc = acc * 10 + d as u128;
                if acc > usize::MAX as u128 {
                    proof {
                        if crate::linebuf::number::digits_value(digits, 10) is Some {
                            crate::linebuf::number::lemma_digits_grow(digits, 10, i - from + 1);
                        }
                    }
                    return None;
                }
            },
            None => {
                proof {
                    if crate::linebuf::number::digits_value(digits, 10) is Some {
                        crate::linebuf::number::lemma_digits_grow(digits, 10, i - from + 1);
                    }
                }
                return None;
            },
        }
        i += 1;
    }
    assert(digits.take(i - from) =~= digits);
    Some(acc as usize)
}

/// The message for a text that names no place.
pub open spec fn bad_place(s: Seq<char>) -> Seq<char> {
    "Invalid position format: '"@ + s
        + "'. Expected 'row:col' or grapheme index."@
}

impl LineBuf {
    /// The place a text names.
    pub fn parse_pos(&self, pos: &str) -> (r: ShResult<Pos>)
        requires
            self@.lines.len() > 0,
        ensures
            match read_place(self@.lines, pos@) {
                Some(p) => r == Ok::<Pos, ShErr>(p),
                None => r matches Err(e) && e.kind == ShErrKind::ParseErr && e.msg@ == bad_place(
                    pos@,
                ),
            },
    {
        let chars = chars_of(pos);
        let ghost colon = |c: char| c == ':';
        let mut i: usize = 0;
        while i < chars.len() && chars[i] != ':'
            invariant
                i <= chars@.len(),
                chars@ == pos@,
                colon == |c: char| c == ':',
                crate::seqs::first_from(pos@, colon, 0) == crate::seqs::first_from(
                    pos@,
                    colon,
                    i as int,
                ),
            decreases chars@.len() - i,
        {
            i += 1;
        }
        if i < chars.len() {
            let a = vstd::slice::slice_subrange(chars.as_slice(), 0, i);
            let b = vstd::slice::slice_subrange(chars.as_slice(), i + 1, chars.len());
            assert(a@ =~= pos@.take(i as int));
            assert(b@ =~= pos@.skip(i + 1));
            if let (Some(row), Some(col)) = (parse_count(a), parse_count(b)) {
                return Ok(Pos { row, col });
            }
        }
        match parse_count(chars.as_slice()) {
            Some(n) => Ok(self.pos_by_byte(n)),
            None => {
                let mut msg = String::from_str("Invalid position format: '");
                msg.append(pos);
                msg.append("'. Expected 'row:col' or grapheme index.");
                Err(ShErr { kind: ShErrKind::ParseErr, msg })
            },
        }
    }

    /// The rows an ex command acts on. Global commands within global commands
    /// narrow them further and further.
    pub fn lines_for_ex_node(&self, node: &ExNode) -> (r: ShResult<Vec<usize>>)
        requires
            wf(self@),
        ensures
            r matches Ok(v) && v@ == ex_rows(self@, *node),
        decreases node,
    {
        match &node.kind {
            ExNdRule::Global { pat, nested } => {
                let range = match &node.address {
                    Some(a) => a.clone(),
                    None => AddressRange::all_lines(),
                };
                let constraint = range.as_motion();
                let outer = match self.get_matching_lines(&constraint, pat.as_str(), node.bang) {
                    Ok(v) => v,
                    Err(e) => {
                        return Err(e);
                    },
                };
                let deeper = match &nested.kind {
                    ExNdRule::Global { .. } => true,
                    _ => false,
                };
                if !deeper {
                    return Ok(outer);
                }
                let inner = match self.lines_for_ex_node(&**nested) {
                    Ok(v) => v,
                    Err(e) => {
                        return Err(e);
                    },
                };
                let mut v: Vec<usize> = Vec::new();
                let mut i: usize = 0;
                assert(inner@.take(0) =~= Seq::<usize>::empty());
                while i < inner.len()
                    invariant
                        i <= inner@.len(),
                        v@ == kept(inner@.take(i as int), outer@),
                    decreases inner@.len() - i,
                {
                    assert(inner@.take(i + 1).drop_last() =~= inner@.take(i as int));
                    if has_row(outer.as_slice(), inner[i]) {
                        v.push(inner[i]);
                    }
                    i += 1;
                }
                assert(inner@.take(inner@.len() as int) =~= inner@);
                Ok(v)
            },
            _ => {
                match &node.address {
                    Some(a) => self.lines_for_address(Some(a)),
                    None => self.lines_for_address(None),
                }
            },
        }
    }

    /// Replaces a pattern in the lines addressed: its first match in each, or
    /// all of them.
    pub fn ex_substitute(
        &mut self,
        cmd: &EditCmd,
        pat: &str,
        by: &str,
        flags: SubFlags,
        range: Option<&AddressRange>,
    )
        requires
            wf(old(self)@),
        ensures
            final(self)@ == subst_done(
                old(self)@,
                *cmd,
                pat@,
                by@,
                flags,
                match range {
                    Some(a) => Some(*a),
                    None => None,
                },
            ),
            final(self)@.lines.len() >= old(self)@.lines.len(),
    {
        let rows = match self.lines_for_address(range) {
            Ok(v) => v,
            Err(_) => Vec::new(),
        };
        let msgs = self.subst_notices(range, pat);
        let re = match compile(pat) {
            Ok(re) => re,
            Err(_) => {
                self.note(msgs);
                return;
            },
        };
        let ghost ls = self@.lines;
        let mut out = Lines::none();
        let mut i: usize = 0;
        while i < self.lines.len()
            invariant
                i <= ls.len(),
                ls == self@.lines,
                source(re) == pat@,
                out@.len() >= i,
                out@ == subst_upto(ls, rows@, pat@, by@, flags.global, i as int),
            decreases ls.len() - i,
        {
            if has_row(rows.as_slice(), i) {
                let text = self.lines.at(i).to_string();
                let new = if flags.global {
                    replace_all(&re, text.as_str(), by)
                } else {
                    replace_first(&re, text.as_str(), by)
                };
                let mut lines = Lines::to_lines(new.as_str());
                out.append(&mut lines);
            } else {
                out.push(self.lines.at(i).clone());
            }
            i += 1;
        }
        self.lines = out;
        self.last_substitute = Some(cmd.copy());
        assert(self@ =~= (BufV {
            lines: subst_upto(ls, rows@, pat@, by@, flags.global, ls.len() as int),
            last_substitute: Some(*cmd),
            ..old(self)@
        }));
        proof {
            let addr = match range {
                Some(a) => Some(*a),
                None => None,
            };
            assert(range_flaws(addr) + flaws(pat@) =~= range_flaws(addr));
        }
        self.note(msgs);
    }

    /// Takes the lines that a shell command filters, and says what to run.
    pub fn ex_shell_cmd(&mut self, cmd: &EditCmd, sh_cmd: &str, opts: &Opts) -> (j: ShellJob)
        requires
            wf(old(self)@),
            opts.tab_width > 0,
        ensures
            j@ == shell_job(old(self)@, *cmd, sh_cmd@, *opts),
            final(self)@ == shell_begun(old(self)@, *cmd, *opts),
            final(self)@.lines.len() > 0,
    {
        let ghost b = self@;
        let input = match self.eval_motion(cmd, opts) {
            Some(MotionKind::Line { start, end, inclusive }) => {
                let (s, e) = if end < start {
                    (end, start)
                } else {
                    (start, end)
                };
                let last = if inclusive {
                    e
                } else {
                    e.saturating_sub(1)
                };
                let n = self.lines.len();
                let stop = if last < n {
                    last + 1
                } else {
                    n
                };
                let (from, to) = if s < stop {
                    (s, stop)
                } else {
                    (0, 0)
                };
                let ghost c = self@;
                let out = self.lines.drain(from, to);
                self.lines.push_empty();
                assert(self@ =~= shell_begun(b, *cmd, *opts));
                let mut text = out.join();
                text.push('\n');
                Some((text, from))
            },
            _ => None,
        };
        let buffer = self.joined();
        let cursor = self.byte_of_pos(self.cursor.pos);
        let anchor = match &self.select_mode {
            Some(m) => Some(self.byte_of_pos(m.anchor())),
            None => None,
        };
        let flat = self.cursor_to_flat();
        ShellJob { command: own(sh_cmd), input, buffer, cursor, anchor, flat }
    }

    /// Takes over what a shell command left: the text, the cursor, the start
    /// of the selection, and its output in place of the lines it filtered.
    pub fn ex_shell_done(&mut self, job: &ShellJob, reply: &ShellReply, opts: &Opts)
        requires
            old(self)@.lines.len() > 0,
        ensures
            final(self)@ == shell_ended(old(self)@, job@, reply@, *opts),
            job.input is None ==> text_of(final(self)@.lines) == reply.buffer@,
            final(self)@.lines.len() > 0,
    {
        self.set_buffer(reply.buffer.as_str(), opts);
        let anchor = match &reply.anchor {
            Some(a) => {
                match self.parse_pos(a.as_str()) {
                    Ok(p) => Some(self.pos_to_flat(p)),
                    Err(_) => None,
                }
            },
            None => None,
        };
        match self.parse_pos(reply.cursor.as_str()) {
            Ok(p) => self.set_cursor(p),
            Err(_) => self.set_cursor_from_flat(job.flat, opts),
        }
        if let Some(a) = anchor {
            if a != job.flat && self.select_mode.is_some() {
                self.set_anchor_from_flat(a);
            }
        }
        if let Some((_, row)) = &job.input {
            let text = match &reply.output {
                Some(t) => t.clone(),
                None => String::new(),
            };
            let lines = Lines::to_lines(text.as_str());
            let at = if *row <= self.lines.len() {
                *row
            } else {
                self.lines.len()
            };
            let ghost c = self@;
            self.lines.splice_rows(at, lines);
            assert(self@ =~= with_lines(
                c,
                c.lines.take(at as int) + lines_of(text@) + c.lines.skip(at as int),
            ));
        }
    }

    /// Puts a text in place of what a motion covers: lines in place of whole
    /// lines. A rectangle stays as it is, and so does the buffer where the
    /// motion covers no line.
    pub fn expand_done(&mut self, range: &MotionKind, new: &str)
        requires
            old(self)@.lines.len() > 0,
        ensures
            final(self)@ == expansion_put(old(self)@, *range, new@),
            final(self)@.lines.len() > 0,
    {
        let ghost b = self@;
        match range {
            MotionKind::Line { start, end, inclusive } => {
                let s = *start;
                let last = if *inclusive {
                    *end
                } else {
                    end.saturating_sub(1)
                };
                let n = self.lines.len();
                let stop = if last < n {
                    last + 1
                } else {
                    n
                };
                if s < stop {
                    self.lines.drain(s, stop);
                    let lines = Lines::to_lines(new);
                    self.lines.splice_rows(s, lines);
                    assert(self@.lines =~= b.lines.take(s as int) + lines_of(new@) + b.lines.skip(
                        stop as int,
                    ));
                    assert(self@ =~= expansion_put(b, *range, new@));
                }
            },
            MotionKind::Char { start, end, .. } => {
                let (from, _) = earlier_first(*start, *end);
                self.delete_range(range);
                let at = self.clamp_place(from, false);
                let lines = Lines::to_lines(new);
                self.insert_lines_at(at, lines);
                assert(self@ =~= expansion_put(b, *range, new@));
            },
            MotionKind::Block { .. } => {},
        }
    }

    /// Puts a text that was read in at the cursor.
    pub fn ex_read_done(&mut self, contents: &str)
        requires
            wf(old(self)@),
        ensures
            final(self)@ == (BufV {
                lines: put_at(old(self)@.lines, old(self)@.cursor.pos, lines_of(contents@)),
                indent_cache: None,
                ..old(self)@
            }),
            wf(final(self)@),
    {
        let lines = Lines::to_lines(contents);
        self.insert_lines_at(self.cursor.pos, lines);
        self.indent_cache = None;
        assert(self@ =~= (BufV {
            lines: put_at(old(self)@.lines, old(self)@.cursor.pos, lines_of(contents@)),
            indent_cache: None,
            ..old(self)@
        }));
    }
}

/// The buffer with a text in place of what a motion covers.
pub open spec fn expansion_put(b: BufV, m: MotionKind, new: Seq<char>) -> BufV {
    match m {
        MotionKind::Line { start, end, inclusive } => {
            let (from, to) = row_ends(b.lines, start, end, inclusive);
            if from < to {
                with_lines(b, b.lines.take(from) + lines_of(new) + b.lines.skip(to))
            } else {
                b
            }
        },
        MotionKind::Char { start, end, .. } => {
            let rest = uncovered(b.lines, m);
            with_lines(
                b,
                put_at(rest, clamped(rest, in_order(start, end).0, false), lines_of(new)),
            )
        },
        MotionKind::Block { .. } => b,
    }
}

/// What a shell command left behind.
#[derive(Debug)]
pub struct ShellReply {
    pub buffer: String,
    pub cursor: String,
    pub anchor: Option<String>,
    pub output: Option<String>,
}

#[verifier::ext_equal]
pub struct ShellReplyV {
    pub buffer: Seq<char>,
    pub cursor: Seq<char>,
    pub anchor: Option<Seq<char>>,
    pub output: Option<Seq<char>>,
}

impl View for ShellReply {
    type V = ShellReplyV;

    open spec fn view(&self) -> ShellReplyV {
        ShellReplyV {
            buffer: self.buffer@,
            cursor: self.cursor@,
            anchor: crate::linebuf::buffer::opt_view(self.anchor),
            output: crate::linebuf::buffer::opt_view(self.output),
        }
    }
}

/// The running number of the start of the selection that a shell command left:
/// none where it was told none, or left no place.
pub open spec fn anchor_left(ls: LinesV, reply: ShellReplyV) -> Option<usize> {
    match reply.anchor {
        Some(a) => match read_place(ls, a) {
            Some(p) => Some(sat(flat_of(ls, p))),
            None => None,
        },
        None => None,
    }
}

/// The buffer with the text that a shell command left.
pub open spec fn shell_text_set(b: BufV, reply: ShellReplyV, opts: Opts) -> BufV {
    fixed(
        BufV { lines: lines_of(reply.buffer), concat_points: Seq::empty(), ..b },
        opts,
    )
}

/// The buffer with the cursor where a shell command left it; where it left no
/// place, at the place with the old running number.
pub open spec fn shell_cursor_set(b: BufV, job: ShellJobV, reply: ShellReplyV, opts: Opts) -> BufV {
    match read_place(b.lines, reply.cursor) {
        Some(p) => moved(b, p),
        None => fixed(with_cursor(b, place_of(b.lines, job.flat as int)), opts),
    }
}

/// The buffer with a start for the selection, where there is one and it is not
/// the cursor's old place.
pub open spec fn shell_anchor_set(b: BufV, anchor: Option<usize>, cursor: usize) -> BufV {
    match (anchor, b.select_mode) {
        (Some(a), Some(m)) => if a != cursor {
            BufV { select_mode: Some(with_anchor(m, place_of(b.lines, a as int))), ..b }
        } else {
            b
        },
        _ => b,
    }
}

/// The buffer with the output in place of the lines that were filtered.
pub open spec fn shell_output_set(b: BufV, job: ShellJobV, reply: ShellReplyV) -> BufV {
    match job.input {
        Some((_, row)) => {
            let at = if row <= b.lines.len() {
                row as int
            } else {
                b.lines.len() as int
            };
            let text = match reply.output {
                Some(t) => t,
                None => Seq::empty(),
            };
            with_lines(b, b.lines.take(at) + lines_of(text) + b.lines.skip(at))
        },
        None => b,
    }
}

pub open spec fn shell_ended(b: BufV, job: ShellJobV, reply: ShellReplyV, opts: Opts) -> BufV {
    let set = shell_text_set(b, reply, opts);
    let placed = shell_cursor_set(set, job, reply, opts);
    shell_output_set(
        shell_anchor_set(placed, anchor_left(set.lines, reply), job.flat),
        job,
        reply,
    )
}

/// A copy of a text.
pub fn own(s: &str) -> (r: String)
    ensures
        r@ == s@,
{
    String::from_str(s)
}

fn has_row(rows: &[usize], row: usize) -> (r: bool)
    ensures
        r == rows@.contains(row),
{
    let mut i: usize = 0;
    while i < rows.len()
        invariant
            i <= rows@.len(),
            forall|j: int| 0 <= j < i ==> rows@[j] != row,
        decreases rows@.len() - i,
    {
        if rows[i] == row {
            assert(rows@[i as int] == row);
            return true;
        }
        i += 1;
    }
    false
}

} // verus!
