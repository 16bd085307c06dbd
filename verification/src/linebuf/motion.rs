//! Motions: what they cover, and where they take the cursor.

use vstd::prelude::*;
use vstd::string::StringSliceAdditionalSpecFns;
use vstd::utf8::encode_utf8;
use crate::editcmd::{Cmd, Direction, EditCmd, Motion, To, Verb};
use crate::linebuf::address::{addressed, shape_at_cursor};
use crate::linebuf::buffer::{
    line_at, moved, row_moved, viewport, wf, with_cursor, with_lines, BufV, LineBuf,
};
use crate::linebuf::char_class::is_ws;
use crate::linebuf::hint::hint_text;
use crate::linebuf::line::LineV;
use crate::linebuf::lines::{attached, before, behind, cluster_count, lines_of, text_of, Lines};
use crate::linebuf::notices::{flaws, motion_flaws, noted, pattern_notices};
use crate::linebuf::places::{
    byte_of, col_from, place_at_byte, place_off, place_wrapped, row_off, shown_col_of,
};
use crate::linebuf::pos::{
    cut_row, in_order, last_col, earlier_first, pos_le, pos_lt, rows_in_order, shifted, MotionKind, Pos,
};
use crate::linebuf::scan::{char_offset, delim_match, text_object, unmatched};
use crate::linebuf::words::word_motion;
use crate::patterns::{all_matches, compile, find_all, find_at, first_match, is_pattern, source};
use crate::seqs::{isat, min_of, sat, to_offset};
use crate::shell::{answer, consult, env_ok, Answer, Ask, Env, Opts};
use crate::text::{clusters, split_clusters, starts_with};

verus! {

/// From the cursor to `target`, unless it is there already.
pub open spec fn reach(b: BufV, target: Pos, inclusive: bool) -> Option<MotionKind> {
    if target != b.cursor.pos {
        Some(MotionKind::Char { start: b.cursor.pos, end: target, inclusive })
    } else {
        None
    }
}

/// Whole lines from the cursor's to row `to`.
pub open spec fn lines_to(b: BufV, to: usize) -> MotionKind {
    MotionKind::Line {
        start: rows_in_order(b.cursor.pos.row, to).0,
        end: rows_in_order(b.cursor.pos.row, to).1,
        inclusive: true,
    }
}

/// One less, or zero.
pub open spec fn less_one(n: usize) -> int {
    if n == 0 {
        0
    } else {
        n - 1
    }
}

/// The last column before `n` that holds no white space; zero where there is
/// none.
pub open spec fn last_word_col(l: LineV, n: int) -> int
    decreases n,
{
    if n <= 0 {
        0
    } else if !is_ws(l[n - 1]) {
        n - 1
    } else {
        last_word_col(l, n - 1)
    }
}

/// The first column from `i` on that holds no white space; the last column of
/// the line where there is none.
pub open spec fn first_word_col(l: LineV, i: int) -> int
    decreases l.len() - i,
{
    if i + 1 >= l.len() || !is_ws(l[i]) {
        i
    } else {
        first_word_col(l, i + 1)
    }
}

/// The start of the last of the matches that lies before a byte; that of the
/// last match where none does.
pub open spec fn match_before(ms: Seq<(usize, usize)>, offset: usize, n: int) -> Option<usize>
    decreases n,
{
    if ms.len() == 0 {
        None
    } else if n <= 0 {
        Some(ms.last().0)
    } else if ms[n - 1].0 < offset {
        Some(ms[n - 1].0)
    } else {
        match_before(ms, offset, n - 1)
    }
}

/// The byte of the next match behind `offset`, going round at the end.
pub open spec fn match_after(pat: Seq<char>, text: Seq<char>, offset: usize) -> Option<usize> {
    let ahead = if offset < encode_utf8(text).len() {
        first_match(pat, text, (offset + 1) as usize)
    } else {
        None
    };
    match ahead {
        Some(m) => Some(m.0),
        None => match first_match(pat, text, 0) {
            Some(m) => Some(m.0),
            None => None,
        },
    }
}

/// The byte of the next match in a direction.
pub open spec fn match_next(pat: Seq<char>, text: Seq<char>, dir: Direction, offset: usize) -> Option<
    usize,
> {
    match dir {
        Direction::Forward => match_after(pat, text, offset),
        Direction::Backward => match_before(
            all_matches(pat, text),
            offset,
            all_matches(pat, text).len() as int,
        ),
    }
}

/// The byte of the `n`-th next match.
pub open spec fn match_nth(pat: Seq<char>, text: Seq<char>, dir: Direction, offset: usize, n: int) -> Option<
    usize,
>
    decreases n,
{
    if n <= 0 {
        Some(offset)
    } else {
        match match_nth(pat, text, dir, offset, n - 1) {
            Some(at) => match_next(pat, text, dir, at),
            None => None,
        }
    }
}

/// From the cursor to the `count`-th next match.
pub open spec fn search_cover(b: BufV, pat: Seq<char>, dir: Direction, count: usize) -> Option<
    MotionKind,
> {
    if !is_pattern(pat) || count == 0 {
        None
    } else {
        match byte_of(b.lines, b.cursor.pos) {
            None => None,
            Some(offset) => match match_nth(pat, text_of(b.lines), dir, offset, count as int) {
                None => None,
                Some(at) => match place_at_byte(b.lines, at) {
                    None => None,
                    Some(target) => Some(
                        MotionKind::Char { start: b.cursor.pos, end: target, inclusive: false },
                    ),
                },
            },
        }
    }
}

pub open spec fn opposite(dir: Direction) -> Direction {
    match dir {
        Direction::Forward => Direction::Backward,
        Direction::Backward => Direction::Forward,
    }
}

/// The terminal column that vertical moves keep to.
pub open spec fn kept_col(b: BufV, opts: Opts) -> usize {
    match b.saved_col {
        Some(c) => c,
        None => shown_col_of(b.lines, b.cursor.pos, opts.tab_width),
    }
}

/// The place in row `row` nearest to the terminal column that vertical moves
/// keep to.
pub open spec fn vertical(b: BufV, row: usize, opts: Opts) -> Pos {
    let l = line_at(b.lines, row);
    let limit = last_col(l.len() as int, b.cursor.exclusive);
    let col = col_from(l, opts.tab_width, kept_col(b, opts), 0);
    Pos {
        row,
        col: if col <= limit {
            col as usize
        } else {
            limit as usize
        },
    }
}

/// A motion evaluated without change to the buffer: what it covers.
#[verifier::opaque]
pub open spec fn cover(b: BufV, with_verb: bool, change: bool, count: usize, m: Motion, opts: Opts) -> Option<
    MotionKind,
> {
    let row = b.cursor.pos.row;
    let n = b.lines.len() as int;
    let far = isize::MAX as int;
    match m {
        Motion::WholeLine => Some(
            MotionKind::Line {
                start: row,
                end: cut_row(sat(row + less_one(count)), n),
                inclusive: true,
            },
        ),
        Motion::TextObj(o) => text_object(b, o),
        Motion::EndOfLastWord => {
            let r = sat(row + less_one(count));
            let l = line_at(b.lines, r);
            reach(b, Pos { row: r, col: last_word_col(l, l.len() as int) as usize }, true)
        },
        Motion::StartOfFirstWord => {
            let r = sat(row + less_one(count));
            reach(b, Pos { row: r, col: first_word_col(line_at(b.lines, r), 0) as usize }, true)
        },
        Motion::StartOfLine => reach(
            b,
            place_off(b, isat(less_one(count)) as int, isize::MIN as int),
            false,
        ),
        Motion::EndOfLine => reach(b, place_off(b, isat(less_one(count)) as int, far), true),
        Motion::WordMotion(to, word, dir) => Some(
            word_motion(
                b,
                count as int,
                to,
                word,
                dir,
                change && to == To::Start && dir == Direction::Forward,
                !with_verb,
            ),
        ),
        Motion::CharSearch(dir, dest, g) => reach(
            b,
            place_off(b, 0, isat(char_offset(b, dir, dest, g@, count as int)) as int),
            dir == Direction::Forward,
        ),
        Motion::BackwardChar => reach(b, place_off(b, 0, -isat(count as int)), false),
        Motion::ForwardChar => reach(b, place_off(b, 0, isat(count as int) as int), false),
        Motion::BackwardCharForced => reach(b, place_wrapped(b, 0, -isat(count as int)), false),
        Motion::ForwardCharForced => reach(
            b,
            place_wrapped(b, 0, isat(count as int) as int),
            false,
        ),
        Motion::LineUp => if with_verb {
            Some(lines_to(b, row_off(b, -isat(count as int))))
        } else {
            reach(b, vertical(b, row_off(b, -isat(count as int)), opts), true)
        },
        Motion::LineDown => if with_verb {
            Some(lines_to(b, row_off(b, isat(count as int) as int)))
        } else {
            reach(b, vertical(b, row_off(b, isat(count as int) as int), opts), true)
        },
        Motion::StartOfBuffer => if with_verb {
            Some(lines_to(b, row_off(b, isize::MIN as int)))
        } else {
            reach(b, place_off(b, isize::MIN as int, 0), true)
        },
        Motion::EndOfBuffer => if with_verb {
            Some(lines_to(b, row_off(b, far)))
        } else {
            reach(b, place_off(b, far, 0), true)
        },
        Motion::ToColumn => {
            let end = Pos { row, col: less_one(count) as usize };
            Some(
                MotionKind::Char { start: b.cursor.pos, end, inclusive: pos_lt(b.cursor.pos, end) },
            )
        },
        Motion::Search(pat, dir) => search_cover(b, pat@, dir, count),
        Motion::RepeatSearch => match b.last_search {
            Some(Motion::Search(pat, dir)) => search_cover(b, pat@, dir, count),
            _ => None,
        },
        Motion::RepeatSearchRev => match b.last_search {
            Some(Motion::Search(pat, dir)) => search_cover(b, pat@, opposite(dir), count),
            _ => None,
        },
        Motion::ToDelimMatch => delim_match(b),
        Motion::ToParen(dir) => unmatched(b, '(', ')', dir),
        Motion::ToBrace(dir) => unmatched(b, '{', '}', dir),
        Motion::CharRange(s, e) => Some(
            MotionKind::Char { start: in_order(s, e).0, end: in_order(s, e).1, inclusive: true },
        ),
        Motion::Line(a) => match addressed(b, a) {
            Some(l) => Some(
                MotionKind::Line { start: l, end: sat(l + 1), inclusive: false },
            ),
            None => None,
        },
        Motion::LineRange(s, e) => match (addressed(b, s), addressed(b, e)) {
            (Some(s), Some(e)) => Some(
                MotionKind::Line {
                    start: rows_in_order(s, e).0,
                    end: rows_in_order(s, e).1,
                    inclusive: true,
                },
            ),
            _ => None,
        },
        Motion::BlockRange(s, e) => Some(
            MotionKind::Block { start: in_order(s, e).0, end: in_order(s, e).1 },
        ),
        Motion::HalfScreenUp => Some(
            MotionKind::Line {
                start: row_off(b, -(viewport(b, opts) / 2)),
                end: row,
                inclusive: false,
            },
        ),
        Motion::HalfScreenDown => Some(
            MotionKind::Line {
                start: row_off(b, viewport(b, opts) / 2),
                end: row,
                inclusive: false,
            },
        ),
        Motion::RepeatMotion => None,
        Motion::RepeatMotionRev => None,
        Motion::Selection(_) => None,
        Motion::Null => None,
    }
}

/// A shape of a selection stands for the range it covers at the cursor.
pub open spec fn settled_motion(b: BufV, m: Motion) -> Motion {
    match m {
        Motion::Selection(shape) => shape_at_cursor(b, shape),
        _ => m,
    }
}

/// What a motion leaves behind in the buffer: what there is to say of its
/// patterns, and what it keeps.
#[verifier::opaque]
pub open spec fn after_motion(
    b: BufV,
    with_verb: bool,
    count: usize,
    m: Motion,
    opts: Opts,
) -> BufV {
    noted(motion_kept(b, with_verb, count, m, opts), motion_flaws(b, m))
}

/// What a motion keeps in the buffer: a vertical move its column, a search
/// that finds something itself, for repetition.
pub open spec fn motion_kept(
    b: BufV,
    with_verb: bool,
    count: usize,
    m: Motion,
    opts: Opts,
) -> BufV {
    match m {
        Motion::LineUp => if with_verb {
            b
        } else {
            BufV { saved_col: Some(kept_col(b, opts)), ..b }
        },
        Motion::LineDown => if with_verb {
            b
        } else {
            BufV { saved_col: Some(kept_col(b, opts)), ..b }
        },
        Motion::Search(pat, dir) => if search_cover(b, pat@, dir, count) is Some {
            BufV { last_search: Some(m), ..b }
        } else {
            b
        },
        _ => b,
    }
}

pub open spec fn is_change(cmd: EditCmd) -> bool {
    cmd.verb matches Some(Cmd(_, Verb::Change))
}

/// What the motion of a command covers.
pub open spec fn cmd_cover(b: BufV, cmd: EditCmd, opts: Opts) -> Option<MotionKind> {
    match cmd.motion {
        Some(Cmd(count, m)) => cover(
            b,
            cmd.verb is Some,
            is_change(cmd),
            count,
            settled_motion(b, m),
            opts,
        ),
        None => None,
    }
}

/// What the motion of a command leaves behind.
pub open spec fn cmd_after(b: BufV, cmd: EditCmd, opts: Opts) -> BufV {
    match cmd.motion {
        Some(Cmd(count, m)) => after_motion(
            b,
            cmd.verb is Some,
            count,
            settled_motion(b, m),
            opts,
        ),
        None => b,
    }
}

/// The buffer has a hint that reaches over all its lines.
pub open spec fn hint_covers(b: BufV) -> bool {
    b.hint is Some && hint_text(b.hint->0).len() >= b.lines.len() > 0
}

/// Where the hint begins: behind the last line.
pub open spec fn hint_start(b: BufV) -> Pos {
    Pos { row: (b.lines.len() - 1) as usize, col: b.lines.last().len() as usize }
}

/// The buffer with the hint taken for its text.
pub open spec fn in_hint(b: BufV) -> BufV {
    with_lines(b, hint_text(b.hint->0))
}

/// The buffer cut at `pos`, so that what lies behind is hint again.
pub open spec fn cut_back(b: BufV, pos: Pos) -> BufV {
    with_lines(b, before(b.lines, Pos { row: cut_row(pos.row, b.lines.len() as int), ..pos }))
}

/// What the motion of a command covers in the buffer and its hint.
pub open spec fn hint_cover(b: BufV, cmd: EditCmd, opts: Opts) -> Option<MotionKind> {
    if hint_covers(b) {
        cmd_cover(in_hint(b), settle_cmd(b, cmd), opts)
    } else {
        cmd_cover(b, cmd, opts)
    }
}

/// The command with the shape of a selection settled.
pub open spec fn settle_cmd(b: BufV, cmd: EditCmd) -> EditCmd {
    EditCmd {
        motion: match cmd.motion {
            Some(Cmd(n, m)) => Some(Cmd(n, settled_motion(b, m))),
            None => None,
        },
        ..cmd
    }
}

/// What it leaves behind.
pub open spec fn hint_after(b: BufV, cmd: EditCmd, opts: Opts) -> BufV {
    if hint_covers(b) && cmd.motion is Some {
        cut_back(cmd_after(in_hint(b), settle_cmd(b, cmd), opts), hint_start(b))
    } else {
        cmd_after(b, cmd, opts)
    }
}

/// The buffer once the cursor followed a motion. A rectangle leads nowhere.
pub open spec fn followed(b: BufV, m: MotionKind) -> BufV {
    match m {
        MotionKind::Char { end, .. } => moved(b, end),
        MotionKind::Line { start, .. } => row_moved(b, start),
        MotionKind::Block { .. } => b,
    }
}

/// The alias that the command word before the cursor stands for, where it is
/// not spelled out already.
pub open spec fn alias_here<S: Fn(&str, Ask) -> Answer>(b: BufV, shell: S) -> Option<
    crate::shell::AliasUseV,
> {
    let ans = answer(shell, text_of(before(b.lines, b.cursor.pos)), Ask::LastCommand);
    match ans.alias {
        Some(u) => if u.alias.is_prefix_of(u.from_word) {
            None
        } else {
            Some(u)
        },
        None => None,
    }
}

/// The buffer with the alias of the command word before the cursor put in its
/// place, the cursor kept behind it.
pub open spec fn alias_put<S: Fn(&str, Ask) -> Answer>(b: BufV, shell: S) -> BufV {
    match alias_here(b, shell) {
        Some(u) => {
            let lines = attached(lines_of(u.expanded), behind(b.lines, b.cursor.pos));
            let to = shifted(b.cursor.pos, 0, clusters(u.alias).len() - clusters(u.word).len());
            with_cursor(
                with_lines(b, lines),
                Pos { row: cut_row(to.row, lines.len() as int), ..to },
            )
        },
        None => b,
    }
}

/// The cursor went from `from` into the hint.
pub open spec fn entered_hint(b: BufV, from: Pos, start: Pos) -> bool {
    pos_lt(from, b.cursor.pos) && if b.cursor.exclusive {
        pos_le(start, b.cursor.pos)
    } else {
        pos_lt(start, b.cursor.pos)
    }
}

/// The buffer once the cursor, having followed a motion in buffer and hint,
/// took over what it went past. A command word so completed has its alias put
/// in.
pub open spec fn taken_over<S: Fn(&str, Ask) -> Answer>(b: BufV, from: Pos, start: Pos, shell: S) -> BufV {
    if entered_hint(b, from, start) {
        let c = alias_put(b, shell);
        let grown = sat(cluster_count(c.lines)) - sat(cluster_count(b.lines));
        cut_back(
            c,
            shifted(
                b.cursor.pos,
                0,
                grown + if b.cursor.exclusive {
                    1int
                } else {
                    0
                },
            ),
        )
    } else {
        cut_back(b, start)
    }
}

/// The buffer once the cursor followed a motion that may lead into the hint.
pub open spec fn hint_followed<S: Fn(&str, Ask) -> Answer>(b: BufV, m: MotionKind, shell: S) -> BufV {
    if hint_covers(b) {
        taken_over(followed(in_hint(b), m), b.cursor.pos, hint_start(b), shell)
    } else {
        followed(b, m)
    }
}

fn is_change_cmd(cmd: &EditCmd) -> (r: bool)
    ensures
        r == is_change(*cmd),
{
    match &cmd.verb {
        Some(Cmd(_, Verb::Change)) => true,
        _ => false,
    }
}

impl LineBuf {
    fn reach_to(&self, target: Pos, inclusive: bool) -> (m: Option<MotionKind>)
        ensures
            m == reach(self@, target, inclusive),
    {
        if target != self.cursor.pos {
            Some(MotionKind::Char { start: self.cursor.pos, end: target, inclusive })
        } else {
            None
        }
    }

    fn lines_to_row(&self, to: usize) -> (m: MotionKind)
        ensures
            m == lines_to(self@, to),
    {
        let row = self.cursor.pos.row;
        let (start, end) = if to < row {
            (to, row)
        } else {
            (row, to)
        };
        MotionKind::Line { start, end, inclusive: true }
    }

    fn end_of_last_word(&self, row: usize) -> (col: usize)
        requires
            self@.lines.len() > 0,
        ensures
            col == last_word_col(
                line_at(self@.lines, row),
                line_at(self@.lines, row).len() as int,
            ),
    {
        let line = self.line(row);
        let mut n: usize = line.len();
        while n > 0 && line.at(n - 1).is_ws()
            invariant
                n <= line@.len(),
                last_word_col(line@, line@.len() as int) == last_word_col(line@, n as int),
            decreases n,
        {
            n -= 1;
        }
        n.saturating_sub(1)
    }

    fn start_of_first_word(&self, row: usize) -> (col: usize)
        requires
            self@.lines.len() > 0,
        ensures
            col == first_word_col(line_at(self@.lines, row), 0),
    {
        let line = self.line(row);
        let len = line.len();
        let mut i: usize = 0;
        while i < len.saturating_sub(1) && line.at(i).is_ws()
            invariant
                len == line@.len(),
                i <= len,
                first_word_col(line@, 0) == first_word_col(line@, i as int),
            decreases len - i,
        {
            i += 1;
        }
        i
    }

    /// The place in row `row` that a vertical move leads to. The column is
    /// kept for the moves that follow.
    fn vertical_target(&mut self, row: usize, opts: &Opts) -> (p: Pos)
        requires
            old(self)@.lines.len() > 0,
            opts.tab_width > 0,
        ensures
            p == vertical(old(self)@, row, *opts),
            final(self)@ == (BufV { saved_col: Some(kept_col(old(self)@, *opts)), ..old(self)@ }),
    {
        let want = match self.saved_col {
            Some(c) => c,
            None => self.calc_cursor_display_col(opts),
        };
        self.saved_col = Some(want);
        assert(self@ =~= (BufV { saved_col: Some(kept_col(old(self)@, *opts)), ..old(self)@ }));
        let len = self.line(row).len();
        let limit = if self.cursor.exclusive {
            len.saturating_sub(1)
        } else {
            len
        };
        let col = min_of(self.display_col_to_index(row, want, opts), limit);
        Pos { row, col }
    }

    /// From the cursor to the `count`-th next match of a pattern.
    pub fn search_for(&self, pat: &str, dir: Direction, count: usize) -> (m: Option<MotionKind>)
        ensures
            m == search_cover(self@, pat@, dir, count),
    {
        let re = match compile(pat) {
            Ok(re) => re,
            Err(_) => {
                return None;
            },
        };
        if count == 0 {
            return None;
        }
        let buf = self.joined();
        let text = buf.as_str();
        let from = match self.pos_to_byte(self.cursor.pos) {
            Some(b) => b,
            None => {
                return None;
            },
        };
        let ghost t = text_of(self@.lines);
        let mut offset: usize = from;
        let mut i: usize = 0;
        while i < count
            invariant
                i <= count,
                count > 0,
                is_pattern(pat@),
                source(re) == pat@,
                text@ == t,
                t == text_of(self@.lines),
                byte_of(self@.lines, self@.cursor.pos) == Some(from),
                match_nth(pat@, t, dir, from, i as int) == Some(offset),
            decreases count - i,
        {
            let next = match dir {
                Direction::Forward => next_match(&re, text, offset),
                Direction::Backward => prev_match(&re, text, offset),
            };
            match next {
                Some(at) => {
                    offset = at;
                },
                None => {
                    proof {
                        lemma_match_nth_none(pat@, t, dir, from, i + 1, count as int);
                    }
                    return None;
                },
            }
            i += 1;
        }
        match self.byte_to_pos(offset) {
            Some(target) => Some(
                MotionKind::Char { start: self.cursor.pos, end: target, inclusive: false },
            ),
            None => None,
        }
    }

    /// From the cursor to the `count`-th next match of a search motion, which
    /// is kept for repetition where `save`. The user is told of a pattern that
    /// is none.
    pub fn search(&mut self, motion: &Motion, save: bool, count: usize) -> (m: Option<MotionKind>)
        ensures
            m == match *motion {
                Motion::Search(pat, dir) => search_cover(old(self)@, pat@, dir, count),
                _ => None,
            },
            final(self)@ == noted(
                if save && m is Some {
                    BufV { last_search: Some(*motion), ..old(self)@ }
                } else {
                    old(self)@
                },
                match *motion {
                    Motion::Search(pat, _) => flaws(pat@),
                    _ => Seq::empty(),
                },
            ),
    {
        let msgs: Vec<String> = match motion {
            Motion::Search(pat, _) => pattern_notices(pat.as_str()),
            _ => Vec::new(),
        };
        let found = self.search_kept(motion, save, count);
        self.note(msgs);
        found
    }

    /// The same, without a word to the user.
    fn search_kept(&mut self, motion: &Motion, save: bool, count: usize) -> (m: Option<MotionKind>)
        ensures
            m == match *motion {
                Motion::Search(pat, dir) => search_cover(old(self)@, pat@, dir, count),
                _ => None,
            },
            final(self)@ == if save && m is Some {
                BufV { last_search: Some(*motion), ..old(self)@ }
            } else {
                old(self)@
            },
    {
        let found = match motion {
            Motion::Search(pat, dir) => self.search_for(pat.as_str(), *dir, count),
            _ => None,
        };
        if save && found.is_some() {
            self.last_search = Some(motion.clone());
            assert(self@ =~= (BufV { last_search: Some(*motion), ..old(self)@ }));
        }
        found
    }

    /// What a motion covers. The user is told of patterns that are none.
    fn eval_settled(
        &mut self,
        with_verb: bool,
        change: bool,
        count: usize,
        motion: &Motion,
        opts: &Opts,
    ) -> (m: Option<MotionKind>)
        requires
            wf(old(self)@),
            opts.tab_width > 0,
        ensures
            m == cover(old(self)@, with_verb, change, count, *motion, *opts),
            final(self)@ == after_motion(old(self)@, with_verb, count, *motion, *opts),
            final(self)@.lines == old(self)@.lines,
            final(self)@.cursor == old(self)@.cursor,
    {
        reveal(after_motion);
        let msgs = self.motion_notices(motion);
        let m = self.eval_kept(with_verb, change, count, motion, opts);
        self.note(msgs);
        m
    }

    /// What a motion covers. A vertical move keeps its column, a search that
    /// finds something is kept for repetition.
    fn eval_kept(
        &mut self,
        with_verb: bool,
        change: bool,
        count: usize,
        motion: &Motion,
        opts: &Opts,
    ) -> (m: Option<MotionKind>)
        requires
            wf(old(self)@),
            opts.tab_width > 0,
        ensures
            m == cover(old(self)@, with_verb, change, count, *motion, *opts),
            final(self)@ == motion_kept(old(self)@, with_verb, count, *motion, *opts),
            final(self)@.lines == old(self)@.lines,
            final(self)@.cursor == old(self)@.cursor,
    {
        proof {
            if motion is LineUp || motion is LineDown {
                reveal(cover);
            }
        }
        match motion {
            Motion::LineUp => {
                let to = self.offset_row(-to_offset(count));
                if with_verb {
                    Some(self.lines_to_row(to))
                } else {
                    let target = self.vertical_target(to, opts);
                    self.reach_to(target, true)
                }
            },
            Motion::LineDown => {
                let to = self.offset_row(to_offset(count));
                if with_verb {
                    Some(self.lines_to_row(to))
                } else {
                    let target = self.vertical_target(to, opts);
                    self.reach_to(target, true)
                }
            },
            Motion::Search(_, _) => {
                assert(cover(self@, with_verb, change, count, *motion, *opts) == search_cover(
                    self@,
                    motion->Search_0@,
                    motion->Search_1,
                    count,
                )) by {
                    reveal(cover);
                }
                self.search_kept(motion, true, count)
            },
            _ => self.eval_pure(with_verb, change, count, motion, opts),
        }
    }

    /// What a motion covers that leaves nothing behind.
    fn eval_pure(
        &self,
        with_verb: bool,
        change: bool,
        count: usize,
        motion: &Motion,
        opts: &Opts,
    ) -> (m: Option<MotionKind>)
        requires
            wf(self@),
            !(motion is LineUp || motion is LineDown || motion is Search),
        ensures
            m == cover(self@, with_verb, change, count, *motion, *opts),
    {
        reveal(cover);
        let row = self.cursor.pos.row;
        let more = count.saturating_sub(1);
        match motion {
            Motion::WholeLine => {
                let end = self.clamp_to_row(row.saturating_add(more));
                Some(MotionKind::Line { start: row, end, inclusive: true })
            },
            Motion::TextObj(o) => self.dispatch_text_obj(*o),
            Motion::EndOfLastWord => {
                let r = row.saturating_add(more);
                self.reach_to(Pos { row: r, col: self.end_of_last_word(r) }, true)
            },
            Motion::StartOfFirstWord => {
                let r = row.saturating_add(more);
                self.reach_to(Pos { row: r, col: self.start_of_first_word(r) }, true)
            },
            Motion::StartOfLine => {
                let target = self.offset_cursor(to_offset(more), isize::MIN);
                self.reach_to(target, false)
            },
            Motion::EndOfLine => {
                let target = self.offset_cursor(to_offset(more), isize::MAX);
                self.reach_to(target, true)
            },
            Motion::WordMotion(to, word, dir) => {
                let spare = change && *to == To::Start && *dir == Direction::Forward;
                self.eval_word_motion(count, to, word, dir, spare, !with_verb)
            },
            Motion::CharSearch(dir, dest, g) => {
                let off = self.search_char(dir, dest, g, count);
                let target = self.offset_cursor(0, off);
                self.reach_to(target, *dir == Direction::Forward)
            },
            Motion::BackwardChar => {
                let target = self.offset_cursor(0, -to_offset(count));
                self.reach_to(target, false)
            },
            Motion::ForwardChar => {
                let target = self.offset_cursor(0, to_offset(count));
                self.reach_to(target, false)
            },
            Motion::BackwardCharForced => {
                let target = self.offset_cursor_wrapping(0, -to_offset(count));
                self.reach_to(target, false)
            },
            Motion::ForwardCharForced => {
                let target = self.offset_cursor_wrapping(0, to_offset(count));
                self.reach_to(target, false)
            },
            Motion::StartOfBuffer => {
                if with_verb {
                    Some(self.lines_to_row(self.offset_row(isize::MIN)))
                } else {
                    let target = self.offset_cursor(isize::MIN, 0);
                    self.reach_to(target, true)
                }
            },
            Motion::EndOfBuffer => {
                if with_verb {
                    Some(self.lines_to_row(self.offset_row(isize::MAX)))
                } else {
                    let target = self.offset_cursor(isize::MAX, 0);
                    self.reach_to(target, true)
                }
            },
            _ => self.eval_located(count, motion, opts),
        }
    }

    /// What a motion to a place found by its contents or its address covers.
    fn eval_located(&self, count: usize, motion: &Motion, opts: &Opts) -> (m: Option<MotionKind>)
        requires
            wf(self@),
            motion is ToColumn || motion is RepeatSearch || motion is RepeatSearchRev
                || motion is ToDelimMatch || motion is ToParen || motion is ToBrace
                || motion is CharRange || motion is Line || motion is LineRange
                || motion is BlockRange || motion is HalfScreenUp || motion is HalfScreenDown
                || motion is RepeatMotion || motion is RepeatMotionRev || motion is Selection
                || motion is Null,
        ensures
            forall|with_verb: bool, change: bool|
                m == #[trigger] cover(self@, with_verb, change, count, *motion, *opts),
    {
        reveal(cover);
        let row = self.cursor.pos.row;
        match motion {
            Motion::ToColumn => {
                let end = Pos { row, col: count.saturating_sub(1) };
                Some(
                    MotionKind::Char {
                        start: self.cursor.pos,
                        end,
                        inclusive: self.cursor.pos < end,
                    },
                )
            },
            Motion::RepeatSearch => {
                match &self.last_search {
                    Some(Motion::Search(pat, dir)) => self.search_for(pat.as_str(), *dir, count),
                    _ => None,
                }
            },
            Motion::RepeatSearchRev => {
                match &self.last_search {
                    Some(Motion::Search(pat, dir)) => {
                        let back = match dir {
                            Direction::Forward => Direction::Backward,
                            Direction::Backward => Direction::Forward,
                        };
                        self.search_for(pat.as_str(), back, count)
                    },
                    _ => None,
                }
            },
            Motion::ToDelimMatch => self.find_delim_match(),
            Motion::ToParen(dir) => self.find_unmatched('(', ')', dir),
            Motion::ToBrace(dir) => self.find_unmatched('{', '}', dir),
            Motion::CharRange(s, e) => {
                let (start, end) = earlier_first(*s, *e);
                Some(MotionKind::Char { start, end, inclusive: true })
            },
            Motion::Line(a) => {
                match self.row_of(a) {
                    Some(l) => Some(
                        MotionKind::Line { start: l, end: l.saturating_add(1), inclusive: false },
                    ),
                    None => None,
                }
            },
            Motion::LineRange(s, e) => {
                match (self.row_of(s), self.row_of(e)) {
                    (Some(s), Some(e)) => {
                        let (start, end) = if e < s {
                            (e, s)
                        } else {
                            (s, e)
                        };
                        Some(MotionKind::Line { start, end, inclusive: true })
                    },
                    _ => None,
                }
            },
            Motion::BlockRange(s, e) => {
                let (start, end) = earlier_first(*s, *e);
                Some(MotionKind::Block { start, end })
            },
            Motion::HalfScreenUp => {
                let half = self.get_viewport_height(opts) / 2;
                let start = self.offset_row(-to_offset(half));
                Some(MotionKind::Line { start, end: row, inclusive: false })
            },
            Motion::HalfScreenDown => {
                let half = self.get_viewport_height(opts) / 2;
                let start = self.offset_row(to_offset(half));
                Some(MotionKind::Line { start, end: row, inclusive: false })
            },
            _ => None,
        }
    }

    /// The motion, the shape of a selection settled at the cursor.
    fn settle(&self, motion: &Motion) -> (m: Motion)
        ensures
            m == settled_motion(self@, *motion),
    {
        match motion {
            Motion::Selection(shape) => self.evaluate_select_shape(shape),
            _ => motion.clone(),
        }
    }

    /// What the motion of a command covers.
    pub fn eval_motion(&mut self, cmd: &EditCmd, opts: &Opts) -> (m: Option<MotionKind>)
        requires
            wf(old(self)@),
            opts.tab_width > 0,
        ensures
            m == cmd_cover(old(self)@, *cmd, *opts),
            final(self)@ == cmd_after(old(self)@, *cmd, *opts),
            final(self)@.lines == old(self)@.lines,
            final(self)@.cursor == old(self)@.cursor,
    {
        match &cmd.motion {
            Some(Cmd(count, motion)) => {
                let settled = self.settle(motion);
                self.eval_settled(cmd.verb.is_some(), is_change_cmd(cmd), *count, &settled, opts)
            },
            None => None,
        }
    }

    /// Whether there is a hint that reaches over all lines.
    fn has_covering_hint(&self) -> (r: bool)
        ensures
            r == hint_covers(self@),
    {
        match &self.hint {
            Some(h) => h.lines().len() >= self.lines.len() && self.lines.len() > 0,
            None => false,
        }
    }

    /// Takes the hint for the text; returns where it begins.
    fn enter_hint(&mut self) -> (start: Pos)
        requires
            hint_covers(old(self)@),
        ensures
            start == hint_start(old(self)@),
            start.row == old(self)@.lines.len() - 1,
            final(self)@ == in_hint(old(self)@),
    {
        let row = self.lines.len() - 1;
        let col = self.lines.at(row).len();
        let ghost h = hint_text(self@.hint->0);
        if let Some(hint) = &self.hint {
            let lines = hint.lines().clone();
            self.lines = lines;
        }
        assert(self@ =~= in_hint(old(self)@));
        Pos { row, col }
    }

    /// Cuts the text at `pos`; what lies behind is hint again.
    fn leave_hint(&mut self, pos: Pos)
        requires
            old(self)@.lines.len() > 0,
        ensures
            final(self)@ == cut_back(old(self)@, pos),
            final(self)@.lines.len() == cut_row(pos.row, old(self)@.lines.len() as int) + 1,
            final(self)@.cursor == old(self)@.cursor,
    {
        let row = self.clamp_to_row(pos.row);
        let _ = self.lines.split_lines_at(Pos { row, col: pos.col });
        assert(self@ =~= cut_back(old(self)@, pos));
    }

    /// What the motion of a command covers in the buffer and its hint.
    pub fn eval_motion_with_hint(&mut self, cmd: &EditCmd, opts: &Opts) -> (m: Option<MotionKind>)
        requires
            wf(old(self)@),
            opts.tab_width > 0,
        ensures
            m == hint_cover(old(self)@, *cmd, *opts),
            final(self)@ == hint_after(old(self)@, *cmd, *opts),
            wf(final(self)@),
    {
        if !self.has_covering_hint() {
            return self.eval_motion(cmd, opts);
        }
        match &cmd.motion {
            Some(Cmd(count, motion)) => {
                let settled = self.settle(motion);
                let start = self.enter_hint();
                assert(settled_motion(in_hint(old(self)@), settled) == settled);
                let m = self.eval_settled(
                    cmd.verb.is_some(),
                    is_change_cmd(cmd),
                    *count,
                    &settled,
                    opts,
                );
                self.leave_hint(start);
                m
            },
            None => None,
        }
    }

    /// Moves the cursor along a motion.
    pub fn apply_motion(&mut self, motion: MotionKind)
        requires
            old(self)@.lines.len() > 0,
        ensures
            final(self)@ == followed(old(self)@, motion),
            final(self)@.lines.len() > 0,
    {
        match motion {
            MotionKind::Char { end, .. } => self.set_cursor(end),
            MotionKind::Line { start, .. } => self.set_row(start),
            MotionKind::Block { .. } => {},
        }
    }

    /// Puts in the alias that the command word before the cursor stands for,
    /// unless it is spelled out already.
    pub fn attempt_alias_expansion<S: Fn(&str, Ask) -> Answer>(&mut self, env: &Env<S>) -> (r: bool)
        requires
            wf(old(self)@),
            env_ok(*env),
        ensures
            r == alias_here(old(self)@, env.shell) is Some,
            final(self)@ == alias_put(old(self)@, env.shell),
            wf(final(self)@),
    {
        let whole = self.lines.clone();
        let (to_cursor, mut rest) = whole.split_lines(self.cursor.pos);
        let raw = to_cursor.join();
        let ans = consult(&env.shell, raw.as_str(), Ask::LastCommand);
        let found = match ans.alias {
            Some(u) => u,
            None => {
                return false;
            },
        };
        if starts_with(found.from_word.as_str(), found.alias.as_str()) {
            return false;
        }
        let new = split_clusters(found.alias.as_str());
        let gone = split_clusters(found.word.as_str());
        assert(new@.len() == clusters(found.alias@).len());
        assert(gone@.len() == clusters(found.word@).len());
        let delta: i128 = new.len() as i128 - gone.len() as i128;
        let mut lines = Lines::to_lines(found.expanded.as_str());
        lines.attach_lines(&mut rest);
        self.lines = lines;
        let to = shift_cols(self.cursor.pos, delta);
        let row = self.clamp_to_row(to.row);
        self.cursor.pos = Pos { row, col: to.col };
        assert(self@ =~= alias_put(old(self)@, env.shell));
        true
    }

    /// Moves the cursor along a motion that may lead into the hint. What the
    /// cursor goes past becomes text; a hint never grows by this.
    pub fn apply_motion_with_hint<S: Fn(&str, Ask) -> Answer>(
        &mut self,
        motion: MotionKind,
        env: &Env<S>,
    )
        requires
            old(self)@.lines.len() > 0,
            motion is Block ==> wf(old(self)@),
            env_ok(*env),
        ensures
            final(self)@ == hint_followed(old(self)@, motion, env.shell),
            final(self)@.lines.len() > 0,
    {
        if !self.has_covering_hint() {
            self.apply_motion(motion);
            return;
        }
        let from = self.cursor.pos;
        let start = self.enter_hint();
        self.apply_motion(motion);
        let ghost b = self@;
        assert(wf(b));
        let at = self.cursor.pos;
        let past = if self.cursor.exclusive {
            start <= at
        } else {
            start < at
        };
        if from < at && past {
            let was = self.count_graphemes();
            let exclusive = self.cursor.exclusive;
            self.attempt_alias_expansion(env);
            let now = self.count_graphemes();
            let mut delta: i128 = now as i128 - was as i128;
            if exclusive {
                delta = delta + 1;
            }
            self.leave_hint(shift_cols(at, delta));
        } else {
            self.leave_hint(start);
        }
    }
}

/// A place some columns on.
fn shift_cols(p: Pos, cols: i128) -> (r: Pos)
    requires
        -0x2_0000_0000_0000_0000 <= cols <= 0x2_0000_0000_0000_0000,
    ensures
        r == shifted(p, 0, cols as int),
{
    let c = p.col as i128 + cols;
    let col = if c < 0 {
        0
    } else if c > usize::MAX as i128 {
        usize::MAX
    } else {
        c as usize
    };
    Pos { row: p.row, col }
}

proof fn lemma_match_nth_none(
    pat: Seq<char>,
    text: Seq<char>,
    dir: Direction,
    offset: usize,
    i: int,
    n: int,
)
    requires
        0 <= i <= n,
        match_nth(pat, text, dir, offset, i) is None,
    ensures
        match_nth(pat, text, dir, offset, n) is None,
    decreases n - i,
{
    if i < n {
        lemma_match_nth_none(pat, text, dir, offset, i + 1, n);
    }
}

/// The byte of the next match behind `offset`, going round at the end.
fn next_match(re: &regex::Regex, text: &str, offset: usize) -> (r: Option<usize>)
    ensures
        r == match_after(source(*re), text@, offset),
{
    if offset < text.as_bytes().len() {
        if let Some(m) = find_at(re, text, offset + 1) {
            return Some(m.0);
        }
    }
    match find_at(re, text, 0) {
        Some(m) => Some(m.0),
        None => None,
    }
}

/// The byte of the match before `offset`, going round at the start.
fn prev_match(re: &regex::Regex, text: &str, offset: usize) -> (r: Option<usize>)
    ensures
        r == match_before(
            all_matches(source(*re), text@),
            offset,
            all_matches(source(*re), text@).len() as int,
        ),
{
    let ms = find_all(re, text);
    if ms.len() == 0 {
        return None;
    }
    let mut n: usize = ms.len();
    while n > 0 && ms[n - 1].0 >= offset
        invariant
            n <= ms@.len(),
            ms@.len() > 0,
            match_before(ms@, offset, ms@.len() as int) == match_before(ms@, offset, n as int),
        decreases n,
    {
        n -= 1;
    }
    if n > 0 {
        Some(ms[n - 1].0)
    } else {
        Some(ms[ms.len() - 1].0)
    }
}

} // verus!
