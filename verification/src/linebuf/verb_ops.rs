//! The verbs one by one.

use vstd::prelude::*;
use crate::editcmd::{recast, Anchor, Bound, Cmd, Direction, EditCmd, To, Verb, Word};
use crate::keys::{notation, render_keys};
use crate::linebuf::address::{row_span, selected_rows, selection};
use crate::linebuf::buffer::{
    fixed, line_at, moved, row_moved, wf, with_cursor, with_lines, BufV, LineBuf,
};
use crate::linebuf::change::{
    covered, equalized, level_in, put_at, retyped, tabs, uncovered, with_cluster, with_levels,
    within,
};
use crate::linebuf::char_class::is_ws;
use crate::linebuf::grapheme::{sole_char, Grapheme};
use crate::linebuf::killring::{next_kill, with_kill, KillRingV};
use crate::linebuf::line::{unindented, Line, LineV};
use crate::linebuf::lines::{
    blank, cluster_count, lemma_cluster_count_nonneg, text_of, Lines, LinesV,
};
use crate::linebuf::motion::{cmd_after, cmd_cover, followed, less_one};
use crate::linebuf::number::{format_adjusted, moved_number};
use crate::linebuf::places::{col_off, place_off, place_wrapped};
use crate::linebuf::pos::{
    cut_row, in_order, earlier_first, pos_lt, rows_in_order, shifted, Cursor, MotionKind, Pos,
};
use crate::linebuf::recase::{recased_here, recased_range, Recase};
use crate::linebuf::scan::number_span;
use crate::linebuf::select::{anchor_of, with_anchor, SelectMode};
use crate::linebuf::words::{word_motion, word_object};
use crate::register::{content_of, held_by, stored, RegV, RegisterContent, Registers};
use crate::seqs::{group_views, isat, min_of, sat, to_offset, views};
use crate::shell::{env_ok, Answer, Ask, Env, Opts};
use crate::text::clusters;

verus! {

broadcast use group_views;

/// The clusters of some lines and the line feeds between them.
pub open spec fn extent_of(ls: LinesV) -> int {
    cluster_count(ls) + if ls.len() > 0 {
        ls.len() - 1
    } else {
        0
    }
}

/// The buffer with the lines of a motion changed: they go, and where there
/// were others a blank line takes their place.
pub open spec fn changed_lines(b: BufV, k: MotionKind, start: usize, end: usize, opts: Opts) -> BufV {
    let c = fixed(with_lines(b, uncovered(b.lines, k)), opts);
    if b.lines.len() > 1 {
        let at = if rows_in_order(start, end).0 <= c.lines.len() {
            rows_in_order(start, end).0 as int
        } else {
            c.lines.len() as int
        };
        with_lines(c, c.lines.insert(at, blank()))
    } else {
        c
    }
}

/// The buffer with the cursor's line indented as it is nested at its start.
pub open spec fn indented_here<S: Fn(&str, Ask) -> Answer>(b: BufV, shell: S) -> BufV {
    let c = with_levels(b, shell);
    let depth = level_in(c, b.cursor.pos.row as int).0;
    let row = cut_row(c.cursor.pos.row, c.lines.len() as int) as int;
    let d = with_lines(c, c.lines.update(row, tabs(depth as int) + c.lines[row]));
    with_cursor(d, place_off(d, 0, isat(depth as int) as int))
}

/// The buffer once a verb that deletes, changes or copies a motion's range
/// took its text: without that text, unless it is a copy.
pub open spec fn carved(b: BufV, cmd: EditCmd, k: MotionKind, opts: Opts) -> BufV {
    match cmd.verb {
        Some(Cmd(_, Verb::Yank)) => b,
        Some(Cmd(_, Verb::Change)) => match k {
            MotionKind::Line { start, end, .. } => changed_lines(b, k, start, end, opts),
            _ => fixed(with_lines(b, uncovered(b.lines, k)), opts),
        },
        _ => fixed(with_lines(b, uncovered(b.lines, k)), opts),
    }
}

/// The buffer with the cursor where such a verb leaves it.
pub open spec fn settled_after<S: Fn(&str, Ask) -> Answer>(b: BufV, cmd: EditCmd, k: MotionKind, shell: S) -> BufV {
    match k {
        MotionKind::Char { start, end, .. } => moved(b, in_order(start, end).0),
        MotionKind::Line { start, end, inclusive } => {
            let last = if inclusive || end == 0 {
                end
            } else {
                (end - 1) as usize
            };
            let c = row_moved(b, rows_in_order(start, last).0);
            if cmd.verb matches Some(Cmd(_, Verb::Change)) {
                indented_here(c, shell)
            } else {
                c
            }
        },
        MotionKind::Block { start, .. } => moved(b, in_order(b.cursor.pos, start).0),
    }
}

/// What deleting, changing or copying a motion's range makes of the buffer.
pub open spec fn dcy_buf<S: Fn(&str, Ask) -> Answer>(b: BufV, cmd: EditCmd, env: Env<S>) -> BufV {
    let c = cmd_after(b, cmd, env.opts);
    match cmd_cover(b, cmd, env.opts) {
        Some(k) => settled_after(carved(c, cmd, k, env.opts), cmd, k, env.shell),
        None => c,
    }
}

/// What it makes of the registers.
pub open spec fn dcy_regs<S: Fn(&str, Ask) -> Answer>(b: BufV, regs: Seq<RegV>, cmd: EditCmd, env: Env<S>) -> Seq<RegV> {
    match cmd_cover(b, cmd, env.opts) {
        Some(k) => stored(
            regs,
            cmd.register.letter(),
            cmd.register.appends(),
            content_of(covered(cmd_after(b, cmd, env.opts).lines, k), k),
            env.shell,
        ),
        None => regs,
    }
}

/// The ring once a text was killed: it continues the last kill where that was
/// the command before.
pub open spec fn ring_killed(r: KillRingV, kill: LinesV) -> KillRingV {
    KillRingV {
        kills: if r.merging && r.kills.len() > 0 {
            r.kills.update(r.kills.len() - 1, r.kills.last() + kill)
        } else {
            with_kill(r.kills, kill)
        },
        merging: true,
        ..r
    }
}

pub open spec fn killed(b: BufV, cmd: EditCmd, opts: Opts) -> BufV {
    let c = cmd_after(b, cmd, opts);
    match cmd_cover(b, cmd, opts) {
        Some(k) => BufV {
            lines: uncovered(c.lines, k),
            kill_ring: ring_killed(c.kill_ring, covered(c.lines, k)),
            ..c
        },
        None => c,
    }
}

/// The buffer with a kill put in at `at`, the cursor behind it.
pub open spec fn kill_put_at(b: BufV, at: Pos, kill: LinesV) -> BufV {
    let c = with_lines(b, put_at(b.lines, within(b.lines, at), kill));
    let d = with_cursor(c, place_wrapped(c, 0, isat(extent_of(kill)) as int));
    BufV {
        kill_ring: KillRingV { kill_cycle_span: Some((at, d.cursor.pos)), ..d.kill_ring },
        ..d
    }
}

/// The buffer with the next kill selected.
pub open spec fn kill_selected(b: BufV) -> BufV {
    BufV {
        kill_ring: KillRingV { selected: Some(next_kill(b.kill_ring)), ..b.kill_ring },
        ..b
    }
}

/// The kill that comes next.
pub open spec fn kill_next(b: BufV) -> Option<LinesV> {
    let i = next_kill(b.kill_ring) as int;
    if i < b.kill_ring.kills.len() {
        Some(b.kill_ring.kills[i])
    } else {
        None
    }
}

/// The buffer with the next kill put in at the cursor.
pub open spec fn kill_pasted(b: BufV) -> BufV {
    match kill_next(b) {
        Some(kill) => kill_put_at(kill_selected(b), b.cursor.pos, kill),
        None => kill_selected(b),
    }
}

/// The buffer with the next kill put in place of the one put in last.
pub open spec fn kill_cycled(b: BufV) -> BufV {
    match (kill_next(b), b.kill_ring.kill_cycle_span) {
        (Some(kill), Some(span)) => {
            let c = kill_selected(b);
            let (s, e) = in_order(span.0, span.1);
            let d = with_lines(
                c,
                uncovered(c.lines, MotionKind::Char { start: s, end: e, inclusive: false }),
            );
            kill_put_at(moved(d, s), s, kill)
        },
        _ => kill_selected(b),
    }
}

/// The buffer with what the motion of a command covers recased, the cursor at
/// its start.
pub open spec fn range_recased(b: BufV, cmd: EditCmd, k: Recase, opts: Opts) -> BufV {
    let c = cmd_after(b, cmd, opts);
    match cmd_cover(b, cmd, opts) {
        Some(m) => crate::linebuf::change::at_start(
            with_lines(c, recased_range(k, c.lines, m)),
            m,
        ),
        None => c,
    }
}

/// The buffer with what the motion of a command covers capitalized, the cursor
/// behind its end.
pub open spec fn capitalized(b: BufV, cmd: EditCmd, opts: Opts) -> BufV {
    let c = cmd_after(b, cmd, opts);
    match cmd_cover(b, cmd, opts) {
        Some(m) => {
            let d = followed(with_lines(c, recased_range(Recase::Capitalize, c.lines, m)), m);
            with_cursor(d, shifted(d.cursor.pos, 0, 1))
        },
        None => c,
    }
}

/// The buffer with the ends of the selection swapped.
pub open spec fn swapped(b: BufV) -> BufV {
    match b.select_mode {
        Some(m) => moved(
            BufV { select_mode: Some(with_anchor(m, b.cursor.pos)), ..b },
            anchor_of(m),
        ),
        None => b,
    }
}

/// A line and the one below it made one, with a space between where both have
/// text and none stands there.
pub open spec fn joined_line(a: LineV, b: LineV) -> LineV {
    let rest = unindented(b);
    if a.len() > 0 && !is_ws(a.last()) && rest.len() > 0 {
        a.push(seq![' ']) + rest
    } else {
        a + rest
    }
}

/// The buffer with up to `n` lines joined to row `row`, the cursor where the
/// last one was joined.
pub open spec fn joined_rows(b: BufV, row: usize, n: int) -> BufV
    decreases n,
{
    if n <= 0 || row + 1 >= b.lines.len() {
        b
    } else {
        let at = Pos { row, col: col_off(b, row, isize::MAX as int) };
        let lines = b.lines.remove(row + 1).update(
            row as int,
            joined_line(b.lines[row as int], b.lines[row + 1]),
        );
        joined_rows(moved(with_lines(b, lines), at), row, n - 1)
    }
}

/// The rows a join takes when there is a selection: those of the motion, else
/// those of the selection.
pub open spec fn join_rows_of(b: BufV, k: Option<MotionKind>) -> Option<(usize, usize)> {
    match k {
        Some(MotionKind::Line { start, end, .. }) => Some(rows_in_order(start, end)),
        Some(MotionKind::Char { start, end, .. }) => Some(rows_in_order(start.row, end.row)),
        Some(MotionKind::Block { .. }) => None,
        None => match selected_rows(b) {
            Some((s, e)) => Some(rows_in_order(s, e)),
            None => None,
        },
    }
}

/// The buffer with lines joined, the cursor free to stand behind a line while
/// that is done.
pub open spec fn join_from(b: BufV, row: usize, n: int) -> BufV {
    let free = BufV { cursor: Cursor { exclusive: false, ..b.cursor }, ..b };
    let done = joined_rows(free, row, n);
    BufV { cursor: Cursor { exclusive: b.cursor.exclusive, ..done.cursor }, ..done }
}

pub open spec fn lines_joined(b: BufV, cmd: EditCmd, count: usize, opts: Opts) -> BufV {
    if b.select_mode is Some {
        let c = cmd_after(b, cmd, opts);
        match join_rows_of(c, cmd_cover(b, cmd, opts)) {
            Some((s, e)) => join_from(
                c,
                s,
                if e - s >= 1 {
                    e - s
                } else {
                    1
                },
            ),
            None => c,
        }
    } else {
        join_from(b, b.cursor.pos.row, count as int)
    }
}

/// A line indented by one tab more, or less where it starts with one.
pub open spec fn shifted_line(l: LineV, more: bool) -> LineV {
    if more {
        seq![seq!['\t']] + l
    } else if l.len() > 0 && sole_char(l[0]) == Some('\t') {
        l.skip(1)
    } else {
        l
    }
}

/// By how many clusters the rows `from..to` grow.
pub open spec fn shift_sum(ls: LinesV, more: bool, from: int, to: int) -> int
    decreases to - from,
{
    if to <= from {
        0
    } else {
        shift_sum(ls, more, from, to - 1) + shifted_line(ls[to - 1], more).len() - ls[to
            - 1].len()
    }
}

/// The rows a motion touches, both ends included.
pub open spec fn touched(k: MotionKind) -> Option<(usize, usize)> {
    match k {
        MotionKind::Char { start, end, .. } => Some(rows_in_order(start.row, end.row)),
        MotionKind::Line { start, end, .. } => Some(rows_in_order(start, end)),
        MotionKind::Block { .. } => None,
    }
}

/// The buffer with the rows a motion touches indented more or less, the cursor
/// moved along by as many clusters as were added in all.
pub open spec fn indent_altered(b: BufV, k: MotionKind, more: bool) -> BufV {
    match touched(k) {
        Some((s, e)) => {
            let stop = if e < b.lines.len() {
                e + 1
            } else {
                b.lines.len() as int
            };
            let lines = Seq::new(
                b.lines.len(),
                |i: int|
                    if s <= i < stop {
                        shifted_line(b.lines[i], more)
                    } else {
                        b.lines[i]
                    },
            );
            with_cursor(
                with_lines(b, lines),
                shifted(b.cursor.pos, 0, shift_sum(b.lines, more, s as int, stop)),
            )
        },
        None => b,
    }
}

pub open spec fn cmd_indented(b: BufV, cmd: EditCmd, more: bool, opts: Opts) -> BufV {
    let c = cmd_after(b, cmd, opts);
    match cmd_cover(b, cmd, opts) {
        Some(k) => indent_altered(c, k, more),
        None => c,
    }
}

pub open spec fn cmd_equalized<S: Fn(&str, Ask) -> Answer>(b: BufV, cmd: EditCmd, env: Env<S>) -> BufV {
    let c = cmd_after(b, cmd, env.opts);
    match cmd_cover(b, cmd, env.opts) {
        Some(k) => match touched(k) {
            Some((s, e)) => equalized(c, row_span(s, e), row_span(s, e).len() as int, env.shell),
            None => c,
        },
        None => c,
    }
}

/// The buffer with the cluster before the cursor moved behind the one under
/// it, the cursor one further.
pub open spec fn char_transposed<S: Fn(&str, Ask) -> Answer>(b: BufV, shell: S) -> BufV {
    let prev = shifted(b.cursor.pos, 0, -1);
    match crate::linebuf::buffer::cluster_at(b.lines, prev) {
        Some(g) => {
            let c = with_lines(
                b,
                b.lines.update(
                    prev.row as int,
                    b.lines[prev.row as int].remove(prev.col as int),
                ),
            );
            let d = with_cluster(c, c.cursor.pos, g, shell);
            with_cursor(d, shifted(d.cursor.pos, 0, 1))
        },
        None => b,
    }
}

/// The place a motion over clusters ends.
pub open spec fn char_end(m: MotionKind) -> Pos {
    match m {
        MotionKind::Char { end, .. } => end,
        _ => Pos { row: 0, col: 0 },
    }
}

/// From the first cluster of the word at a place to behind its last.
pub open spec fn word_span(ls: LinesV, at: Pos) -> Option<(Pos, Pos)> {
    match word_object(ls, at, Word::Normal, Bound::Inside) {
        Some(MotionKind::Char { start, end, inclusive }) => Some(
            (
                start,
                if inclusive {
                    shifted(end, 0, 1)
                } else {
                    end
                },
            ),
        ),
        _ => None,
    }
}

/// White space is under the cursor.
pub open spec fn on_space(b: BufV) -> bool {
    let l = line_at(b.lines, b.cursor.pos.row);
    b.cursor.pos.col < l.len() && is_ws(l[b.cursor.pos.col as int])
}

/// The word at the cursor, or the next one where there is white space.
pub open spec fn this_word(b: BufV) -> Option<(Pos, Pos)> {
    word_span(
        b.lines,
        if on_space(b) {
            char_end(
                word_motion(b, 1, To::Start, Word::Normal, Direction::Forward, false, false),
            )
        } else {
            b.cursor.pos
        },
    )
}

/// The word before it.
pub open spec fn word_before(b: BufV) -> Option<(Pos, Pos)> {
    let steps = if on_space(b) {
        1int
    } else {
        2
    };
    word_span(
        b.lines,
        char_end(
            word_motion(b, steps, To::Start, Word::Normal, Direction::Backward, false, false),
        ),
    )
}

/// The lines with a span replaced by other lines.
pub open spec fn replaced(ls: LinesV, span: (Pos, Pos), by: LinesV) -> LinesV {
    let m = MotionKind::Char { start: span.0, end: span.1, inclusive: false };
    let rest = uncovered(ls, m);
    put_at(rest, within(rest, span.0), by)
}

pub open spec fn span_text(ls: LinesV, span: (Pos, Pos)) -> LinesV {
    covered(ls, MotionKind::Char { start: span.0, end: span.1, inclusive: false })
}

/// The buffer with two words swapped, the cursor behind the later one.
pub open spec fn words_swapped(b: BufV, this: (Pos, Pos), prev: (Pos, Pos)) -> BufV {
    let a = span_text(b.lines, this);
    let p = span_text(b.lines, prev);
    let c = with_lines(b, replaced(replaced(b.lines, this, p), prev, a));
    let col = this.0.col + sat(extent_of(a)) - sat(extent_of(p));
    let d = moved(
        c,
        Pos {
            row: this.0.row,
            col: if col < 0 {
                usize::MAX
            } else {
                sat(col)
            },
        },
    );
    with_cursor(d, place_wrapped(d, 0, isat(extent_of(p)) as int))
}

pub open spec fn word_transposed(b: BufV) -> BufV {
    match (this_word(b), word_before(b)) {
        (Some(this), Some(prev)) => if pos_lt(prev.0, this.0) {
            words_swapped(b, this, prev)
        } else {
            b
        },
        _ => b,
    }
}

/// The buffer with a new line below or above the cursor's, indented as it is
/// nested, the cursor behind the indentation.
pub open spec fn line_opened<S: Fn(&str, Ask) -> Answer>(b: BufV, anchor: Anchor, shell: S) -> BufV {
    let row = match anchor {
        Anchor::After => b.cursor.pos.row + 1,
        Anchor::Before => b.cursor.pos.row as int,
    };
    let c = with_levels(with_lines(b, b.lines.insert(row, blank())), shell);
    let depth = level_in(c, row).0;
    with_cursor(
        with_lines(c, c.lines.update(row, tabs(depth as int))),
        Pos { row: row as usize, col: depth },
    )
}

/// The span of the number to change: a selection of clusters, else the number
/// at the cursor. Other selections hold none.
pub open spec fn number_target(b: BufV) -> Option<(Pos, Pos)> {
    match b.select_mode {
        Some(SelectMode::Char(p)) => Some(in_order(b.cursor.pos, p)),
        Some(_) => None,
        None => number_span(b.lines, b.cursor.pos),
    }
}

/// The buffer with that number moved by `inc`, the cursor on its last digit.
pub open spec fn number_moved<S: Fn(&str, Ask) -> Answer>(b: BufV, inc: int, shell: S) -> BufV {
    match number_target(b) {
        Some(span) => {
            let word = text_of(
                covered(
                    b.lines,
                    MotionKind::Char { start: span.0, end: span.1, inclusive: true },
                ),
            );
            match moved_number(word, inc) {
                Some(new) => {
                    let c = retyped(b, span, new, shell);
                    with_cursor(c, shifted(c.cursor.pos, 0, -1))
                },
                None => b,
            }
        },
        None => b,
    }
}

/// The buffer with a cluster typed, and the motion of the command followed.
pub open spec fn char_inserted<S: Fn(&str, Ask) -> Answer>(b: BufV, cmd: EditCmd, ch: char, env: Env<S>) -> BufV {
    let c = with_cluster(b, b.cursor.pos, seq![ch], env.shell);
    let d = cmd_after(c, cmd, env.opts);
    match cmd_cover(c, cmd, env.opts) {
        Some(k) => followed(d, k),
        None => d,
    }
}

/// Where a text from a register goes: at the start of the selection it
/// replaces, else before or behind the cursor.
pub open spec fn paste_col(b: BufV, start: Option<Pos>, anchor: Anchor) -> usize {
    match start {
        Some(p) => {
            let len = if p.row < b.lines.len() {
                b.lines[p.row as int].len() as usize
            } else {
                0
            };
            if p.col <= len {
                p.col
            } else {
                len
            }
        },
        None => match anchor {
            Anchor::After => {
                let len = line_at(b.lines, b.cursor.pos.row).len();
                if b.cursor.pos.col < len {
                    (b.cursor.pos.col + 1) as usize
                } else {
                    len as usize
                }
            },
            Anchor::Before => b.cursor.pos.col,
        },
    }
}

/// The buffer with a text put in, and the cursor on its last cluster.
pub open spec fn span_pasted(b: BufV, new: LinesV, start: Option<Pos>, anchor: Anchor) -> BufV {
    let row = match start {
        Some(p) => p.row,
        None => b.cursor.pos.row,
    };
    let col = paste_col(b, start, anchor);
    let c = with_lines(b, put_at(b.lines, Pos { row: b.cursor.pos.row, col }, new));
    let grown = line_at(c.lines, row).len() - line_at(b.lines, row).len();
    let delta = if anchor == Anchor::Before {
        grown - 1
    } else {
        grown
    };
    let total = sat(cluster_count(new));
    if start is Some {
        with_cursor(c, Pos { row, col: sat(col + less_one(total)) })
    } else if new.len() == 1 && new[0].len() > 1 {
        with_cursor(
            c,
            place_off(
                c,
                0,
                if delta > 0 {
                    isat(delta) as int
                } else {
                    0
                },
            ),
        )
    } else if total > 1 || anchor == Anchor::After {
        with_cursor(c, place_off(c, 0, 1))
    } else {
        c
    }
}

/// The buffer with the first `n` of some lines put in from row `row` on, the
/// cursor in the last.
pub open spec fn lines_pasted(b: BufV, row: int, new: LinesV, n: int) -> BufV
    decreases n,
{
    if n <= 0 {
        b
    } else {
        let c = lines_pasted(b, row, new, n - 1);
        row_moved(
            with_lines(c, c.lines.insert(row + n - 1, new[n - 1])),
            (row + n - 1) as usize,
        )
    }
}

/// The buffer with what a register holds put in. A rectangle is not put in.
pub open spec fn content_pasted(
    b: BufV,
    content: RegV,
    start: Option<Pos>,
    anchor: Anchor,
    effective: Anchor,
) -> BufV {
    match content {
        RegV::Span(new) => span_pasted(b, new, start, effective),
        RegV::Line(new) => lines_pasted(
            b,
            match anchor {
                Anchor::After => b.cursor.pos.row + 1,
                Anchor::Before => b.cursor.pos.row as int,
            },
            new,
            new.len() as int,
        ),
        RegV::Macro(keys) => with_lines(
            b,
            put_at(
                b.lines,
                Pos { row: b.cursor.pos.row, col: paste_col(b, None, effective) },
                seq![clusters(notation(keys))],
            ),
        ),
        RegV::Block(_) => b,
        RegV::Empty => b,
    }
}

/// The command that deletes a selection before something is put in its place.
pub open spec fn selection_delete(b: BufV, cmd: EditCmd) -> EditCmd {
    recast(cmd, Verb::Delete, selection(b)->0)
}

pub open spec fn selection_start(b: BufV) -> Option<Pos> {
    match b.select_mode {
        Some(SelectMode::Char(p)) => Some(in_order(b.cursor.pos, p).0),
        _ => None,
    }
}

/// What putting a register in makes of the buffer: it replaces a selection.
pub open spec fn put_buf<S: Fn(&str, Ask) -> Answer>(b: BufV, regs: Seq<RegV>, cmd: EditCmd, anchor: Anchor, env: Env<S>) -> BufV {
    match held_by(regs, cmd.register.letter()) {
        None => b,
        Some(content) => if b.select_mode is Some {
            content_pasted(
                dcy_buf(b, selection_delete(b, cmd), env),
                content,
                selection_start(b),
                anchor,
                Anchor::Before,
            )
        } else {
            content_pasted(b, content, None, anchor, anchor)
        },
    }
}

/// What it makes of the registers: the selection it replaces goes to the
/// register it came from.
pub open spec fn put_regs<S: Fn(&str, Ask) -> Answer>(b: BufV, regs: Seq<RegV>, cmd: EditCmd, env: Env<S>) -> Seq<RegV> {
    if held_by(regs, cmd.register.letter()) is Some && b.select_mode is Some {
        dcy_regs(b, regs, selection_delete(b, cmd), env)
    } else {
        regs
    }
}

/// The clusters of some lines and the line feeds between them.
fn extent(lines: &Lines) -> (n: usize)
    ensures
        n == sat(extent_of(lines@)),
{
    proof {
        lemma_cluster_count_nonneg(lines@);
    }
    lines.count_graphemes().saturating_add(lines.len().saturating_sub(1))
}

impl LineBuf {
    /// Deletes, changes or copies what the motion of a command covers, and
    /// puts it in the register.
    pub fn delete_change_yank<S: Fn(&str, Ask) -> Answer>(
        &mut self,
        cmd: &EditCmd,
        env: &Env<S>,
        regs: &mut Registers,
    )
        requires
            wf(old(self)@),
            env_ok(*env),
            cmd.verb matches Some(Cmd(_, v)) && (v is Delete || v is Change || v is Yank),
        ensures
            final(self)@ == dcy_buf(old(self)@, *cmd, *env),
            final(regs)@ == dcy_regs(old(self)@, old(regs)@, *cmd, *env),
            wf(final(self)@),
    {
        let motion = match self.eval_motion(cmd, &env.opts) {
            Some(m) => m,
            None => {
                return;
            },
        };
        let ghost c = self@;
        let (copy, change) = match &cmd.verb {
            Some(Cmd(_, Verb::Yank)) => (true, false),
            Some(Cmd(_, Verb::Change)) => (false, true),
            _ => (false, false),
        };
        let content = if copy {
            self.yank_range(&motion)
        } else {
            let n = self.lines.len();
            let content = self.delete_range(&motion);
            self.fix_cursor(&env.opts);
            if change && n > 1 {
                if let MotionKind::Line { start, end, .. } = motion {
                    let at = min_of(min_of(start, end), self.lines.len());
                    let ghost d = self@;
                    self.lines.insert(at, Line::default());
                    assert(self@ =~= with_lines(d, d.lines.insert(at as int, blank())));
                }
            }
            content
        };
        assert(self@ == carved(c, *cmd, motion, env.opts));
        assert(wf(self@));
        let reg = RegisterContent::from_extracted(content, &motion);
        cmd.register.write_to_register(regs, reg, &env.shell);
        match motion {
            MotionKind::Char { start, end, .. } => {
                let (s, _) = earlier_first(start, end);
                self.set_cursor(s);
            },
            MotionKind::Line { start, end, inclusive } => {
                let last = if inclusive {
                    end
                } else {
                    end.saturating_sub(1)
                };
                self.set_row(min_of(start, last));
                if change {
                    self.indent_here(env);
                }
            },
            MotionKind::Block { start, .. } => {
                let (s, _) = earlier_first(self.cursor.pos, start);
                self.set_cursor(s);
            },
        }
    }

    /// Indents the cursor's line as it is nested.
    fn indent_here<S: Fn(&str, Ask) -> Answer>(&mut self, env: &Env<S>)
        requires
            wf(old(self)@),
            env_ok(*env),
        ensures
            final(self)@ == indented_here(old(self)@, env.shell),
            wf(final(self)@),
    {
        let row = self.cursor.pos.row;
        let (start, _) = self.indent_levels_for_row(row, env);
        let mut line = self.cur_line().clone();
        prepend_tabs(&mut line, start);
        let ghost c = self@;
        self.replace_line(row, line);
        let ghost d = self@;
        self.cursor.pos = self.offset_cursor(0, to_offset(start));
        assert(self@ =~= with_cursor(d, place_off(d, 0, isat(start as int) as int)));
    }

    /// Kills what the motion of a command covers.
    pub fn kill(&mut self, cmd: &EditCmd, opts: &Opts)
        requires
            wf(old(self)@),
            opts.tab_width > 0,
        ensures
            final(self)@ == killed(old(self)@, *cmd, *opts),
            final(self)@.lines.len() > 0,
    {
        let motion = match self.eval_motion(cmd, opts) {
            Some(m) => m,
            None => {
                return;
            },
        };
        let ghost c = self@;
        let content = self.delete_range(&motion);
        let ghost kill = content@;
        let ghost ring = self@.kill_ring;
        if self.kill_ring.merging && self.kill_ring.len() > 0 {
            match self.kill_ring.kills.pop_back() {
                Some(last) => {
                    let mut last = last;
                    let mut content = content;
                    last.append(&mut content);
                    self.kill_ring.kills.push_back(last);
                },
                None => {},
            }
        } else {
            self.kill_ring.push_back(content);
        }
        self.kill_ring.merging = true;
        assert(self@.kill_ring =~= ring_killed(ring, kill));
        assert(self@ =~= killed(old(self)@, *cmd, *opts));
    }

    /// Puts a kill in, the cursor behind it.
    fn put_kill(&mut self, at: Pos, kill: Lines)
        requires
            old(self)@.lines.len() > 0,
        ensures
            final(self)@ == kill_put_at(old(self)@, at, kill@),
            wf(final(self)@),
    {
        let n = extent(&kill);
        proof {
            lemma_cluster_count_nonneg(kill@);
        }
        let ghost k = kill@;
        let p = if at.row < self.lines.len() {
            at
        } else {
            Pos { row: self.lines.len() - 1, col: usize::MAX }
        };
        self.insert_lines_at(p, kill);
        let ghost c = self@;
        self.cursor.pos = self.offset_cursor_wrapping(0, to_offset(n));
        self.kill_ring.kill_cycle_span = Some((at, self.cursor.pos));
        assert(isat(extent_of(k)) == isat(n as int));
        assert(self@ =~= kill_put_at(old(self)@, at, k));
    }

    /// Selects the next kill.
    fn select_kill(&mut self) -> (k: Option<Lines>)
        ensures
            final(self)@ == kill_selected(old(self)@),
            k is Some <==> kill_next(old(self)@) is Some,
            k is Some ==> Some(k->0@) == kill_next(old(self)@),
    {
        let k = self.kill_ring.next();
        assert(self@ =~= kill_selected(old(self)@));
        k
    }

    /// Puts the next kill in at the cursor.
    pub fn kill_put(&mut self)
        requires
            wf(old(self)@),
        ensures
            final(self)@ == kill_pasted(old(self)@),
            wf(final(self)@),
    {
        let content = match self.select_kill() {
            Some(k) => k,
            None => {
                return;
            },
        };
        let at = self.cursor.pos;
        self.put_kill(at, content);
    }

    /// Puts the next kill in place of the one put in last.
    pub fn kill_cycle(&mut self)
        requires
            wf(old(self)@),
        ensures
            final(self)@ == kill_cycled(old(self)@),
            wf(final(self)@),
    {
        let content = match self.select_kill() {
            Some(k) => k,
            None => {
                return;
            },
        };
        let span = match self.kill_ring.kill_cycle_span {
            Some(s) => s,
            None => {
                return;
            },
        };
        let (s, e) = earlier_first(span.0, span.1);
        let _ = self.extract_span((s, e), false);
        self.set_cursor(s);
        self.put_kill(s, content);
    }

    /// Recases what the motion of a command covers.
    pub fn eval_map(&mut self, cmd: &EditCmd, k: Recase, opts: &Opts)
        requires
            wf(old(self)@),
            opts.tab_width > 0,
        ensures
            final(self)@ == range_recased(old(self)@, *cmd, k, *opts),
            final(self)@.lines.len() > 0,
    {
        match self.eval_motion(cmd, opts) {
            Some(m) => {
                self.motion_mutation(&m, k);
                self.move_to_start(m);
            },
            None => {},
        }
    }

    /// Capitalizes what the motion of a command covers.
    pub fn capitalize(&mut self, cmd: &EditCmd, opts: &Opts)
        requires
            wf(old(self)@),
            opts.tab_width > 0,
        ensures
            final(self)@ == capitalized(old(self)@, *cmd, *opts),
            final(self)@.lines.len() > 0,
    {
        match self.eval_motion(cmd, opts) {
            Some(m) => {
                self.motion_mutation(&m, Recase::Capitalize);
                self.apply_motion(m);
                let ghost d = self@;
                self.cursor.pos = self.cursor.pos.col_add(1);
                assert(self@ =~= with_cursor(d, shifted(d.cursor.pos, 0, 1)));
            },
            None => {},
        }
    }

    /// Toggles the case of `count` clusters from the cursor on, and goes
    /// behind them.
    pub fn toggle_case_inplace(&mut self, count: u16)
        requires
            old(self)@.lines.len() > 0,
        ensures
            ({
                let d = recased_here(Recase::Toggle, old(self)@, count as int);
                final(self)@ == with_cursor(d, shifted(d.cursor.pos, 0, 1))
            }),
            final(self)@.lines.len() > 0,
    {
        self.inplace_mutation(count, Recase::Toggle);
        let ghost d = self@;
        self.cursor.pos = self.cursor.pos.col_add(1);
        assert(self@ =~= with_cursor(d, shifted(d.cursor.pos, 0, 1)));
    }

    /// Swaps the ends of the selection.
    pub fn swap_visual_anchor(&mut self)
        requires
            old(self)@.lines.len() > 0,
        ensures
            final(self)@ == swapped(old(self)@),
            final(self)@.lines.len() > 0,
    {
        if let Some(m) = self.select_mode {
            let anchor = m.anchor();
            self.select_mode = Some(m.moved_to(self.cursor.pos));
            assert(self@ =~= (BufV {
                select_mode: Some(with_anchor(m, old(self)@.cursor.pos)),
                ..old(self)@
            }));
            self.set_cursor(anchor);
        }
    }

    /// Joins up to `count` lines to row `row`.
    fn join_onto(&mut self, row: usize, count: usize)
        requires
            old(self)@.lines.len() > 0,
        ensures
            final(self)@ == joined_rows(old(self)@, row, count as int),
            final(self)@.lines.len() > 0,
    {
        let mut left: usize = count;
        while left > 0 && row < self.lines.len() - 1
            invariant
                self@.lines.len() > 0,
                left <= count,
                joined_rows(old(self)@, row, count as int) == joined_rows(self@, row, left as int),
            decreases left,
        {
            let ghost b = self@;
            let at = Pos { row, col: self.offset_col(row, isize::MAX) };
            let below = self.lines.remove(row + 1);
            let mut next = below.trim_start();
            let mut line = self.lines.at(row).clone();
            let n = line.len();
            let spaced = n > 0 && line.at(n - 1).is_ws();
            if !spaced && n > 0 && !next.is_empty() {
                next.insert_char(0, ' ');
            }
            let ghost a = line@;
            line.append(&mut next);
            assert(line@ =~= joined_line(b.lines[row as int], b.lines[row + 1]));
            self.lines.replace_at(row, line);
            assert(self@ =~= with_lines(
                b,
                b.lines.remove(row + 1).update(
                    row as int,
                    joined_line(b.lines[row as int], b.lines[row + 1]),
                ),
            ));
            self.set_cursor(at);
            left -= 1;
        }
    }

    /// Joins lines, the cursor free to stand behind a line meanwhile.
    fn join_at(&mut self, row: usize, count: usize)
        requires
            old(self)@.lines.len() > 0,
        ensures
            final(self)@ == join_from(old(self)@, row, count as int),
            final(self)@.lines.len() > 0,
    {
        let exclusive = self.cursor.exclusive;
        self.cursor.exclusive = false;
        assert(self@ =~= (BufV {
            cursor: Cursor { exclusive: false, ..old(self)@.cursor },
            ..old(self)@
        }));
        self.join_onto(row, count);
        let ghost done = self@;
        self.cursor.exclusive = exclusive;
        assert(self@ =~= (BufV { cursor: Cursor { exclusive, ..done.cursor }, ..done }));
    }

    /// Joins lines: those of the selection, else as many as `count` says.
    pub fn join_lines(&mut self, cmd: &EditCmd, count: usize, opts: &Opts)
        requires
            wf(old(self)@),
            opts.tab_width > 0,
        ensures
            final(self)@ == lines_joined(old(self)@, *cmd, count, *opts),
            final(self)@.lines.len() > 0,
    {
        if self.select_mode.is_none() {
            let row = self.cursor.pos.row;
            self.join_at(row, count);
            return;
        }
        let k = self.eval_motion(cmd, opts);
        let (a, b) = match k {
            Some(MotionKind::Line { start, end, .. }) => (start, end),
            Some(MotionKind::Char { start, end, .. }) => (start.row, end.row),
            Some(MotionKind::Block { .. }) => {
                return;
            },
            None => {
                match self.rows_selected() {
                    Some(r) => r,
                    None => {
                        return;
                    },
                }
            },
        };
        let (s, e) = if b < a {
            (b, a)
        } else {
            (a, b)
        };
        let n = if e - s >= 1 {
            e - s
        } else {
            1
        };
        self.join_at(s, n);
    }

    /// The rows of the first and the last line of the selection.
    fn rows_selected(&self) -> (r: Option<(usize, usize)>)
        requires
            wf(self@),
        ensures
            r == selected_rows(self@),
    {
        match (self.row_of(&crate::editcmd::LineAddr::Mark('<')), self.row_of(
            &crate::editcmd::LineAddr::Mark('>'),
        )) {
            (Some(s), Some(e)) => Some((s, e)),
            _ => None,
        }
    }

    /// Indents the rows the motion of a command touches more or less.
    pub fn alter_indentation(&mut self, cmd: &EditCmd, is_indent: bool, opts: &Opts)
        requires
            wf(old(self)@),
            opts.tab_width > 0,
        ensures
            final(self)@ == cmd_indented(old(self)@, *cmd, is_indent, *opts),
            final(self)@.lines.len() > 0,
    {
        let k = match self.eval_motion(cmd, opts) {
            Some(k) => k,
            None => {
                return;
            },
        };
        let ghost c = self@;
        let (s, e) = match k {
            MotionKind::Char { start, end, .. } => if end.row < start.row {
                (end.row, start.row)
            } else {
                (start.row, end.row)
            },
            MotionKind::Line { start, end, .. } => if end < start {
                (end, start)
            } else {
                (start, end)
            },
            MotionKind::Block { .. } => {
                return;
            },
        };
        let n = self.lines.len();
        let stop = if e < n {
            e + 1
        } else {
            n
        };
        let ghost goal = Seq::new(
            c.lines.len(),
            |i: int|
                if s <= i < stop {
                    shifted_line(c.lines[i], is_indent)
                } else {
                    c.lines[i]
                },
        );
        let mut offset: i128 = 0;
        let mut row: usize = s;
        while row < stop
            invariant
                n == c.lines.len(),
                stop <= n,
                s <= row,
                row <= stop || row == s,
                goal == Seq::new(
                    c.lines.len(),
                    |i: int|
                        if s <= i < stop {
                            shifted_line(c.lines[i], is_indent)
                        } else {
                            c.lines[i]
                        },
                ),
                self@.lines.len() == c.lines.len(),
                self@ == with_lines(c, self@.lines),
                forall|i: int|
                    0 <= i < c.lines.len() ==> (#[trigger] self@.lines[i]) == if i < row {
                        goal[i]
                    } else {
                        c.lines[i]
                    },
                offset == shift_sum(c.lines, is_indent, s as int, row as int),
                -(row - s) <= offset <= row - s,
            decreases stop - row,
        {
            let mut line = self.lines.at(row).clone();
            if is_indent {
                line.insert(0, Grapheme::from('\t'));
                assert(line@ =~= shifted_line(c.lines[row as int], is_indent));
                offset = offset + 1;
            } else if line.len() > 0 && line.at(0).is_char('\t') {
                let _ = line.remove(0);
                assert(line@ =~= shifted_line(c.lines[row as int], is_indent));
                offset = offset - 1;
            }
            let ghost was = self@;
            self.lines.replace_at(row, line);
            assert(self@ =~= with_lines(was, was.lines.update(row as int, line@)));
            row += 1;
        }
        assert(self@.lines =~= goal);
        let ghost d = self@;
        self.cursor.pos = shift_cols(self.cursor.pos, offset);
        assert(self@ =~= with_cursor(
            d,
            shifted(c.cursor.pos, 0, shift_sum(c.lines, is_indent, s as int, stop as int)),
        ));
    }

    /// Indents the rows the motion of a command touches as they are nested.
    pub fn equalize_verb<S: Fn(&str, Ask) -> Answer>(&mut self, cmd: &EditCmd, env: &Env<S>)
        requires
            wf(old(self)@),
            env_ok(*env),
        ensures
            final(self)@ == cmd_equalized(old(self)@, *cmd, *env),
            final(self)@.lines.len() > 0,
    {
        let k = match self.eval_motion(cmd, &env.opts) {
            Some(k) => k,
            None => {
                return;
            },
        };
        let (s, e) = match k {
            MotionKind::Char { start, end, .. } => if end.row < start.row {
                (end.row, start.row)
            } else {
                (start.row, end.row)
            },
            MotionKind::Line { start, end, .. } => if end < start {
                (end, start)
            } else {
                (start, end)
            },
            MotionKind::Block { .. } => {
                return;
            },
        };
        let mut rows: Vec<usize> = Vec::new();
        let mut row: usize = s;
        while row < e
            invariant
                s <= row <= e,
                rows@ == row_span(s, e).take(row - s),
            decreases e - row,
        {
            rows.push(row);
            row += 1;
            assert(rows@ =~= row_span(s, e).take(row - s));
        }
        rows.push(row);
        assert(rows@ =~= row_span(s, e));
        self.equalize_rows(rows.as_slice(), env);
    }

    /// Moves the cluster before the cursor behind the one under it.
    pub fn transpose_char<S: Fn(&str, Ask) -> Answer>(&mut self, env: &Env<S>)
        requires
            wf(old(self)@),
            env_ok(*env),
        ensures
            final(self)@ == char_transposed(old(self)@, env.shell),
            final(self)@.lines.len() > 0,
    {
        let prev = self.cursor.pos.col_sub(1);
        match self.remove_at(prev) {
            Some(g) => {
                self.insert_at(self.cursor.pos, g, env);
                let ghost d = self@;
                self.cursor.pos = self.cursor.pos.col_add(1);
                assert(self@ =~= with_cursor(d, shifted(d.cursor.pos, 0, 1)));
            },
            None => {},
        }
    }

    /// From the first cluster of the word at a place to behind its last.
    fn span_of_word(&self, at: Pos) -> (r: Option<(Pos, Pos)>)
        requires
            self@.lines.len() > 0,
        ensures
            r == word_span(self@.lines, at),
    {
        match self.text_obj_word(at, Word::Normal, Bound::Inside) {
            Some(MotionKind::Char { start, end, inclusive }) => {
                let stop = if inclusive {
                    end.col_add(1)
                } else {
                    end
                };
                Some((start, stop))
            },
            _ => None,
        }
    }

    /// Where `count` steps over words lead.
    fn word_end(&self, count: usize, dir: Direction) -> (p: Pos)
        requires
            self@.lines.len() > 0,
        ensures
            p == char_end(
                word_motion(self@, count as int, To::Start, Word::Normal, dir, false, false),
            ),
    {
        match self.eval_word_motion(count, &To::Start, &Word::Normal, &dir, false, false) {
            Some(MotionKind::Char { end, .. }) => end,
            _ => Pos { row: 0, col: 0 },
        }
    }

    /// Puts other lines in place of a span.
    fn replace_span(&mut self, span: (Pos, Pos), by: Lines)
        requires
            old(self)@.lines.len() > 0,
        ensures
            final(self)@ == with_lines(old(self)@, replaced(old(self)@.lines, span, by@)),
            final(self)@.lines.len() > 0,
    {
        let _ = self.extract_span(span, false);
        let at = if span.0.row < self.lines.len() {
            span.0
        } else {
            Pos { row: self.lines.len() - 1, col: usize::MAX }
        };
        self.insert_lines_at(at, by);
        assert(self@ =~= with_lines(old(self)@, replaced(old(self)@.lines, span, by@)));
    }

    /// Swaps the word at the cursor with the one before it.
    pub fn transpose_word(&mut self)
        requires
            old(self)@.lines.len() > 0,
        ensures
            final(self)@ == word_transposed(old(self)@),
            final(self)@.lines.len() > 0,
    {
        let on_ws = self.cursor_on_ws();
        let at = if on_ws {
            self.word_end(1, Direction::Forward)
        } else {
            self.cursor.pos
        };
        let this = match self.span_of_word(at) {
            Some(s) => s,
            None => {
                return;
            },
        };
        let back: usize = if on_ws {
            1
        } else {
            2
        };
        let from = self.word_end(back, Direction::Backward);
        let prev = match self.span_of_word(from) {
            Some(s) => s,
            None => {
                return;
            },
        };
        if prev.0 >= this.0 {
            return;
        }
        let a = self.yank_span(this, false);
        let p = self.yank_span(prev, false);
        let a_len = extent(&a);
        let p_len = extent(&p);
        let ghost b = self@;
        let ghost av = a@;
        let ghost pv = p@;
        proof {
            lemma_cluster_count_nonneg(av);
            lemma_cluster_count_nonneg(pv);
        }
        self.replace_span(this, p);
        self.replace_span(prev, a);
        assert(self@ =~= with_lines(b, replaced(replaced(b.lines, this, pv), prev, av)));
        let col = this.0.col as i128 + a_len as i128 - p_len as i128;
        let to = if col < 0 {
            usize::MAX
        } else if col > usize::MAX as i128 {
            usize::MAX
        } else {
            col as usize
        };
        self.set_cursor(Pos { row: this.0.row, col: to });
        let ghost d = self@;
        self.cursor.pos = self.offset_cursor_wrapping(0, to_offset(p_len));
        assert(isat(extent_of(pv)) == isat(p_len as int));
        assert(self@ =~= with_cursor(d, place_wrapped(d, 0, isat(extent_of(pv)) as int)));
    }

    /// Opens a new line below or above the cursor's.
    pub fn break_line_verb<S: Fn(&str, Ask) -> Answer>(&mut self, anchor: &Anchor, env: &Env<S>)
        requires
            wf(old(self)@),
            env_ok(*env),
        ensures
            final(self)@ == line_opened(old(self)@, *anchor, env.shell),
            wf(final(self)@),
    {
        let n = self.lines.len();
        let row = match anchor {
            Anchor::After => self.cursor.pos.row + 1,
            Anchor::Before => self.cursor.pos.row,
        };
        self.lines.insert(row, Line::default());
        assert(self@ =~= with_lines(old(self)@, old(self)@.lines.insert(row as int, blank())));
        let (start, _) = self.indent_levels_for_row(row, env);
        let ghost c = self@;
        let mut line = Line::default();
        prepend_tabs(&mut line, start);
        assert(line@ =~= tabs(start as int));
        self.lines.replace_at(row, line);
        self.cursor.pos = Pos { row, col: start };
        assert(self@ =~= line_opened(old(self)@, *anchor, env.shell));
    }

    /// The text from `s` to `e`, both ends included.
    pub fn pos_slice_str(&self, s: Pos, e: Pos) -> (t: String)
        requires
            self@.lines.len() > 0,
        ensures
            t@ == text_of(
                covered(
                    self@.lines,
                    MotionKind::Char { start: s, end: e, inclusive: true },
                ),
            ),
    {
        self.yank_span((s, e), true).join()
    }

    /// Moves the number at the cursor, or the one selected, by `inc`.
    pub fn adjust_number<S: Fn(&str, Ask) -> Answer>(&mut self, inc: i64, env: &Env<S>)
        requires
            wf(old(self)@),
            env_ok(*env),
        ensures
            final(self)@ == number_moved(old(self)@, inc as int, env.shell),
            wf(final(self)@),
    {
        let span = match &self.select_mode {
            Some(SelectMode::Char(p)) => Some(earlier_first(self.cursor.pos, *p)),
            Some(_) => None,
            None => self.number_at_cursor(),
        };
        let span = match span {
            Some(s) => s,
            None => {
                return;
            },
        };
        let word = self.pos_slice_str(span.0, span.1);
        let new = match format_adjusted(word.as_str(), inc) {
            Some(n) => n,
            None => {
                return;
            },
        };
        let _ = self.replace_range(span, new.as_str(), env);
        let ghost c = self@;
        self.cursor.pos = self.cursor.pos.col_sub(1);
        assert(self@ =~= with_cursor(c, shifted(c.cursor.pos, 0, -1)));
    }

    /// Types a character and follows the motion of the command.
    pub fn insert_char_verb<S: Fn(&str, Ask) -> Answer>(
        &mut self,
        cmd: &EditCmd,
        ch: char,
        env: &Env<S>,
    )
        requires
            wf(old(self)@),
            env_ok(*env),
        ensures
            final(self)@ == char_inserted(old(self)@, *cmd, ch, *env),
            final(self)@.lines.len() > 0,
    {
        self.insert(Grapheme::from(ch), env);
        match self.eval_motion(cmd, &env.opts) {
            Some(k) => self.apply_motion(k),
            None => {},
        }
    }

    fn paste_at_col(&self, start: Option<Pos>, anchor: Anchor) -> (col: usize)
        requires
            self@.lines.len() > 0,
        ensures
            col == paste_col(self@, start, anchor),
    {
        match start {
            Some(p) => {
                let len = match self.lines.get(p.row) {
                    Some(l) => l.len(),
                    None => 0,
                };
                min_of(p.col, len)
            },
            None => match anchor {
                Anchor::After => {
                    let len = self.cur_line().len();
                    if self.cursor.pos.col < len {
                        self.cursor.pos.col + 1
                    } else {
                        len
                    }
                },
                Anchor::Before => self.cursor.pos.col,
            },
        }
    }

    fn paste_span(&mut self, new: Lines, start: Option<Pos>, anchor: Anchor)
        requires
            wf(old(self)@),
        ensures
            final(self)@ == span_pasted(old(self)@, new@, start, anchor),
            final(self)@.lines.len() > 0,
    {
        let ghost b = self@;
        let ghost nv = new@;
        let single = new.len() == 1 && new.at(0).len() > 1;
        let total = new.count_graphemes();
        let row = match start {
            Some(p) => p.row,
            None => self.cursor.pos.row,
        };
        let col = self.paste_at_col(start, anchor);
        let was = self.line(row).len();
        let at = Pos { row: self.cursor.pos.row, col };
        self.insert_lines_at(at, new);
        let ghost c = self@;
        let now = self.line(row).len();
        let mut delta: usize = now.saturating_sub(was);
        if anchor == Anchor::Before {
            delta = delta.saturating_sub(1);
        }
        if start.is_some() {
            self.cursor.pos = Pos { row, col: col.saturating_add(total.saturating_sub(1)) };
        } else if single {
            self.cursor.pos = self.offset_cursor(0, to_offset(delta));
        } else if total > 1 || anchor == Anchor::After {
            self.cursor.pos = self.offset_cursor(0, 1);
        }
        assert(self@ =~= span_pasted(b, nv, start, anchor));
    }

    fn paste_lines(&mut self, row: usize, new: &Lines)
        requires
            old(self)@.lines.len() > 0,
            row <= old(self)@.lines.len(),
        ensures
            final(self)@ == lines_pasted(old(self)@, row as int, new@, new@.len() as int),
            final(self)@.lines.len() > 0,
    {
        let mut i: usize = 0;
        while i < new.len()
            invariant
                i <= new@.len(),
                self@.lines.len() == old(self)@.lines.len() + i,
                old(self)@.lines.len() > 0,
                row <= old(self)@.lines.len(),
                self@ == lines_pasted(old(self)@, row as int, new@, i as int),
            decreases new@.len() - i,
        {
            let ghost c = self@;
            let n = self.lines.len();
            assert(row + i <= n);
            self.lines.insert(row + i, new.at(i).clone());
            assert(self@ =~= with_lines(c, c.lines.insert(row + i, new@[i as int])));
            self.set_row(row + i);
            i += 1;
        }
    }

    fn paste(
        &mut self,
        content: RegisterContent,
        start: Option<Pos>,
        anchor: Anchor,
        effective: Anchor,
    )
        requires
            wf(old(self)@),
        ensures
            final(self)@ == content_pasted(old(self)@, content@, start, anchor, effective),
            final(self)@.lines.len() > 0,
    {
        match content {
            RegisterContent::Span(v) => {
                let lines = Lines(v);
                self.paste_span(lines, start, effective);
            },
            RegisterContent::Line(v) => {
                let n = self.lines.len();
                let row = match anchor {
                    Anchor::After => self.cursor.pos.row + 1,
                    Anchor::Before => self.cursor.pos.row,
                };
                let lines = Lines(v);
                self.paste_lines(row, &lines);
            },
            RegisterContent::Macro(keys) => {
                let text = render_keys(keys.as_slice());
                let mut line = Line::default();
                line.push_str(text.as_str());
                assert(line@ =~= clusters(notation(views(keys@))));
                let col = self.paste_at_col(None, effective);
                let at = Pos { row: self.cursor.pos.row, col };
                let mut lines = Lines::none();
                lines.push(line);
                assert(lines@ =~= seq![clusters(notation(views(keys@)))]);
                self.insert_lines_at(at, lines);
            },
            RegisterContent::Block(_) => {},
            RegisterContent::Empty => {},
        }
    }

    /// Puts what a register holds in, in place of the selection where there is
    /// one.
    pub fn put<S: Fn(&str, Ask) -> Answer>(
        &mut self,
        cmd: &EditCmd,
        anchor: &Anchor,
        env: &Env<S>,
        regs: &mut Registers,
    )
        requires
            wf(old(self)@),
            env_ok(*env),
        ensures
            final(self)@ == put_buf(old(self)@, old(regs)@, *cmd, *anchor, *env),
            final(regs)@ == put_regs(old(self)@, old(regs)@, *cmd, *env),
            final(self)@.lines.len() > 0,
    {
        let content = match cmd.register.read_from_register(regs) {
            Some(c) => c,
            None => {
                return;
            },
        };
        match self.select_range() {
            Some(motion) => {
                let start = match &self.select_mode {
                    Some(SelectMode::Char(p)) => {
                        let (s, _) = earlier_first(self.cursor.pos, *p);
                        Some(s)
                    },
                    _ => None,
                };
                let del = cmd.recast(Verb::Delete, motion);
                self.delete_change_yank(&del, env, regs);
                self.paste(content, start, *anchor, Anchor::Before);
            },
            None => {
                self.paste(content, None, *anchor, *anchor);
            },
        }
    }
}

fn prepend_tabs(line: &mut Line, n: usize)
    ensures
        final(line)@ == tabs(n as int) + old(line)@,
{
    let mut i: usize = 0;
    assert(tabs(0) + line@ =~= line@);
    while i < n
        invariant
            i <= n,
            line@ == tabs(i as int) + old(line)@,
        decreases n - i,
    {
        line.insert(0, Grapheme::from('\t'));
        i += 1;
        assert(line@ =~= tabs(i as int) + old(line)@);
    }
}

/// A place some columns on.
fn shift_cols(p: Pos, cols: i128) -> (r: Pos)
    requires
        -0x2_0000_0000_0000_0000 <= cols <= 0x2_0000_0000_0000_0000,
    ensures
        r == shifted(p, 0, cols as int),
{
    let c = p.col as i128 + cols;
    let col = if c < 0 {
        0
    } else if c > usize::MAX as i128 {
        usize::MAX
    } else {
        c as usize
    };
    Pos { row: p.row, col }
}

} // verus!
