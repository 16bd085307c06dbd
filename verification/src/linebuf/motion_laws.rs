//! Where motions within a line, over lines and to matches lead.

use vstd::prelude::*;
use crate::editcmd::{Cmd, Dest, Direction, EditCmd, LineAddr, Motion};
use crate::linebuf::address::{addressed, match_round, matching, row_round, rows_matching};
use crate::linebuf::buffer::{wf, BufV};
use crate::linebuf::char_class::is_ws;
use crate::linebuf::line::{line_text, LineV};
use crate::linebuf::lines::{text_of, LinesV};
use crate::linebuf::motion::{
    after_motion, cmd_after, cmd_cover, cover, first_word_col, last_word_col, match_before,
    match_nth, opposite,
};
use crate::linebuf::places::{
    byte_of, col_from, flat_start, lemma_flat_start_mono, lemma_place_from_shift, place_at_byte,
    place_wrapped, shown_col,
};
use crate::linebuf::pos::{MotionKind, Pos};
use crate::linebuf::scan::{char_steps, last_before, next_in_line};
use crate::linebuf::verb::{begun, run_cmd};
use crate::linebuf::word_laws::indexable;
use crate::patterns::{all_matches, first_match, is_pattern, matches_in};
use crate::register::RegV;
use crate::shell::{Answer, Ask, Env, Opts};

verus! {

/// How many of the columns from `a` up to before `z` hold a cluster.
pub open spec fn occurrences(l: LineV, g: Seq<char>, a: int, z: int) -> nat
    decreases z - a,
{
    if z <= a {
        0
    } else {
        occurrences(l, g, a, z - 1) + if l[z - 1] == g {
            1nat
        } else {
            0
        }
    }
}

proof fn lemma_occurrences_split(l: LineV, g: Seq<char>, a: int, m: int, z: int)
    requires
        a <= m <= z,
    ensures
        occurrences(l, g, a, z) == occurrences(l, g, a, m) + occurrences(l, g, m, z),
    decreases z - m,
{
    if m < z {
        lemma_occurrences_split(l, g, a, m, z - 1);
    }
}

proof fn lemma_one(l: LineV, g: Seq<char>, a: int)
    ensures
        occurrences(l, g, a, a + 1) == if l[a] == g {
            1nat
        } else {
            0
        },
{
    reveal_with_fuel(occurrences, 2);
}

/// The cursor's line, and the cursor within it.
pub open spec fn in_line(b: BufV) -> bool {
    let len = b.lines[b.cursor.pos.row as int].len();
    &&& wf(b)
    &&& len <= isize::MAX
    &&& b.cursor.pos.col <= len
    &&& b.cursor.exclusive && len > 0 ==> b.cursor.pos.col < len
}

proof fn lemma_last_before(l: LineV, g: Seq<char>, at: int)
    requires
        0 <= at <= l.len(),
    ensures
        match last_before(l, g, at) {
            Some(i) => 0 <= i < at && l[i] == g && occurrences(l, g, i + 1, at) == 0,
            None => occurrences(l, g, 0, at) == 0,
        },
    decreases at,
{
    if at > 0 {
        lemma_last_before(l, g, at - 1);
    }
}

proof fn lemma_first_behind(l: LineV, g: Seq<char>, at: int)
    requires
        0 <= at <= l.len(),
    ensures
        match next_in_line(l, g, Direction::Forward, at) {
            Some(i) => at < i < l.len() && l[i] == g && occurrences(l, g, at + 1, i) == 0,
            None => occurrences(l, g, at + 1, l.len() as int) == 0,
        },
    decreases l.len() - at,
{
    if at + 1 < l.len() && l[at + 1] != g {
        lemma_first_behind(l, g, at + 1);
        assert(next_in_line(l, g, Direction::Forward, at) == next_in_line(
            l,
            g,
            Direction::Forward,
            at + 1,
        ));
        lemma_one(l, g, at + 1);
        match next_in_line(l, g, Direction::Forward, at) {
            Some(i) => lemma_occurrences_split(l, g, at + 1, at + 2, i),
            None => lemma_occurrences_split(l, g, at + 1, at + 2, l.len() as int),
        }
    }
}

proof fn lemma_steps_on(b: BufV, dest: Dest, g: Seq<char>, count: int, it: int, off: int, t: int)
    requires
        in_line(b),
        0 <= it < count,
        0 <= off,
        b.cursor.pos.col + off < t < b.lines[b.cursor.pos.row as int].len(),
        b.lines[b.cursor.pos.row as int][t] == g,
        occurrences(b.lines[b.cursor.pos.row as int], g, b.cursor.pos.col + off + 1, t) == count - it
            - 1,
    ensures
        char_steps(b, Direction::Forward, dest, g, count, it, off) == t - b.cursor.pos.col - if dest
            == Dest::Before {
            1int
        } else {
            0
        },
    decreases count - it,
{
    let l = b.lines[b.cursor.pos.row as int];
    let at = b.cursor.pos.col + off;
    lemma_first_behind(l, g, at);
    let i = next_in_line(l, g, Direction::Forward, at);
    lemma_occurrences_split(l, g, at + 1, t, l.len() as int);
    lemma_occurrences_split(l, g, t, t + 1, l.len() as int);
    lemma_one(l, g, t);
    assert(i is Some);
    let k = i->0;
    lemma_one(l, g, k);
    reveal_with_fuel(char_steps, 2);
    if k > t {
        lemma_occurrences_split(l, g, at + 1, t, k);
        lemma_occurrences_split(l, g, t, t + 1, k);
    } else if k < t {
        lemma_occurrences_split(l, g, at + 1, k, t);
        lemma_occurrences_split(l, g, k, k + 1, t);
        lemma_steps_on(b, dest, g, count, it + 1, off + (k - at), t);
    }
}

proof fn lemma_steps_on_fail(b: BufV, dest: Dest, g: Seq<char>, count: int, it: int, off: int)
    requires
        in_line(b),
        0 <= it < count,
        0 <= off,
        b.cursor.pos.col + off <= b.lines[b.cursor.pos.row as int].len(),
        b.cursor.exclusive && b.lines[b.cursor.pos.row as int].len() > 0 ==> b.cursor.pos.col + off
            < b.lines[b.cursor.pos.row as int].len(),
        occurrences(
            b.lines[b.cursor.pos.row as int],
            g,
            b.cursor.pos.col + off + 1,
            b.lines[b.cursor.pos.row as int].len() as int,
        ) < count - it,
    ensures
        char_steps(b, Direction::Forward, dest, g, count, it, off) == 0,
    decreases count - it,
{
    let l = b.lines[b.cursor.pos.row as int];
    let at = b.cursor.pos.col + off;
    lemma_first_behind(l, g, at);
    match next_in_line(l, g, Direction::Forward, at) {
        None => {},
        Some(k) => {
            lemma_one(l, g, k);
            lemma_occurrences_split(l, g, at + 1, k, l.len() as int);
            lemma_occurrences_split(l, g, k, k + 1, l.len() as int);
            lemma_steps_on_fail(b, dest, g, count, it + 1, off + (k - at));
        },
    }
}

proof fn lemma_steps_back(b: BufV, dest: Dest, g: Seq<char>, count: int, it: int, off: int, t: int)
    requires
        in_line(b),
        0 <= it < count,
        off <= 0,
        0 <= t < b.cursor.pos.col + off,
        b.lines[b.cursor.pos.row as int][t] == g,
        occurrences(b.lines[b.cursor.pos.row as int], g, t + 1, b.cursor.pos.col + off) == count - it
            - 1,
    ensures
        char_steps(b, Direction::Backward, dest, g, count, it, off) == t - b.cursor.pos.col + if dest
            == Dest::Before {
            1int
        } else {
            0
        },
    decreases count - it,
{
    let l = b.lines[b.cursor.pos.row as int];
    let at = b.cursor.pos.col + off;
    lemma_last_before(l, g, at);
    let i = last_before(l, g, at);
    lemma_occurrences_split(l, g, 0, t, at);
    lemma_occurrences_split(l, g, t, t + 1, at);
    lemma_one(l, g, t);
    assert(i is Some);
    let k = i->0;
    lemma_one(l, g, k);
    reveal_with_fuel(char_steps, 2);
    if k < t {
        lemma_occurrences_split(l, g, k + 1, t, at);
        lemma_occurrences_split(l, g, t, t + 1, at);
    } else if k > t {
        lemma_occurrences_split(l, g, t + 1, k, at);
        lemma_occurrences_split(l, g, k, k + 1, at);
        lemma_steps_back(b, dest, g, count, it + 1, off - (at - k), t);
    }
}

proof fn lemma_steps_back_fail(b: BufV, dest: Dest, g: Seq<char>, count: int, it: int, off: int)
    requires
        in_line(b),
        0 <= it < count,
        off <= 0,
        0 <= b.cursor.pos.col + off,
        occurrences(b.lines[b.cursor.pos.row as int], g, 0, b.cursor.pos.col + off) < count - it,
    ensures
        char_steps(b, Direction::Backward, dest, g, count, it, off) == 0,
    decreases count - it,
{
    let l = b.lines[b.cursor.pos.row as int];
    let at = b.cursor.pos.col + off;
    lemma_last_before(l, g, at);
    match last_before(l, g, at) {
        None => {},
        Some(k) => {
            lemma_one(l, g, k);
            lemma_occurrences_split(l, g, 0, k, at);
            lemma_occurrences_split(l, g, k, k + 1, at);
            lemma_steps_back_fail(b, dest, g, count, it + 1, off - (at - k));
        },
    }
}

/// What leads from the cursor to a column of its line, and nowhere where the
/// cursor is there.
pub open spec fn to_col(b: BufV, col: int, inclusive: bool) -> Option<MotionKind> {
    if col == b.cursor.pos.col {
        None
    } else {
        Some(
            MotionKind::Char {
                start: b.cursor.pos,
                end: Pos { row: b.cursor.pos.row, col: col as usize },
                inclusive,
            },
        )
    }
}

/// A search for a cluster forwards in the line leads to the one before which as
/// many others lie behind the cursor as the count says less one, or to the
/// column before it; nowhere where there are fewer.
pub proof fn law_search_on_in_the_line(b: BufV, cmd: EditCmd, n: usize, dest: Dest, motion: Motion, opts: Opts)
    requires
        in_line(b),
        n > 0,
        cmd.motion == Some(Cmd(n, motion)),
        motion matches Motion::CharSearch(dir, d, _) && dir == Direction::Forward && d == dest,
    ensures
        ({
            let l = b.lines[b.cursor.pos.row as int];
            let c = b.cursor.pos.col as int;
            let g = motion->CharSearch_2@;
            &&& forall|t: int|
                c < t < l.len() && #[trigger] l[t] == g && occurrences(l, g, c + 1, t) == n - 1
                    ==> cmd_cover(b, cmd, opts) == to_col(
                    b,
                    if dest == Dest::Before {
                        t - 1
                    } else {
                        t
                    },
                    true,
                )
            &&& occurrences(l, g, c + 1, l.len() as int) < n ==> cmd_cover(b, cmd, opts) is None
        }),
{
    reveal(cover);
    let l = b.lines[b.cursor.pos.row as int];
    let c = b.cursor.pos.col as int;
    let g = motion->CharSearch_2@;
    assert forall|t: int|
        c < t < l.len() && #[trigger] l[t] == g && occurrences(l, g, c + 1, t) == n
            - 1 implies cmd_cover(b, cmd, opts) == to_col(
        b,
        if dest == Dest::Before {
            t - 1
        } else {
            t
        },
        true,
    ) by {
        lemma_steps_on(b, dest, g, n as int, 0, 0, t);
    }
    if occurrences(l, g, c + 1, l.len() as int) < n {
        lemma_steps_on_fail(b, dest, g, n as int, 0, 0);
    }
}

/// A search for a cluster backwards in the line, likewise, before the cursor.
pub proof fn law_search_back_in_the_line(b: BufV, cmd: EditCmd, n: usize, dest: Dest, motion: Motion, opts: Opts)
    requires
        in_line(b),
        n > 0,
        cmd.motion == Some(Cmd(n, motion)),
        motion matches Motion::CharSearch(dir, d, _) && dir == Direction::Backward && d == dest,
    ensures
        ({
            let l = b.lines[b.cursor.pos.row as int];
            let c = b.cursor.pos.col as int;
            let g = motion->CharSearch_2@;
            &&& forall|t: int|
                0 <= t < c && #[trigger] l[t] == g && occurrences(l, g, t + 1, c) == n - 1
                    ==> cmd_cover(b, cmd, opts) == to_col(
                    b,
                    if dest == Dest::Before {
                        t + 1
                    } else {
                        t
                    },
                    false,
                )
            &&& occurrences(l, g, 0, c) < n ==> cmd_cover(b, cmd, opts) is None
        }),
{
    reveal(cover);
    let l = b.lines[b.cursor.pos.row as int];
    let c = b.cursor.pos.col as int;
    let g = motion->CharSearch_2@;
    assert forall|t: int|
        0 <= t < c && #[trigger] l[t] == g && occurrences(l, g, t + 1, c) == n - 1 implies cmd_cover(
        b,
        cmd,
        opts,
    ) == to_col(
        b,
        if dest == Dest::Before {
            t + 1
        } else {
            t
        },
        false,
    ) by {
        lemma_steps_back(b, dest, g, n as int, 0, 0, t);
    }
    if occurrences(l, g, 0, c) < n {
        lemma_steps_back_fail(b, dest, g, n as int, 0, 0);
    }
}

/// The last column the cursor may take in its line.
pub open spec fn rightmost(b: BufV, row: int) -> int {
    let len = b.lines[row].len() as int;
    if b.cursor.exclusive && len > 0 {
        len - 1
    } else {
        len
    }
}

/// The motions by columns lead as many columns on or back as they are told, and
/// no further than the line goes; those to its ends lead there.
pub proof fn law_motions_by_columns(b: BufV, cmd: EditCmd, n: usize, motion: Motion, opts: Opts)
    requires
        in_line(b),
        cmd.motion == Some(Cmd(n, motion)),
        n <= isize::MAX,
    ensures
        ({
            let c = b.cursor.pos.col as int;
            let last = rightmost(b, b.cursor.pos.row as int);
            let r = cmd_cover(b, cmd, opts);
            &&& motion is ForwardChar ==> r == to_col(
                b,
                if c + n <= last {
                    c + n
                } else {
                    last
                },
                false,
            )
            &&& motion is BackwardChar ==> r == to_col(
                b,
                if n <= c {
                    c - n
                } else {
                    0
                },
                false,
            )
            &&& motion is StartOfLine && n == 1 ==> r == to_col(b, 0, false)
            &&& motion is EndOfLine && n == 1 ==> r == to_col(b, last, true)
            &&& motion is ToColumn && n > 0 ==> r == Some(
                MotionKind::Char {
                    start: b.cursor.pos,
                    end: Pos { row: b.cursor.pos.row, col: (n - 1) as usize },
                    inclusive: c < n - 1,
                },
            )
        }),
{
    reveal(cover);
}

/// A number of steps from a place, where the end of a line counts for one.
proof fn lemma_steps_over(b: BufV, n: int)
    requires
        in_line(b),
        indexable(b.lines),
    ensures
        ({
            let row = b.cursor.pos.row as int;
            let c = b.cursor.pos.col as int;
            let len = b.lines[row].len();
            &&& n >= 0 && c + n <= len ==> place_wrapped(b, 0, n) == (Pos {
                row: b.cursor.pos.row,
                col: (c + n) as usize,
            })
            &&& len < c + n && row + 1 < b.lines.len() && c + n - len - 1 <= b.lines[row + 1].len()
                ==> place_wrapped(b, 0, n) == (Pos {
                row: (row + 1) as usize,
                col: (c + n - len - 1) as usize,
            })
            &&& 0 <= n <= c ==> place_wrapped(b, 0, -n) == (Pos {
                row: b.cursor.pos.row,
                col: (c - n) as usize,
            })
            &&& c < n && row > 0 && n - c - 1 <= b.lines[row - 1].len() ==> place_wrapped(b, 0, -n)
                == (Pos {
                row: (row - 1) as usize,
                col: (b.lines[row - 1].len() - (n - c - 1)) as usize,
            })
        }),
{
    let ls = b.lines;
    let row = b.cursor.pos.row as int;
    let c = b.cursor.pos.col as int;
    crate::linebuf::places::lemma_flat_start_nonneg(ls, row);
    lemma_flat_start_mono(ls, row);
    if n >= 0 && c + n <= ls[row].len() {
        lemma_place_from_shift(ls, row, c + n);
    }
    if ls[row].len() < c + n && row + 1 < ls.len() && c + n - ls[row].len() - 1 <= ls[row + 1].len() {
        lemma_flat_start_mono(ls, row + 1);
        lemma_place_from_shift(ls, row + 1, c + n - ls[row].len() - 1);
        assert(flat_start(ls, row + 1) == flat_start(ls, row) + ls[row].len() + 1);
    }
    if 0 <= n <= c {
        lemma_place_from_shift(ls, row, c - n);
    }
    if c < n && row > 0 && n - c - 1 <= ls[row - 1].len() {
        assert(ls[row - 1].len() <= usize::MAX);
        crate::linebuf::places::lemma_flat_start_nonneg(ls, row - 1);
        lemma_place_from_shift(ls, row - 1, ls[row - 1].len() - (n - c - 1));
        assert(flat_start(ls, row) == flat_start(ls, row - 1) + ls[row - 1].len() + 1);
    }
}

/// The motions over the ends of lines go on with the next line or the one
/// before: a line's end counts for one step.
pub proof fn law_steps_go_over_line_ends(b: BufV, cmd: EditCmd, n: usize, motion: Motion, opts: Opts)
    requires
        in_line(b),
        indexable(b.lines),
        cmd.motion == Some(Cmd(n, motion)),
        0 < n <= isize::MAX,
    ensures
        ({
            let row = b.cursor.pos.row as int;
            let c = b.cursor.pos.col as int;
            let len = b.lines[row].len();
            let r = cmd_cover(b, cmd, opts);
            &&& motion is ForwardCharForced && c + n <= len ==> r == to_col(b, c + n, false)
            &&& motion is ForwardCharForced && len < c + n && row + 1 < b.lines.len() && c + n - len
                - 1 <= b.lines[row + 1].len() ==> r == Some(
                MotionKind::Char {
                    start: b.cursor.pos,
                    end: Pos { row: (row + 1) as usize, col: (c + n - len - 1) as usize },
                    inclusive: false,
                },
            )
            &&& motion is BackwardCharForced && n <= c ==> r == to_col(b, c - n, false)
            &&& motion is BackwardCharForced && c < n && row > 0 && n - c - 1 <= b.lines[row
                - 1].len() ==> r == Some(
                MotionKind::Char {
                    start: b.cursor.pos,
                    end: Pos {
                        row: (row - 1) as usize,
                        col: (b.lines[row - 1].len() - (n - c - 1)) as usize,
                    },
                    inclusive: false,
                },
            )
        }),
{
    reveal(cover);
    lemma_steps_over(b, n as int);
}

proof fn lemma_first_word(l: LineV, i: int, t: int)
    requires
        0 <= i <= t < l.len(),
        !is_ws(l[t]),
        forall|k: int| i <= k < t ==> is_ws(#[trigger] l[k]),
    ensures
        first_word_col(l, i) == t,
    decreases t - i,
{
    if i < t {
        assert(is_ws(l[i]));
        lemma_first_word(l, i + 1, t);
    }
}

proof fn lemma_last_word(l: LineV, n: int, t: int)
    requires
        0 <= t < n <= l.len(),
        !is_ws(l[t]),
        forall|k: int| t < k < n ==> is_ws(#[trigger] l[k]),
    ensures
        last_word_col(l, n) == t,
    decreases n,
{
    if t + 1 < n {
        assert(is_ws(l[n - 1]));
        lemma_last_word(l, n - 1, t);
    }
}

/// The motion to the start of the first word leads to the first cluster of the
/// line that is no white space, the one to the end of the last word to the
/// last.
pub proof fn law_motions_to_the_text_of_a_line(b: BufV, cmd: EditCmd, motion: Motion, t: int, opts: Opts)
    requires
        in_line(b),
        cmd.motion == Some(Cmd(1usize, motion)),
        0 <= t < b.lines[b.cursor.pos.row as int].len(),
        !is_ws(b.lines[b.cursor.pos.row as int][t]),
    ensures
        ({
            let l = b.lines[b.cursor.pos.row as int];
            &&& motion is StartOfFirstWord && (forall|k: int| 0 <= k < t ==> is_ws(#[trigger] l[k]))
                ==> cmd_cover(b, cmd, opts) == to_col(b, t, true)
            &&& motion is EndOfLastWord && (forall|k: int|
                t < k < l.len() ==> is_ws(#[trigger] l[k])) ==> cmd_cover(b, cmd, opts) == to_col(
                b,
                t,
                true,
            )
        }),
{
    reveal(cover);
    let l = b.lines[b.cursor.pos.row as int];
    if forall|k: int| 0 <= k < t ==> is_ws(#[trigger] l[k]) {
        lemma_first_word(l, 0, t);
    }
    if forall|k: int| t < k < l.len() ==> is_ws(#[trigger] l[k]) {
        lemma_last_word(l, l.len() as int, t);
    }
}

/// A vertical motion of the cursor leads as many rows up or down as it is told,
/// and no further than the text goes. There it takes the first column that the
/// terminal shows at or behind the column the cursor kept to, and the last one
/// where the line is shorter.
pub proof fn law_vertical_motions_keep_their_column(b: BufV, cmd: EditCmd, n: usize, motion: Motion, opts: Opts)
    requires
        in_line(b),
        indexable(b.lines),
        cmd.verb is None,
        cmd.motion == Some(Cmd(n, motion)),
        motion is LineUp || motion is LineDown,
        0 < n <= isize::MAX,
    ensures
        ({
            let row = b.cursor.pos.row as int;
            let to = if motion is LineDown {
                if row + n < b.lines.len() {
                    row + n
                } else {
                    b.lines.len() - 1
                }
            } else if n <= row {
                row - n
            } else {
                0
            };
            let l = b.lines[to];
            let keep = match b.saved_col {
                Some(c) => c,
                None => shown_col(
                    b.lines[row].take(b.cursor.pos.col as int),
                    opts.tab_width,
                ),
            };
            let r = cmd_cover(b, cmd, opts);
            &&& cmd_after(b, cmd, opts).saved_col == Some(keep)
            &&& to != row ==> {
                &&& r matches Some(MotionKind::Char { start, end, inclusive }) && start
                    == b.cursor.pos && inclusive && end.row == to && end.col <= rightmost(b, to)
                &&& forall|i: int|
                    0 <= i < r->0->Char_end.col ==> shown_col(#[trigger] l.take(i), opts.tab_width)
                        < keep
                &&& r->0->Char_end.col < rightmost(b, to) ==> shown_col(
                    l.take(r->0->Char_end.col as int),
                    opts.tab_width,
                ) >= keep
            }
        }),
{
    reveal(cover);
    reveal(after_motion);
    let row = b.cursor.pos.row as int;
    let to = if motion is LineDown {
        if row + n < b.lines.len() {
            row + n
        } else {
            b.lines.len() - 1
        }
    } else if n <= row {
        row - n
    } else {
        0
    };
    let keep = match b.saved_col {
        Some(c) => c,
        None => shown_col(b.lines[row].take(b.cursor.pos.col as int), opts.tab_width),
    };
    assert(b.lines[to].len() <= usize::MAX);
    lemma_col_from(b.lines[to], opts.tab_width, keep, 0);
}

proof fn lemma_col_from(l: LineV, tab: usize, target: usize, i: int)
    requires
        0 <= i <= l.len(),
    ensures
        ({
            let c = col_from(l, tab, target, i);
            &&& i <= c <= l.len()
            &&& c < l.len() ==> shown_col(l.take(c), tab) >= target
            &&& forall|k: int| i <= k < c ==> shown_col(#[trigger] l.take(k), tab) < target
        }),
    decreases l.len() - i,
{
    if i < l.len() && shown_col(l.take(i), tab) < target {
        lemma_col_from(l, tab, target, i + 1);
    }
}

/// Without a verb the cursor goes where the motion leads, as near as it may
/// come, and the text stays. Without a motion it stays as well.
#[verifier::rlimit(40)]
pub proof fn law_the_cursor_follows<S: Fn(&str, Ask) -> Answer>(b: BufV, regs: Seq<RegV>, cmd: EditCmd, env: Env<S>)
    requires
        wf(b),
        indexable(b.lines),
        b.hint is None,
        cmd.verb is None,
    ensures
        ({
            let r = run_cmd(b, regs, cmd, env);
            let k = cmd_cover(begun(b, cmd, env), cmd, env.opts);
            &&& r.effect is Done
            &&& r.regs == regs
            &&& r.buf.lines == b.lines
            &&& k matches Some(MotionKind::Char { end, .. }) ==> {
                &&& r.buf.cursor.pos.row == if end.row < b.lines.len() {
                    end.row as int
                } else {
                    b.lines.len() - 1
                }
                &&& r.buf.cursor.pos.col == if end.col <= rightmost(
                    b,
                    r.buf.cursor.pos.row as int,
                ) {
                    end.col as int
                } else {
                    rightmost(b, r.buf.cursor.pos.row as int)
                }
            }
            &&& k matches Some(MotionKind::Line { start, .. }) ==> r.buf.cursor.pos.row == if start
                < b.lines.len() {
                start as int
            } else {
                b.lines.len() - 1
            }
            &&& k is None && in_line(b) ==> r.buf.cursor.pos == b.cursor.pos
        }),
{
    reveal(after_motion);
    assert forall|i: int| 0 <= i < b.lines.len() implies (#[trigger] b.lines[i]).len()
        <= usize::MAX by {}
}

/// A search forwards leads to the place of the next match behind the cursor's
/// byte, and goes on at the start of the text where there is none.
pub proof fn law_search_leads_to_the_next_match(b: BufV, cmd: EditCmd, motion: Motion, at: usize, opts: Opts)
    requires
        wf(b),
        cmd.motion == Some(Cmd(1usize, motion)),
        motion matches Motion::Search(pat, dir) && dir == Direction::Forward && is_pattern(pat@),
        byte_of(b.lines, b.cursor.pos) == Some(at),
        at < vstd::utf8::encode_utf8(text_of(b.lines)).len() <= usize::MAX,
    ensures
        ({
            let text = text_of(b.lines);
            let pat = motion->Search_0@;
            let m = match first_match(pat, text, (at + 1) as usize) {
                Some(m) => Some(m),
                None => first_match(pat, text, 0),
            };
            &&& m is None ==> cmd_cover(b, cmd, opts) is None
            &&& m is Some ==> match place_at_byte(b.lines, m.unwrap().0) {
                Some(p) => cmd_cover(b, cmd, opts) == Some(
                    MotionKind::Char { start: b.cursor.pos, end: p, inclusive: false },
                ),
                None => cmd_cover(b, cmd, opts) is None,
            }
        }),
{
    reveal(cover);
    reveal_with_fuel(match_nth, 2);
}

/// A search backwards leads to the last match that starts before the cursor's
/// byte, and to the last of all where none does.
pub proof fn law_search_back_leads_to_the_match_before(b: BufV, cmd: EditCmd, motion: Motion, at: usize, k: int, opts: Opts)
    requires
        wf(b),
        cmd.motion == Some(Cmd(1usize, motion)),
        motion matches Motion::Search(pat, dir) && dir == Direction::Backward && is_pattern(pat@),
        byte_of(b.lines, b.cursor.pos) == Some(at),
        ({
            let ms = all_matches(motion->Search_0@, text_of(b.lines));
            &&& 0 <= k < ms.len()
            &&& ms[k].0 < at || (k == ms.len() - 1 && forall|j: int|
                0 <= j < ms.len() ==> (#[trigger] ms[j]).0 >= at)
            &&& forall|j: int| k < j < ms.len() ==> (#[trigger] ms[j]).0 >= at
        }),
    ensures
        ({
            let ms = all_matches(motion->Search_0@, text_of(b.lines));
            match place_at_byte(b.lines, ms[k].0) {
                Some(p) => cmd_cover(b, cmd, opts) == Some(
                    MotionKind::Char { start: b.cursor.pos, end: p, inclusive: false },
                ),
                None => cmd_cover(b, cmd, opts) is None,
            }
        }),
{
    reveal(cover);
    reveal_with_fuel(match_nth, 2);
    let ms = all_matches(motion->Search_0@, text_of(b.lines));
    lemma_match_before(ms, at, ms.len() as int, k);
}

proof fn lemma_match_before(ms: Seq<(usize, usize)>, at: usize, n: int, k: int)
    requires
        0 <= k < ms.len(),
        0 <= n <= ms.len(),
        forall|j: int| k < j < ms.len() ==> (#[trigger] ms[j]).0 >= at,
        (ms[k].0 < at && k < n) || (k == ms.len() - 1 && forall|j: int|
            0 <= j < ms.len() ==> (#[trigger] ms[j]).0 >= at),
    ensures
        match_before(ms, at, n) == Some(ms[k].0),
    decreases n,
{
    if n > 0 && ms[n - 1].0 >= at {
        lemma_match_before(ms, at, n - 1, k);
    }
}

/// Repeating a search covers what the search itself covers, and repeating it
/// the other way round what the opposite search covers.
pub proof fn law_repeated_search_is_the_search(b: BufV, again: EditCmd, search: EditCmd, n: usize, motion: Motion, turned: Motion, opts: Opts)
    requires
        b.last_search == Some(motion),
        motion is Search,
        turned is Search,
        turned->Search_0 == motion->Search_0,
        turned->Search_1 != motion->Search_1,
    ensures
        again.motion == Some(Cmd(n, Motion::RepeatSearch)) && search.motion == Some(Cmd(n, motion))
            ==> cmd_cover(b, again, opts) == cmd_cover(b, search, opts),
        again.motion == Some(Cmd(n, Motion::RepeatSearchRev)) && search.motion == Some(
            Cmd(n, turned),
        ) ==> cmd_cover(b, again, opts) == cmd_cover(b, search, opts),
{
    reveal(cover);
}

/// A number addresses the line counted from one, the dollar sign the last line,
/// the dot the cursor's.
pub proof fn law_addresses_name_their_lines(b: BufV, n: usize, i: isize)
    requires
        wf(b),
        b.lines.len() <= usize::MAX,
    ensures
        0 < n <= b.lines.len() ==> addressed(b, LineAddr::Number(n)) == Some((n - 1) as usize),
        n > b.lines.len() ==> addressed(b, LineAddr::Number(n)) == Some(
            (b.lines.len() - 1) as usize,
        ),
        addressed(b, LineAddr::Last) == Some((b.lines.len() - 1) as usize),
        addressed(b, LineAddr::Current) == Some(b.cursor.pos.row),
        0 <= b.cursor.pos.row + i < b.lines.len() ==> addressed(b, LineAddr::Offset(i)) == Some(
            (b.cursor.pos.row + i) as usize,
        ),
{
}

/// A pattern addresses the nearest line below the cursor's that matches, going
/// round at the end of the text, the cursor's own line last.
pub proof fn law_pattern_addresses_the_next_match(b: BufV, addr: LineAddr, k: int)
    requires
        wf(b),
        b.lines.len() <= usize::MAX,
        addr matches LineAddr::Pattern(re) && is_pattern(re@),
        1 <= k <= b.lines.len(),
        ({
            let n = b.lines.len() as int;
            let row = b.cursor.pos.row as int;
            let pat = addr->Pattern_0@;
            &&& matches_in(pat, line_text(b.lines[(row + k) % n]))
            &&& forall|j: int|
                1 <= j < k ==> !matches_in(pat, line_text(#[trigger] b.lines[(row + j) % n]))
        }),
    ensures
        addressed(b, addr) == Some(((b.cursor.pos.row + k) % b.lines.len() as int) as usize),
{
    lemma_match_round(b.lines, addr->Pattern_0@, b.cursor.pos.row as int, 1, k);
}

proof fn lemma_match_round(ls: LinesV, pat: Seq<char>, row: int, i: int, k: int)
    requires
        0 <= row < ls.len(),
        1 <= i <= k <= ls.len(),
        matches_in(pat, line_text(ls[(row + k) % ls.len() as int])),
        forall|j: int|
            i <= j < k ==> !matches_in(
                pat,
                line_text(#[trigger] ls[(row + j) % ls.len() as int]),
            ),
    ensures
        match_round(ls, pat, row, true, i) == Some(((row + k) % ls.len() as int) as usize),
    decreases k - i,
{
    let n = ls.len() as int;
    assert(row_round(row, i, n, true) == (row + i) % n) by (nonlinear_arith)
        requires
            0 <= row < n,
            1 <= i <= n,
            row_round(row, i, n, true) == if row + i < n {
                row + i
            } else {
                row + i - n
            },
    {}
    if i < k {
        assert(!matches_in(pat, line_text(ls[(row + i) % n])));
        lemma_match_round(ls, pat, row, i + 1, k);
    }
}

/// The lines that a global command acts on are those within its range that
/// match its pattern, or do not match it where that is asked, from the first to
/// the last and each once.
pub proof fn law_global_takes_the_lines_that_match(b: BufV, s: LineAddr, e: LineAddr, from: usize, to: usize, re: Seq<char>, negated: bool)
    requires
        wf(b),
        b.lines.len() <= usize::MAX,
        is_pattern(re),
        addressed(b, s) == Some(from),
        addressed(b, e) == Some(to),
        from <= to,
    ensures
        ({
            let rows = rows_matching(b, Motion::LineRange(s, e), re, negated);
            &&& forall|r: usize| #[trigger]
                rows.contains(r) <==> (from <= r <= to && r < b.lines.len() && matches_in(
                    re,
                    line_text(b.lines[r as int]),
                ) != negated)
            &&& forall|i: int, j: int| 0 <= i < j < rows.len() ==> rows[i] < rows[j]
        }),
{
    let end = if to < b.lines.len() {
        to + 1
    } else {
        b.lines.len() as int
    };
    lemma_matching(b.lines, re, negated, from as int, end);
}

proof fn lemma_matching(ls: LinesV, pat: Seq<char>, negated: bool, s: int, e: int)
    requires
        0 <= s,
        e <= ls.len() <= usize::MAX,
    ensures
        ({
            let rows = matching(ls, pat, negated, s, e);
            &&& forall|r: usize| #[trigger]
                rows.contains(r) <==> (s <= r < e && matches_in(pat, line_text(ls[r as int]))
                    != negated)
            &&& forall|i: int, j: int| 0 <= i < j < rows.len() ==> rows[i] < rows[j]
        }),
    decreases e - s,
{
    let rows = matching(ls, pat, negated, s, e);
    if s < e {
        lemma_matching(ls, pat, negated, s, e - 1);
        let rest = matching(ls, pat, negated, s, e - 1);
        let x = (e - 1) as usize;
        if matches_in(pat, line_text(ls[e - 1])) != negated {
            assert(rows == rest.push(x));
            assert forall|r: usize| #[trigger] rows.contains(r) <==> (s <= r < e && matches_in(
                pat,
                line_text(ls[r as int]),
            ) != negated) by {
                if rows.contains(r) {
                    let k = choose|k: int| 0 <= k < rows.len() && rows[k] == r;
                    if k < rest.len() {
                        assert(rest[k] == r);
                        assert(rest.contains(r));
                    }
                }
                if s <= r < e && matches_in(pat, line_text(ls[r as int])) != negated {
                    if r == x {
                        assert(rows[rest.len() as int] == r);
                    } else {
                        assert(rest.contains(r));
                        let k = choose|k: int| 0 <= k < rest.len() && rest[k] == r;
                        assert(rows[k] == r);
                    }
                }
            }
            assert forall|i: int, j: int| 0 <= i < j < rows.len() implies rows[i] < rows[j] by {
                if j == rest.len() {
                    assert(rest.contains(rest[i]));
                }
            }
        }
    }
}

} // verus!
