//! What the verbs that change letters make of each cluster.

use vstd::prelude::*;
use crate::editcmd::{Cmd, EditCmd, Verb};
use crate::linebuf::buffer::{wf, BufV};
use crate::linebuf::edit_laws::lemma_runs_plainly;
use crate::linebuf::motion::{after_motion, cmd_cover};
use crate::linebuf::pos::{in_order, MotionKind, Pos};
use crate::linebuf::recase::{
    each_alone, in_range, law_recasing_keeps_to_its_range, recased, recased_here, recased_range, rot,
    toggled, Recase,
};
use crate::linebuf::verb::{begun, hint_moved, plain, run_cmd};
use crate::linebuf::verb_ops::range_recased;
use crate::linebuf::word_laws::{earlier, indexable};
use crate::register::RegV;
use crate::shell::{Answer, Ask, Env};
use crate::text::{lower_of, upper_of};

verus! {

/// The capital of a letter lies thirty-two places before it in ASCII, and rot13
/// goes thirteen places round the alphabet. All else stays.
pub proof fn law_case_of_letters(c: char)
    ensures
        'a' <= c <= 'z' ==> {
            &&& upper_of(c) as int == c as int - 32
            &&& toggled(c) as int == c as int - 32
            &&& lower_of(c) == c
            &&& rot(c) as int == if c <= 'm' {
                c as int + 13
            } else {
                c as int - 13
            }
        },
        'A' <= c <= 'Z' ==> {
            &&& lower_of(c) as int == c as int + 32
            &&& toggled(c) as int == c as int + 32
            &&& upper_of(c) == c
            &&& rot(c) as int == if c <= 'M' {
                c as int + 13
            } else {
                c as int - 13
            }
        },
        !('a' <= c <= 'z') && !('A' <= c <= 'Z') ==> {
            &&& lower_of(c) == c
            &&& upper_of(c) == c
            &&& toggled(c) == c
            &&& rot(c) == c
        },
{
    if 'a' <= c <= 'z' {
        let n = ((c as u8) - 32) as u8;
        assert(n as char as int == n);
        let m = (c as int - 97 + 13) % 26 + 97;
        assert(97 <= m < 123);
        assert(m as u8 as char as int == m);
    } else if 'A' <= c <= 'Z' {
        let n = ((c as u8) + 32) as u8;
        assert(n as char as int == n);
        let m = (c as int - 65 + 13) % 26 + 65;
        assert(65 <= m < 91);
        assert(m as u8 as char as int == m);
    }
}

/// What a verb makes of a cluster. One of several characters is only ever
/// replaced.
pub open spec fn remade(v: Verb, g: Seq<char>) -> Seq<char> {
    match v {
        Verb::ReplaceChar(c) => seq![c],
        Verb::ReplaceCharInplace(c, _) => seq![c],
        _ => if g.len() != 1 {
            g
        } else {
            match v {
                Verb::ToLower => seq![lower_of(g[0])],
                Verb::ToUpper => seq![upper_of(g[0])],
                Verb::ToggleCaseRange => seq![toggled(g[0])],
                Verb::ToggleCaseInplace(_) => seq![toggled(g[0])],
                Verb::Rot13 => seq![rot(g[0])],
                _ => g,
            }
        },
    }
}

/// A verb that remakes what its motion covers.
pub open spec fn remakes(v: Verb) -> bool {
    v is ReplaceChar || v is ToLower || v is ToUpper || v is ToggleCaseRange || v is Rot13
}

spec fn kind_of(v: Verb) -> Recase {
    match v {
        Verb::ReplaceChar(c) => Recase::Replace(c),
        Verb::ReplaceCharInplace(c, _) => Recase::Replace(c),
        Verb::ToLower => Recase::Lower,
        Verb::ToUpper => Recase::Upper,
        Verb::Rot13 => Recase::Rot13,
        _ => Recase::Toggle,
    }
}

proof fn lemma_remade(v: Verb, g: Seq<char>)
    requires
        remakes(v) || v is ReplaceCharInplace || v is ToggleCaseInplace,
    ensures
        recased(kind_of(v), false, g).0 == remade(v, g),
{
}

/// A place lies in the stretch from `s` to `e`.
pub open spec fn lies_in(s: Pos, e: Pos, inclusive: bool, i: int, j: int) -> bool {
    &&& s.row < i || (s.row == i && s.col <= j)
    &&& i < e.row || (i == e.row && (j < e.col || (inclusive && j == e.col)))
}

/// Of a stretch that a verb remakes, every cluster is remade, none outside it
/// is, and the cursor goes to its start.
#[verifier::rlimit(40)]
pub proof fn law_every_cluster_of_a_stretch_is_remade<S: Fn(&str, Ask) -> Answer>(b: BufV, regs: Seq<RegV>, cmd: EditCmd, s: Pos, e: Pos, start: Pos, end: Pos, inclusive: bool, env: Env<S>)
    requires
        wf(b),
        indexable(b.lines),
        cmd.verb matches Some(Cmd(_, v)) && remakes(v),
        cmd_cover(begun(b, cmd, env), cmd, env.opts) == Some(
            MotionKind::Char { start, end, inclusive },
        ),
        (start == s && end == e) || (start == e && end == s),
        !earlier(e, s),
        e.row < b.lines.len(),
    ensures
        ({
            let r = run_cmd(b, regs, cmd, env);
            &&& r.effect is Done
            &&& r.regs == regs
            &&& r.buf.lines.len() == b.lines.len()
            &&& forall|i: int|
                0 <= i < b.lines.len() ==> (#[trigger] r.buf.lines[i]).len() == b.lines[i].len()
            &&& forall|i: int, j: int|
                0 <= i < b.lines.len() && 0 <= j < b.lines[i].len()
                    ==> #[trigger] r.buf.lines[i][j] == if lies_in(s, e, inclusive, i, j) {
                    remade(cmd.verb.unwrap().1, b.lines[i][j])
                } else {
                    b.lines[i][j]
                }
            &&& r.buf.cursor.pos.row == s.row
        }),
{
    reveal(plain);
    lemma_runs_plainly(b, regs, cmd, env);
    let c = begun(b, cmd, env);
    let v = cmd.verb.unwrap().1;
    let k = kind_of(v);
    let m = MotionKind::Char { start, end, inclusive };
    lemma_recased_buffer(c, cmd, k, m, s, e, env);
    let p = plain(c, regs, cmd, v, env);
    assert(p.buf == range_recased(c, cmd, k, env.opts));
    law_recasing_keeps_to_its_range(k, b.lines, m);
    assert(in_order(start, end) == (s, e));
    let r = run_cmd(b, regs, cmd, env);
    assert(r.buf.lines == recased_range(k, b.lines, m));
    assert forall|i: int, j: int|
        0 <= i < b.lines.len() && 0 <= j < b.lines[i].len() implies #[trigger] r.buf.lines[i][j]
        == if lies_in(s, e, inclusive, i, j) {
        remade(v, b.lines[i][j])
    } else {
        b.lines[i][j]
    } by {
        lemma_remade(v, b.lines[i][j]);
        assert(in_range(m, i, j) == lies_in(s, e, inclusive, i, j));
    }
}

proof fn lemma_recased_buffer<S: Fn(&str, Ask) -> Answer>(c: BufV, cmd: EditCmd, k: Recase, m: MotionKind, s: Pos, e: Pos, env: Env<S>)
    requires
        wf(c),
        cmd_cover(c, cmd, env.opts) == Some(m),
        c.lines.len() <= usize::MAX,
        m matches MotionKind::Char { start, end, .. } && ((start == s && end == e) || (start == e
            && end == s)) && !earlier(e, s),
        e.row < c.lines.len(),
        each_alone(k),
    ensures
        ({
            let d = range_recased(c, cmd, k, env.opts);
            &&& d.lines == recased_range(k, c.lines, m)
            &&& d.lines.len() == c.lines.len()
            &&& d.cursor.pos.row == s.row
        }),
{
    reveal(after_motion);
    law_recasing_keeps_to_its_range(k, c.lines, m);
}

proof fn lemma_remade_here(k: Recase, b: BufV, n: int)
    requires
        wf(b),
        each_alone(k),
        0 < n,
        indexable(b.lines),
        b.cursor.pos.col + n <= b.lines[b.cursor.pos.row as int].len(),
    ensures
        ({
            let d = recased_here(k, b, n);
            let row = b.cursor.pos.row as int;
            let c = b.cursor.pos.col as int;
            &&& d.lines.len() == b.lines.len()
            &&& d.cursor.pos.row == row
            &&& d.cursor.pos.col == c + n - 1
            &&& d.cursor.exclusive == b.cursor.exclusive
            &&& d.hint == b.hint
            &&& d.select_mode == b.select_mode
            &&& forall|i: int| 0 <= i < b.lines.len() && i != row ==> #[trigger] d.lines[i] == b.lines[i]
            &&& d.lines[row].len() == b.lines[row].len()
            &&& forall|j: int|
                0 <= j < b.lines[row].len() ==> #[trigger] d.lines[row][j] == if c <= j < c + n {
                    recased(k, false, b.lines[row][j]).0
                } else {
                    b.lines[row][j]
                }
        }),
    decreases n,
{
    let row = b.cursor.pos.row as int;
    assert(b.lines[row].len() <= usize::MAX);
    let c = if n == 1 {
        b
    } else {
        lemma_remade_here(k, b, n - 1);
        let d = recased_here(k, b, n - 1);
        crate::linebuf::buffer::with_cursor(d, crate::linebuf::places::place_off(d, 0, 1))
    };
    let p = c.cursor.pos;
    assert(p.row == row && p.col == b.cursor.pos.col + n - 1);
    let m = MotionKind::Char { start: p, end: p, inclusive: true };
    law_recasing_keeps_to_its_range(k, c.lines, m);
    let d = recased_here(k, b, n);
    assert(d.lines == recased_range(k, c.lines, m));
    assert forall|i: int| 0 <= i < b.lines.len() && i != row implies #[trigger] d.lines[i]
        == b.lines[i] by {
        assert(c.lines[i] == b.lines[i]);
        assert forall|j: int| 0 <= j < b.lines[i].len() implies #[trigger] d.lines[i][j]
            == b.lines[i][j] by {
            assert(!in_range(m, i, j));
        }
        assert(d.lines[i] =~= b.lines[i]);
    }
    assert forall|j: int| 0 <= j < b.lines[row].len() implies #[trigger] d.lines[row][j] == if b.cursor.pos.col
        <= j < b.cursor.pos.col + n {
        recased(k, false, b.lines[row][j]).0
    } else {
        b.lines[row][j]
    } by {
        assert(in_range(m, row, j) == (j == p.col));
        assert(d.lines[row][j] == if in_range(m, row, j) {
            recased(k, false, c.lines[row][j]).0
        } else {
            c.lines[row][j]
        });
    }
}

/// Toggling the case where the cursor is, or replacing there, remakes as many
/// clusters as are asked for from the cursor on, where the line holds so many,
/// and no others.
#[verifier::rlimit(40)]
pub proof fn law_clusters_at_the_cursor_are_remade<S: Fn(&str, Ask) -> Answer>(b: BufV, regs: Seq<RegV>, cmd: EditCmd, n: int, env: Env<S>)
    requires
        wf(b),
        indexable(b.lines),
        b.hint is None,
        cmd.verb matches Some(Cmd(_, v)) && match v {
            Verb::ReplaceCharInplace(_, k) => k == n,
            Verb::ToggleCaseInplace(k) => k == n,
            _ => false,
        },
        0 < n,
        b.cursor.pos.col + n <= b.lines[b.cursor.pos.row as int].len(),
    ensures
        ({
            let r = run_cmd(b, regs, cmd, env);
            let row = b.cursor.pos.row as int;
            let c = b.cursor.pos.col as int;
            &&& r.effect is Done
            &&& r.regs == regs
            &&& r.buf.lines.len() == b.lines.len()
            &&& forall|i: int|
                0 <= i < b.lines.len() && i != row ==> #[trigger] r.buf.lines[i] == b.lines[i]
            &&& r.buf.lines[row].len() == b.lines[row].len()
            &&& forall|j: int|
                0 <= j < b.lines[row].len() ==> #[trigger] r.buf.lines[row][j] == if c <= j < c + n {
                    remade(cmd.verb.unwrap().1, b.lines[row][j])
                } else {
                    b.lines[row][j]
                }
        }),
{
    reveal(plain);
    lemma_runs_plainly(b, regs, cmd, env);
    let c = begun(b, cmd, env);
    let v = cmd.verb.unwrap().1;
    let k = kind_of(v);
    lemma_remade_here(k, c, n);
    let d = recased_here(k, c, n);
    if v is ReplaceCharInplace {
        lemma_moving_keeps(d, cmd, env);
    }
    let p = plain(c, regs, cmd, v, env);
    assert(p.buf.lines == d.lines);
    let row = b.cursor.pos.row as int;
    assert forall|j: int| 0 <= j < b.lines[row].len() implies recased(k, false, b.lines[row][j]).0
        == remade(v, b.lines[row][j]) by {
        lemma_remade(v, b.lines[row][j]);
    }
}

proof fn lemma_moving_keeps<S: Fn(&str, Ask) -> Answer>(d: BufV, cmd: EditCmd, env: Env<S>)
    requires
        d.hint is None,
    ensures
        hint_moved(d, cmd, env).lines == d.lines,
{
    reveal(after_motion);
}

} // verus!
