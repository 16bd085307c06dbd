//! What ex commands make of the lines they act on.

use vstd::prelude::*;
use crate::editcmd::{AddressRange, Cmd, EditCmd, ExNode, LineAddr, Motion, Verb};
use crate::linebuf::address::{addressed, rows_addressed, rows_matching};
use crate::linebuf::buffer::{moved, wf, BufV};
use crate::linebuf::excmd::{node_cmd, subst_done, subst_upto, substituted};
use crate::linebuf::line::{line_text, LineV};
use crate::linebuf::lines::{lines_of, rows_of, LinesV};
use crate::linebuf::motion::{after_motion, cover};
use crate::linebuf::motion_laws::law_global_takes_the_lines_that_match;
use crate::linebuf::notices::{matching_flaws, noted};
use crate::linebuf::pos::Pos;
use crate::linebuf::verb::{begun, plain, run_cmd, run_node, run_rows, run_verb, MAX_REPEATS};
use crate::patterns::{all_replaced, first_replaced, is_pattern, matches_in};
use crate::register::RegV;
use crate::shell::{Answer, Ask, Env};
use crate::text::clusters;

verus! {

/// A line is one of those that an address range names.
pub open spec fn is_addressed(b: BufV, addr: Option<AddressRange>, i: int) -> bool {
    match addr {
        None => i == b.cursor.pos.row,
        Some(AddressRange::Single(a)) => match addressed(b, a) {
            Some(l) => i == l,
            None => i == b.cursor.pos.row,
        },
        Some(AddressRange::Range(s, e)) => match (addressed(b, s), addressed(b, e)) {
            (Some(s), Some(e)) => s <= i <= e || e <= i <= s,
            (Some(s), None) => s <= i <= b.cursor.pos.row || b.cursor.pos.row <= i <= s,
            (None, Some(e)) => e <= i <= b.cursor.pos.row || b.cursor.pos.row <= i <= e,
            (None, None) => i == b.cursor.pos.row,
        },
    }
}

/// A line's text with the pattern replaced: all matches, or the first.
pub open spec fn replacement(l: LineV, pat: Seq<char>, by: Seq<char>, all: bool) -> Seq<char> {
    if all {
        all_replaced(pat, line_text(l), by)
    } else {
        first_replaced(pat, line_text(l), by)
    }
}

proof fn lemma_one_row(s: Seq<char>)
    requires
        forall|k: int| 0 <= k < s.len() ==> #[trigger] s[k] != '\n',
    ensures
        rows_of(s) == seq![s],
        lines_of(s) == seq![clusters(s)],
    decreases s.len(),
{
    if s.len() > 0 {
        assert(s.last() == s[s.len() - 1]);
        assert forall|k: int| 0 <= k < s.drop_last().len() implies #[trigger] s.drop_last()[k]
            != '\n' by {
            assert(s[k] != '\n');
        }
        lemma_one_row(s.drop_last());
        assert(s.drop_last().push(s.last()) =~= s);
    } else {
        assert(s =~= Seq::<char>::empty());
    }
    assert(rows_of(s) =~= seq![s]);
    assert(lines_of(s) =~= seq![clusters(s)]);
}

proof fn lemma_substituted(ls: LinesV, rows: Seq<usize>, pat: Seq<char>, by: Seq<char>, all: bool, n: int)
    requires
        0 <= n <= ls.len(),
        forall|i: int|
            0 <= i < n && rows.contains(i as usize) ==> lines_of(
                replacement(#[trigger] ls[i], pat, by, all),
            ).len() == 1,
    ensures
        ({
            let r = subst_upto(ls, rows, pat, by, all, n);
            &&& r.len() == n
            &&& forall|i: int|
                0 <= i < n ==> #[trigger] r[i] == if rows.contains(i as usize) {
                    lines_of(replacement(ls[i], pat, by, all))[0]
                } else {
                    ls[i]
                }
        }),
    decreases n,
{
    if n > 0 {
        lemma_substituted(ls, rows, pat, by, all, n - 1);
        let head = subst_upto(ls, rows, pat, by, all, n - 1);
        let x = substituted(line_text(ls[n - 1]), pat, by, all);
        assert(x == lines_of(replacement(ls[n - 1], pat, by, all)));
    }
}

proof fn lemma_rows_addressed(b: BufV, addr: Option<AddressRange>, i: int)
    requires
        wf(b),
        0 <= i < b.lines.len() <= usize::MAX,
    ensures
        rows_addressed(b, addr).contains(i as usize) == is_addressed(b, addr, i),
{
    let rows = rows_addressed(b, addr);
    match addr {
        Some(AddressRange::Range(s, e)) => {
            let a = crate::linebuf::address::addressed_or_row(b, s);
            let z = crate::linebuf::address::addressed_or_row(b, e);
            let lo = if z < a {
                z
            } else {
                a
            };
            let hi = if z < a {
                a
            } else {
                z
            };
            assert(rows.len() == hi - lo + 1);
            if lo <= i <= hi {
                assert(rows[i - lo] == i as usize);
            }
        },
        _ => {
            assert(rows.len() == 1);
            assert(rows[0] == rows.first());
            if is_addressed(b, addr, i) {
                assert(rows[0] == i as usize);
            }
        },
    }
}

/// A substitution replaces matches in every line it addresses, the cursor's
/// line where it addresses none, and leaves all others alone. Where no line
/// feed comes in, the lines stay as many.
#[verifier::rlimit(40)]
pub proof fn law_substitution_changes_the_lines_addressed<S: Fn(&str, Ask) -> Answer>(b: BufV, regs: Seq<RegV>, cmd: EditCmd, node: ExNode, env: Env<S>)
    requires
        wf(b),
        b.lines.len() <= usize::MAX,
        cmd.verb matches Some(Cmd(_, Verb::ExCmd(x))) && x == node,
        node.kind is Substitute,
        is_pattern(node.kind->Substitute_pat@),
        forall|i: int, k: int|
            0 <= i < b.lines.len() && is_addressed(b, node.address, i) && 0 <= k < replacement(
                b.lines[i],
                node.kind->Substitute_pat@,
                node.kind->Substitute_repl@,
                node.kind->Substitute_flags.global,
            ).len() ==> #[trigger] replacement(
                b.lines[i],
                node.kind->Substitute_pat@,
                node.kind->Substitute_repl@,
                node.kind->Substitute_flags.global,
            )[k] != '\n',
    ensures
        ({
            let r = run_cmd(b, regs, cmd, env);
            &&& r.effect is Done
            &&& r.regs == regs
            &&& r.buf.lines.len() == b.lines.len()
            &&& forall|i: int|
                0 <= i < b.lines.len() ==> #[trigger] r.buf.lines[i] == if is_addressed(
                    b,
                    node.address,
                    i,
                ) {
                    clusters(
                        replacement(
                            b.lines[i],
                            node.kind->Substitute_pat@,
                            node.kind->Substitute_repl@,
                            node.kind->Substitute_flags.global,
                        ),
                    )
                } else {
                    b.lines[i]
                }
        }),
{
    let pat = node.kind->Substitute_pat@;
    let by = node.kind->Substitute_repl@;
    let all = node.kind->Substitute_flags.global;
    let c = begun(b, cmd, env);
    assert(c.lines == b.lines && c.cursor == b.cursor && c.select_mode == b.select_mode);
    lemma_same_addresses(b, c, node.address);
    let rows = rows_addressed(c, node.address);
    assert forall|i: int| 0 <= i < b.lines.len() implies rows.contains(i as usize) == is_addressed(
        b,
        node.address,
        i,
    ) by {
        lemma_rows_addressed(b, node.address, i);
    }
    assert forall|i: int| 0 <= i < b.lines.len() && rows.contains(i as usize) implies lines_of(
        replacement(#[trigger] b.lines[i], pat, by, all),
    ) == seq![clusters(replacement(b.lines[i], pat, by, all))] by {
        lemma_one_row(replacement(b.lines[i], pat, by, all));
    }
    lemma_substituted(b.lines, rows, pat, by, all, b.lines.len() as int);
    let v = run_verb(c, regs, cmd, env);
    assert(v.buf == subst_done(c, cmd, pat, by, node.kind->Substitute_flags, node.address));
    assert(v.effect is Done);
    let r = run_cmd(b, regs, cmd, env);
    assert(r.buf.lines == v.buf.lines);
}

/// Addresses depend on the text, the cursor and the selection alone.
proof fn lemma_same_addresses(b: BufV, c: BufV, addr: Option<AddressRange>)
    requires
        b.lines == c.lines,
        b.cursor == c.cursor,
        b.select_mode == c.select_mode,
    ensures
        rows_addressed(b, addr) == rows_addressed(c, addr),
        forall|a: LineAddr| addressed(b, a) == addressed(c, a),
{
}

/// The lines of the first `n` that do not match, or that do where `negated`.
pub open spec fn survivors(ls: LinesV, pat: Seq<char>, negated: bool, n: int) -> LinesV
    decreases n,
{
    if n <= 0 {
        Seq::empty()
    } else if matches_in(pat, line_text(ls[n - 1])) != negated {
        survivors(ls, pat, negated, n - 1)
    } else {
        survivors(ls, pat, negated, n - 1).push(ls[n - 1])
    }
}

/// The rows are those whose lines match, from the first to the last.
spec fn are_matches(ls: LinesV, pat: Seq<char>, negated: bool, rows: Seq<usize>) -> bool {
    &&& forall|r: usize| #[trigger]
        rows.contains(r) <==> (r < ls.len() && matches_in(pat, line_text(ls[r as int])) != negated)
    &&& forall|i: int, j: int| 0 <= i < j < rows.len() ==> rows[i] < rows[j]
}

proof fn lemma_survivors_agree(a: LinesV, b: LinesV, pat: Seq<char>, negated: bool, n: int)
    requires
        0 <= n <= a.len(),
        n <= b.len(),
        forall|i: int| 0 <= i < n ==> a[i] == b[i],
    ensures
        survivors(a, pat, negated, n) == survivors(b, pat, negated, n),
    decreases n,
{
    if n > 0 {
        lemma_survivors_agree(a, b, pat, negated, n - 1);
    }
}

/// A line that goes anyway may go first.
proof fn lemma_survivors_remove(ls: LinesV, pat: Seq<char>, negated: bool, r: int, n: int)
    requires
        0 <= r < n <= ls.len(),
        matches_in(pat, line_text(ls[r])) != negated,
    ensures
        survivors(ls.remove(r), pat, negated, n - 1) == survivors(ls, pat, negated, n),
    decreases n,
{
    if n == r + 1 {
        lemma_survivors_agree(ls.remove(r), ls, pat, negated, r);
    } else {
        lemma_survivors_remove(ls, pat, negated, r, n - 1);
        assert(ls.remove(r)[n - 2] == ls[n - 1]);
    }
}

proof fn lemma_all_survive(ls: LinesV, pat: Seq<char>, negated: bool, n: int)
    requires
        0 <= n <= ls.len(),
        forall|i: int| 0 <= i < n ==> matches_in(pat, line_text(#[trigger] ls[i])) == negated,
    ensures
        survivors(ls, pat, negated, n) == ls.take(n),
    decreases n,
{
    if n > 0 {
        lemma_all_survive(ls, pat, negated, n - 1);
        assert(ls.take(n - 1).push(ls[n - 1]) =~= ls.take(n));
    } else {
        assert(ls.take(0) =~= Seq::empty());
    }
}

/// Deleting the cursor's line from within a global command.
proof fn lemma_deletes_row<S: Fn(&str, Ask) -> Answer>(b: BufV, regs: Seq<RegV>, cmd: EditCmd, node: ExNode, row: usize, env: Env<S>, fuel: nat)
    requires
        row < b.lines.len() <= usize::MAX,
        node.kind is Delete,
        node.address is None,
    ensures
        ({
            let r = run_node(moved(b, Pos { row, col: 0 }), regs, cmd, node, env, fuel);
            &&& r.effect is Done
            &&& r.buf.lines == if b.lines.len() == 1 {
                seq![LineV::empty()]
            } else {
                b.lines.remove(row as int)
            }
        }),
{
    reveal(plain);
    reveal(cover);
    reveal(after_motion);
    let c = moved(b, Pos { row, col: 0 });
    assert(c.lines == b.lines && c.cursor.pos.row == row);
    assert(b.lines.take(row as int) + b.lines.skip(row + 1) =~= b.lines.remove(row as int));
}

proof fn lemma_global_deletes<S: Fn(&str, Ask) -> Answer>(b: BufV, regs: Seq<RegV>, cmd: EditCmd, node: ExNode, pat: Seq<char>, negated: bool, rows: Seq<usize>, n: int, env: Env<S>, fuel: nat)
    requires
        0 < b.lines.len() <= usize::MAX,
        node.kind is Delete,
        node.address is None,
        0 <= n <= rows.len(),
        are_matches(b.lines, pat, negated, rows.take(n)),
    ensures
        ({
            let r = run_rows(b, regs, cmd, node, rows, n, env, fuel);
            let left = survivors(b.lines, pat, negated, b.lines.len() as int);
            &&& r.effect is Done
            &&& r.buf.lines == if left.len() == 0 {
                seq![LineV::empty()]
            } else {
                left
            }
        }),
    decreases n,
{
    let ls = b.lines;
    let w = rows.take(n);
    if n <= 0 {
        assert forall|i: int| 0 <= i < ls.len() implies matches_in(
            pat,
            line_text(#[trigger] ls[i]),
        ) == negated by {
            assert(!w.contains(i as usize));
        }
        lemma_all_survive(ls, pat, negated, ls.len() as int);
        assert(ls.take(ls.len() as int) =~= ls);
    } else {
        let r = rows[n - 1];
        assert(w[n - 1] == r);
        assert(w.contains(r));
        let c = node_cmd(cmd, node);
        lemma_deletes_row(b, regs, c, node, r, env, fuel);
        lemma_survivors_remove(ls, pat, negated, r as int, ls.len() as int);
        let step = run_node(moved(b, Pos { row: r, col: 0 }), regs, c, node, env, fuel);
        let v = rows.take(n - 1);
        if ls.len() == 1 {
            assert(r == 0);
            if n > 1 {
                assert(w[n - 2] < w[n - 1]);
            }
            assert(n == 1);
            reveal_with_fuel(survivors, 3);
            assert(survivors(ls, pat, negated, 1) =~= Seq::empty());
            assert(run_rows(step.buf, step.regs, cmd, node, rows, 0, env, fuel).buf.lines
                == step.buf.lines);
        } else {
            let rest = ls.remove(r as int);
            assert forall|x: usize| #[trigger] v.contains(x) <==> (x < rest.len() && matches_in(
                pat,
                line_text(rest[x as int]),
            ) != negated) by {
                if v.contains(x) {
                    let k = choose|k: int| 0 <= k < v.len() && v[k] == x;
                    assert(w[k] == x);
                    assert(w[k] < w[n - 1]);
                    assert(w.contains(x));
                    assert(rest[x as int] == ls[x as int]);
                }
                if x < rest.len() && matches_in(pat, line_text(rest[x as int])) != negated {
                    if x < r {
                        assert(rest[x as int] == ls[x as int]);
                        assert(w.contains(x));
                        let k = choose|k: int| 0 <= k < w.len() && w[k] == x;
                        assert(v[k] == x);
                    } else {
                        let y = (x + 1) as usize;
                        assert(rest[x as int] == ls[y as int]);
                        assert(w.contains(y));
                        let k = choose|k: int| 0 <= k < w.len() && w[k] == y;
                        if k < n - 1 {
                            assert(w[k] < w[n - 1]);
                        }
                    }
                }
            }
            assert forall|i: int, j: int| 0 <= i < j < v.len() implies v[i] < v[j] by {
                assert(w[i] < w[j]);
            }
            lemma_global_deletes(
                step.buf,
                step.regs,
                cmd,
                node,
                pat,
                negated,
                rows,
                n - 1,
                env,
                fuel,
            );
        }
    }
}

/// A global command over the whole text that deletes leaves exactly the lines
/// that do not match, in their order; with an exclamation mark exactly those
/// that do. Where none is left there is a blank line.
#[verifier::rlimit(40)]
pub proof fn law_global_delete_leaves_the_rest<S: Fn(&str, Ask) -> Answer>(b: BufV, regs: Seq<RegV>, cmd: EditCmd, node: ExNode, env: Env<S>)
    requires
        wf(b),
        b.lines.len() <= usize::MAX,
        cmd.verb matches Some(Cmd(_, Verb::ExCmd(x))) && x == node,
        node.address is None,
        node.kind is Global,
        is_pattern(node.kind->Global_pat@),
        node.kind->Global_nested.kind is Delete,
        node.kind->Global_nested.address is None,
    ensures
        ({
            let r = run_cmd(b, regs, cmd, env);
            let left = survivors(
                b.lines,
                node.kind->Global_pat@,
                node.bang,
                b.lines.len() as int,
            );
            &&& r.effect is Done
            &&& r.buf.lines == if left.len() == 0 {
                seq![LineV::empty()]
            } else {
                left
            }
        }),
{
    let pat = node.kind->Global_pat@;
    let nested = *node.kind->Global_nested;
    let c = begun(b, cmd, env);
    assert(c.lines == b.lines && c.cursor == b.cursor);
    let whole = Motion::LineRange(LineAddr::Number(1), LineAddr::Last);
    let rows = rows_matching(c, whole, pat, node.bang);
    law_global_takes_the_lines_that_match(
        c,
        LineAddr::Number(1),
        LineAddr::Last,
        0,
        (b.lines.len() - 1) as usize,
        pat,
        node.bang,
    );
    let d = noted(c, matching_flaws(c, whole, pat));
    assert(d.lines == b.lines);
    assert(rows.take(rows.len() as int) =~= rows);
    lemma_global_deletes(
        d,
        regs,
        cmd,
        nested,
        pat,
        node.bang,
        rows,
        rows.len() as int,
        env,
        MAX_REPEATS as nat,
    );
    let v = run_verb(c, regs, cmd, env);
    assert(v == run_rows(d, regs, cmd, nested, rows, rows.len() as int, env, MAX_REPEATS as nat));
}

} // verus!
