//! Which exclamation marks history expansion changes, and what it makes of
//! them.

use vstd::prelude::*;
use crate::linebuf::change::covered;
use crate::linebuf::history::{
    bang_at, body_glyphs, hist_scan, last_word, left_from, lemma_paren_len,
    lemma_tick_len, mapped, paren_body, placed_rows, tick_body, token_end, word_from, Body,
    ChangeV, QuoteState,
};
use crate::linebuf::lines::{text_of, LinesV};
use crate::linebuf::places::lemma_place_from_shift;
use crate::linebuf::pos::{MotionKind, Pos};
use crate::linebuf::scan::Glyph;
use crate::shell::{answer, Answer, Ask};
use crate::text::is_space;

verus! {

/// White space, which is none of the shell's own marks.
pub open spec fn is_blank(c: char) -> bool {
    is_space(c) && c != '!' && c != '$' && c != '\\' && c != ')' && c != '`'
}

/// An exclamation mark with something behind it, which is neither white space
/// nor a cluster of several characters.
pub open spec fn live_mark(s: Seq<Option<char>>, k: int) -> bool {
    &&& 0 <= k
    &&& k + 1 < s.len()
    &&& s[k] == Some('!')
    &&& s[k + 1] is Some
    &&& !is_blank(s[k + 1].unwrap())
}

/// How many such marks there are from `i` up to before `z`.
pub open spec fn live_marks(s: Seq<Option<char>>, i: int, z: int) -> nat
    decreases z - i,
{
    if i >= z {
        0
    } else {
        live_marks(s, i, z - 1) + if live_mark(s, z - 1) {
            1nat
        } else {
            0
        }
    }
}

/// The characters of some clusters.
pub open spec fn chars_in(s: Seq<Glyph>) -> Seq<Option<char>> {
    Seq::new(s.len(), |i: int| s[i].1)
}

/// No cluster is a line feed.
pub open spec fn in_one_row(s: Seq<Option<char>>) -> bool {
    forall|k: int| 0 <= k < s.len() ==> #[trigger] s[k] != Some('\n')
}

proof fn lemma_marks_split(s: Seq<Option<char>>, i: int, m: int, z: int)
    requires
        i <= m <= z,
    ensures
        live_marks(s, i, z) == live_marks(s, i, m) + live_marks(s, m, z),
    decreases z - m,
{
    if m < z {
        lemma_marks_split(s, i, m, z - 1);
    }
}

proof fn lemma_marks_one(s: Seq<Option<char>>, i: int)
    ensures
        live_marks(s, i, i + 1) == if live_mark(s, i) {
            1nat
        } else {
            0
        },
{
    reveal_with_fuel(live_marks, 2);
}

proof fn lemma_marks_none(s: Seq<Option<char>>, i: int, z: int)
    requires
        forall|k: int| i <= k < z ==> !#[trigger] live_mark(s, k),
    ensures
        live_marks(s, i, z) == 0,
    decreases z - i,
{
    if i < z {
        assert(!live_mark(s, z - 1));
        lemma_marks_none(s, i, z - 1);
    }
}

/// One more cluster behind some others makes no mark live but the last.
proof fn lemma_marks_push(c: Seq<Option<char>>, x: Option<char>)
    ensures
        live_marks(c.push(x), 0, c.len() as int + 1) == live_marks(c, 0, c.len() as int) + if c.len()
            > 0 && c.last() == Some('!') && x is Some && !is_blank(x.unwrap()) {
            1nat
        } else {
            0
        },
{
    let d = c.push(x);
    let n = c.len() as int;
    reveal_with_fuel(live_marks, 3);
    assert(!live_mark(d, n));
    if n > 0 {
        lemma_marks_same(c, d, n - 1);
        assert(!live_mark(c, n - 1));
        assert(d[n - 1] == c[n - 1] && d[n] == x);
    }
}

proof fn lemma_marks_same(c: Seq<Option<char>>, d: Seq<Option<char>>, n: int)
    requires
        0 <= n,
        n < c.len(),
        n < d.len(),
        forall|k: int| 0 <= k <= n ==> c[k] == d[k],
    ensures
        live_marks(c, 0, n) == live_marks(d, 0, n),
    decreases n,
{
    if n > 0 {
        lemma_marks_same(c, d, n - 1);
        assert(c[n - 1] == d[n - 1] && c[n] == d[n]);
    }
}

/// The mark before `i` counts as well where it was the last one taken.
spec fn pending(c: Seq<Option<char>>, i: int) -> int {
    if c.len() > 0 && c.last() == Some('!') {
        i - 1
    } else {
        i
    }
}

/// What was taken ends in an exclamation mark only where the last cluster read
/// is one.
spec fn in_step(s: Seq<Glyph>, i: int, c: Seq<Option<char>>) -> bool {
    c.len() > 0 && c.last() == Some('!') ==> 0 < i && s[i - 1].1 == Some('!')
}

proof fn lemma_paren_marks(s: Seq<Glyph>, i: int, depth: int, cur: Seq<Option<char>>)
    requires
        0 <= i <= s.len(),
        in_one_row(chars_in(s)),
        in_one_row(cur),
        in_step(s, i, cur),
    ensures
        ({
            let b = paren_body(s, i, depth, Seq::empty(), cur);
            &&& b.rows.len() == 1
            &&& in_one_row(b.rows[0])
            &&& i <= b.end <= s.len()
            &&& live_marks(b.rows[0], 0, b.rows[0].len() as int) <= live_marks(
                cur,
                0,
                cur.len() as int,
            ) + live_marks(chars_in(s), pending(cur, i), b.end)
        }),
    decreases s.len() - i,
{
    let t = chars_in(s);
    let none = Seq::<Seq<Option<char>>>::empty();
    let b = paren_body(s, i, depth, none, cur);
    if i >= s.len() {
        assert(b.rows[0] == cur);
    } else {
        assert(t[i] == s[i].1);
        if s[i].1 == Some('\\') {
            if i + 1 < s.len() {
                let x = s[i + 1].1;
                assert(t[i + 1] == x);
                let next = cur.push(x);
                lemma_marks_push(cur, x);
                lemma_paren_marks(s, i + 2, depth, next);
                lemma_step(t, i, i + 2, b.end, cur, next);
            } else {
                lemma_paren_marks_end(s, i, depth, cur);
            }
        } else if s[i].1 == Some('$') {
            if i + 1 < s.len() && s[i + 1].1 == Some('(') {
                let mid = cur.push(Some('$'));
                let next = mid.push(Some('('));
                lemma_marks_push(cur, Some('$'));
                lemma_marks_push(mid, Some('('));
                lemma_paren_marks(s, i + 2, depth + 1, next);
                lemma_step(t, i, i + 2, b.end, cur, next);
            } else {
                let next = cur.push(Some('$'));
                lemma_marks_push(cur, Some('$'));
                lemma_paren_marks(s, i + 1, depth, next);
                lemma_step(t, i, i + 1, b.end, cur, next);
            }
        } else if s[i].1 == Some(')') {
            if depth <= 1 {
                assert(b.rows[0] == cur);
            } else {
                let next = cur.push(Some(')'));
                lemma_marks_push(cur, Some(')'));
                lemma_paren_marks(s, i + 1, depth - 1, next);
                lemma_step(t, i, i + 1, b.end, cur, next);
            }
        } else {
            assert(t[i] != Some('\n'));
            let x = s[i].1;
            let next = cur.push(x);
            lemma_marks_push(cur, x);
            lemma_paren_marks(s, i + 1, depth, next);
            lemma_step(t, i, i + 1, b.end, cur, next);
        }
    }
}

/// A backslash at the end is dropped.
proof fn lemma_paren_marks_end(s: Seq<Glyph>, i: int, depth: int, cur: Seq<Option<char>>)
    requires
        0 <= i,
        i + 1 == s.len(),
        s[i].1 == Some('\\'),
    ensures
        paren_body(s, i, depth, Seq::empty(), cur).rows == seq![cur],
        paren_body(s, i, depth, Seq::empty(), cur).end == s.len(),
{
    reveal_with_fuel(paren_body, 2);
    assert(Seq::<Seq<Option<char>>>::empty().push(cur) =~= seq![cur]);
}

/// What a step from `i` to `j` takes makes live only a mark that was live.
proof fn lemma_step(t: Seq<Option<char>>, i: int, j: int, z: int, cur: Seq<Option<char>>, next: Seq<Option<char>>)
    requires
        0 <= i < j <= z <= t.len(),
        cur.len() > 0 && cur.last() == Some('!') ==> 0 < i && t[i - 1] == Some('!'),
        live_marks(next, 0, next.len() as int) <= live_marks(cur, 0, cur.len() as int) + if cur.len()
            > 0 && cur.last() == Some('!') && t[i] is Some && !is_blank(t[i].unwrap()) {
            1nat
        } else {
            0
        },
        next.len() > 0 && next.last() == Some('!') ==> t[j - 1] == Some('!'),
    ensures
        live_marks(next, 0, next.len() as int) + live_marks(t, pending(next, j), z) <= live_marks(
            cur,
            0,
            cur.len() as int,
        ) + live_marks(t, pending(cur, i), z),
{
    let a = pending(cur, i);
    let p = pending(next, j);
    lemma_marks_split(t, a, i, z);
    lemma_marks_split(t, i, p, z);
    if a < i {
        lemma_marks_one(t, i - 1);
    }
}

proof fn lemma_tick_marks(s: Seq<Glyph>, i: int, cur: Seq<Option<char>>)
    requires
        0 <= i <= s.len(),
        in_one_row(chars_in(s)),
        in_one_row(cur),
        in_step(s, i, cur),
    ensures
        ({
            let b = tick_body(s, i, Seq::empty(), cur);
            &&& b.rows.len() == 1
            &&& in_one_row(b.rows[0])
            &&& i <= b.end <= s.len()
            &&& live_marks(b.rows[0], 0, b.rows[0].len() as int) <= live_marks(
                cur,
                0,
                cur.len() as int,
            ) + live_marks(chars_in(s), pending(cur, i), b.end)
        }),
    decreases s.len() - i,
{
    let t = chars_in(s);
    let none = Seq::<Seq<Option<char>>>::empty();
    let b = tick_body(s, i, none, cur);
    if i >= s.len() {
        assert(b.rows[0] == cur);
    } else {
        assert(t[i] == s[i].1);
        if s[i].1 == Some('\\') {
            if i + 1 < s.len() {
                let x = s[i + 1].1;
                assert(t[i + 1] == x);
                let next = cur.push(x);
                lemma_marks_push(cur, x);
                lemma_tick_marks(s, i + 2, next);
                lemma_step(t, i, i + 2, b.end, cur, next);
            } else {
                reveal_with_fuel(tick_body, 2);
                assert(b.rows[0] == cur);
            }
        } else if s[i].1 == Some('`') {
            assert(b.rows[0] == cur);
        } else {
            assert(t[i] != Some('\n'));
            let x = s[i].1;
            let next = cur.push(x);
            lemma_marks_push(cur, x);
            lemma_tick_marks(s, i + 1, next);
            lemma_step(t, i, i + 1, b.end, cur, next);
        }
    }
}

proof fn lemma_sole_row(b: Body)
    requires
        b.rows.len() == 1,
    ensures
        chars_in(body_glyphs(b)) == b.rows[0],
{
    reveal_with_fuel(placed_rows, 2);
    assert(chars_in(body_glyphs(b)) =~= b.rows[0]);
}

/// History expansion makes no more changes than there are live marks: an
/// exclamation mark at the end of the text or before white space makes none.
pub proof fn law_only_live_marks_are_changed<S: Fn(&str, Ask) -> Answer>(ls: LinesV, s: Seq<Glyph>, i: int, q: QuoteState, offset: Pos, shell: S)
    requires
        0 <= i <= s.len(),
        in_one_row(chars_in(s)),
    ensures
        hist_scan(ls, s, i, q, offset, shell).len() <= live_marks(chars_in(s), i, s.len() as int),
    decreases left_from(s, i),
{
    let t = chars_in(s);
    let n = s.len() as int;
    if i < n {
        assert(t[i] == s[i].1);
        lemma_marks_split(t, i, i + 1, n);
        lemma_marks_one(t, i);
        if s[i].1 is Some && (s[i].1 == Some('$') || s[i].1 == Some('`')) && q == QuoteState::Double
            && i + 1 < n && s[i + 1].1 == Some('(') {
            let e = Seq::<Option<char>>::empty();
            let b = paren_body(s, i + 2, 1, Seq::empty(), e);
            lemma_paren_len(s, i + 2, 1, Seq::empty(), e);
            lemma_paren_marks(s, i + 2, 1, e);
            lemma_sole_row(b);
            law_only_live_marks_are_changed(
                ls,
                body_glyphs(b),
                0,
                QuoteState::Outside,
                mapped(ls, crate::linebuf::pos::shifted(s[i].0, 0, 2), offset),
                shell,
            );
            law_only_live_marks_are_changed(ls, s, b.end, q, offset, shell);
            lemma_marks_split(t, i, i + 2, n);
            lemma_marks_split(t, i + 2, b.end, n);
        } else if s[i].1 == Some('`') && q == QuoteState::Double {
            let e = Seq::<Option<char>>::empty();
            let b = tick_body(s, i + 1, Seq::empty(), e);
            lemma_tick_len(s, i + 1, Seq::empty(), e);
            lemma_tick_marks(s, i + 1, e);
            lemma_sole_row(b);
            law_only_live_marks_are_changed(
                ls,
                body_glyphs(b),
                0,
                QuoteState::Outside,
                mapped(ls, crate::linebuf::pos::shifted(s[i].0, 0, 1), offset),
                shell,
            );
            law_only_live_marks_are_changed(ls, s, b.end, q, offset, shell);
            lemma_marks_split(t, i + 1, b.end, n);
        } else if s[i].1 == Some('!') && q != QuoteState::Single {
            let (found, next, after) = bang_at(ls, s, i, q, offset, shell);
            if i + 1 < n {
                assert(t[i + 1] == s[i + 1].1);
                lemma_token_end(s, i + 2, s[i + 1].0.row, q);
            }
            assert(i < next <= n);
            assert(found.len() <= live_marks(t, i, i + 1));
            law_only_live_marks_are_changed(ls, s, next, after, offset, shell);
            lemma_marks_split(t, i + 1, next, n);
        } else {
            let next = if s[i].1 == Some('$') {
                crate::linebuf::history::past_dollar(s, i)
            } else if s[i].1 == Some('\\') {
                i + 2
            } else {
                i + 1
            };
            let after = if s[i].1 == Some('\'') {
                crate::linebuf::history::single_toggled(q)
            } else if s[i].1 == Some('"') {
                crate::linebuf::history::double_toggled(q)
            } else {
                q
            };
            assert(hist_scan(ls, s, i, q, offset, shell) == hist_scan(
                ls,
                s,
                next,
                after,
                offset,
                shell,
            ));
            if next <= n {
                law_only_live_marks_are_changed(ls, s, next, after, offset, shell);
                lemma_marks_split(t, i, next, n);
            }
        }
    }
}

proof fn lemma_token_end(s: Seq<Glyph>, i: int, row: usize, q: QuoteState)
    requires
        0 <= i <= s.len(),
    ensures
        i <= token_end(s, i, row, q).0 <= s.len(),
    decreases s.len() - i,
{
    if i < s.len() {
        lemma_token_end(s, i + 1, row, q);
    }
}

/// Where every exclamation mark is the last cluster or stands before white
/// space, nothing is changed.
pub proof fn law_marks_before_white_space_stay<S: Fn(&str, Ask) -> Answer>(ls: LinesV, s: Seq<Glyph>, i: int, q: QuoteState, offset: Pos, shell: S)
    requires
        0 <= i <= s.len(),
        in_one_row(chars_in(s)),
        forall|k: int|
            i <= k && k + 1 < s.len() && s[k].1 == Some('!') ==> (#[trigger] s[k + 1]).1 is None
                || is_blank(s[k + 1].1.unwrap()),
    ensures
        hist_scan(ls, s, i, q, offset, shell) == Seq::<ChangeV>::empty(),
{
    let t = chars_in(s);
    assert forall|k: int| i <= k < s.len() implies !#[trigger] live_mark(t, k) by {
        if live_mark(t, k) {
            assert(t[k] == s[k].1 && t[k + 1] == s[k + 1].1);
        }
    }
    lemma_marks_none(t, i, s.len() as int);
    law_only_live_marks_are_changed(ls, s, i, q, offset, shell);
    assert(hist_scan(ls, s, i, q, offset, shell) =~= Seq::<ChangeV>::empty());
}

/// Cluster `k` is a live mark, and the changes start there.
pub open spec fn starts_at_mark(ls: LinesV, s: Seq<Glyph>, offset: Pos, c: ChangeV, i: int) -> bool {
    exists|k: int|
        i <= k < s.len() && #[trigger] live_mark(chars_in(s), k) && c.span.0 == mapped(
            ls,
            s[k].0,
            offset,
        )
}

/// Without double quotes, every change starts at a live mark.
pub proof fn law_changes_start_at_live_marks<S: Fn(&str, Ask) -> Answer>(ls: LinesV, s: Seq<Glyph>, i: int, q: QuoteState, offset: Pos, shell: S)
    requires
        0 <= i <= s.len(),
        q != QuoteState::Double,
        forall|k: int| 0 <= k < s.len() ==> (#[trigger] s[k]).1 != Some('"'),
    ensures
        forall|j: int|
            0 <= j < hist_scan(ls, s, i, q, offset, shell).len() ==> starts_at_mark(
                ls,
                s,
                offset,
                #[trigger] hist_scan(ls, s, i, q, offset, shell)[j],
                i,
            ),
    decreases s.len() - i,
{
    let t = chars_in(s);
    let n = s.len() as int;
    let all = hist_scan(ls, s, i, q, offset, shell);
    if i < n {
        assert(t[i] == s[i].1);
        assert(s[i].1 != Some('"'));
        if s[i].1 == Some('!') && q != QuoteState::Single {
            let (found, next, after) = bang_at(ls, s, i, q, offset, shell);
            if i + 1 < n {
                assert(t[i + 1] == s[i + 1].1);
                lemma_token_end(s, i + 2, s[i + 1].0.row, q);
                assert(!token_end(s, i + 2, s[i + 1].0.row, q).1) by {
                    lemma_token_plain(s, i + 2, s[i + 1].0.row, q);
                }
            }
            assert(i < next <= n);
            assert(after == q);
            let rest = hist_scan(ls, s, next, after, offset, shell);
            law_changes_start_at_live_marks(ls, s, next, after, offset, shell);
            assert(all == found + rest);
            assert forall|j: int| 0 <= j < all.len() implies starts_at_mark(
                ls,
                s,
                offset,
                #[trigger] all[j],
                i,
            ) by {
                if j < found.len() {
                    assert(live_mark(t, i));
                } else {
                    assert(all[j] == rest[j - found.len()]);
                    assert(starts_at_mark(ls, s, offset, rest[j - found.len()], next));
                }
            }
        } else {
            let next = if s[i].1 == Some('$') {
                crate::linebuf::history::past_dollar(s, i)
            } else if s[i].1 == Some('\\') {
                i + 2
            } else {
                i + 1
            };
            let after = if s[i].1 == Some('\'') {
                crate::linebuf::history::single_toggled(q)
            } else {
                q
            };
            assert(all == hist_scan(ls, s, next, after, offset, shell));
            if next <= n {
                law_changes_start_at_live_marks(ls, s, next, after, offset, shell);
                assert forall|j: int| 0 <= j < all.len() implies starts_at_mark(
                    ls,
                    s,
                    offset,
                    #[trigger] all[j],
                    i,
                ) by {
                    assert(starts_at_mark(ls, s, offset, all[j], next));
                }
            }
        }
    }
}

proof fn lemma_token_plain(s: Seq<Glyph>, i: int, row: usize, q: QuoteState)
    requires
        0 <= i <= s.len(),
        q != QuoteState::Double,
    ensures
        !token_end(s, i, row, q).1,
    decreases s.len() - i,
{
    if i < s.len() {
        lemma_token_plain(s, i + 1, row, q);
    }
}

/// A place of the text itself is where it is.
pub proof fn law_places_of_the_text_stay(ls: LinesV, p: Pos)
    requires
        p.row < ls.len(),
        p.col <= ls[p.row as int].len(),
        p.col <= isize::MAX,
    ensures
        mapped(ls, p, Pos { row: 0, col: 0 }) == p,
{
    if p.row == 0 {
        crate::linebuf::places::lemma_flat_start_mono(ls, 0);
        lemma_place_from_shift(ls, 0, p.col as int);
    }
}

/// A character that means nothing to history expansion.
pub open spec fn means_nothing(c: Option<char>) -> bool {
    c != Some('!') && c != Some('$') && c != Some('`') && c != Some('\\') && c != Some('\'') && c
        != Some('"')
}

/// A stretch in which nothing means anything is passed over.
pub proof fn law_plain_text_is_passed_over<S: Fn(&str, Ask) -> Answer>(ls: LinesV, s: Seq<Glyph>, i: int, j: int, q: QuoteState, offset: Pos, shell: S)
    requires
        0 <= i <= j <= s.len(),
        forall|k: int| i <= k < j ==> means_nothing((#[trigger] s[k]).1),
    ensures
        hist_scan(ls, s, i, q, offset, shell) == hist_scan(ls, s, j, q, offset, shell),
    decreases j - i,
{
    if i < j {
        assert(means_nothing(s[i].1));
        law_plain_text_is_passed_over(ls, s, i + 1, j, q, offset, shell);
    }
}

/// Within single quotes exclamation marks stay: a quoted stretch without dollar
/// signs and backslashes is passed over, whatever marks it holds.
pub proof fn law_single_quotes_protect<S: Fn(&str, Ask) -> Answer>(ls: LinesV, s: Seq<Glyph>, i: int, j: int, offset: Pos, shell: S)
    requires
        0 <= i < j < s.len(),
        s[i].1 == Some('\''),
        s[j].1 == Some('\''),
        forall|k: int|
            i < k < j ==> (#[trigger] s[k]).1 != Some('\'') && s[k].1 != Some('$') && s[k].1 != Some(
                '\\',
            ),
    ensures
        hist_scan(ls, s, i, QuoteState::Outside, offset, shell) == hist_scan(
            ls,
            s,
            j + 1,
            QuoteState::Outside,
            offset,
            shell,
        ),
{
    lemma_to_the_quote(ls, s, i + 1, j, offset, shell);
}

proof fn lemma_to_the_quote<S: Fn(&str, Ask) -> Answer>(ls: LinesV, s: Seq<Glyph>, i: int, j: int, offset: Pos, shell: S)
    requires
        0 <= i <= j < s.len(),
        forall|k: int|
            i <= k < j ==> (#[trigger] s[k]).1 != Some('\'') && s[k].1 != Some('$') && s[k].1 != Some(
                '\\',
            ),
    ensures
        hist_scan(ls, s, i, QuoteState::Single, offset, shell) == hist_scan(
            ls,
            s,
            j,
            QuoteState::Single,
            offset,
            shell,
        ),
    decreases j - i,
{
    if i < j {
        assert(s[i].1 != Some('\''));
        lemma_to_the_quote(ls, s, i + 1, j, offset, shell);
    }
}

/// An escaped cluster is passed over, whatever it is.
pub proof fn law_escapes_protect<S: Fn(&str, Ask) -> Answer>(ls: LinesV, s: Seq<Glyph>, i: int, q: QuoteState, offset: Pos, shell: S)
    requires
        0 <= i,
        i + 1 < s.len(),
        s[i].1 == Some('\\'),
    ensures
        hist_scan(ls, s, i, q, offset, shell) == hist_scan(ls, s, i + 2, q, offset, shell),
{
}

/// Two exclamation marks stand for the last command of the history: the two
/// clusters give way to it, and the scan goes on behind them.
pub proof fn law_two_marks_are_the_last_command<S: Fn(&str, Ask) -> Answer>(ls: LinesV, s: Seq<Glyph>, i: int, q: QuoteState, shell: S)
    requires
        0 <= i,
        i + 1 < s.len(),
        s[i].1 == Some('!'),
        s[i + 1].1 == Some('!'),
        q != QuoteState::Single,
        s[i].0.row < ls.len(),
        s[i].0.col < ls[s[i].0.row as int].len() <= isize::MAX,
        answer(shell, Seq::empty(), Ask::HistoryLast).command is Some,
    ensures
        hist_scan(ls, s, i, q, Pos { row: 0, col: 0 }, shell) == seq![
            ChangeV {
                span: (s[i].0, Pos { row: s[i].0.row, col: (s[i].0.col + 1) as usize }),
                text: answer(shell, Seq::empty(), Ask::HistoryLast).command.unwrap(),
            },
        ] + hist_scan(ls, s, i + 2, q, Pos { row: 0, col: 0 }, shell),
{
    law_places_of_the_text_stay(ls, s[i].0);
    let c = ChangeV {
        span: (s[i].0, Pos { row: s[i].0.row, col: (s[i].0.col + 1) as usize }),
        text: answer(shell, Seq::empty(), Ask::HistoryLast).command.unwrap(),
    };
    assert(Seq::<ChangeV>::empty().push(c) =~= seq![c]);
}

/// An exclamation mark before a dollar sign stands for the last word of the
/// last command: what is left behind its last white space, white space at its
/// end apart.
pub proof fn law_mark_and_dollar_are_the_last_word<S: Fn(&str, Ask) -> Answer>(ls: LinesV, s: Seq<Glyph>, i: int, q: QuoteState, shell: S, head: Seq<char>, word: Seq<char>, tail: Seq<char>)
    requires
        0 <= i,
        i + 1 < s.len(),
        s[i].1 == Some('!'),
        s[i + 1].1 == Some('$'),
        q != QuoteState::Single,
        s[i].0.row < ls.len(),
        s[i].0.col < ls[s[i].0.row as int].len() <= isize::MAX,
        answer(shell, Seq::empty(), Ask::HistoryLast).command == Some(head + word + tail),
        word.len() > 0,
        forall|k: int| 0 <= k < word.len() ==> !is_space(#[trigger] word[k]),
        forall|k: int| 0 <= k < tail.len() ==> is_space(#[trigger] tail[k]),
        head.len() > 0 ==> is_space(head.last()),
    ensures
        hist_scan(ls, s, i, q, Pos { row: 0, col: 0 }, shell) == seq![
            ChangeV {
                span: (s[i].0, Pos { row: s[i].0.row, col: (s[i].0.col + 1) as usize }),
                text: word,
            },
        ] + hist_scan(ls, s, i + 2, q, Pos { row: 0, col: 0 }, shell),
{
    law_places_of_the_text_stay(ls, s[i].0);
    let c = ChangeV {
        span: (s[i].0, Pos { row: s[i].0.row, col: (s[i].0.col + 1) as usize }),
        text: word,
    };
    lemma_last_word(head, word, tail);
    assert(Seq::<ChangeV>::empty().push(c) =~= seq![c]);
}

proof fn lemma_last_word(head: Seq<char>, word: Seq<char>, tail: Seq<char>)
    requires
        word.len() > 0,
        forall|k: int| 0 <= k < word.len() ==> !is_space(#[trigger] word[k]),
        forall|k: int| 0 <= k < tail.len() ==> is_space(#[trigger] tail[k]),
        head.len() > 0 ==> is_space(head.last()),
    ensures
        last_word(head + word + tail) == Some(word),
    decreases tail.len(),
{
    let all = head + word + tail;
    if tail.len() > 0 {
        assert(is_space(tail[tail.len() - 1]));
        assert(all.drop_last() =~= head + word + tail.drop_last());
        lemma_last_word(head, word, tail.drop_last());
    } else {
        assert(all =~= head + word);
        assert(all.last() == word[word.len() - 1]);
        lemma_word_from(head, word, word.len() as int);
        assert(all.skip(head.len() as int) =~= word);
    }
}

proof fn lemma_word_from(head: Seq<char>, word: Seq<char>, n: int)
    requires
        0 <= n <= word.len(),
        forall|k: int| 0 <= k < word.len() ==> !is_space(#[trigger] word[k]),
        head.len() > 0 ==> is_space(head.last()),
    ensures
        word_from(head + word, head.len() + n) == head.len(),
    decreases n,
{
    if n > 0 {
        assert((head + word)[head.len() + n - 1] == word[n - 1]);
        lemma_word_from(head, word, n - 1);
    }
}

/// A character that can stand in the word behind an exclamation mark.
pub open spec fn in_token(c: char) -> bool {
    !is_space(c) && c != ';' && c != '&' && c != '|' && c != '(' && c != ')' && c != '<' && c != '>'
}

/// Outside double quotes, a mark before a word takes the word with it, up to
/// white space, an operator or the end of its row. What the shell finds in the
/// history for the word takes their place, else the word; and the scan goes on
/// behind the cluster that ends it.
pub proof fn law_a_mark_takes_its_word<S: Fn(&str, Ask) -> Answer>(ls: LinesV, s: Seq<Glyph>, i: int, k: int, shell: S)
    requires
        0 <= i,
        i + 1 < k <= s.len(),
        s[i].1 == Some('!'),
        forall|j: int|
            i < j < k ==> (#[trigger] s[j]).1 is Some && s[j].0.row <= s[i + 1].0.row,
        forall|j: int| i + 1 < j < k ==> in_token((#[trigger] s[j]).1.unwrap()),
        s[i + 1].1 != Some('!'),
        s[i + 1].1 != Some('$'),
        !is_space(s[i + 1].1.unwrap()),
        k < s.len() ==> s[k].1 is None || !in_token(s[k].1.unwrap()) || s[k].0.row > s[i + 1].0.row,
        forall|j: int|
            0 <= j < s.len() ==> (#[trigger] s[j]).0.row < ls.len() && s[j].0.col
                < ls[s[j].0.row as int].len() && s[j].0.col <= isize::MAX,
    ensures
        ({
            let word = text_of(
                covered(
                    ls,
                    MotionKind::Char { start: s[i + 1].0, end: s[k - 1].0, inclusive: true },
                ),
            );
            let found = answer(shell, word, Ask::HistoryToken).command;
            hist_scan(ls, s, i, QuoteState::Outside, Pos { row: 0, col: 0 }, shell) == seq![
                ChangeV {
                    span: (s[i].0, s[k - 1].0),
                    text: if found is Some {
                        found.unwrap()
                    } else {
                        word
                    },
                },
            ] + hist_scan(ls, s, k + 1, QuoteState::Outside, Pos { row: 0, col: 0 }, shell)
        }),
{
    let z = Pos { row: 0, col: 0 };
    assert(s[i].0.row < ls.len() && s[i + 1].0.row < ls.len() && s[k - 1].0.row < ls.len());
    law_places_of_the_text_stay(ls, s[i].0);
    law_places_of_the_text_stay(ls, s[i + 1].0);
    law_places_of_the_text_stay(ls, s[k - 1].0);
    assert(s[i + 1].1 is Some);
    lemma_token_reach(s, i + 2, k, s[i + 1].0.row);
    let (found, next, after) = bang_at(ls, s, i, QuoteState::Outside, z, shell);
    assert(after == QuoteState::Outside);
    assert(hist_scan(ls, s, next, after, z, shell) =~= hist_scan(
        ls,
        s,
        k + 1,
        QuoteState::Outside,
        z,
        shell,
    ));
    assert(found =~= seq![found[0]]);
}

proof fn lemma_token_reach(s: Seq<Glyph>, i: int, k: int, row: usize)
    requires
        0 <= i <= k <= s.len(),
        forall|j: int|
            i <= j < k ==> (#[trigger] s[j]).1 is Some && s[j].0.row <= row && in_token(
                s[j].1.unwrap(),
            ),
        k < s.len() ==> s[k].1 is None || !in_token(s[k].1.unwrap()) || s[k].0.row > row,
    ensures
        token_end(s, i, row, QuoteState::Outside) == (k, false),
    decreases k - i,
{
    if i < k {
        assert(s[i].1 is Some);
        lemma_token_reach(s, i + 1, k, row);
    }
}

} // verus!
