//! History expansion: exclamation marks that stand for earlier commands.

use vstd::prelude::*;
use crate::linebuf::buffer::{with_cursor, wf, BufV, LineBuf};
use crate::linebuf::change::{covered, retyped};
use crate::linebuf::lines::{cluster_count, text_of, LinesV};
use crate::linebuf::motion::alias_here;
use crate::linebuf::places::{place_at_byte, wrapped};
use crate::linebuf::pos::{cut_row, shifted, MotionKind, Pos};
use crate::linebuf::scan::Glyph;
use crate::seqs::{group_views, isat, sat, to_offset, views};
use crate::shell::{answer, consult, env_ok, Answer, Ask, Env};
use crate::text::{chars_of, is_space, string_of};

verus! {

broadcast use group_views;

/// What is to be put in place of a span, both ends of which go too.
#[derive(Debug)]
pub struct Change {
    pub span: (Pos, Pos),
    pub text: String,
}

#[verifier::ext_equal]
pub struct ChangeV {
    pub span: (Pos, Pos),
    pub text: Seq<char>,
}

impl View for Change {
    type V = ChangeV;

    open spec fn view(&self) -> ChangeV {
        ChangeV { span: self.span, text: self.text@ }
    }
}

/// Which quotes a place is in.
#[derive(Clone, Copy, Debug, PartialEq, Eq, Structural)]
pub enum QuoteState {
    Outside,
    Single,
    Double,
}

pub open spec fn single_toggled(q: QuoteState) -> QuoteState {
    match q {
        QuoteState::Outside => QuoteState::Single,
        QuoteState::Single => QuoteState::Outside,
        QuoteState::Double => QuoteState::Double,
    }
}

pub open spec fn double_toggled(q: QuoteState) -> QuoteState {
    match q {
        QuoteState::Outside => QuoteState::Double,
        QuoteState::Single => QuoteState::Single,
        QuoteState::Double => QuoteState::Outside,
    }
}

/// The rows of a command substitution, and where it ends.
pub struct Body {
    pub rows: Seq<Seq<Option<char>>>,
    pub end: int,
}

/// The text of `$(..)` from cluster `i` on: escapes taken off, parentheses
/// counted.
pub open spec fn paren_body(s: Seq<Glyph>, i: int, depth: int, rows: Seq<Seq<Option<char>>>, cur: Seq<Option<char>>) -> Body
    decreases s.len() - i,
{
    if i >= s.len() {
        Body { rows: rows.push(cur), end: s.len() as int }
    } else if s[i].1 == Some('\\') {
        if i + 1 < s.len() {
            paren_body(s, i + 2, depth, rows, cur.push(s[i + 1].1))
        } else {
            paren_body(s, i + 1, depth, rows, cur)
        }
    } else if s[i].1 == Some('$') {
        if i + 1 < s.len() && s[i + 1].1 == Some('(') {
            paren_body(s, i + 2, depth + 1, rows, cur.push(Some('$')).push(Some('(')))
        } else {
            paren_body(s, i + 1, depth, rows, cur.push(Some('$')))
        }
    } else if s[i].1 == Some(')') {
        if depth <= 1 {
            Body { rows: rows.push(cur), end: i + 1 }
        } else {
            paren_body(s, i + 1, depth - 1, rows, cur.push(Some(')')))
        }
    } else if s[i].1 == Some('\n') {
        paren_body(s, i + 1, depth, rows.push(cur), Seq::empty())
    } else {
        paren_body(s, i + 1, depth, rows, cur.push(s[i].1))
    }
}

/// The text between backticks from cluster `i` on, escapes taken off.
pub open spec fn tick_body(s: Seq<Glyph>, i: int, rows: Seq<Seq<Option<char>>>, cur: Seq<Option<char>>) -> Body
    decreases s.len() - i,
{
    if i >= s.len() {
        Body { rows: rows.push(cur), end: s.len() as int }
    } else if s[i].1 == Some('\\') {
        if i + 1 < s.len() {
            tick_body(s, i + 2, rows, cur.push(s[i + 1].1))
        } else {
            tick_body(s, i + 1, rows, cur)
        }
    } else if s[i].1 == Some('`') {
        Body { rows: rows.push(cur), end: i + 1 }
    } else if s[i].1 == Some('\n') {
        tick_body(s, i + 1, rows.push(cur), Seq::empty())
    } else {
        tick_body(s, i + 1, rows, cur.push(s[i].1))
    }
}

/// The clusters of the first `n` rows, each at its place.
pub open spec fn placed_rows(rows: Seq<Seq<Option<char>>>, n: int) -> Seq<Glyph>
    decreases n,
{
    if n <= 0 {
        Seq::empty()
    } else {
        placed_rows(rows, n - 1) + Seq::new(
            rows[n - 1].len(),
            |c: int| (Pos { row: (n - 1) as usize, col: c as usize }, rows[n - 1][c]),
        )
    }
}

pub open spec fn body_glyphs(b: Body) -> Seq<Glyph> {
    placed_rows(b.rows, b.rows.len() as int)
}

proof fn lemma_placed_push(rows: Seq<Seq<Option<char>>>, cur: Seq<Option<char>>)
    ensures
        placed_rows(rows.push(cur), rows.len() as int + 1).len() == placed_rows(
            rows,
            rows.len() as int,
        ).len() + cur.len(),
{
    lemma_placed_same(rows, rows.push(cur), rows.len() as int);
}

proof fn lemma_placed_same(a: Seq<Seq<Option<char>>>, b: Seq<Seq<Option<char>>>, n: int)
    requires
        0 <= n <= a.len(),
        n <= b.len(),
        forall|i: int| 0 <= i < n ==> a[i] == b[i],
    ensures
        placed_rows(a, n) == placed_rows(b, n),
    decreases n,
{
    if n > 0 {
        lemma_placed_same(a, b, n - 1);
        assert(a[n - 1] == b[n - 1]);
        assert(placed_rows(a, n) =~= placed_rows(b, n));
    }
}

/// A substitution holds no more clusters than it took.
pub proof fn lemma_paren_len(s: Seq<Glyph>, i: int, depth: int, rows: Seq<Seq<Option<char>>>, cur: Seq<Option<char>>)
    requires
        0 <= i <= s.len(),
    ensures
        i <= paren_body(s, i, depth, rows, cur).end <= s.len(),
        body_glyphs(paren_body(s, i, depth, rows, cur)).len() <= placed_rows(
            rows,
            rows.len() as int,
        ).len() + cur.len() + (s.len() - i),
    decreases s.len() - i,
{
    lemma_placed_push(rows, cur);
    if i < s.len() {
        if s[i].1 == Some('\\') {
            if i + 1 < s.len() {
                lemma_paren_len(s, i + 2, depth, rows, cur.push(s[i + 1].1));
            } else {
                lemma_paren_len(s, i + 1, depth, rows, cur);
            }
        } else if s[i].1 == Some('$') {
            if i + 1 < s.len() && s[i + 1].1 == Some('(') {
                lemma_paren_len(s, i + 2, depth + 1, rows, cur.push(Some('$')).push(Some('(')));
            } else {
                lemma_paren_len(s, i + 1, depth, rows, cur.push(Some('$')));
            }
        } else if s[i].1 == Some(')') {
            if depth > 1 {
                lemma_paren_len(s, i + 1, depth - 1, rows, cur.push(Some(')')));
            }
        } else if s[i].1 == Some('\n') {
            lemma_paren_len(s, i + 1, depth, rows.push(cur), Seq::empty());
        } else {
            lemma_paren_len(s, i + 1, depth, rows, cur.push(s[i].1));
        }
    }
}

pub proof fn lemma_tick_len(s: Seq<Glyph>, i: int, rows: Seq<Seq<Option<char>>>, cur: Seq<Option<char>>)
    requires
        0 <= i <= s.len(),
    ensures
        i <= tick_body(s, i, rows, cur).end <= s.len(),
        body_glyphs(tick_body(s, i, rows, cur)).len() <= placed_rows(
            rows,
            rows.len() as int,
        ).len() + cur.len() + (s.len() - i),
    decreases s.len() - i,
{
    lemma_placed_push(rows, cur);
    if i < s.len() {
        if s[i].1 == Some('\\') {
            if i + 1 < s.len() {
                lemma_tick_len(s, i + 2, rows, cur.push(s[i + 1].1));
            } else {
                lemma_tick_len(s, i + 1, rows, cur);
            }
        } else if s[i].1 == Some('`') {
        } else if s[i].1 == Some('\n') {
            lemma_tick_len(s, i + 1, rows.push(cur), Seq::empty());
        } else {
            lemma_tick_len(s, i + 1, rows, cur.push(s[i].1));
        }
    }
}

/// Where a place of a substitution lies in the buffer, given where the
/// substitution starts.
pub open spec fn mapped(ls: LinesV, sub: Pos, offset: Pos) -> Pos {
    if sub.row == 0 {
        wrapped(
            ls,
            cut_row(offset.row, ls.len() as int) as int,
            offset.col as int,
            isat(sub.col as int) as int,
        )
    } else {
        Pos { row: sat(offset.row + sub.row), col: sub.col }
    }
}

/// A character that ends the word behind an exclamation mark.
pub open spec fn ends_token(c: char) -> bool {
    is_space(c) || c == ';' || c == '&' || c == '|' || c == '(' || c == ')' || c == '<' || c == '>'
}

/// Where the word behind an exclamation mark ends: the last of its clusters,
/// and whether the quotes that end it are taken with it.
pub open spec fn token_end(s: Seq<Glyph>, i: int, row: usize, q: QuoteState) -> (int, bool)
    decreases s.len() - i,
{
    if i >= s.len() || s[i].0.row > row {
        (i, false)
    } else {
        match s[i].1 {
            None => (i, false),
            Some(c) => if ends_token(c) {
                (i, false)
            } else if c == '"' && q == QuoteState::Double {
                (i, true)
            } else {
                token_end(s, i + 1, row, q)
            },
        }
    }
}

/// The last word of a text.
pub open spec fn last_word(s: Seq<char>) -> Option<Seq<char>> {
    let t = crate::text::trim_back(s);
    if t.len() == 0 {
        None
    } else {
        Some(t.skip(word_from(t, t.len() as int)))
    }
}

/// Where the word that ends before `i` starts.
pub open spec fn word_from(s: Seq<char>, i: int) -> int
    decreases i,
{
    if i <= 0 || is_space(s[i - 1]) {
        i
    } else {
        word_from(s, i - 1)
    }
}

/// The last command of the history.
pub open spec fn last_command<S: Fn(&str, Ask) -> Answer>(shell: S) -> Option<Seq<char>> {
    answer(shell, Seq::empty(), Ask::HistoryLast).command
}

/// What a word behind an exclamation mark stands for; the word itself where it
/// stands for nothing.
pub open spec fn token_value<S: Fn(&str, Ask) -> Answer>(token: Seq<char>, shell: S) -> Seq<char> {
    match answer(shell, token, Ask::HistoryToken).command {
        Some(c) => c,
        None => token,
    }
}

/// The changes for one exclamation mark at cluster `i`, where the scan goes on
/// behind it, and the quotes there.
pub open spec fn bang_at<S: Fn(&str, Ask) -> Answer>(ls: LinesV, s: Seq<Glyph>, i: int, q: QuoteState, offset: Pos, shell: S) -> (Seq<ChangeV>, int, QuoteState) {
    let none = Seq::<ChangeV>::empty();
    if i + 1 >= s.len() {
        (none, i + 1, q)
    } else {
        match s[i + 1].1 {
            None => (none, i + 2, q),
            Some(c) => {
                let start = mapped(ls, s[i].0, offset);
                if c == '!' {
                    match last_command(shell) {
                        Some(t) => (
                            none.push(ChangeV { span: (start, shifted(start, 0, 1)), text: t }),
                            i + 2,
                            q,
                        ),
                        None => (none, i + 2, q),
                    }
                } else if c == '$' {
                    match last_command(shell) {
                        Some(t) => match last_word(t) {
                            Some(w) => (
                                none.push(
                                    ChangeV { span: (start, shifted(start, 0, 1)), text: w },
                                ),
                                i + 2,
                                q,
                            ),
                            None => (none, i + 2, q),
                        },
                        None => (none, i + 2, q),
                    }
                } else if is_space(c) {
                    (none, i + 2, q)
                } else if c == '"' && q == QuoteState::Double {
                    (none, i + 2, double_toggled(q))
                } else {
                    let (k, quote) = token_end(s, i + 2, s[i + 1].0.row, q);
                    let from = mapped(ls, s[i + 1].0, offset);
                    let end = mapped(ls, s[k - 1].0, offset);
                    let token = text_of(
                        covered(ls, MotionKind::Char { start: from, end, inclusive: true }),
                    );
                    (
                        none.push(
                            ChangeV { span: (start, end), text: token_value(token, shell) },
                        ),
                        if k < s.len() {
                            k + 1
                        } else {
                            k
                        },
                        if quote {
                            double_toggled(q)
                        } else {
                            q
                        },
                    )
                }
            },
        }
    }
}

/// How many clusters there are from cluster `i` on.
pub open spec fn left_from(s: Seq<Glyph>, i: int) -> nat {
    if 0 <= i < s.len() {
        (s.len() - i) as nat
    } else {
        0
    }
}

/// Where the scan goes on behind a dollar sign: past the cluster that follows
/// it, and past the exclamation mark of an indirect parameter.
pub open spec fn past_dollar(s: Seq<Glyph>, i: int) -> int {
    if i + 2 < s.len() && s[i + 1].1 == Some('{') && s[i + 2].1 == Some('!') {
        i + 3
    } else {
        i + 2
    }
}

/// The changes that history expansion makes, from cluster `i` on. Single
/// quotes and escapes protect an exclamation mark; a command substitution in
/// double quotes is read on its own.
pub open spec fn hist_scan<S: Fn(&str, Ask) -> Answer>(ls: LinesV, s: Seq<Glyph>, i: int, q: QuoteState, offset: Pos, shell: S) -> Seq<ChangeV>
    decreases left_from(s, i),
    via hist_scan_ends::<S>
{
    if i < 0 || i >= s.len() {
        Seq::empty()
    } else {
        match s[i].1 {
            None => hist_scan(ls, s, i + 1, q, offset, shell),
            Some(c) => if (c == '$' || c == '`') && q == QuoteState::Double {
                if i + 1 < s.len() && s[i + 1].1 == Some('(') {
                    let body = paren_body(s, i + 2, 1, Seq::empty(), Seq::empty());
                    hist_scan(
                        ls,
                        body_glyphs(body),
                        0,
                        QuoteState::Outside,
                        mapped(ls, shifted(s[i].0, 0, 2), offset),
                        shell,
                    ) + hist_scan(ls, s, body.end, q, offset, shell)
                } else if c == '`' {
                    let body = tick_body(s, i + 1, Seq::empty(), Seq::empty());
                    hist_scan(
                        ls,
                        body_glyphs(body),
                        0,
                        QuoteState::Outside,
                        mapped(ls, shifted(s[i].0, 0, 1), offset),
                        shell,
                    ) + hist_scan(ls, s, body.end, q, offset, shell)
                } else {
                    hist_scan(ls, s, past_dollar(s, i), q, offset, shell)
                }
            } else if c == '$' {
                hist_scan(ls, s, past_dollar(s, i), q, offset, shell)
            } else if c == '\\' {
                hist_scan(ls, s, i + 2, q, offset, shell)
            } else if c == '\'' {
                hist_scan(ls, s, i + 1, single_toggled(q), offset, shell)
            } else if c == '"' {
                hist_scan(ls, s, i + 1, double_toggled(q), offset, shell)
            } else if c == '!' && q != QuoteState::Single {
                let (found, next, after) = bang_at(ls, s, i, q, offset, shell);
                if next <= i {
                    found
                } else {
                    found + hist_scan(ls, s, next, after, offset, shell)
                }
            } else {
                hist_scan(ls, s, i + 1, q, offset, shell)
            },
        }
    }
}

#[via_fn]
proof fn hist_scan_ends<S: Fn(&str, Ask) -> Answer>(ls: LinesV, s: Seq<Glyph>, i: int, q: QuoteState, offset: Pos, shell: S) {
    if 0 <= i && i < s.len() {
        if i + 2 <= s.len() {
            lemma_paren_len(s, i + 2, 1, Seq::empty(), Seq::empty());
        }
        lemma_tick_len(s, i + 1, Seq::empty(), Seq::empty());
    }
}

/// Where the scan goes on behind a dollar sign, within the clusters.
fn skip_dollar(s: &[Glyph], i: usize) -> (k: usize)
    requires
        i < s@.len(),
    ensures
        i < k <= s@.len(),
        k == past_dollar(s@, i as int) || (k == s@.len() && past_dollar(s@, i as int) > k),
{
    let left: usize = s.len() - i;
    if left > 2 {
        let brace = match s[i + 1].1 {
            Some(c) => c == '{',
            None => false,
        };
        let bang = match s[i + 2].1 {
            Some(c) => c == '!',
            None => false,
        };
        if brace && bang {
            return i + 3;
        }
    }
    if left > 1 {
        i + 2
    } else {
        i + 1
    }
}

/// The rows of a substitution, as they are collected.
fn place_glyphs(rows: &Vec<Vec<Option<char>>>) -> (v: Vec<Glyph>)
    ensures
        v@ == placed_rows(views(rows@), rows@.len() as int),
{
    let ghost rv = views(rows@);
    let mut v: Vec<Glyph> = Vec::new();
    let mut row: usize = 0;
    while row < rows.len()
        invariant
            row <= rows@.len(),
            rv == views(rows@),
            v@ == placed_rows(rv, row as int),
        decreases rows@.len() - row,
    {
        let line = &rows[row];
        let ghost cells = Seq::new(
            line@.len(),
            |c: int| (Pos { row: row as usize, col: c as usize }, line@[c]),
        );
        let ghost head = v@;
        let mut col: usize = 0;
        assert(head + cells.take(0) =~= head);
        while col < line.len()
            invariant
                col <= line@.len(),
                cells == Seq::new(
                    line@.len(),
                    |c: int| (Pos { row: row as usize, col: c as usize }, line@[c]),
                ),
                v@ == head + cells.take(col as int),
            decreases line@.len() - col,
        {
            v.push((Pos { row, col }, line[col]));
            col += 1;
            assert(v@ =~= head + cells.take(col as int));
        }
        assert(cells.take(line@.len() as int) =~= cells);
        assert(rv[row as int] == line@);
        row += 1;
        assert(v@ =~= placed_rows(rv, row as int));
    }
    v
}

/// Ends a row and begins another.
fn end_row(rows: &mut Vec<Vec<Option<char>>>, cur: &mut Vec<Option<char>>)
    ensures
        views(final(rows)@) == views(old(rows)@).push(old(cur)@),
        final(cur)@ == Seq::<Option<char>>::empty(),
{
    let mut next: Vec<Option<char>> = Vec::new();
    core::mem::swap(cur, &mut next);
    rows.push(next);
}

/// Reads `$(..)` from cluster `i` on.
fn read_paren(s: &[Glyph], i: usize) -> (r: (Vec<Glyph>, usize))
    requires
        i <= s@.len(),
    ensures
        ({
            let b = paren_body(s@, i as int, 1, Seq::empty(), Seq::empty());
            r.0@ == body_glyphs(b) && r.1 == b.end
        }),
        i <= r.1 <= s@.len(),
        r.0@.len() <= s@.len() - i,
{
    let ghost goal = paren_body(s@, i as int, 1, Seq::empty(), Seq::empty());
    proof {
        lemma_paren_len(s@, i as int, 1, Seq::empty(), Seq::empty());
    }
    let mut rows: Vec<Vec<Option<char>>> = Vec::new();
    let mut cur: Vec<Option<char>> = Vec::new();
    let mut depth: u128 = 1;
    let mut k: usize = i;
    assert(views(rows@) =~= Seq::<Seq<Option<char>>>::empty());
    assert(cur@ =~= Seq::<Option<char>>::empty());
    let mut end: usize = s.len();
    let mut open: bool = true;
    while open && k < s.len()
        invariant
            i <= k <= s@.len(),
            1 <= depth <= k + 1,
            open ==> goal == paren_body(s@, k as int, depth as int, views(rows@), cur@),
            open ==> end == s@.len(),
            !open ==> goal.rows == views(rows@).push(cur@) && goal.end == end && k == end,
        decreases s@.len() - k,
    {
        match s[k].1 {
            Some('\\') => {
                if k < s.len() - 1 {
                    cur.push(s[k + 1].1);
                    k += 2;
                } else {
                    k += 1;
                }
            },
            Some('$') => {
                let opens = k < s.len() - 1 && match s[k + 1].1 {
                    Some(c) => c == '(',
                    None => false,
                };
                cur.push(Some('$'));
                if opens {
                    cur.push(Some('('));
                    depth = depth + 1;
                    k += 2;
                } else {
                    k += 1;
                }
            },
            Some(')') => {
                if depth <= 1 {
                    end = k + 1;
                    open = false;
                } else {
                    depth = depth - 1;
                    cur.push(Some(')'));
                }
                k += 1;
            },
            Some('\n') => {
                end_row(&mut rows, &mut cur);
                k += 1;
            },
            other => {
                cur.push(other);
                k += 1;
            },
        }
    }
    rows.push(cur);
    assert(views(rows@) == goal.rows);
    (place_glyphs(&rows), end)
}

/// Reads what stands between backticks from cluster `i` on.
fn read_tick(s: &[Glyph], i: usize) -> (r: (Vec<Glyph>, usize))
    requires
        i <= s@.len(),
    ensures
        ({
            let b = tick_body(s@, i as int, Seq::empty(), Seq::empty());
            r.0@ == body_glyphs(b) && r.1 == b.end
        }),
        i <= r.1 <= s@.len(),
        r.0@.len() <= s@.len() - i,
{
    let ghost goal = tick_body(s@, i as int, Seq::empty(), Seq::empty());
    proof {
        lemma_tick_len(s@, i as int, Seq::empty(), Seq::empty());
    }
    let mut rows: Vec<Vec<Option<char>>> = Vec::new();
    let mut cur: Vec<Option<char>> = Vec::new();
    let mut k: usize = i;
    assert(views(rows@) =~= Seq::<Seq<Option<char>>>::empty());
    assert(cur@ =~= Seq::<Option<char>>::empty());
    let mut end: usize = s.len();
    let mut open: bool = true;
    while open && k < s.len()
        invariant
            i <= k <= s@.len(),
            open ==> goal == tick_body(s@, k as int, views(rows@), cur@),
            open ==> end == s@.len(),
            !open ==> goal.rows == views(rows@).push(cur@) && goal.end == end && k == end,
        decreases s@.len() - k,
    {
        match s[k].1 {
            Some('\\') => {
                if k < s.len() - 1 {
                    cur.push(s[k + 1].1);
                    k += 2;
                } else {
                    k += 1;
                }
            },
            Some('`') => {
                k += 1;
                end = k;
                open = false;
            },
            Some('\n') => {
                end_row(&mut rows, &mut cur);
                k += 1;
            },
            other => {
                cur.push(other);
                k += 1;
            },
        }
    }
    rows.push(cur);
    assert(views(rows@) == goal.rows);
    (place_glyphs(&rows), end)
}

/// The last word of a text.
fn find_last_word(s: &str) -> (w: Option<String>)
    ensures
        crate::linebuf::buffer::opt_view(w) == last_word(s@),
{
    let t = crate::text::trim_text_end(s);
    let chars = chars_of(t.as_str());
    let n = chars.len();
    if n == 0 {
        return None;
    }
    let mut i: usize = n;
    while i > 0 && !chars[i - 1].is_whitespace()
        invariant
            i <= n,
            n == chars@.len(),
            word_from(chars@, n as int) == word_from(chars@, i as int),
        decreases i,
    {
        i -= 1;
    }
    let tail = vstd::slice::slice_subrange(chars.as_slice(), i, n);
    assert(tail@ =~= chars@.skip(i as int));
    Some(string_of(tail))
}

fn find_token_end(s: &[Glyph], i: usize, row: usize, q: QuoteState) -> (r: (usize, bool))
    requires
        i <= s@.len(),
    ensures
        (r.0 as int, r.1) == token_end(s@, i as int, row, q),
        i <= r.0 <= s@.len(),
        r.1 ==> r.0 < s@.len(),
{
    let mut k: usize = i;
    while k < s.len()
        invariant
            i <= k <= s@.len(),
            token_end(s@, i as int, row, q) == token_end(s@, k as int, row, q),
        decreases s@.len() - k,
    {
        if s[k].0.row > row {
            return (k, false);
        }
        match s[k].1 {
            None => {
                return (k, false);
            },
            Some(c) => {
                if c.is_whitespace() || c == ';' || c == '&' || c == '|' || c == '(' || c == ')'
                    || c == '<' || c == '>' {
                    return (k, false);
                }
                if c == '"' && q == QuoteState::Double {
                    return (k, true);
                }
            },
        }
        k += 1;
    }
    (k, false)
}

fn toggle_double(q: QuoteState) -> (r: QuoteState)
    ensures
        r == double_toggled(q),
{
    match q {
        QuoteState::Outside => QuoteState::Double,
        QuoteState::Single => QuoteState::Single,
        QuoteState::Double => QuoteState::Outside,
    }
}

fn toggle_single(q: QuoteState) -> (r: QuoteState)
    ensures
        r == single_toggled(q),
{
    match q {
        QuoteState::Outside => QuoteState::Single,
        QuoteState::Single => QuoteState::Outside,
        QuoteState::Double => QuoteState::Double,
    }
}

impl LineBuf {
    /// Where a place of a substitution lies in the buffer.
    fn map_place(&self, sub: Pos, offset: Pos) -> (p: Pos)
        requires
            self@.lines.len() > 0,
        ensures
            p == mapped(self@.lines, sub, offset),
    {
        if sub.row == 0 {
            let row = self.clamp_to_row(offset.row);
            let (r, c) = self.offset_col_wrapping_at(row, to_offset(sub.col), offset);
            Pos { row: r, col: c }
        } else {
            Pos { row: offset.row.saturating_add(sub.row), col: sub.col }
        }
    }

    /// Handles the exclamation mark at cluster `i`.
    fn expand_bang<S: Fn(&str, Ask) -> Answer>(
        &self,
        changes: &mut Vec<Change>,
        s: &[Glyph],
        i: usize,
        q: QuoteState,
        offset: Pos,
        env: &Env<S>,
    ) -> (r: (usize, QuoteState))
        requires
            self@.lines.len() > 0,
            env_ok(*env),
            i < s@.len(),
        ensures
            ({
                let b = bang_at(self@.lines, s@, i as int, q, offset, env.shell);
                views(final(changes)@) == views(old(changes)@) + b.0 && r.0 == b.1 && r.1 == b.2
            }),
            i < r.0 <= s@.len(),
    {
        let ghost was = views(changes@);
        assert(was + Seq::<ChangeV>::empty() =~= was);
        if i >= s.len() - 1 {
            return (i + 1, q);
        }
        let c = match s[i + 1].1 {
            Some(c) => c,
            None => {
                return (i + 2, q);
            },
        };
        let start = self.map_place(s[i].0, offset);
        if c == '!' || c == '$' {
            let ans = consult(&env.shell, "", Ask::HistoryLast);
            proof {
                reveal_strlit("");
                assert(""@ =~= Seq::<char>::empty());
            }
            let text = match &ans.command {
                Some(t) => if c == '!' {
                    Some(t.clone())
                } else {
                    find_last_word(t.as_str())
                },
                None => None,
            };
            if let Some(text) = text {
                let ghost tv = text@;
                changes.push(Change { span: (start, start.col_add(1)), text });
                assert(views(changes@) =~= was + Seq::<ChangeV>::empty().push(
                    ChangeV { span: (start, shifted(start, 0, 1)), text: tv },
                ));
            }
            return (i + 2, q);
        }
        if c.is_whitespace() {
            return (i + 2, q);
        }
        if c == '"' && q == QuoteState::Double {
            return (i + 2, toggle_double(q));
        }
        let (k, quote) = find_token_end(s, i + 2, s[i + 1].0.row, q);
        let from = self.map_place(s[i + 1].0, offset);
        let end = self.map_place(s[k - 1].0, offset);
        let token = self.yank_span((from, end), true).join();
        let ans = consult(&env.shell, token.as_str(), Ask::HistoryToken);
        let text = match ans.command {
            Some(c) => c,
            None => token,
        };
        let ghost tv = text@;
        changes.push(Change { span: (start, end), text });
        assert(views(changes@) =~= was + Seq::<ChangeV>::empty().push(
            ChangeV { span: (start, end), text: tv },
        ));
        let next = if k < s.len() {
            k + 1
        } else {
            k
        };
        let after = if quote {
            toggle_double(q)
        } else {
            q
        };
        (next, after)
    }

    /// Finds what history expansion changes in the clusters given, and whether
    /// there is anything to change. A command substitution in double quotes is
    /// read on its own, for the quotes within count there.
    pub fn find_history_expansions<S: Fn(&str, Ask) -> Answer>(
        &self,
        changes: &mut Vec<Change>,
        positions: &[Glyph],
        offset: Pos,
        env: &Env<S>,
    ) -> (r: bool)
        requires
            self@.lines.len() > 0,
            env_ok(*env),
        ensures
            views(final(changes)@) == views(old(changes)@) + hist_scan(
                self@.lines,
                positions@,
                0,
                QuoteState::Outside,
                offset,
                env.shell,
            ),
            r == (final(changes)@.len() > 0),
        decreases positions@.len(),
    {
        let s = positions;
        let ghost ls = self@.lines;
        let ghost goal = views(changes@) + hist_scan(
            ls,
            s@,
            0,
            QuoteState::Outside,
            offset,
            env.shell,
        );
        let mut q: QuoteState = QuoteState::Outside;
        let mut i: usize = 0;
        while i < s.len()
            invariant
                ls == self@.lines,
                ls.len() > 0,
                env_ok(*env),
                s@ == positions@,
                goal == views(changes@) + hist_scan(ls, s@, i as int, q, offset, env.shell),
            decreases s@.len() - i,
        {
            let ghost before = views(changes@);
            let ghost here = hist_scan(ls, s@, i as int, q, offset, env.shell);
            assert(past_dollar(s@, i as int) > s@.len() ==> hist_scan(
                ls,
                s@,
                past_dollar(s@, i as int),
                q,
                offset,
                env.shell,
            ) =~= Seq::<ChangeV>::empty());
            assert(i + 2 > s@.len() ==> hist_scan(ls, s@, i + 2, q, offset, env.shell)
                =~= Seq::<ChangeV>::empty());
            match s[i].1 {
                None => {
                    i += 1;
                },
                Some(c) => {
                    if (c == '$' || c == '`') && q == QuoteState::Double {
                        let opens = i < s.len() - 1 && match s[i + 1].1 {
                            Some(d) => d == '(',
                            None => false,
                        };
                        if opens {
                            let (sub, end) = read_paren(s, i + 2);
                            let at = self.map_place(s[i].0.col_add(2), offset);
                            self.find_history_expansions(changes, sub.as_slice(), at, env);
                            i = end;
                        } else if c == '`' {
                            let (sub, end) = read_tick(s, i + 1);
                            let at = self.map_place(s[i].0.col_add(1), offset);
                            self.find_history_expansions(changes, sub.as_slice(), at, env);
                            i = end;
                        } else {
                            i = skip_dollar(s, i);
                        }
                    } else if c == '$' {
                        i = skip_dollar(s, i);
                    } else if c == '\\' {
                        if i < s.len() - 1 {
                            i += 2;
                        } else {
                            i += 1;
                        }
                    } else if c == '\'' {
                        q = toggle_single(q);
                        i += 1;
                    } else if c == '"' {
                        q = toggle_double(q);
                        i += 1;
                    } else if c == '!' && q != QuoteState::Single {
                        let (next, after) = self.expand_bang(changes, s, i, q, offset, env);
                        i = next;
                        q = after;
                    } else {
                        i += 1;
                    }
                },
            }
            assert(views(changes@) + hist_scan(ls, s@, i as int, q, offset, env.shell) =~= before
                + here);
        }
        assert(views(changes@) =~= goal);
        changes.len() > 0
    }
}

/// An exclamation mark found in the text: the bytes it takes, what stands
/// there, and the command it stands for.
#[derive(Debug)]
pub struct HistUse {
    pub start: usize,
    pub end: usize,
    pub raw: String,
    pub resolved: Option<String>,
}

#[verifier::ext_equal]
pub struct HistUseV {
    pub start: usize,
    pub end: usize,
    pub raw: Seq<char>,
    pub resolved: Option<Seq<char>>,
}

impl View for HistUse {
    type V = HistUseV;

    open spec fn view(&self) -> HistUseV {
        HistUseV {
            start: self.start,
            end: self.end,
            raw: self.raw@,
            resolved: crate::linebuf::buffer::opt_view(self.resolved),
        }
    }
}

/// What is put in place of an exclamation mark: the command it stands for, else
/// what stands there without the mark.
pub open spec fn use_text(u: HistUseV) -> Seq<char> {
    match u.resolved {
        Some(t) => t,
        None => if u.raw.len() > 0 && u.raw[0] == '!' {
            u.raw.skip(1)
        } else {
            u.raw
        },
    }
}

/// The change an exclamation mark makes, where its bytes lie in the text.
pub open spec fn use_change(ls: LinesV, u: HistUseV) -> Option<ChangeV> {
    match (place_at_byte(ls, u.start), place_at_byte(ls, u.end)) {
        (Some(s), Some(e)) => Some(ChangeV { span: (s, shifted(e, 0, -1)), text: use_text(u) }),
        _ => None,
    }
}

/// The changes of the first `n` exclamation marks.
pub open spec fn use_changes(ls: LinesV, uses: Seq<HistUseV>, n: int) -> Seq<ChangeV>
    decreases n,
{
    if n <= 0 {
        Seq::empty()
    } else {
        match use_change(ls, uses[n - 1]) {
            Some(c) => use_changes(ls, uses, n - 1).push(c),
            None => use_changes(ls, uses, n - 1),
        }
    }
}

/// The buffer with a change made, the cursor moved along by as much as the text
/// grew.
pub open spec fn change_made<S: Fn(&str, Ask) -> Answer>(b: BufV, c: ChangeV, shell: S) -> BufV {
    let d = retyped(b, c.span, c.text, shell);
    let grown = sat(cluster_count(d.lines)) - sat(cluster_count(b.lines));
    with_cursor(
        d,
        wrapped(
            d.lines,
            d.cursor.pos.row as int,
            d.cursor.pos.col as int,
            isat(grown) as int,
        ),
    )
}

/// The buffer with the first `n` changes made, the last one first.
pub open spec fn changes_made<S: Fn(&str, Ask) -> Answer>(b: BufV, cs: Seq<ChangeV>, n: int, shell: S) -> BufV
    decreases n,
{
    if n <= 0 {
        b
    } else {
        changes_made(change_made(b, cs[n - 1], shell), cs, n - 1, shell)
    }
}

/// The buffer with its exclamation marks expanded.
pub open spec fn history_expanded<S: Fn(&str, Ask) -> Answer>(b: BufV, uses: Seq<HistUseV>, shell: S) -> BufV {
    let cs = use_changes(b.lines, uses, uses.len() as int);
    changes_made(b, cs, cs.len() as int, shell)
}

impl LineBuf {
    /// Makes a change.
    fn make_change<S: Fn(&str, Ask) -> Answer>(&mut self, c: &Change, env: &Env<S>)
        requires
            old(self)@.lines.len() > 0,
            env_ok(*env),
        ensures
            final(self)@ == change_made(old(self)@, c@, env.shell),
            wf(final(self)@),
    {
        let was = self.count_graphemes();
        let _ = self.replace_range(c.span, c.text.as_str(), env);
        let now = self.count_graphemes();
        let ghost d = self@;
        let grown = now as i128 - was as i128;
        let off: isize = if grown > isize::MAX as i128 {
            isize::MAX
        } else if grown < isize::MIN as i128 {
            isize::MIN
        } else {
            grown as isize
        };
        let row = self.cursor.pos.row;
        let (r, col) = self.offset_col_wrapping(row, off);
        self.cursor.pos = Pos { row: r, col };
        assert(self@ =~= change_made(old(self)@, c@, env.shell));
    }

    /// Expands the exclamation marks found in the text; says whether there were
    /// any.
    pub fn attempt_history_expansion<S: Fn(&str, Ask) -> Answer>(
        &mut self,
        found: &[HistUse],
        env: &Env<S>,
    ) -> (r: bool)
        requires
            wf(old(self)@),
            env_ok(*env),
        ensures
            final(self)@ == history_expanded(old(self)@, views(found@), env.shell),
            r == (use_changes(old(self)@.lines, views(found@), found@.len() as int).len() > 0),
            wf(final(self)@),
    {
        let ghost ls = self@.lines;
        let ghost uses = views(found@);
        let mut changes: Vec<Change> = Vec::new();
        let mut i: usize = 0;
        while i < found.len()
            invariant
                i <= found@.len(),
                ls == self@.lines,
                uses == views(found@),
                views(changes@) == use_changes(ls, uses, i as int),
            decreases found@.len() - i,
        {
            let u = &found[i];
            assert(uses[i as int] == u@);
            if let (Some(s), Some(e)) = (self.byte_to_pos(u.start), self.byte_to_pos(u.end)) {
                let text = match &u.resolved {
                    Some(t) => t.clone(),
                    None => without_bang(u.raw.as_str()),
                };
                let ghost tv = text@;
                changes.push(Change { span: (s, e.col_sub(1)), text });
                assert(views(changes@) =~= use_changes(ls, uses, i as int).push(
                    ChangeV { span: (s, shifted(e, 0, -1)), text: tv },
                ));
            }
            i += 1;
        }
        let n = changes.len();
        let ghost cs = views(changes@);
        let mut k: usize = n;
        while k > 0
            invariant
                k <= n,
                n == changes@.len(),
                cs == views(changes@),
                env_ok(*env),
                wf(self@),
                changes_made(old(self)@, cs, n as int, env.shell) == changes_made(
                    self@,
                    cs,
                    k as int,
                    env.shell,
                ),
            decreases k,
        {
            let c = &changes[k - 1];
            assert(cs[k - 1] == c@);
            self.make_change(c, env);
            k -= 1;
        }
        n > 0
    }

    /// Expands exclamation marks, and the alias before the cursor.
    pub fn attempt_inline_expansion<S: Fn(&str, Ask) -> Answer>(
        &mut self,
        found: &[HistUse],
        env: &Env<S>,
    ) -> (r: bool)
        requires
            wf(old(self)@),
            env_ok(*env),
        ensures
            ({
                let b = history_expanded(old(self)@, views(found@), env.shell);
                &&& final(self)@ == crate::linebuf::motion::alias_put(b, env.shell)
                &&& r == (use_changes(
                    old(self)@.lines,
                    views(found@),
                    found@.len() as int,
                ).len() > 0 || alias_here(b, env.shell) is Some)
            }),
            wf(final(self)@),
    {
        let hist = self.attempt_history_expansion(found, env);
        let alias = self.attempt_alias_expansion(env);
        hist || alias
    }
}

/// A text without the exclamation mark it begins with.
fn without_bang(s: &str) -> (r: String)
    ensures
        r@ == if s@.len() > 0 && s@[0] == '!' {
            s@.skip(1)
        } else {
            s@
        },
{
    let chars = chars_of(s);
    if chars.len() > 0 && chars[0] == '!' {
        let tail = vstd::slice::slice_subrange(chars.as_slice(), 1, chars.len());
        assert(tail@ =~= s@.skip(1));
        string_of(tail)
    } else {
        string_of(chars.as_slice())
    }
}

} // verus!
