//! Searches for characters: delimiters and their partners, quotes, numbers,
//! and a character within a line.

use vstd::prelude::*;
use crate::editcmd::{Bound, Dest, Direction, TextObj};
use crate::linebuf::buffer::{clamped, cluster_at, line_at, BufV, LineBuf};
use crate::linebuf::grapheme::{sole_char, Grapheme};
use crate::linebuf::line::LineV;
use crate::linebuf::lines::LinesV;
use crate::linebuf::places::col_off;
use crate::linebuf::pos::{pos_le, pos_lt, shifted, MotionKind, Pos};
use crate::linebuf::words::{
    final_col, forward_cells, place, seek, word_object, Want,
};
use crate::seqs::{first_from, isat, min_of};
use crate::linebuf::number::{digit_at, digit_value};
use crate::text::{ascii_digit, ascii_lower, ascii_upper, is_digit, is_lower, is_upper};

verus! {

/// A place and the character there, where the cluster is just one.
pub type Glyph = (Pos, Option<char>);

/// The clusters of row `row` from column `from` on.
pub open spec fn row_glyphs(ls: LinesV, row: int, from: int) -> Seq<Glyph> {
    let len = ls[row].len() as int;
    if from >= len {
        Seq::empty()
    } else {
        Seq::new(
            (len - from) as nat,
            |i: int| (Pos { row: row as usize, col: (from + i) as usize }, sole_char(ls[row][from + i])),
        )
    }
}

/// The clusters from a place to the end of the buffer.
pub open spec fn glyphs_from(ls: LinesV, row: int, col: int) -> Seq<Glyph>
    decreases ls.len() - row,
{
    if row >= ls.len() {
        Seq::empty()
    } else {
        row_glyphs(ls, row, col) + glyphs_from(ls, row + 1, 0)
    }
}

/// The clusters of row `row` before column `end`, backwards.
pub open spec fn row_glyphs_back(ls: LinesV, row: int, end: int) -> Seq<Glyph> {
    Seq::new(
        end as nat,
        |i: int|
            (Pos { row: row as usize, col: (end - 1 - i) as usize }, sole_char(ls[row][end - 1 - i])),
    )
}

/// The clusters before column `end` of row `row`, back to the start of the
/// buffer.
pub open spec fn glyphs_back(ls: LinesV, row: int, end: int) -> Seq<Glyph>
    decreases row,
{
    row_glyphs_back(ls, row, end) + if row > 0 {
        glyphs_back(ls, row - 1, ls[row - 1].len() as int)
    } else {
        Seq::empty()
    }
}

/// The clusters from `pos` on.
pub open spec fn glyphs_on(ls: LinesV, pos: Pos) -> Seq<Glyph> {
    let p = clamped(ls, pos, false);
    glyphs_from(ls, p.row as int, p.col as int)
}

/// The cluster at `pos` and those before it, backwards.
pub open spec fn glyphs_to(ls: LinesV, pos: Pos) -> Seq<Glyph> {
    let p = clamped(ls, pos, false);
    let len = ls[p.row as int].len() as int;
    glyphs_back(
        ls,
        p.row as int,
        if p.col < len {
            p.col + 1
        } else {
            len
        },
    )
}

/// How many more of the first `n` clusters are `up` than `down`.
pub open spec fn depth_after(s: Seq<Glyph>, up: char, down: char, n: int) -> int
    decreases n,
{
    if n <= 0 {
        0
    } else {
        depth_after(s, up, down, n - 1) + if s[n - 1].1 == Some(up) {
            1int
        } else if s[n - 1].1 == Some(down) {
            -1
        } else {
            0
        }
    }
}

/// When a count of delimiters stops.
#[derive(Clone, Copy, Debug, PartialEq, Eq, Structural)]
pub enum Until {
    /// At the cluster that leaves none open.
    Closed,
    /// At a closing one that leaves none open.
    Closer,
    /// At a closing one before which none is open.
    Unopened,
}

/// A count of `up` over `down` stops at cluster `i`.
pub open spec fn stops(s: Seq<Glyph>, up: char, down: char, u: Until, i: int) -> bool {
    match u {
        Until::Closed => depth_after(s, up, down, i + 1) == 0,
        Until::Closer => s[i].1 == Some(down) && depth_after(s, up, down, i + 1) <= 0,
        Until::Unopened => s[i].1 == Some(down) && depth_after(s, up, down, i) == 0,
    }
}

/// The first cluster at or behind `i` where the count stops.
pub open spec fn stop_from(s: Seq<Glyph>, up: char, down: char, u: Until, i: int) -> int
    decreases s.len() - i,
{
    if i >= s.len() {
        s.len() as int
    } else if stops(s, up, down, u, i) {
        i
    } else {
        stop_from(s, up, down, u, i + 1)
    }
}

/// The place of cluster `i`, where there is one.
pub open spec fn glyph_place(s: Seq<Glyph>, i: int) -> Option<Pos> {
    if i < s.len() {
        Some(s[i].0)
    } else {
        None
    }
}

/// The place of the first cluster that is the character `c`.
pub open spec fn find_char(s: Seq<Glyph>, c: char) -> Option<Pos> {
    glyph_place(s, first_from(s, |e: Glyph| e.1 == Some(c), 0))
}

/// The place where a count of `up` over `down` stops.
pub open spec fn find_stop(s: Seq<Glyph>, up: char, down: char, u: Until) -> Option<Pos> {
    glyph_place(s, stop_from(s, up, down, u, 0))
}

/// A delimiter, its partner, and whether it opens.
pub open spec fn partner(c: char) -> Option<(char, bool)> {
    if c == '(' {
        Some((')', true))
    } else if c == '[' {
        Some((']', true))
    } else if c == '{' {
        Some(('}', true))
    } else if c == '<' {
        Some(('>', true))
    } else if c == ')' {
        Some(('(', false))
    } else if c == ']' {
        Some(('[', false))
    } else if c == '}' {
        Some(('{', false))
    } else if c == '>' {
        Some(('<', false))
    } else {
        None
    }
}

pub open spec fn is_delim(e: Glyph) -> bool {
    e.1 is Some && partner(e.1->0) is Some
}

/// From the cursor to the partner of the first delimiter at or behind it.
pub open spec fn delim_match(b: BufV) -> Option<MotionKind> {
    let s = glyphs_on(b.lines, b.cursor.pos);
    let i = first_from(s, |e: Glyph| is_delim(e), 0);
    if i >= s.len() {
        None
    } else {
        let c = s[i].1->0;
        let (other, opens) = partner(c)->0;
        let t = if opens {
            glyphs_on(b.lines, s[i].0)
        } else {
            glyphs_to(b.lines, s[i].0)
        };
        match find_stop(t, c, other, Until::Closed) {
            Some(p) => Some(
                MotionKind::Char { start: b.cursor.pos, end: p, inclusive: true },
            ),
            None => None,
        }
    }
}

/// From the cursor to the next closing, or back to the last opening,
/// delimiter whose partner does not lie between.
pub open spec fn unmatched(b: BufV, opener: char, closer: char, dir: Direction) -> Option<MotionKind> {
    let found = match dir {
        Direction::Forward => find_stop(
            glyphs_on(b.lines, b.cursor.pos),
            opener,
            closer,
            Until::Closer,
        ),
        Direction::Backward => find_stop(
            glyphs_to(b.lines, shifted(b.cursor.pos, 0, -1)),
            closer,
            opener,
            Until::Closer,
        ),
    };
    match found {
        Some(p) => Some(MotionKind::Char { start: b.cursor.pos, end: p, inclusive: true }),
        None => None,
    }
}

/// The range from `start` to before `end`, unless it runs backwards.
pub open spec fn if_ordered(start: Pos, end: Pos) -> Option<MotionKind> {
    if pos_le(start, end) {
        Some(MotionKind::Char { start, end, inclusive: false })
    } else {
        None
    }
}

/// A quoted text. It starts at the nearest quote before the cursor, else at
/// the next one; around it means with the quotes and the white space behind.
pub open spec fn quote_object(b: BufV, q: char, bound: Bound) -> Option<MotionKind> {
    let back = find_char(glyphs_to(b.lines, shifted(b.cursor.pos, 0, -1)), q);
    let start = match back {
        Some(p) => Some(p),
        None => find_char(glyphs_on(b.lines, b.cursor.pos), q),
    };
    match start {
        None => None,
        Some(start) => {
            let next = Pos {
                row: start.row,
                col: if start.col + 1 <= final_col(b.lines, start.row as int) {
                    (start.col + 1) as usize
                } else {
                    final_col(b.lines, start.row as int) as usize
                },
            };
            match find_char(glyphs_on(b.lines, next), q) {
                None => None,
                Some(end) => match bound {
                    Bound::Inside => if_ordered(shifted(start, 0, 1), end),
                    Bound::Around => {
                        let cells = forward_cells(b.lines, shifted(end, 0, 1));
                        let past = match place(cells, seek(cells, Want::NoSpace, 0)) {
                            Some(p) => p,
                            None => clamped(
                                b.lines,
                                crate::linebuf::pos::end_of_all(),
                                b.cursor.exclusive,
                            ),
                        };
                        if_ordered(start, past)
                    },
                },
            }
        },
    }
}

/// A delimited text. It starts at the delimiter that encloses the cursor, else
/// at the next one; around it means with the delimiters.
pub open spec fn delim_object(b: BufV, opener: char, closer: char, bound: Bound) -> Option<
    MotionKind,
> {
    let back = find_stop(
        glyphs_to(b.lines, shifted(b.cursor.pos, 0, -1)),
        closer,
        opener,
        Until::Unopened,
    );
    let start = match back {
        Some(p) => Some(p),
        None => find_char(glyphs_on(b.lines, b.cursor.pos), opener),
    };
    match start {
        None => None,
        Some(start) => match find_stop(
            glyphs_on(b.lines, start),
            opener,
            closer,
            Until::Closed,
        ) {
            None => None,
            Some(end) => match bound {
                Bound::Around => Some(MotionKind::Char { start, end, inclusive: true }),
                Bound::Inside => if_ordered(shifted(start, 0, 1), end),
            },
        },
    }
}

/// What a text object covers. Sentences and paragraphs cover nothing.
pub open spec fn text_object(b: BufV, obj: TextObj) -> Option<MotionKind> {
    match obj {
        TextObj::Word(word, bound) => word_object(b.lines, b.cursor.pos, word, bound),
        TextObj::Sentence(_) => None,
        TextObj::Paragraph(_) => None,
        TextObj::WholeSentence(_) => None,
        TextObj::WholeParagraph(_) => None,
        TextObj::DoubleQuote(bound) => quote_object(b, '"', bound),
        TextObj::SingleQuote(bound) => quote_object(b, '\'', bound),
        TextObj::BacktickQuote(bound) => quote_object(b, '`', bound),
        TextObj::Paren(bound) => delim_object(b, '(', ')', bound),
        TextObj::Bracket(bound) => delim_object(b, '[', ']', bound),
        TextObj::Brace(bound) => delim_object(b, '{', '}', bound),
        TextObj::Angle(bound) => delim_object(b, '<', '>', bound),
    }
}

/// A character that a number may hold.
pub open spec fn numeric(c: Option<char>) -> bool {
    c is Some && (c->0 == '.' || c->0 == '-' || is_digit(c->0))
}

pub open spec fn digit_glyph(e: Glyph) -> bool {
    e.1 is Some && is_digit(e.1->0)
}

/// The cluster at a place, where it is a single character.
pub open spec fn char_at(ls: LinesV, pos: Pos) -> Option<char> {
    match cluster_at(ls, pos) {
        Some(g) => sole_char(g),
        None => None,
    }
}

/// A digit or an ASCII letter.
pub open spec fn word_glyph(g: Seq<char>) -> bool {
    sole_char(g) matches Some(c) && (is_digit(c) || is_lower(c) || is_upper(c))
}

/// Where the run of digits and letters that ends before column `i` starts.
pub open spec fn run_start(l: LineV, i: int) -> int
    decreases i,
{
    if i > 0 && word_glyph(l[i - 1]) {
        run_start(l, i - 1)
    } else {
        i
    }
}

/// The column behind the run of digits and letters that starts at column `i`.
pub open spec fn run_end(l: LineV, i: int) -> int
    decreases l.len() - i,
{
    if i < l.len() && word_glyph(l[i]) {
        run_end(l, i + 1)
    } else {
        i
    }
}

/// The base that a letter behind a leading zero stands for.
pub open spec fn radix_of(g: Seq<char>) -> Option<int> {
    match sole_char(g) {
        Some('x') => Some(16),
        Some('b') => Some(2),
        Some('o') => Some(8),
        _ => None,
    }
}

/// The columns `a..b` of a line hold a number with a prefix for its base.
pub open spec fn is_literal(l: LineV, a: int, b: int) -> bool {
    &&& a + 2 < b
    &&& sole_char(l[a]) == Some('0')
    &&& radix_of(l[a + 1]) matches Some(radix) && forall|i: int|
        a + 2 <= i < b ==> digit_value(#[trigger] sole_char(l[i])->0, radix) is Some
}

/// The first and the last column of the number with a prefix at column `col`.
pub open spec fn literal_cols(l: LineV, col: int) -> Option<(int, int)> {
    let a = run_start(l, col);
    let b = run_end(l, col);
    if is_literal(l, a, b) {
        Some((a, b - 1))
    } else {
        None
    }
}

/// The digits around `pos`, with the minus sign before them.
pub open spec fn digit_span(ls: LinesV, p: Pos) -> (Pos, Pos) {
    let q = if char_at(ls, p) == Some('-') {
        shifted(p, 0, 1)
    } else {
        p
    };
    let back = glyphs_to(ls, q);
    let fwd = glyphs_on(ls, q);
    let i = first_from(back, |e: Glyph| !digit_glyph(e), 0);
    let j = first_from(fwd, |e: Glyph| !digit_glyph(e), 0);
    let start = if i < back.len() {
        shifted(back[i].0, 0, 1)
    } else {
        Pos { row: 0, col: 0 }
    };
    let end = if j < fwd.len() {
        shifted(fwd[j].0, 0, -1)
    } else {
        Pos { row: q.row, col: final_col(ls, q.row as int) as usize }
    };
    let signed = pos_lt(Pos { row: 0, col: 0 }, start) && char_at(ls, shifted(start, 0, -1))
        == Some('-') && start.col > 0;
    (
        if signed {
            shifted(start, 0, -1)
        } else {
            start
        },
        end,
    )
}

/// The first and the last place of the number at `pos`: one with a prefix for
/// its base, else the digits around it with the minus sign before them.
pub open spec fn number_span(ls: LinesV, pos: Pos) -> Option<(Pos, Pos)> {
    let p = clamped(ls, pos, false);
    if !numeric(char_at(ls, p)) {
        None
    } else {
        match literal_cols(ls[p.row as int], p.col as int) {
            Some((a, b)) => Some(
                (Pos { row: p.row, col: a as usize }, Pos { row: p.row, col: b as usize }),
            ),
            None => Some(digit_span(ls, p)),
        }
    }
}

/// The column of the first `g` behind column `at`, or the last one before it.
pub open spec fn next_in_line(l: LineV, g: Seq<char>, dir: Direction, at: int) -> Option<int> {
    match dir {
        Direction::Forward => {
            let i = first_from(l, |x: Seq<char>| x == g, at + 1);
            if i < l.len() {
                Some(i)
            } else {
                None
            }
        },
        Direction::Backward => last_before(l, g, at),
    }
}

/// The last column before `at` that holds `g`.
pub open spec fn last_before(l: LineV, g: Seq<char>, at: int) -> Option<int>
    decreases at,
{
    if at <= 0 {
        None
    } else if l[at - 1] == g {
        Some(at - 1)
    } else {
        last_before(l, g, at - 1)
    }
}

/// The offset from the cursor's column after step `it` of a search for `g`
/// within the line. A search that stops short does so on its last step only;
/// one that finds nothing leads nowhere.
pub open spec fn char_steps(
    b: BufV,
    dir: Direction,
    dest: Dest,
    g: Seq<char>,
    count: int,
    it: int,
    off: int,
) -> int
    decreases count - it,
{
    if it >= count {
        off
    } else {
        let l = line_at(b.lines, b.cursor.pos.row);
        let at = col_off(b, b.cursor.pos.row, off) as int;
        match next_in_line(l, g, dir, at) {
            None => 0,
            Some(i) => {
                let short = if dest == Dest::Before && it == count - 1 {
                    1int
                } else {
                    0
                };
                let next = match dir {
                    Direction::Forward => off + (i - at) - short,
                    Direction::Backward => off - (at - i) + short,
                };
                char_steps(b, dir, dest, g, count, it + 1, next)
            },
        }
    }
}

/// The offset to the `count`-th `g` in the cursor's line.
pub open spec fn char_offset(b: BufV, dir: Direction, dest: Dest, g: Seq<char>, count: int) -> int {
    char_steps(b, dir, dest, g, count, 0, 0)
}

fn glyph_at(s: &[Glyph], i: usize) -> (p: Option<Pos>)
    ensures
        p == glyph_place(s@, i as int),
{
    if i < s.len() {
        Some(s[i].0)
    } else {
        None
    }
}

fn seek_char(s: &[Glyph], c: char) -> (p: Option<Pos>)
    ensures
        p == find_char(s@, c),
{
    let ghost p = |e: Glyph| e.1 == Some(c);
    let mut i: usize = 0;
    while i < s.len()
        invariant
            i <= s@.len(),
            p == |e: Glyph| e.1 == Some(c),
            first_from(s@, p, 0) == first_from(s@, p, i as int),
        decreases s@.len() - i,
    {
        if let Some(x) = s[i].1 {
            if x == c {
                return Some(s[i].0);
            }
        }
        i += 1;
    }
    None
}

fn seek_stop(s: &[Glyph], up: char, down: char, u: Until) -> (p: Option<Pos>)
    ensures
        p == find_stop(s@, up, down, u),
{
    let mut depth: i128 = 0;
    let mut i: usize = 0;
    while i < s.len()
        invariant
            i <= s@.len(),
            -(i as int) <= depth <= i,
            depth == depth_after(s@, up, down, i as int),
            stop_from(s@, up, down, u, 0) == stop_from(s@, up, down, u, i as int),
        decreases s@.len() - i,
    {
        let here = s[i].1;
        let is_up = match here {
            Some(c) => c == up,
            None => false,
        };
        let is_down = match here {
            Some(c) => c == down,
            None => false,
        };
        let was: i128 = depth;
        if is_up {
            depth = depth + 1;
        } else if is_down {
            depth = depth - 1;
        }
        let stop = match u {
            Until::Closed => depth == 0,
            Until::Closer => is_down && depth <= 0,
            Until::Unopened => is_down && was == 0,
        };
        assert(depth == depth_after(s@, up, down, i + 1));
        if stop {
            assert(stops(s@, up, down, u, i as int));
            return Some(s[i].0);
        }
        i += 1;
    }
    None
}

/// The first cluster that is no digit.
fn seek_no_digit(s: &[Glyph]) -> (r: usize)
    ensures
        r == first_from(s@, |e: Glyph| !digit_glyph(e), 0),
        r <= s@.len(),
{
    let ghost p = |e: Glyph| !digit_glyph(e);
    let mut i: usize = 0;
    while i < s.len()
        invariant
            i <= s@.len(),
            p == |e: Glyph| !digit_glyph(e),
            first_from(s@, p, 0) == first_from(s@, p, i as int),
        decreases s@.len() - i,
    {
        let digit = match s[i].1 {
            Some(c) => ascii_digit(c),
            None => false,
        };
        if !digit {
            return i;
        }
        i += 1;
    }
    i
}

fn is_word_glyph(g: &Grapheme) -> (r: bool)
    ensures
        r == word_glyph(g@),
{
    match g.as_char() {
        Some(c) => ascii_digit(c) || ascii_lower(c) || ascii_upper(c),
        None => false,
    }
}

proof fn lemma_run(l: LineV, i: int)
    requires
        0 <= i <= l.len(),
    ensures
        0 <= run_start(l, i) <= i <= run_end(l, i) <= l.len(),
        forall|k: int| run_start(l, i) <= k < run_end(l, i) ==> word_glyph(#[trigger] l[k]),
{
    lemma_run_start(l, i);
    lemma_run_end(l, i);
}

proof fn lemma_run_start(l: LineV, i: int)
    requires
        0 <= i <= l.len(),
    ensures
        0 <= run_start(l, i) <= i,
        forall|k: int| run_start(l, i) <= k < i ==> word_glyph(#[trigger] l[k]),
    decreases i,
{
    if i > 0 && word_glyph(l[i - 1]) {
        lemma_run_start(l, i - 1);
    }
}

proof fn lemma_run_end(l: LineV, i: int)
    requires
        0 <= i <= l.len(),
    ensures
        i <= run_end(l, i) <= l.len(),
        forall|k: int| i <= k < run_end(l, i) ==> word_glyph(#[trigger] l[k]),
    decreases l.len() - i,
{
    if i < l.len() && word_glyph(l[i]) {
        lemma_run_end(l, i + 1);
    }
}

fn partner_of(c: char) -> (r: Option<(char, bool)>)
    ensures
        r == partner(c),
{
    if c == '(' {
        Some((')', true))
    } else if c == '[' {
        Some((']', true))
    } else if c == '{' {
        Some(('}', true))
    } else if c == '<' {
        Some(('>', true))
    } else if c == ')' {
        Some(('(', false))
    } else if c == ']' {
        Some(('[', false))
    } else if c == '}' {
        Some(('{', false))
    } else if c == '>' {
        Some(('<', false))
    } else {
        None
    }
}

fn ordered_range(start: Pos, end: Pos) -> (m: Option<MotionKind>)
    ensures
        m == if_ordered(start, end),
{
    if start <= end {
        Some(MotionKind::Char { start, end, inclusive: false })
    } else {
        None
    }
}

pub proof fn lemma_glyphs_from_places(ls: LinesV, row: int, col: int, i: int)
    requires
        0 <= row <= usize::MAX,
        0 <= col,
        ls.len() <= usize::MAX,
        forall|k: int| 0 <= k < ls.len() ==> (#[trigger] ls[k]).len() <= usize::MAX,
        0 <= i < glyphs_from(ls, row, col).len(),
    ensures
        glyphs_from(ls, row, col)[i].0.row < ls.len(),
        glyphs_from(ls, row, col)[i].0.col < ls[glyphs_from(ls, row, col)[i].0.row as int].len(),
        char_at(ls, glyphs_from(ls, row, col)[i].0) == glyphs_from(ls, row, col)[i].1,
    decreases ls.len() - row,
{
    let n = row_glyphs(ls, row, col).len();
    if i < n {
        assert(ls[row].len() <= usize::MAX);
    } else {
        lemma_glyphs_from_places(ls, row + 1, 0, i - n);
    }
}

pub proof fn lemma_glyphs_back_places(ls: LinesV, row: int, end: int, i: int)
    requires
        0 <= row < ls.len() <= usize::MAX,
        0 <= end <= ls[row].len(),
        forall|k: int| 0 <= k < ls.len() ==> (#[trigger] ls[k]).len() <= usize::MAX,
        0 <= i < glyphs_back(ls, row, end).len(),
    ensures
        glyphs_back(ls, row, end)[i].0.row < ls.len(),
        glyphs_back(ls, row, end)[i].0.col < ls[glyphs_back(ls, row, end)[i].0.row as int].len(),
    decreases row,
{
    if i >= end {
        lemma_glyphs_back_places(ls, row - 1, ls[row - 1].len() as int, i - end);
    }
}

impl LineBuf {
    /// Lines and columns fit machine integers.
    pub(crate) proof fn lemma_sizes(&self)
        ensures
            self@.lines.len() <= usize::MAX,
            forall|k: int|
                0 <= k < self@.lines.len() ==> (#[trigger] self@.lines[k]).len() <= usize::MAX,
    {
        assert(self.lines.0@.len() == self.lines.0.len());
        assert forall|k: int| 0 <= k < self@.lines.len() implies (#[trigger] self@.lines[k]).len()
            <= usize::MAX by {
            assert(self@.lines[k].len() == self.lines.0@[k].0@.len());
            assert(self.lines.0@[k].0@.len() == self.lines.0@[k].0.len());
        }
    }

    /// The clusters from `pos` on.
    fn glyphs_forward(&self, pos: Pos) -> (v: Vec<Glyph>)
        requires
            self@.lines.len() > 0,
        ensures
            v@ == glyphs_on(self@.lines, pos),
    {
        let ghost ls = self@.lines;
        let p = self.clamp_place(pos, false);
        let mut v: Vec<Glyph> = Vec::new();
        let mut row: usize = p.row;
        let mut col: usize = p.col;
        assert(v@ + glyphs_from(ls, row as int, col as int) =~= glyphs_on(ls, pos));
        while row < self.lines.len()
            invariant
                ls == self@.lines,
                v@ + glyphs_from(ls, row as int, col as int) == glyphs_on(ls, pos),
            decreases ls.len() - row,
        {
            let line = self.lines.at(row);
            let ghost head = v@;
            let from = col;
            while col < line.len()
                invariant
                    row < ls.len(),
                    line@ == ls[row as int],
                    from <= col,
                    col <= line@.len() || col == from,
                    v@ == head + row_glyphs(ls, row as int, from as int).take(col - from),
                decreases line@.len() - col,
            {
                v.push((Pos { row, col }, line.at(col).as_char()));
                col += 1;
                assert(v@ =~= head + row_glyphs(ls, row as int, from as int).take(col - from));
            }
            assert(row_glyphs(ls, row as int, from as int).take(col - from) =~= row_glyphs(
                ls,
                row as int,
                from as int,
            ));
            assert(v@ + glyphs_from(ls, row + 1, 0) =~= glyphs_on(ls, pos));
            row += 1;
            col = 0;
        }
        assert(v@ + Seq::<Glyph>::empty() =~= v@);
        v
    }

    /// The cluster at `pos` and those before it, backwards.
    fn glyphs_backward(&self, pos: Pos) -> (v: Vec<Glyph>)
        requires
            self@.lines.len() > 0,
        ensures
            v@ == glyphs_to(self@.lines, pos),
    {
        let ghost ls = self@.lines;
        let p = self.clamp_place(pos, false);
        let mut v: Vec<Glyph> = Vec::new();
        let mut row: usize = p.row;
        let len = self.lines.at(row).len();
        let mut end: usize = if p.col < len {
            p.col + 1
        } else {
            len
        };
        assert(v@ + glyphs_back(ls, row as int, end as int) =~= glyphs_to(ls, pos));
        loop
            invariant
                ls == self@.lines,
                row < ls.len(),
                end <= ls[row as int].len(),
                v@ + glyphs_back(ls, row as int, end as int) == glyphs_to(ls, pos),
            decreases row,
        {
            let line = self.lines.at(row);
            let ghost head = v@;
            let mut left: usize = end;
            while left > 0
                invariant
                    row < ls.len(),
                    line@ == ls[row as int],
                    end <= line@.len(),
                    left <= end,
                    v@ == head + row_glyphs_back(ls, row as int, end as int).take(end - left),
                decreases left,
            {
                left -= 1;
                v.push((Pos { row, col: left }, line.at(left).as_char()));
                assert(v@ =~= head + row_glyphs_back(ls, row as int, end as int).take(end - left));
            }
            assert(row_glyphs_back(ls, row as int, end as int).take(end as int) =~= row_glyphs_back(
                ls,
                row as int,
                end as int,
            ));
            if row == 0 {
                assert(v@ =~= glyphs_to(ls, pos));
                return v;
            }
            let above = self.lines.at(row - 1).len();
            assert(v@ + glyphs_back(ls, row - 1, above as int) =~= glyphs_to(ls, pos));
            row -= 1;
            end = above;
        }
    }

    /// From the cursor to the partner of the first delimiter at or behind it.
    pub fn find_delim_match(&self) -> (m: Option<MotionKind>)
        requires
            self@.lines.len() > 0,
        ensures
            m == delim_match(self@),
    {
        let cells = self.glyphs_forward(self.cursor.pos);
        let s = cells.as_slice();
        let ghost p = |e: Glyph| is_delim(e);
        let mut i: usize = 0;
        while i < s.len()
            invariant
                self@.lines.len() > 0,
                i <= s@.len(),
                s@ == glyphs_on(self@.lines, self@.cursor.pos),
                p == |e: Glyph| is_delim(e),
                first_from(s@, p, 0) == first_from(s@, p, i as int),
            decreases s@.len() - i,
        {
            if let Some(c) = s[i].1 {
                if let Some((other, opens)) = partner_of(c) {
                    assert(first_from(s@, p, 0) == i);
                    let around = if opens {
                        self.glyphs_forward(s[i].0)
                    } else {
                        self.glyphs_backward(s[i].0)
                    };
                    return match seek_stop(around.as_slice(), c, other, Until::Closed) {
                        Some(end) => Some(
                            MotionKind::Char { start: self.cursor.pos, end, inclusive: true },
                        ),
                        None => None,
                    };
                }
            }
            i += 1;
        }
        None
    }

    /// From the cursor to the nearest delimiter without a partner between.
    pub fn find_unmatched(&self, opener: char, closer: char, dir: &Direction) -> (m: Option<
        MotionKind,
    >)
        requires
            self@.lines.len() > 0,
        ensures
            m == unmatched(self@, opener, closer, *dir),
    {
        let found = match dir {
            Direction::Forward => {
                let s = self.glyphs_forward(self.cursor.pos);
                seek_stop(s.as_slice(), opener, closer, Until::Closer)
            },
            Direction::Backward => {
                let s = self.glyphs_backward(self.cursor.pos.col_sub(1));
                seek_stop(s.as_slice(), closer, opener, Until::Closer)
            },
        };
        match found {
            Some(end) => Some(MotionKind::Char { start: self.cursor.pos, end, inclusive: true }),
            None => None,
        }
    }

    /// The place of a cluster that a search found is one of the buffer.
    proof fn lemma_found(&self, s: Seq<Glyph>, c: char, from: Pos)
        requires
            self@.lines.len() > 0,
            s == glyphs_on(self@.lines, from) || s == glyphs_to(self@.lines, from),
            find_char(s, c) is Some,
        ensures
            find_char(s, c)->0.row < self@.lines.len(),
            find_char(s, c)->0.col < self@.lines[find_char(s, c)->0.row as int].len(),
    {
        self.lemma_sizes();
        let ls = self@.lines;
        let p = clamped(ls, from, false);
        crate::seqs::lemma_first_from(s, |e: Glyph| e.1 == Some(c), 0);
        let i = first_from(s, |e: Glyph| e.1 == Some(c), 0);
        if s == glyphs_on(ls, from) {
            lemma_glyphs_from_places(ls, p.row as int, p.col as int, i);
        } else {
            let len = ls[p.row as int].len() as int;
            let end = if p.col < len {
                p.col + 1
            } else {
                len
            };
            lemma_glyphs_back_places(ls, p.row as int, end, i);
        }
    }

    /// A quoted text.
    pub fn text_obj_quote(&self, q_ch: char, bound: Bound) -> (m: Option<MotionKind>)
        requires
            self@.lines.len() > 0,
        ensures
            m == quote_object(self@, q_ch, bound),
    {
        let back = self.glyphs_backward(self.cursor.pos.col_sub(1));
        let start = match seek_char(back.as_slice(), q_ch) {
            Some(p) => {
                proof {
                    self.lemma_found(back@, q_ch, shifted(self@.cursor.pos, 0, -1));
                }
                p
            },
            None => {
                let fwd = self.glyphs_forward(self.cursor.pos);
                match seek_char(fwd.as_slice(), q_ch) {
                    Some(p) => {
                        proof {
                            self.lemma_found(fwd@, q_ch, self@.cursor.pos);
                        }
                        p
                    },
                    None => {
                        return None;
                    },
                }
            },
        };
        let last = self.lines.at(start.row).len() - 1;
        let next = Pos { row: start.row, col: min_of(start.col.saturating_add(1), last) };
        let fwd = self.glyphs_forward(next);
        let end = match seek_char(fwd.as_slice(), q_ch) {
            Some(p) => p,
            None => {
                return None;
            },
        };
        match bound {
            Bound::Inside => ordered_range(start.col_add(1), end),
            Bound::Around => {
                let past = match self.next_no_space(end.col_add(1)) {
                    Some(p) => p,
                    None => self.end_pos(),
                };
                ordered_range(start, past)
            },
        }
    }

    /// The first place from `pos` on that holds no white space.
    fn next_no_space(&self, pos: Pos) -> (p: Option<Pos>)
        ensures
            p == place(
                forward_cells(self@.lines, pos),
                seek(forward_cells(self@.lines, pos), Want::NoSpace, 0),
            ),
    {
        let cells = self.char_classes_forward_from(pos);
        let ghost w = |e: crate::linebuf::words::Cell| crate::linebuf::words::wanted(Want::NoSpace, e);
        let mut i: usize = 0;
        while i < cells.len()
            invariant
                i <= cells@.len(),
                cells@ == forward_cells(self@.lines, pos),
                w == |e: crate::linebuf::words::Cell| crate::linebuf::words::wanted(Want::NoSpace, e),
                seek(cells@, Want::NoSpace, 0) == first_from(cells@, w, i as int),
            decreases cells@.len() - i,
        {
            if !cells[i].1.is_ws() {
                return Some(cells[i].0);
            }
            i += 1;
        }
        None
    }

    /// A delimited text.
    pub fn text_obj_delim(&self, opener: char, closer: char, bound: Bound) -> (m: Option<
        MotionKind,
    >)
        requires
            self@.lines.len() > 0,
        ensures
            m == delim_object(self@, opener, closer, bound),
    {
        let back = self.glyphs_backward(self.cursor.pos.col_sub(1));
        let start = match seek_stop(back.as_slice(), closer, opener, Until::Unopened) {
            Some(p) => p,
            None => {
                let fwd = self.glyphs_forward(self.cursor.pos);
                match seek_char(fwd.as_slice(), opener) {
                    Some(p) => p,
                    None => {
                        return None;
                    },
                }
            },
        };
        let fwd = self.glyphs_forward(start);
        let end = match seek_stop(fwd.as_slice(), opener, closer, Until::Closed) {
            Some(p) => p,
            None => {
                return None;
            },
        };
        match bound {
            Bound::Around => Some(MotionKind::Char { start, end, inclusive: true }),
            Bound::Inside => ordered_range(start.col_add(1), end),
        }
    }

    /// What a text object covers.
    pub fn dispatch_text_obj(&self, obj: TextObj) -> (m: Option<MotionKind>)
        requires
            self@.lines.len() > 0,
        ensures
            m == text_object(self@, obj),
    {
        match obj {
            TextObj::Word(word, bound) => self.text_obj_word(self.cursor.pos, word, bound),
            TextObj::Sentence(_) => None,
            TextObj::Paragraph(_) => None,
            TextObj::WholeSentence(_) => None,
            TextObj::WholeParagraph(_) => None,
            TextObj::DoubleQuote(bound) => self.text_obj_quote('"', bound),
            TextObj::SingleQuote(bound) => self.text_obj_quote('\'', bound),
            TextObj::BacktickQuote(bound) => self.text_obj_quote('`', bound),
            TextObj::Paren(bound) => self.text_obj_delim('(', ')', bound),
            TextObj::Bracket(bound) => self.text_obj_delim('[', ']', bound),
            TextObj::Brace(bound) => self.text_obj_delim('{', '}', bound),
            TextObj::Angle(bound) => self.text_obj_delim('<', '>', bound),
        }
    }

    /// The cluster at a place, where it is a single character.
    pub(crate) fn single_char_at(&self, pos: Pos) -> (c: Option<char>)
        ensures
            c == char_at(self@.lines, pos),
    {
        match self.gr_at(pos) {
            Some(g) => g.as_char(),
            None => None,
        }
    }

    /// The first and the last place of the number at `pos`.
    pub fn number_at(&self, pos: Pos) -> (r: Option<(Pos, Pos)>)
        requires
            self@.lines.len() > 0,
        ensures
            r == number_span(self@.lines, pos),
    {
        let p = self.clamp_place(pos, false);
        let c = match self.single_char_at(p) {
            Some(c) => c,
            None => {
                return None;
            },
        };
        if !(c == '.' || c == '-' || ascii_digit(c)) {
            return None;
        }
        if let Some((a, b)) = self.literal_at(p) {
            return Some((Pos { row: p.row, col: a }, Pos { row: p.row, col: b }));
        }
        Some(self.digits_at(p))
    }

    /// The columns of the number with a prefix at a place.
    fn literal_at(&self, p: Pos) -> (r: Option<(usize, usize)>)
        requires
            p.row < self@.lines.len(),
            p.col <= self@.lines[p.row as int].len(),
        ensures
            r is Some <==> literal_cols(self@.lines[p.row as int], p.col as int) is Some,
            r matches Some(c) ==> Some((c.0 as int, c.1 as int)) == literal_cols(
                self@.lines[p.row as int],
                p.col as int,
            ),
    {
        let line = self.lines.at(p.row);
        let len = line.len();
        let mut a: usize = p.col;
        while a > 0 && is_word_glyph(line.at(a - 1))
            invariant
                a <= p.col <= line@.len(),
                run_start(line@, p.col as int) == run_start(line@, a as int),
            decreases a,
        {
            a -= 1;
        }
        let mut b: usize = p.col;
        while b < len && is_word_glyph(line.at(b))
            invariant
                len == line@.len(),
                p.col <= b <= len,
                run_end(line@, p.col as int) == run_end(line@, b as int),
            decreases len - b,
        {
            b += 1;
        }
        if b - a <= 2 || !line.at(a).is_char('0') {
            return None;
        }
        let radix: u32 = match line.at(a + 1).as_char() {
            Some('x') => 16,
            Some('b') => 2,
            Some('o') => 8,
            _ => {
                return None;
            },
        };
        proof {
            lemma_run(line@, p.col as int);
        }
        let mut i: usize = a + 2;
        while i < b
            invariant
                a + 2 <= i <= b <= line@.len(),
                2 <= radix <= 36,
                a == run_start(line@, p.col as int),
                b == run_end(line@, p.col as int),
                line@ == self@.lines[p.row as int],
                radix_of(line@[a + 1]) == Some(radix as int),
                forall|k: int| a <= k < b ==> word_glyph(#[trigger] line@[k]),
                forall|k: int|
                    a + 2 <= k < i ==> digit_value(
                        #[trigger] sole_char(line@[k])->0,
                        radix as int,
                    ) is Some,
            decreases b - i,
        {
            let ok = match line.at(i).as_char() {
                Some(c) => digit_at(c, radix).is_some(),
                None => false,
            };
            if !ok {
                assert(digit_value(sole_char(line@[i as int])->0, radix as int) is None);
                return None;
            }
            i += 1;
        }
        Some((a, b - 1))
    }

    /// The digits around a place, with the minus sign before them.
    fn digits_at(&self, p: Pos) -> (r: (Pos, Pos))
        requires
            p.row < self@.lines.len(),
            p.col <= self@.lines[p.row as int].len(),
        ensures
            r == digit_span(self@.lines, p),
    {
        let minus = match self.single_char_at(p) {
            Some(c) => c == '-',
            None => false,
        };
        let q = if minus {
            p.col_add(1)
        } else {
            p
        };
        let back = self.glyphs_backward(q);
        let fwd = self.glyphs_forward(q);
        let i = seek_no_digit(back.as_slice());
        let j = seek_no_digit(fwd.as_slice());
        let start = match glyph_at(back.as_slice(), i) {
            Some(b) => b.col_add(1),
            None => Pos { row: 0, col: 0 },
        };
        let end = match glyph_at(fwd.as_slice(), j) {
            Some(e) => e.col_sub(1),
            None => Pos { row: q.row, col: self.lines.at(q.row).len().saturating_sub(1) },
        };
        let sign = match self.single_char_at(start.col_sub(1)) {
            Some(c) => c == '-',
            None => false,
        };
        let origin = Pos { row: 0, col: 0 };
        if origin < start && sign && start.col > 0 {
            (start.col_sub(1), end)
        } else {
            (start, end)
        }
    }

    pub fn number_at_cursor(&self) -> (r: Option<(Pos, Pos)>)
        requires
            self@.lines.len() > 0,
        ensures
            r == number_span(self@.lines, self@.cursor.pos),
    {
        self.number_at(self.cursor.pos)
    }

    /// The offset to the `count`-th `ch` in the cursor's line.
    pub fn search_char(&self, dir: &Direction, dest: &Dest, ch: &Grapheme, count: usize) -> (off:
        isize)
        requires
            self@.lines.len() > 0,
        ensures
            off == isat(char_offset(self@, *dir, *dest, ch@, count as int)),
    {
        let line = self.cur_line();
        let len = line.len();
        let row = self.cursor.pos.row;
        let ghost b = self@;
        let ghost l = line@;
        let mut off: i128 = 0;
        let mut it: usize = 0;
        while it < count
            invariant
                it <= count,
                b == self@,
                b.lines.len() > 0,
                row == b.cursor.pos.row,
                l == line@,
                l == line_at(b.lines, row),
                len == l.len(),
                *dir == Direction::Forward ==> 0 <= off <= len,
                *dir == Direction::Backward ==> -(b.cursor.pos.col as int) <= off <= 0,
                char_offset(b, *dir, *dest, ch@, count as int) == char_steps(
                    b,
                    *dir,
                    *dest,
                    ch@,
                    count as int,
                    it as int,
                    off as int,
                ),
            decreases count - it,
        {
            let at = self.col_from_cursor(off);
            let short: i128 = if *dest == Dest::Before && it == count - 1 {
                1
            } else {
                0
            };
            match dir {
                Direction::Forward => {
                    let ghost p = |x: Seq<char>| x == ch@;
                    let mut i: usize = at.saturating_add(1);
                    while i < len && !(*line.at(i) == *ch)
                        invariant
                            at < i || len <= i,
                            l == line@,
                            len == l.len(),
                            at <= len,
                            p == |x: Seq<char>| x == ch@,
                            first_from(l, p, at + 1) == first_from(l, p, i as int),
                        decreases len - i,
                    {
                        i += 1;
                    }
                    if i >= len {
                        return 0;
                    }
                    assert(first_from(l, p, at + 1) == i);
                    off = off + (i as i128 - at as i128) - short;
                },
                Direction::Backward => {
                    let mut i: usize = at;
                    while i > 0 && !(*line.at(i - 1) == *ch)
                        invariant
                            i <= at <= len,
                            l == line@,
                            len == l.len(),
                            last_before(l, ch@, at as int) == last_before(l, ch@, i as int),
                        decreases i,
                    {
                        i -= 1;
                    }
                    if i == 0 {
                        return 0;
                    }
                    off = off - (at as i128 - (i as i128 - 1)) + short;
                },
            }
            it += 1;
        }
        if off > isize::MAX as i128 {
            isize::MAX
        } else if off < isize::MIN as i128 {
            isize::MIN
        } else {
            off as isize
        }
    }

    /// The column `off` columns from the cursor's, within its line.
    fn col_from_cursor(&self, off: i128) -> (c: usize)
        requires
            self@.lines.len() > 0,
            -(usize::MAX as int) <= off <= usize::MAX,
        ensures
            c == col_off(self@, self@.cursor.pos.row, off as int),
            c <= line_at(self@.lines, self@.cursor.pos.row).len(),
            off <= 0 ==> c <= self@.cursor.pos.col + off || self@.cursor.pos.col + off < 0,
    {
        let len = self.cur_line().len();
        let max = if self.cursor.exclusive {
            len.saturating_sub(1)
        } else {
            len
        };
        let c = self.cursor.pos.col as i128 + off;
        if c < 0 {
            0
        } else if c > max as i128 {
            max
        } else {
            c as usize
        }
    }
}

} // verus!
