//! What the text objects between delimiters and quotes cover, said of the
//! clusters of the text in their order.

use vstd::prelude::*;
use crate::editcmd::{Bound, Cmd, EditCmd, Motion, TextObj};
use crate::linebuf::buffer::{clamped, wf, BufV};
use crate::linebuf::char_class::CharClass;
use crate::linebuf::grapheme::sole_char;
use crate::linebuf::lines::LinesV;
use crate::linebuf::motion::{cmd_cover, cover};
use crate::linebuf::pos::{shifted, MotionKind, Pos};
use crate::linebuf::scan::{
    delim_object, depth_after, find_char, find_stop, glyphs_back, glyphs_from, glyphs_on, glyphs_to,
    is_delim, quote_object, row_glyphs, row_glyphs_back, stop_from, stops, Glyph, Until,
};
use crate::linebuf::word_laws::{class_in, earlier, indexable, lemma_row_on, lemma_seek};
use crate::linebuf::words::{forward_cells, place, seek, wanted, Want};
use crate::seqs::{first_from, lemma_first_from};
use crate::shell::Opts;

verus! {

/// The clusters of the first `n` rows in their order, each with its place.
pub open spec fn in_order_upto(ls: LinesV, n: int) -> Seq<Glyph>
    decreases n,
{
    if n <= 0 {
        Seq::empty()
    } else {
        in_order_upto(ls, n - 1) + Seq::new(
            ls[n - 1].len(),
            |c: int| (Pos { row: (n - 1) as usize, col: c as usize }, sole_char(ls[n - 1][c])),
        )
    }
}

/// All clusters of the text in their order, each with its place.
pub open spec fn all_in_order(ls: LinesV) -> Seq<Glyph> {
    in_order_upto(ls, ls.len() as int)
}

/// How many clusters come before a place.
pub open spec fn number_before(ls: LinesV, p: Pos) -> int {
    in_order_upto(ls, p.row as int).len() + p.col
}

/// How many more of the clusters from `a` up to before `z` open than close.
pub open spec fn balance(g: Seq<Glyph>, opener: char, closer: char, a: int, z: int) -> int
    decreases z - a,
{
    if z <= a {
        0
    } else {
        balance(g, opener, closer, a, z - 1) + if g[z - 1].1 == Some(opener) {
            1int
        } else if g[z - 1].1 == Some(closer) {
            -1
        } else {
            0
        }
    }
}

/// An opening delimiter that nothing before `m` closes.
pub open spec fn open_until(g: Seq<Glyph>, opener: char, closer: char, a: int, m: int) -> bool {
    &&& 0 <= a < m <= g.len()
    &&& g[a].1 == Some(opener)
    &&& forall|k: int| a < k <= m ==> #[trigger] balance(g, opener, closer, a, k) > 0
}

/// An opening delimiter and the closing one that belongs to it: between them as
/// many open as close, and never fewer.
pub open spec fn matched(g: Seq<Glyph>, opener: char, closer: char, a: int, z: int) -> bool {
    &&& open_until(g, opener, closer, a, z)
    &&& z < g.len()
    &&& g[z].1 == Some(closer)
    &&& balance(g, opener, closer, a, z + 1) == 0
}

/// The innermost pair of delimiters with the cursor, before which there are `p`
/// clusters, behind the first and not behind the second.
pub open spec fn innermost(g: Seq<Glyph>, opener: char, closer: char, p: int, a: int, z: int) -> bool {
    &&& matched(g, opener, closer, a, z)
    &&& a < p <= z
    &&& forall|a2: int, z2: int| #[trigger]
        matched(g, opener, closer, a2, z2) && a2 < p <= z2 ==> a2 <= a
}

proof fn lemma_balance_split(g: Seq<Glyph>, o: char, c: char, a: int, m: int, z: int)
    requires
        a <= m <= z,
    ensures
        balance(g, o, c, a, z) == balance(g, o, c, a, m) + balance(g, o, c, m, z),
    decreases z - m,
{
    if m < z {
        lemma_balance_split(g, o, c, a, m, z - 1);
    }
}

proof fn lemma_balance_one(g: Seq<Glyph>, o: char, c: char, a: int)
    ensures
        balance(g, o, c, a, a + 1) == if g[a].1 == Some(o) {
            1int
        } else if g[a].1 == Some(c) {
            -1
        } else {
            0
        },
{
    reveal_with_fuel(balance, 2);
}

/// An opening delimiter that has to be closed by `z` is closed at some place.
proof fn lemma_is_closed(g: Seq<Glyph>, o: char, c: char, a: int, m: int, z: int) -> (z2: int)
    requires
        open_until(g, o, c, a, m),
        m <= z < g.len(),
        balance(g, o, c, a, z + 1) <= 0,
        o != c,
    ensures
        m <= z2 <= z,
        matched(g, o, c, a, z2),
    decreases z - m,
{
    assert(balance(g, o, c, a, m) > 0);
    if balance(g, o, c, a, m + 1) <= 0 {
        m
    } else {
        assert(m < z);
        assert(open_until(g, o, c, a, m + 1));
        lemma_is_closed(g, o, c, a, m + 1, z)
    }
}

proof fn lemma_rows_before(ls: LinesV, row: int)
    requires
        0 <= row <= ls.len(),
    ensures
        in_order_upto(ls, row).len() <= all_in_order(ls).len(),
        all_in_order(ls).take(in_order_upto(ls, row).len() as int) == in_order_upto(ls, row),
    decreases ls.len() - row,
{
    let g = all_in_order(ls);
    if row < ls.len() {
        lemma_rows_before(ls, row + 1);
        let n = in_order_upto(ls, row).len() as int;
        let m = in_order_upto(ls, row + 1).len() as int;
        assert(g.take(m).take(n) =~= g.take(n));
        assert(in_order_upto(ls, row + 1).take(n) =~= in_order_upto(ls, row));
    } else {
        assert(g.take(g.len() as int) =~= g);
    }
}

/// The clusters of one row, among all.
proof fn lemma_row_of_all(ls: LinesV, row: int, col: int)
    requires
        0 <= row < ls.len(),
        0 <= col < ls[row].len(),
        indexable(ls),
    ensures
        0 <= in_order_upto(ls, row).len() + col < all_in_order(ls).len(),
        all_in_order(ls)[in_order_upto(ls, row).len() + col] == (
            Pos { row: row as usize, col: col as usize },
            sole_char(ls[row][col]),
        ),
{
    lemma_rows_before(ls, row + 1);
    let g = all_in_order(ls);
    let h = in_order_upto(ls, row + 1);
    let k = in_order_upto(ls, row).len() + col;
    assert(g.take(h.len() as int)[k] == h[k]);
}

/// The clusters from a place on are all but those before it.
proof fn lemma_from_on(ls: LinesV, row: int, col: int)
    requires
        0 <= row <= ls.len(),
        row == ls.len() ==> col == 0,
        row < ls.len() ==> 0 <= col <= ls[row].len(),
        indexable(ls),
    ensures
        in_order_upto(ls, row).len() + col <= all_in_order(ls).len(),
        glyphs_from(ls, row, col) == all_in_order(ls).skip(in_order_upto(ls, row).len() + col),
    decreases ls.len() - row,
{
    let g = all_in_order(ls);
    let n = in_order_upto(ls, row).len() as int;
    if row < ls.len() {
        lemma_from_on(ls, row + 1, 0);
        lemma_rows_before(ls, row + 1);
        assert(in_order_upto(ls, row + 1).len() == n + ls[row].len());
        let len = ls[row].len() as int;
        let a = row_glyphs(ls, row, col);
        assert(a.len() == len - col);
        assert forall|i: int| 0 <= i < a.len() implies a[i] == g.skip(n + col)[i] by {
            lemma_row_of_all(ls, row, col + i);
        }
        assert(glyphs_from(ls, row, col) =~= g.skip(n + col));
    } else {
        assert(glyphs_from(ls, row, col) =~= g.skip(n + col));
    }
}

/// The clusters before a place, backwards.
proof fn lemma_back_from(ls: LinesV, row: int, end: int)
    requires
        0 <= row < ls.len(),
        0 <= end <= ls[row].len(),
        indexable(ls),
    ensures
        ({
            let n = in_order_upto(ls, row).len() + end;
            &&& n <= all_in_order(ls).len()
            &&& glyphs_back(ls, row, end) == Seq::new(
                n as nat,
                |i: int| all_in_order(ls)[n - 1 - i],
            )
        }),
    decreases row,
{
    let g = all_in_order(ls);
    let n = in_order_upto(ls, row).len() + end;
    let want = Seq::new(n as nat, |i: int| g[n - 1 - i]);
    lemma_from_on(ls, row, end);
    let a = row_glyphs_back(ls, row, end);
    assert forall|i: int| 0 <= i < end implies a[i] == want[i] by {
        lemma_row_of_all(ls, row, end - 1 - i);
    }
    if row > 0 {
        lemma_back_from(ls, row - 1, ls[row - 1].len() as int);
        assert(in_order_upto(ls, row).len() == in_order_upto(ls, row - 1).len() + ls[row
            - 1].len());
    }
    assert(glyphs_back(ls, row, end) =~= want);
}

/// A cluster's place tells which it is.
proof fn lemma_place_tells(ls: LinesV, row: int, k: int)
    requires
        0 <= row <= ls.len(),
        indexable(ls),
        0 <= k < in_order_upto(ls, row).len(),
    ensures
        ({
            let p = in_order_upto(ls, row)[k].0;
            &&& p.row < row
            &&& p.col < ls[p.row as int].len()
            &&& number_before(ls, p) == k
        }),
    decreases row,
{
    let n = in_order_upto(ls, row - 1).len();
    if k < n {
        lemma_place_tells(ls, row - 1, k);
        assert(in_order_upto(ls, row)[k] == in_order_upto(ls, row - 1)[k]);
    } else {
        assert(ls[row - 1].len() <= usize::MAX);
    }
}

/// Clusters in their order have places in that order.
proof fn lemma_places_in_order(ls: LinesV, a: int, z: int)
    requires
        indexable(ls),
        0 <= a < z < all_in_order(ls).len(),
    ensures
        earlier(all_in_order(ls)[a].0, all_in_order(ls)[z].0),
{
    let g = all_in_order(ls);
    lemma_place_tells(ls, ls.len() as int, a);
    lemma_place_tells(ls, ls.len() as int, z);
    let p = g[a].0;
    let q = g[z].0;
    if q.row < p.row {
        lemma_rows_before_mono(ls, q.row + 1, p.row as int);
        assert(number_before(ls, q) < in_order_upto(ls, q.row + 1).len());
    }
}

proof fn lemma_rows_before_mono(ls: LinesV, a: int, z: int)
    requires
        0 <= a <= z,
    ensures
        in_order_upto(ls, a).len() <= in_order_upto(ls, z).len(),
    decreases z - a,
{
    if a < z {
        lemma_rows_before_mono(ls, a, z - 1);
    }
}

/// The count of a search forwards is the balance.
proof fn lemma_depth_on(g: Seq<Glyph>, o: char, c: char, a: int, n: int)
    requires
        0 <= a,
        0 <= n,
        a + n <= g.len(),
        o != c,
    ensures
        depth_after(g.skip(a), o, c, n) == balance(g, o, c, a, a + n),
    decreases n,
{
    if n > 0 {
        lemma_depth_on(g, o, c, a, n - 1);
        assert(g.skip(a)[n - 1] == g[a + n - 1]);
    }
}

/// The clusters before number `m`, backwards.
spec fn backwards(g: Seq<Glyph>, m: int) -> Seq<Glyph> {
    Seq::new(m as nat, |i: int| g[m - 1 - i])
}

/// The count of a search backwards is the balance, turned round.
proof fn lemma_depth_back(g: Seq<Glyph>, o: char, c: char, m: int, n: int)
    requires
        0 <= n <= m <= g.len(),
        o != c,
    ensures
        depth_after(backwards(g, m), c, o, n) == -balance(g, o, c, m - n, m),
    decreases n,
{
    if n > 0 {
        lemma_depth_back(g, o, c, m, n - 1);
        assert(backwards(g, m)[n - 1] == g[m - n]);
        lemma_balance_split(g, o, c, m - n, m - n + 1, m);
        lemma_balance_one(g, o, c, m - n);
    }
}

proof fn lemma_stop_from(s: Seq<Glyph>, up: char, down: char, u: Until, i: int)
    requires
        0 <= i <= s.len(),
    ensures
        i <= stop_from(s, up, down, u, i) <= s.len(),
        stop_from(s, up, down, u, i) < s.len() ==> stops(
            s,
            up,
            down,
            u,
            stop_from(s, up, down, u, i),
        ),
        forall|k: int|
            i <= k < stop_from(s, up, down, u, i) ==> !#[trigger] stops(s, up, down, u, k),
    decreases s.len() - i,
{
    if i < s.len() && !stops(s, up, down, u, i) {
        lemma_stop_from(s, up, down, u, i + 1);
    }
}

/// Before the first unopened one the count does not sink below zero.
proof fn lemma_never_below(s: Seq<Glyph>, up: char, down: char, n: int)
    requires
        0 <= n <= s.len(),
        forall|k: int| 0 <= k < n ==> !#[trigger] stops(s, up, down, Until::Unopened, k),
        up != down,
    ensures
        depth_after(s, up, down, n) >= 0,
    decreases n,
{
    if n > 0 {
        lemma_never_below(s, up, down, n - 1);
        assert(!stops(s, up, down, Until::Unopened, n - 1));
    }
}

/// The search backwards from number `m` for an unclosed opening delimiter finds
/// the last one that is open until there.
proof fn lemma_finds_last_open(g: Seq<Glyph>, o: char, c: char, m: int) -> (i: int)
    requires
        0 <= m <= g.len(),
        o != c,
    ensures
        i == stop_from(backwards(g, m), c, o, Until::Unopened, 0),
        0 <= i <= m,
        i < m ==> open_until(g, o, c, m - 1 - i, m),
        forall|a: int| #[trigger] open_until(g, o, c, a, m) ==> i < m && a <= m - 1 - i,
{
    let s = backwards(g, m);
    let i = stop_from(s, c, o, Until::Unopened, 0);
    lemma_stop_from(s, c, o, Until::Unopened, 0);
    if i < m {
        let a = m - 1 - i;
        assert(s[i] == g[a]);
        assert(stops(s, c, o, Until::Unopened, i));
        lemma_depth_back(g, o, c, m, i);
        lemma_balance_split(g, o, c, a, a + 1, m);
        lemma_balance_one(g, o, c, a);
        assert forall|k: int| a < k <= m implies #[trigger] balance(g, o, c, a, k) > 0 by {
            lemma_never_below(s, c, o, m - k);
            lemma_depth_back(g, o, c, m, m - k);
            lemma_balance_split(g, o, c, a, k, m);
        }
    }
    assert forall|a: int| #[trigger] open_until(g, o, c, a, m) implies i < m && a <= m - 1 - i by {
        let j = m - 1 - a;
        if i > j {
            lemma_never_below(s, c, o, j);
            lemma_depth_back(g, o, c, m, j);
            lemma_balance_split(g, o, c, a, a + 1, m);
            lemma_balance_one(g, o, c, a);
            assert(balance(g, o, c, a, m) > 0);
            assert(s[j] == g[a]);
            assert(!stops(s, c, o, Until::Unopened, j));
        }
    }
    i
}

/// The search forwards from an opening delimiter finds the closing one.
proof fn lemma_finds_close(g: Seq<Glyph>, o: char, c: char, a: int) -> (i: int)
    requires
        0 <= a < g.len(),
        g[a].1 == Some(o),
        o != c,
    ensures
        i == stop_from(g.skip(a), o, c, Until::Closed, 0),
        0 <= i <= g.len() - a,
        i < g.len() - a ==> matched(g, o, c, a, a + i),
        forall|z: int| #[trigger] matched(g, o, c, a, z) ==> z == a + i,
{
    let s = g.skip(a);
    let i = stop_from(s, o, c, Until::Closed, 0);
    lemma_stop_from(s, o, c, Until::Closed, 0);
    lemma_balance_one(g, o, c, a);
    lemma_depth_on(g, o, c, a, 1);
    if i < s.len() {
        assert(stops(s, o, c, Until::Closed, i));
        lemma_depth_on(g, o, c, a, i + 1);
        assert(i > 0);
        lemma_all_open(g, o, c, a, i);
        assert(balance(g, o, c, a, a + i) > 0);
    }
    assert forall|z: int| #[trigger] matched(g, o, c, a, z) implies z == a + i by {
        lemma_depth_on(g, o, c, a, z - a + 1);
        if i > z - a {
            assert(!stops(s, o, c, Until::Closed, z - a));
        } else if i < z - a {
            assert(balance(g, o, c, a, a + i + 1) > 0);
        }
    }
    i
}

proof fn lemma_all_open(g: Seq<Glyph>, o: char, c: char, a: int, n: int)
    requires
        0 <= a,
        0 < n,
        a + n <= g.len(),
        g[a].1 == Some(o),
        o != c,
        forall|k: int| 0 <= k < n ==> !#[trigger] stops(g.skip(a), o, c, Until::Closed, k),
    ensures
        open_until(g, o, c, a, a + n),
    decreases n,
{
    lemma_balance_one(g, o, c, a);
    if n > 1 {
        lemma_all_open(g, o, c, a, n - 1);
        assert(balance(g, o, c, a, a + n - 1) > 0);
    }
    assert(!stops(g.skip(a), o, c, Until::Closed, n - 1));
    lemma_depth_on(g, o, c, a, n);
    assert forall|k: int| a < k <= a + n implies #[trigger] balance(g, o, c, a, k) > 0 by {
        if k < a + n {
            assert(open_until(g, o, c, a, a + n - 1));
        }
    }
}

/// A text object between delimiters.
pub open spec fn delimiters(obj: TextObj) -> Option<(char, char, Bound)> {
    match obj {
        TextObj::Paren(bound) => Some(('(', ')', bound)),
        TextObj::Bracket(bound) => Some(('[', ']', bound)),
        TextObj::Brace(bound) => Some(('{', '}', bound)),
        TextObj::Angle(bound) => Some(('<', '>', bound)),
        _ => None,
    }
}

/// What lies between two clusters: with them, or without them.
pub open spec fn from_to(g: Seq<Glyph>, a: int, z: int, bound: Bound) -> MotionKind {
    match bound {
        Bound::Around => MotionKind::Char { start: g[a].0, end: g[z].0, inclusive: true },
        Bound::Inside => MotionKind::Char {
            start: Pos { row: g[a].0.row, col: (g[a].0.col + 1) as usize },
            end: g[z].0,
            inclusive: false,
        },
    }
}

/// The cursor is within the text. In the first column it stands on neither
/// delimiter: there the search backwards takes the cursor's own cluster in.
pub open spec fn placed_for(b: BufV, o: char, c: char) -> bool {
    let p = b.cursor.pos;
    &&& p.row < b.lines.len()
    &&& p.col <= b.lines[p.row as int].len()
    &&& p.col == 0 && b.lines[p.row as int].len() > 0 ==> sole_char(b.lines[p.row as int][0])
        != Some(o) && sole_char(b.lines[p.row as int][0]) != Some(c)
}

/// Where the search backwards from the cursor begins.
proof fn lemma_back_of_cursor(b: BufV, o: char, c: char) -> (m: int)
    requires
        placed_for(b, o, c),
        indexable(b.lines),
    ensures
        ({
            let g = all_in_order(b.lines);
            let p = number_before(b.lines, b.cursor.pos);
            &&& 0 <= p <= m <= g.len()
            &&& m <= p + 1
            &&& m > p ==> g[p].1 != Some(o) && g[p].1 != Some(c)
            &&& glyphs_to(b.lines, shifted(b.cursor.pos, 0, -1)) == backwards(g, m)
            &&& glyphs_on(b.lines, b.cursor.pos) == g.skip(p)
        }),
{
    let ls = b.lines;
    let p = b.cursor.pos;
    let row = p.row as int;
    assert(ls[row].len() <= usize::MAX);
    lemma_from_on(ls, row, p.col as int);
    assert(clamped(ls, p, false) == p);
    let q = shifted(p, 0, -1);
    assert(clamped(ls, q, false) == q);
    let end = if p.col > 0 {
        p.col as int
    } else if ls[row].len() > 0 {
        1
    } else {
        0
    };
    lemma_back_from(ls, row, end);
    if end > p.col {
        lemma_row_of_all(ls, row, 0);
    }
    in_order_upto(ls, row).len() + end
}

/// The object from a known opening delimiter.
proof fn lemma_object_from(b: BufV, o: char, c: char, bound: Bound, a: int)
    requires
        indexable(b.lines),
        o != c,
        0 <= a < all_in_order(b.lines).len(),
        all_in_order(b.lines)[a].1 == Some(o),
        ({
            let back = find_stop(
                glyphs_to(b.lines, shifted(b.cursor.pos, 0, -1)),
                c,
                o,
                Until::Unopened,
            );
            let place = Some(all_in_order(b.lines)[a].0);
            back == place || (back is None && find_char(glyphs_on(b.lines, b.cursor.pos), o)
                == place)
        }),
    ensures
        forall|z: int| #[trigger]
            matched(all_in_order(b.lines), o, c, a, z) ==> delim_object(b, o, c, bound) == Some(
                from_to(all_in_order(b.lines), a, z, bound),
            ),
        (forall|z: int| !#[trigger] matched(all_in_order(b.lines), o, c, a, z)) ==> delim_object(
            b,
            o,
            c,
            bound,
        ) is None,
{
    let g = all_in_order(b.lines);
    let s = g[a].0;
    lemma_place_tells(b.lines, b.lines.len() as int, a);
    assert(clamped(b.lines, s, false) == s);
    assert(b.lines[s.row as int].len() <= usize::MAX);
    lemma_from_on(b.lines, s.row as int, s.col as int);
    assert(glyphs_on(b.lines, s) == g.skip(a));
    let i = lemma_finds_close(g, o, c, a);
    if i < g.len() - a {
        assert(matched(g, o, c, a, a + i));
        assert(g.skip(a)[i] == g[a + i]);
        lemma_places_in_order(b.lines, a, a + i);
    }
    assert forall|z: int| #[trigger] matched(g, o, c, a, z) implies delim_object(b, o, c, bound)
        == Some(from_to(g, a, z, bound)) by {
        assert(z == a + i);
    }
}

proof fn lemma_object_around_cursor(b: BufV, o: char, c: char, bound: Bound, a: int, z: int)
    requires
        placed_for(b, o, c),
        indexable(b.lines),
        o != c,
        innermost(all_in_order(b.lines), o, c, number_before(b.lines, b.cursor.pos), a, z),
    ensures
        delim_object(b, o, c, bound) == Some(from_to(all_in_order(b.lines), a, z, bound)),
{
    let g = all_in_order(b.lines);
    let p = number_before(b.lines, b.cursor.pos);
    let m = lemma_back_of_cursor(b, o, c);
    assert(m <= z);
    assert(open_until(g, o, c, a, m)) by {
        assert forall|k: int| a < k <= m implies #[trigger] balance(g, o, c, a, k) > 0 by {
            assert(open_until(g, o, c, a, z));
        }
    }
    let i = lemma_finds_last_open(g, o, c, m);
    let a2 = m - 1 - i;
    assert(open_until(g, o, c, a2, m));
    lemma_balance_split(g, o, c, a, a2, z + 1);
    if a2 > a {
        assert(balance(g, o, c, a, a2) > 0);
        let z2 = lemma_is_closed(g, o, c, a2, m, z);
        assert(matched(g, o, c, a2, z2));
        assert(a2 < p);
    }
    assert(a2 == a);
    assert(backwards(g, m)[i] == g[a]);
    lemma_object_from(b, o, c, bound, a);
}

/// Where the cursor lies between an opening delimiter and the closing one that
/// belongs to it, the text object covers the innermost such pair and what lies
/// between, or just what lies between.
pub proof fn law_delimited_object_is_the_innermost_pair(b: BufV, cmd: EditCmd, n: usize, obj: TextObj, a: int, z: int, opts: Opts)
    requires
        wf(b),
        indexable(b.lines),
        cmd.motion == Some(Cmd(n, Motion::TextObj(obj))),
        delimiters(obj) matches Some((o, c, _)) && placed_for(b, o, c) && innermost(
            all_in_order(b.lines),
            o,
            c,
            number_before(b.lines, b.cursor.pos),
            a,
            z,
        ),
    ensures
        cmd_cover(b, cmd, opts) == Some(
            from_to(all_in_order(b.lines), a, z, delimiters(obj).unwrap().2),
        ),
{
    reveal(cover);
    let (o, c, bound) = delimiters(obj).unwrap();
    lemma_object_around_cursor(b, o, c, bound, a, z);
}

/// Where no opening delimiter is open at the cursor, the text object is that of
/// the first one at or behind the cursor, and there is none where that one is
/// missing or never closed.
pub proof fn law_delimited_object_ahead(b: BufV, cmd: EditCmd, n: usize, obj: TextObj, opts: Opts)
    requires
        wf(b),
        indexable(b.lines),
        cmd.motion == Some(Cmd(n, Motion::TextObj(obj))),
        delimiters(obj) matches Some((o, c, _)) && placed_for(b, o, c) && forall|a: int|
            !#[trigger] open_until(
                all_in_order(b.lines),
                o,
                c,
                a,
                number_before(b.lines, b.cursor.pos),
            ),
    ensures
        ({
            let g = all_in_order(b.lines);
            let p = number_before(b.lines, b.cursor.pos);
            let (o, c, bound) = delimiters(obj).unwrap();
            let r = cmd_cover(b, cmd, opts);
            &&& (forall|k: int| p <= k < g.len() ==> (#[trigger] g[k]).1 != Some(o)) ==> r is None
            &&& forall|a: int, z: int|
                p <= a && #[trigger] matched(g, o, c, a, z) && (forall|k: int|
                    p <= k < a ==> (#[trigger] g[k]).1 != Some(o)) ==> r == Some(
                    from_to(g, a, z, bound),
                )
            &&& forall|a: int|
                p <= a < g.len() && (#[trigger] g[a]).1 == Some(o) && (forall|k: int|
                    p <= k < a ==> (#[trigger] g[k]).1 != Some(o)) && (forall|z: int|
                    !#[trigger] matched(g, o, c, a, z)) ==> r is None
        }),
{
    reveal(cover);
    let (o, c, bound) = delimiters(obj).unwrap();
    let g = all_in_order(b.lines);
    let p = number_before(b.lines, b.cursor.pos);
    let m = lemma_back_of_cursor(b, o, c);
    let i = lemma_finds_last_open(g, o, c, m);
    if i < m {
        let a = m - 1 - i;
        assert(open_until(g, o, c, a, m));
        assert(a < p);
        assert(open_until(g, o, c, a, p)) by {
            assert forall|k: int| a < k <= p implies #[trigger] balance(g, o, c, a, k) > 0 by {}
        }
    }
    let s = g.skip(p);
    let f = |e: Glyph| e.1 == Some(o);
    let j = first_from(s, f, 0);
    lemma_first_from(s, f, 0);
    assert(find_char(s, o) == if j < s.len() {
        Some(s[j].0)
    } else {
        None
    });
    if j < s.len() {
        assert(f(s[j]));
        assert(s[j] == g[p + j]);
        lemma_object_from(b, o, c, bound, p + j);
    }
    assert forall|k: int| p <= k < p + j implies (#[trigger] g[k]).1 != Some(o) by {
        assert(s[k - p] == g[k]);
        assert(!f(s[k - p]));
    }
    if forall|k: int| p <= k < g.len() ==> (#[trigger] g[k]).1 != Some(o) {
        assert(j >= s.len());
    }
    let r = cmd_cover(b, cmd, opts);
    assert forall|a: int, z: int|
        p <= a && #[trigger] matched(g, o, c, a, z) && (forall|k: int|
            p <= k < a ==> (#[trigger] g[k]).1 != Some(o)) implies r == Some(
        from_to(g, a, z, bound),
    ) by {
        assert(g[a].1 == Some(o));
        assert(a == p + j);
    }
    assert forall|a: int|
        p <= a < g.len() && (#[trigger] g[a]).1 == Some(o) && (forall|k: int|
            p <= k < a ==> (#[trigger] g[k]).1 != Some(o)) && (forall|z: int|
            !#[trigger] matched(g, o, c, a, z)) implies r is None by {
        assert(a == p + j);
    }
}

/// The pairs of delimiters that a motion leads between.
pub open spec fn is_pair(o: char, c: char) -> bool {
    (o == '(' && c == ')') || (o == '[' && c == ']') || (o == '{' && c == '}') || (o == '<' && c
        == '>')
}

/// No delimiter.
pub open spec fn no_delimiter(e: Glyph) -> bool {
    e.1 != Some('(') && e.1 != Some(')') && e.1 != Some('[') && e.1 != Some(']') && e.1 != Some('{')
        && e.1 != Some('}') && e.1 != Some('<') && e.1 != Some('>')
}

/// From the first delimiter at or behind the cursor, the motion to its partner
/// leads to the one that belongs to it, forwards and backwards.
pub proof fn law_delimiters_lead_to_each_other(b: BufV, cmd: EditCmd, n: usize, o: char, c: char, a: int, z: int, opts: Opts)
    requires
        wf(b),
        indexable(b.lines),
        b.cursor.pos.row < b.lines.len(),
        b.cursor.pos.col <= b.lines[b.cursor.pos.row as int].len(),
        cmd.motion == Some(Cmd(n, Motion::ToDelimMatch)),
        is_pair(o, c),
        matched(all_in_order(b.lines), o, c, a, z),
    ensures
        ({
            let g = all_in_order(b.lines);
            let p = number_before(b.lines, b.cursor.pos);
            &&& p <= a && (forall|k: int| p <= k < a ==> no_delimiter(#[trigger] g[k])) ==> cmd_cover(
                b,
                cmd,
                opts,
            ) == Some(MotionKind::Char { start: b.cursor.pos, end: g[z].0, inclusive: true })
            &&& p <= z && (forall|k: int| p <= k < z ==> no_delimiter(#[trigger] g[k])) ==> cmd_cover(
                b,
                cmd,
                opts,
            ) == Some(MotionKind::Char { start: b.cursor.pos, end: g[a].0, inclusive: true })
        }),
{
    reveal(cover);
    let ls = b.lines;
    let g = all_in_order(ls);
    let p = number_before(ls, b.cursor.pos);
    let s = g.skip(p);
    assert(ls[b.cursor.pos.row as int].len() <= usize::MAX);
    assert(clamped(ls, b.cursor.pos, false) == b.cursor.pos);
    lemma_from_on(ls, b.cursor.pos.row as int, b.cursor.pos.col as int);
    assert(glyphs_on(ls, b.cursor.pos) == s);
    let f = |e: Glyph| is_delim(e);
    let j = first_from(s, f, 0);
    lemma_first_from(s, f, 0);
    if p <= a && (forall|k: int| p <= k < a ==> no_delimiter(#[trigger] g[k])) {
        assert(f(s[a - p]));
        if j < a - p {
            assert(no_delimiter(g[p + j]));
        }
        assert(j == a - p);
        lemma_place_tells(ls, ls.len() as int, a);
        let q = g[a].0;
        assert(clamped(ls, q, false) == q);
        lemma_from_on(ls, q.row as int, q.col as int);
        let i = lemma_finds_close(g, o, c, a);
        assert(g.skip(a)[i] == g[z]);
    }
    if p <= z && (forall|k: int| p <= k < z ==> no_delimiter(#[trigger] g[k])) {
        assert(f(s[z - p]));
        if j < z - p {
            assert(no_delimiter(g[p + j]));
        }
        assert(j == z - p);
        lemma_place_tells(ls, ls.len() as int, z);
        let q = g[z].0;
        assert(clamped(ls, q, false) == q);
        lemma_back_from(ls, q.row as int, q.col + 1);
        let t = backwards(g, z + 1);
        assert(glyphs_to(ls, q) == t);
        lemma_stop_from(t, c, o, Until::Closed, 0);
        let i = stop_from(t, c, o, Until::Closed, 0);
        lemma_depth_back(g, o, c, z + 1, z + 1 - a);
        assert(stops(t, c, o, Until::Closed, z - a));
        assert(i <= z - a);
        if i < z - a {
            lemma_depth_back(g, o, c, z + 1, i + 1);
            lemma_balance_split(g, o, c, a, z - i, z + 1);
            assert(balance(g, o, c, a, z - i) > 0);
            assert(stops(t, c, o, Until::Closed, i));
        }
        assert(t[i] == g[a]);
    }
}

/// A text object between quotes.
pub open spec fn quotes(obj: TextObj) -> Option<(char, Bound)> {
    match obj {
        TextObj::DoubleQuote(bound) => Some(('"', bound)),
        TextObj::SingleQuote(bound) => Some(('\'', bound)),
        TextObj::BacktickQuote(bound) => Some(('`', bound)),
        _ => None,
    }
}

/// Two quotes with none between, the first of which is the last one before the
/// cursor, or the first of all where none comes before it.
pub open spec fn quoted(g: Seq<Glyph>, q: char, p: int, a: int, z: int) -> bool {
    &&& 0 <= a < z < g.len()
    &&& g[a].1 == Some(q)
    &&& g[z].1 == Some(q)
    &&& forall|k: int| a < k < z ==> (#[trigger] g[k]).1 != Some(q)
    &&& a < p ==> forall|k: int| a < k < p ==> (#[trigger] g[k]).1 != Some(q)
    &&& a >= p ==> forall|k: int| 0 <= k < a ==> (#[trigger] g[k]).1 != Some(q)
}

proof fn lemma_finds_char(s: Seq<Glyph>, q: char, i: int)
    requires
        0 <= i < s.len(),
        s[i].1 == Some(q),
        forall|k: int| 0 <= k < i ==> (#[trigger] s[k]).1 != Some(q),
    ensures
        find_char(s, q) == Some(s[i].0),
{
    let f = |e: Glyph| e.1 == Some(q);
    lemma_first_from(s, f, 0);
    let j = first_from(s, f, 0);
    if j < i {
        assert(f(s[j]));
        assert(s[j].1 != Some(q));
    }
    if j > i {
        assert(!f(s[i]));
    }
}

proof fn lemma_finds_no_char(s: Seq<Glyph>, q: char)
    requires
        forall|k: int| 0 <= k < s.len() ==> (#[trigger] s[k]).1 != Some(q),
    ensures
        find_char(s, q) is None,
{
    let f = |e: Glyph| e.1 == Some(q);
    lemma_first_from(s, f, 0);
    let j = first_from(s, f, 0);
    if j < s.len() {
        assert(f(s[j]));
    }
}

/// The quote that a search from the cursor finds first.
proof fn lemma_first_quote(b: BufV, q: char, a: int, z: int)
    requires
        indexable(b.lines),
        placed_for(b, q, q),
        quoted(all_in_order(b.lines), q, number_before(b.lines, b.cursor.pos), a, z),
    ensures
        ({
            let back = find_char(glyphs_to(b.lines, shifted(b.cursor.pos, 0, -1)), q);
            let place = Some(all_in_order(b.lines)[a].0);
            back == place || (back is None && find_char(glyphs_on(b.lines, b.cursor.pos), q)
                == place)
        }),
{
    let g = all_in_order(b.lines);
    let p = number_before(b.lines, b.cursor.pos);
    let back = lemma_back_of_cursor(b, q, q);
    let t = backwards(g, back);
    if a < p {
        assert forall|k: int| 0 <= k < back - 1 - a implies (#[trigger] t[k]).1 != Some(q) by {
            assert(t[k] == g[back - 1 - k]);
        }
        assert(t[back - 1 - a] == g[a]);
        lemma_finds_char(t, q, back - 1 - a);
    } else {
        assert forall|k: int| 0 <= k < t.len() implies (#[trigger] t[k]).1 != Some(q) by {
            assert(t[k] == g[back - 1 - k]);
        }
        lemma_finds_no_char(t, q);
        let u = g.skip(p);
        assert forall|k: int| 0 <= k < a - p implies (#[trigger] u[k]).1 != Some(q) by {
            assert(u[k] == g[p + k]);
        }
        assert(u[a - p] == g[a]);
        lemma_finds_char(u, q, a - p);
    }
}

/// The quote that follows it.
proof fn lemma_second_quote(ls: LinesV, q: char, a: int, z: int)
    requires
        indexable(ls),
        0 <= a < z < all_in_order(ls).len(),
        all_in_order(ls)[z].1 == Some(q),
        forall|k: int| a < k < z ==> (#[trigger] all_in_order(ls)[k]).1 != Some(q),
        all_in_order(ls)[a].0.col + 1 < ls[all_in_order(ls)[a].0.row as int].len(),
    ensures
        ({
            let s = all_in_order(ls)[a].0;
            find_char(glyphs_on(ls, Pos { row: s.row, col: (s.col + 1) as usize }), q) == Some(
                all_in_order(ls)[z].0,
            )
        }),
{
    let g = all_in_order(ls);
    lemma_place_tells(ls, ls.len() as int, a);
    let s = g[a].0;
    assert(ls[s.row as int].len() <= usize::MAX);
    let next = Pos { row: s.row, col: (s.col + 1) as usize };
    assert(clamped(ls, next, false) == next);
    lemma_from_on(ls, s.row as int, s.col + 1);
    assert(glyphs_on(ls, next) == g.skip(a + 1));
    let v = g.skip(a + 1);
    assert forall|k: int| 0 <= k < z - a - 1 implies (#[trigger] v[k]).1 != Some(q) by {
        assert(v[k] == g[a + 1 + k]);
    }
    assert(v[z - a - 1] == g[z]);
    lemma_finds_char(v, q, z - a - 1);
}

/// The first cluster behind a place of its line that is no white space.
proof fn lemma_past_white_space(ls: LinesV, e: Pos, m: int)
    requires
        indexable(ls),
        e.row < ls.len(),
        e.col < m < ls[e.row as int].len(),
        class_in(ls, e.row as int, m) != CharClass::Whitespace,
        forall|c: int|
            e.col < c < m ==> #[trigger] class_in(ls, e.row as int, c) == CharClass::Whitespace,
    ensures
        ({
            let cells = forward_cells(ls, Pos { row: e.row, col: (e.col + 1) as usize });
            place(cells, seek(cells, Want::NoSpace, 0)) == Some(
                Pos { row: e.row, col: m as usize },
            )
        }),
{
    assert(ls[e.row as int].len() <= usize::MAX);
    let cells = forward_cells(ls, Pos { row: e.row, col: (e.col + 1) as usize });
    lemma_row_on(ls, e.row as int, e.col + 1);
    lemma_seek(cells, Want::NoSpace, 0);
    let k = seek(cells, Want::NoSpace, 0);
    let j = m - (e.col + 1);
    assert(cells[j].1 == class_in(ls, e.row as int, m));
    if k < j {
        assert(cells[k].1 == class_in(ls, e.row as int, e.col + 1 + k));
    }
    if k > j {
        assert(!wanted(Want::NoSpace, cells[j]));
    }
}

/// A quoted text as a text object is what lies between the quotes. Around it
/// means with the quotes, and with the white space up to what follows in the
/// line. The first quote is not the last cluster of its line.
pub proof fn law_quoted_object_lies_between_quotes(b: BufV, cmd: EditCmd, n: usize, obj: TextObj, a: int, z: int, opts: Opts)
    requires
        wf(b),
        indexable(b.lines),
        cmd.motion == Some(Cmd(n, Motion::TextObj(obj))),
        quotes(obj) matches Some((q, _)) && placed_for(b, q, q) && quoted(
            all_in_order(b.lines),
            q,
            number_before(b.lines, b.cursor.pos),
            a,
            z,
        ),
        ({
            let s = all_in_order(b.lines)[a].0;
            s.col + 1 < b.lines[s.row as int].len()
        }),
    ensures
        ({
            let g = all_in_order(b.lines);
            let e = g[z].0;
            let r = cmd_cover(b, cmd, opts);
            &&& quotes(obj).unwrap().1 == Bound::Inside ==> r == Some(
                from_to(g, a, z, Bound::Inside),
            )
            &&& quotes(obj).unwrap().1 == Bound::Around ==> forall|m: int|
                e.col < m < b.lines[e.row as int].len() && #[trigger] class_in(
                    b.lines,
                    e.row as int,
                    m,
                ) != CharClass::Whitespace && (forall|c: int|
                    e.col < c < m ==> #[trigger] class_in(b.lines, e.row as int, c)
                        == CharClass::Whitespace) ==> r == Some(
                    MotionKind::Char {
                        start: g[a].0,
                        end: Pos { row: e.row, col: m as usize },
                        inclusive: false,
                    },
                )
        }),
{
    reveal(cover);
    let ls = b.lines;
    let g = all_in_order(ls);
    let (q, bound) = quotes(obj).unwrap();
    lemma_first_quote(b, q, a, z);
    lemma_second_quote(ls, q, a, z);
    lemma_place_tells(ls, ls.len() as int, a);
    lemma_place_tells(ls, ls.len() as int, z);
    lemma_places_in_order(ls, a, z);
    let s = g[a].0;
    let e = g[z].0;
    assert(ls[s.row as int].len() <= usize::MAX);
    assert(ls[e.row as int].len() <= usize::MAX);
    assert(shifted(e, 0, 1) == (Pos { row: e.row, col: (e.col + 1) as usize }));
    assert(cmd_cover(b, cmd, opts) == quote_object(b, q, bound));
    if bound == Bound::Around {
        let r = cmd_cover(b, cmd, opts);
        assert forall|m: int|
            e.col < m < ls[e.row as int].len() && #[trigger] class_in(ls, e.row as int, m)
                != CharClass::Whitespace && (forall|c: int|
                e.col < c < m ==> #[trigger] class_in(ls, e.row as int, c)
                    == CharClass::Whitespace) implies r == Some(
            MotionKind::Char {
                start: g[a].0,
                end: Pos { row: e.row, col: m as usize },
                inclusive: false,
            },
        ) by {
            lemma_past_white_space(ls, e, m);
        }
    }
}

} // verus!
