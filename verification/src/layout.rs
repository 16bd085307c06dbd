//! Where a text comes to stand on the terminal, and the escape sequences that
//! draw it and take it away again.

use vstd::prelude::*;
use crate::linebuf::lines::{rows_of, split_rows};
use crate::linebuf::number::{count_text, digits_of};
use crate::linebuf::pos::Pos;
use crate::seqs::{first_from, group_views, lemma_first_from, sat, views};
use crate::text::{chars_of, clusters, split_clusters, str_columns, text_columns};

verus! {

broadcast use group_views;

/// How far into an escape sequence a text is.
#[derive(Clone, Copy, Debug, PartialEq, Eq, Structural)]
pub enum Escape {
    Outside,
    /// Behind the escape character.
    Begun,
    /// Behind the bracket.
    Params,
}

/// The state behind a cluster.
pub open spec fn escape_after(esc: Escape, g: Seq<char>) -> Escape {
    match esc {
        Escape::Begun => if g == seq!['['] {
            Escape::Params
        } else {
            Escape::Outside
        },
        Escape::Params => if g.len() > 0 && (g == seq![';'] || '0' <= g[0] <= '9') {
            Escape::Params
        } else {
            Escape::Outside
        },
        Escape::Outside => if g == seq!['\u{1b}'] {
            Escape::Begun
        } else {
            Escape::Outside
        },
    }
}

/// The columns a cluster takes: none inside an escape sequence, none for a
/// line feed.
pub open spec fn shown_columns(esc: Escape, g: Seq<char>) -> usize {
    if esc != Escape::Outside || g == seq!['\u{1b}'] || g == seq!['\n'] {
        0
    } else {
        text_columns(g)
    }
}

fn is_one(g: &[char], c: char) -> (r: bool)
    ensures
        r == (g@ == seq![c]),
{
    if g.len() == 1 {
        assert(g@ == seq![c] <==> g@[0] == c) by {
            if g@[0] == c {
                assert(g@ =~= seq![c]);
            }
        }
        g[0] == c
    } else {
        false
    }
}

/// The columns a cluster takes, and how far into an escape sequence it leads.
pub fn width(g: &str, esc: Escape) -> (r: (usize, Escape))
    ensures
        r.0 == shown_columns(esc, g@),
        r.1 == escape_after(esc, g@),
{
    let chars = chars_of(g);
    match esc {
        Escape::Begun => {
            if is_one(chars.as_slice(), '[') {
                (0, Escape::Params)
            } else {
                (0, Escape::Outside)
            }
        },
        Escape::Params => {
            if chars.len() > 0 && (is_one(chars.as_slice(), ';') || ('0' <= chars[0] && chars[0]
                <= '9')) {
                (0, Escape::Params)
            } else {
                (0, Escape::Outside)
            }
        },
        Escape::Outside => {
            if is_one(chars.as_slice(), '\u{1b}') {
                (0, Escape::Begun)
            } else if is_one(chars.as_slice(), '\n') {
                (0, Escape::Outside)
            } else {
                (str_columns(g), Escape::Outside)
            }
        },
    }
}

/// Behind a run of clusters: the columns taken so far, and the escape state.
pub open spec fn run_columns(gs: Seq<Seq<char>>) -> (int, Escape)
    decreases gs.len(),
{
    if gs.len() == 0 {
        (0, Escape::Outside)
    } else {
        let (n, esc) = run_columns(gs.drop_last());
        (n + shown_columns(esc, gs.last()), escape_after(esc, gs.last()))
    }
}

/// The columns a text takes, escape sequences aside.
pub open spec fn shown_width(s: Seq<char>) -> usize {
    sat(run_columns(clusters(s)).0)
}

/// The columns a text takes, escape sequences aside.
pub fn calc_str_width(s: &str) -> (w: usize)
    ensures
        w == shown_width(s@),
{
    let gs = split_clusters(s);
    let mut w: usize = 0;
    let mut esc = Escape::Outside;
    let mut i: usize = 0;
    let ghost all = clusters(s@);
    assert(all.take(0) =~= Seq::<Seq<char>>::empty());
    while i < gs.len()
        invariant
            i <= gs@.len(),
            views(gs@) == all,
            w == sat(run_columns(all.take(i as int)).0),
            run_columns(all.take(i as int)).0 >= 0,
            esc == run_columns(all.take(i as int)).1,
        decreases gs@.len() - i,
    {
        assert(all.take(i + 1).drop_last() =~= all.take(i as int));
        assert(gs@[i as int]@ == views(gs@)[i as int]);
        let (n, next) = width(gs[i].as_str(), esc);
        w = w.saturating_add(n);
        esc = next;
        i += 1;
    }
    assert(all.take(all.len() as int) =~= all);
    w
}

/// The longest start of a run of clusters that fits `room` columns.
pub open spec fn fitting(gs: Seq<Seq<char>>, room: int, n: int) -> int
    decreases gs.len() - n,
{
    if n >= gs.len() || run_columns(gs.take(n + 1)).0 > room {
        n
    } else {
        fitting(gs, room, n + 1)
    }
}

/// A text cut to `room` columns, the last of them an ellipsis.
pub open spec fn ellipsized(s: Seq<char>, room: usize) -> Seq<char> {
    if room == 0 {
        Seq::empty()
    } else if shown_width(s) <= room {
        s
    } else {
        let gs = clusters(s);
        gs.take(fitting(gs, room - 1, 0)).flatten().push('\u{2026}')
    }
}

/// A text cut to `room` columns, the last of them an ellipsis.
pub fn truncate_with_ellipsis(s: &str, room: usize) -> (r: String)
    ensures
        r@ == ellipsized(s@, room),
{
    if room == 0 {
        return String::new();
    }
    if calc_str_width(s) <= room {
        return String::from_str(s);
    }
    let gs = split_clusters(s);
    let ghost all = clusters(s@);
    let mut out = String::new();
    let mut w: usize = 0;
    let mut esc = Escape::Outside;
    let mut i: usize = 0;
    assert(all.take(0) =~= Seq::<Seq<char>>::empty());
    assert(all.take(0).flatten() =~= Seq::<char>::empty());
    while i < gs.len()
        invariant
            i <= gs@.len(),
            views(gs@) == all,
            room > 0,
            w == run_columns(all.take(i as int)).0,
            w <= room - 1,
            esc == run_columns(all.take(i as int)).1,
            out@ == all.take(i as int).flatten(),
            fitting(all, room - 1, 0) == fitting(all, room - 1, i as int),
        ensures
            out@ == all.take(fitting(all, room - 1, 0)).flatten(),
        decreases gs@.len() - i,
    {
        assert(all.take(i + 1).drop_last() =~= all.take(i as int));
        assert(gs@[i as int]@ == views(gs@)[i as int]);
        let (n, next) = width(gs[i].as_str(), esc);
        if n > room - 1 - w {
            break;
        }
        proof {
            lemma_flatten_last(all.take(i + 1));
        }
        out.append(gs[i].as_str());
        w = w + n;
        esc = next;
        i += 1;
    }
    out.push('\u{2026}');
    out
}

pub proof fn lemma_flatten_last(s: Seq<Seq<char>>)
    requires
        s.len() > 0,
    ensures
        s.flatten() == s.drop_last().flatten() + s.last(),
{
    s.lemma_flatten_and_flatten_alt_are_equivalent();
    s.drop_last().lemma_flatten_and_flatten_alt_are_equivalent();
}

/// Where a prompt and the text behind it come to stand.
#[derive(Clone, Copy, Debug, PartialEq, Eq, Structural)]
pub struct Layout {
    pub prompt_end: Pos,
    pub cursor: Pos,
    pub end: Pos,
    pub psr_end: Option<Pos>,
    pub t_cols: usize,
}

/// The cluster begins with a control character; tabs and line feeds aside.
pub open spec fn is_ctl(g: Seq<char>) -> bool {
    g.len() > 0 && (g[0] as u32 <= 0x08 || 0x0b <= g[0] as u32 <= 0x1f || g[0] as u32 == 0x7f)
}

/// How a text is measured.
#[derive(Clone, Copy, Debug, PartialEq, Eq, Structural)]
pub struct Ruler {
    /// The columns of the terminal.
    pub width: usize,
    /// The column where a line begins.
    pub margin: usize,
    /// The columns between two tab stops, the first of them at the margin.
    pub tab: usize,
    /// Control characters are shown as two.
    pub raw: bool,
}

/// The columns a cluster takes that starts in column `col`: a tab goes on to
/// the next stop.
pub open spec fn cluster_columns(g: Seq<char>, col: usize, esc: Escape, r: Ruler) -> usize {
    if g == seq!['\t'] {
        (r.tab - sat(col - r.margin) as int % r.tab as int) as usize
    } else if r.raw && is_ctl(g) {
        2
    } else {
        shown_columns(esc, g)
    }
}

/// Whether measuring a cluster goes by the escape state.
pub open spec fn plain_cluster(g: Seq<char>, raw: bool) -> bool {
    g != seq!['\t'] && !(raw && is_ctl(g))
}

/// Behind a run of clusters that starts at `orig`: the place, and the escape
/// state. A cluster that does not fit the row begins the next.
pub open spec fn laid(gs: Seq<Seq<char>>, orig: Pos, r: Ruler) -> (Pos, Escape)
    decreases gs.len(),
{
    if gs.len() == 0 {
        (orig, Escape::Outside)
    } else {
        let (p, esc) = laid(gs.drop_last(), orig, r);
        let g = gs.last();
        let q = if g == seq!['\n'] {
            Pos { row: sat(p.row + 1), col: r.margin }
        } else {
            p
        };
        let w = cluster_columns(g, q.col, esc, r);
        let col = sat(q.col + w);
        (
            if col > r.width {
                Pos { row: sat(q.row + 1), col: w }
            } else {
                Pos { row: q.row, col }
            },
            if plain_cluster(g, r.raw) {
                escape_after(esc, g)
            } else {
                esc
            },
        )
    }
}

/// Where a text that starts at `orig` ends. A full row leads to the next.
pub open spec fn place_after(s: Seq<char>, orig: Pos, r: Ruler) -> Pos {
    let p = laid(clusters(s), orig, r).0;
    if p.col >= r.width {
        Pos { row: sat(p.row + 1), col: 0 }
    } else {
        p
    }
}

impl Layout {
    pub fn new() -> (l: Layout)
        ensures
            l == (Layout {
                prompt_end: Pos { row: 0, col: 0 },
                cursor: Pos { row: 0, col: 0 },
                end: Pos { row: 0, col: 0 },
                psr_end: None,
                t_cols: 0,
            }),
    {
        Layout {
            prompt_end: Pos { row: 0, col: 0 },
            cursor: Pos { row: 0, col: 0 },
            end: Pos { row: 0, col: 0 },
            psr_end: None,
            t_cols: 0,
        }
    }

    /// The layout of a prompt and a text, the cursor in it.
    pub fn from_parts(
        term_width: usize,
        prompt: &str,
        to_cursor: &str,
        to_end: &str,
        tab_width: usize,
    ) -> (l: Layout)
        requires
            tab_width > 0,
        ensures
            l == layout_of(term_width, prompt@, to_cursor@, to_end@, tab_width),
    {
        let prompt_end = Layout::calc_pos(
            term_width,
            prompt,
            Pos { row: 0, col: 0 },
            0,
            false,
            tab_width,
        );
        let cursor = Layout::calc_pos(
            term_width,
            to_cursor,
            prompt_end,
            prompt_end.col,
            true,
            tab_width,
        );
        let end = Layout::calc_pos(
            term_width,
            to_end,
            prompt_end,
            prompt_end.col,
            false,
            tab_width,
        );
        Layout { prompt_end, cursor, end, psr_end: None, t_cols: term_width }
    }

    pub fn is_ctl_char(gr: &str) -> (r: bool)
        ensures
            r == is_ctl(gr@),
    {
        let chars = chars_of(gr);
        if chars.len() == 0 {
            return false;
        }
        let c: u32 = chars[0] as u32;
        c <= 0x08 || (0x0b <= c && c <= 0x1f) || c == 0x7f
    }

    /// Where a text that starts at `orig` ends.
    pub fn calc_pos(
        term_width: usize,
        s: &str,
        orig: Pos,
        left_margin: usize,
        raw_calc: bool,
        tab_width: usize,
    ) -> (p: Pos)
        requires
            tab_width > 0,
        ensures
            p == place_after(
                s@,
                orig,
                Ruler { width: term_width, margin: left_margin, tab: tab_width, raw: raw_calc },
            ),
    {
        let ghost r = Ruler {
            width: term_width,
            margin: left_margin,
            tab: tab_width,
            raw: raw_calc,
        };
        let gs = split_clusters(s);
        let ghost all = clusters(s@);
        let mut pos = orig;
        let mut esc = Escape::Outside;
        let mut i: usize = 0;
        assert(all.take(0) =~= Seq::<Seq<char>>::empty());
        while i < gs.len()
            invariant
                i <= gs@.len(),
                tab_width > 0,
                views(gs@) == all,
                r == (Ruler {
                    width: term_width,
                    margin: left_margin,
                    tab: tab_width,
                    raw: raw_calc,
                }),
                (pos, esc) == laid(all.take(i as int), orig, r),
            decreases gs@.len() - i,
        {
            assert(all.take(i + 1).drop_last() =~= all.take(i as int));
            assert(gs@[i as int]@ == views(gs@)[i as int]);
            let g = gs[i].as_str();
            let chars = chars_of(g);
            if is_one(chars.as_slice(), '\n') {
                pos.row = pos.row.saturating_add(1);
                pos.col = left_margin;
            }
            let w: usize = if is_one(chars.as_slice(), '\t') {
                tab_width - pos.col.saturating_sub(left_margin) % tab_width
            } else if raw_calc && Layout::is_ctl_char(g) {
                2
            } else {
                let (n, next) = width(g, esc);
                esc = next;
                n
            };
            pos.col = pos.col.saturating_add(w);
            if pos.col > term_width {
                pos.row = pos.row.saturating_add(1);
                pos.col = w;
            }
            i += 1;
        }
        assert(all.take(all.len() as int) =~= all);
        if pos.col >= term_width {
            pos.row = pos.row.saturating_add(1);
            pos.col = 0;
        }
        pos
    }
}

impl Default for Layout {
    fn default() -> (l: Layout)
        ensures
            l == (Layout {
                prompt_end: Pos { row: 0, col: 0 },
                cursor: Pos { row: 0, col: 0 },
                end: Pos { row: 0, col: 0 },
                psr_end: None,
                t_cols: 0,
            }),
    {
        Layout::new()
    }
}

/// The layout of a prompt and a text, the cursor in it.
pub open spec fn layout_of(width: usize, prompt: Seq<char>, to_cursor: Seq<char>, to_end: Seq<char>, tab: usize) -> Layout {
    let start = place_after(
        prompt,
        Pos { row: 0, col: 0 },
        Ruler { width, margin: 0, tab, raw: false },
    );
    Layout {
        prompt_end: start,
        cursor: place_after(to_cursor, start, Ruler { width, margin: start.col, tab, raw: true }),
        end: place_after(to_end, start, Ruler { width, margin: start.col, tab, raw: false }),
        psr_end: None,
        t_cols: width,
    }
}

/// So many blanks.
pub open spec fn blanks(n: int) -> Seq<char> {
    Seq::new(n as nat, |i: int| ' ')
}

/// Adds so many blanks.
pub(crate) fn push_blanks(s: &mut String, n: usize)
    ensures
        final(s)@ == old(s)@ + blanks(n as int),
{
    let mut i: usize = 0;
    assert(s@ =~= old(s)@ + blanks(0));
    while i < n
        invariant
            i <= n,
            s@ == old(s)@ + blanks(i as int),
        decreases n - i,
    {
        s.push(' ');
        i += 1;
        assert(s@ =~= old(s)@ + blanks(i as int));
    }
}

/// The text of a run of clusters, each tab replaced with `tab` blanks.
pub open spec fn untabbed(gs: Seq<Seq<char>>, tab: usize) -> Seq<char>
    decreases gs.len(),
{
    if gs.len() == 0 {
        Seq::empty()
    } else {
        untabbed(gs.drop_last(), tab) + if gs.last() == seq!['\t'] {
            blanks(tab as int)
        } else {
            gs.last()
        }
    }
}

/// The text with `tab_stop` blanks in place of each tab, for display. A tab
/// takes the same room wherever it stands, so the margin makes no difference.
pub fn expand_tabs(s: &str, _left_margin: usize, tab_stop: usize) -> (out: String)
    ensures
        out@ == untabbed(clusters(s@), tab_stop),
{
    let gs = split_clusters(s);
    let ghost all = clusters(s@);
    let mut out = String::new();
    let mut i: usize = 0;
    assert(all.take(0) =~= Seq::<Seq<char>>::empty());
    while i < gs.len()
        invariant
            i <= gs@.len(),
            views(gs@) == all,
            out@ == untabbed(all.take(i as int), tab_stop),
        decreases gs@.len() - i,
    {
        assert(all.take(i + 1).drop_last() =~= all.take(i as int));
        assert(gs@[i as int]@ == views(gs@)[i as int]);
        let g = gs[i].as_str();
        let chars = chars_of(g);
        if is_one(chars.as_slice(), '\t') {
            push_blanks(&mut out, tab_stop);
        } else {
            out.append(g);
        }
        i += 1;
    }
    assert(all.take(all.len() as int) =~= all);
    out
}

/// The last color sequence behind `i`, where one ends in the text; else
/// `last`.
pub open spec fn style_from(s: Seq<char>, i: int, last: Seq<char>) -> Seq<char>
    decreases s.len() - i,
    via style_from_ends
{
    if i + 1 >= s.len() {
        last
    } else if s[i] == '\u{1b}' && s[i + 1] == '[' {
        let m = first_from(s, |c: char| c == 'm', i + 2);
        if m >= s.len() {
            last
        } else {
            style_from(s, m + 1, s.subrange(i, m + 1))
        }
    } else {
        style_from(s, i + 1, last)
    }
}

#[via_fn]
proof fn style_from_ends(s: Seq<char>, i: int, last: Seq<char>) {
    if 0 <= i && i + 2 <= s.len() {
        lemma_first_from(s, |c: char| c == 'm', i + 2);
    } else if i + 1 < s.len() {
        lemma_first_from_ahead(s, |c: char| c == 'm', i + 2);
    }
}

proof fn lemma_first_from_ahead(s: Seq<char>, p: spec_fn(char) -> bool, i: int)
    ensures
        first_from(s, p, i) >= i || first_from(s, p, i) >= s.len(),
    decreases s.len() - i,
{
    if i < s.len() && !p(s[i]) {
        lemma_first_from_ahead(s, p, i + 1);
    }
}

/// The sequence that sets the style back.
pub open spec fn plain_style() -> Seq<char> {
    seq!['\u{1b}', '[', '0', 'm']
}

/// The style a row is shown in, from those before it.
pub open spec fn style_before(rows: Seq<Seq<char>>, i: int) -> Seq<char>
    decreases i,
{
    if i <= 0 {
        Seq::empty()
    } else {
        let s = style_from(rows[i - 1], 0, style_before(rows, i - 1));
        if s == plain_style() {
            Seq::empty()
        } else {
            s
        }
    }
}

/// How the gutter is drawn.
#[derive(Clone, Copy, Debug, PartialEq, Eq, Structural)]
pub struct Gutter {
    /// The column where the text of the first row begins.
    pub left_pad: usize,
    pub show_numbers: bool,
    /// How many lines stand above the first row.
    pub offset: usize,
}

/// What stands before the text of row `i` of `n`.
pub open spec fn gutter_text(g: Gutter, n: int, i: int) -> Seq<char> {
    let most = digits_of(sat(g.offset + n) as int, 10).len() as int;
    let num = digits_of(sat(i + g.offset + 1) as int, 10);
    let prefix = if g.show_numbers {
        "\u{1b}[0m\u{1b}[90m"@ + blanks(most - num.len()) + num + " |\u{1b}[0m "@
    } else {
        blanks(most + 4)
    };
    prefix + blanks(sat(g.left_pad - (most + 3)) as int)
}

/// The first `k` rows of a text with a gutter before each; the first row
/// stands behind the prompt, where there is one.
pub open spec fn numbered(rows: Seq<Seq<char>>, g: Gutter, k: int) -> Seq<char>
    decreases k,
{
    if k <= 0 {
        Seq::empty()
    } else {
        let i = k - 1;
        let before = if i == 0 {
            Seq::empty()
        } else {
            numbered(rows, g, i).push('\n')
        };
        before + if i == 0 && g.left_pad > 0 {
            rows[i]
        } else {
            gutter_text(g, rows.len() as int, i) + style_before(rows, i) + rows[i]
        }
    }
}

proof fn lemma_digits_len(a: int, b: int)
    requires
        0 <= a <= b,
    ensures
        digits_of(a, 10).len() <= digits_of(b, 10).len(),
    decreases b,
{
    if b >= 10 && a >= 10 {
        lemma_digits_len(a / 10, b / 10);
    }
}

fn push_chars(s: &mut String, v: &[char])
    ensures
        final(s)@ == old(s)@ + v@,
{
    let mut i: usize = 0;
    assert(s@ =~= old(s)@ + v@.take(0));
    while i < v.len()
        invariant
            i <= v@.len(),
            s@ == old(s)@ + v@.take(i as int),
        decreases v@.len() - i,
    {
        s.push(v[i]);
        i += 1;
        assert(s@ =~= old(s)@ + v@.take(i as int));
    }
    assert(v@.take(v@.len() as int) =~= v@);
}

/// The style behind a row.
fn scan_style(row: &[char], last: Vec<char>) -> (r: Vec<char>)
    ensures
        r@ == if style_from(row@, 0, last@) == plain_style() {
            Seq::empty()
        } else {
            style_from(row@, 0, last@)
        },
{
    let mut style = last;
    let mut i: usize = 0;
    while i < row.len() && row.len() - i > 1
        invariant
            i <= row@.len(),
            style_from(row@, 0, last@) == style_from(row@, i as int, style@),
        ensures
            style_from(row@, 0, last@) == style@,
        decreases row@.len() - i,
    {
        if row[i] == '\u{1b}' && row[i + 1] == '[' {
            let ghost p = |c: char| c == 'm';
            let mut m: usize = i + 2;
            while m < row.len() && row[m] != 'm'
                invariant
                    i + 2 <= m <= row@.len(),
                    p == (|c: char| c == 'm'),
                    first_from(row@, p, i + 2) == first_from(row@, p, m as int),
                decreases row@.len() - m,
            {
                m += 1;
            }
            if m >= row.len() {
                break;
            }
            let mut found: Vec<char> = Vec::new();
            let mut k: usize = i;
            while k <= m
                invariant
                    i <= k <= m + 1,
                    m < row@.len(),
                    found@ == row@.subrange(i as int, k as int),
                decreases m + 1 - k,
            {
                found.push(row[k]);
                k += 1;
                assert(found@ =~= row@.subrange(i as int, k as int));
            }
            style = found;
            i = m + 1;
        } else {
            i += 1;
        }
    }
    if style.len() == 4 && style[0] == '\u{1b}' && style[1] == '[' && style[2] == '0' && style[3]
        == 'm' {
        assert(style@ =~= plain_style());
        return Vec::new();
    }
    style
}

fn push_gutter(acc: &mut String, g: &Gutter, n: usize, i: usize)
    requires
        i < n,
    ensures
        final(acc)@ == old(acc)@ + gutter_text(*g, n as int, i as int),
{
    let ghost start = acc@;
    let last = count_text(g.offset.saturating_add(n));
    let most: usize = chars_of(last.as_str()).len();
    let num = count_text(g.offset.saturating_add(i).saturating_add(1));
    let num_len: usize = chars_of(num.as_str()).len();
    proof {
        lemma_digits_len(sat(i + g.offset + 1) as int, sat(g.offset + n) as int);
    }
    if g.show_numbers {
        acc.append("\u{1b}[0m\u{1b}[90m");
        push_blanks(acc, most - num_len);
        acc.append(num.as_str());
        acc.append(" |\u{1b}[0m ");
    } else {
        push_blanks(acc, most);
        push_blanks(acc, 4);
        assert(blanks(most as int) + blanks(4) =~= blanks(most + 4));
        assert(acc@ =~= start + blanks(most + 4));
    }
    push_blanks(acc, g.left_pad.saturating_sub(most).saturating_sub(3));
    assert(acc@ =~= start + gutter_text(*g, n as int, i as int));
}

/// The text with a gutter before each of its rows. The style that a row ends
/// in comes back behind the gutter of the next.
pub fn enumerate_lines(s: &str, left_pad: usize, show_numbers: bool, offset: usize) -> (r: String)
    ensures
        r@ == numbered(
            rows_of(s@),
            Gutter { left_pad, show_numbers, offset },
            rows_of(s@).len() as int,
        ),
{
    let rows = split_rows(s);
    let ghost all = rows_of(s@);
    let g = Gutter { left_pad, show_numbers, offset };
    let n = rows.len();
    let mut acc = String::new();
    let mut style: Vec<char> = Vec::new();
    let mut i: usize = 0;
    while i < n
        invariant
            i <= n,
            n == rows@.len(),
            views(rows@) == all,
            acc@ == numbered(all, g, i as int),
            style@ == style_before(all, i as int),
        decreases n - i,
    {
        assert(rows@[i as int]@ == all[i as int]);
        if i > 0 {
            acc.push('\n');
        }
        let ghost start = acc@;
        if i == 0 && g.left_pad > 0 {
            push_chars(&mut acc, rows[i].as_slice());
        } else {
            push_gutter(&mut acc, &g, n, i);
            push_chars(&mut acc, style.as_slice());
            push_chars(&mut acc, rows[i].as_slice());
            assert(acc@ =~= start + (gutter_text(g, n as int, i as int) + style@ + all[i as int]));
        }
        style = scan_style(rows[i].as_slice(), style);
        i += 1;
    }
    acc
}

/// How many rows lie between the cursor and the last row. A text at the right
/// border that was drawn on a wider terminal has wrapped since.
pub open spec fn drawn_rows(l: Layout, t_cols: usize) -> usize {
    if l.psr_end is Some && l.t_cols > t_cols && t_cols > 0 {
        sat(l.end.row + sat(l.t_cols - 1) as int / t_cols as int)
    } else {
        l.end.row
    }
}

fn count_rows(l: &Layout, t_cols: usize) -> (n: usize)
    ensures
        n == drawn_rows(*l, t_cols),
{
    if l.psr_end.is_some() && l.t_cols > t_cols && t_cols > 0 {
        let extra: usize = l.t_cols.saturating_sub(1) / t_cols;
        l.end.row.saturating_add(extra)
    } else {
        l.end.row
    }
}

/// The sequence that moves the cursor `n` rows by `dir`.
pub open spec fn row_motion(n: usize, dir: char) -> Seq<char> {
    if n == 0 {
        Seq::empty()
    } else {
        seq!['\u{1b}', '['] + digits_of(n as int, 10) + seq![dir]
    }
}

/// Adds the sequence that moves the cursor `n` rows by `dir`.
pub(crate) fn push_motion(s: &mut String, n: usize, dir: char)
    ensures
        final(s)@ == old(s)@ + row_motion(n, dir),
{
    if n > 0 {
        s.push('\u{1b}');
        s.push('[');
        let num = count_text(n);
        s.append(num.as_str());
        s.push(dir);
        assert(s@ =~= old(s)@ + row_motion(n, dir));
    } else {
        assert(s@ =~= old(s)@ + row_motion(n, dir));
    }
}

/// The sequence that moves the cursor to the last row drawn.
pub fn move_cursor_to_end(layout: &Layout, t_cols: usize) -> (s: String)
    ensures
        s@ == row_motion(sat(drawn_rows(*layout, t_cols) - layout.cursor.row), 'B'),
{
    let mut s = String::new();
    let end = count_rows(layout, t_cols);
    push_motion(&mut s, end.saturating_sub(layout.cursor.row), 'B');
    assert(s@ =~= row_motion(sat(drawn_rows(*layout, t_cols) - layout.cursor.row), 'B'));
    s
}

/// The sequence that clears so many rows, going up.
pub open spec fn cleared_up(n: int) -> Seq<char>
    decreases n,
{
    if n <= 0 {
        Seq::empty()
    } else {
        cleared_up(n - 1) + "\u{1b}[2K\u{1b}[A"@
    }
}

/// The sequence that clears what was drawn.
pub fn clear_rows(layout: &Layout, t_cols: usize) -> (s: String)
    ensures
        s@ == row_motion(sat(drawn_rows(*layout, t_cols) - layout.cursor.row), 'B') + cleared_up(
            drawn_rows(*layout, t_cols) as int,
        ) + "\u{1b}[2K\r"@,
{
    let mut s = move_cursor_to_end(layout, t_cols);
    let n = count_rows(layout, t_cols);
    let ghost start = s@;
    let mut i: usize = 0;
    assert(s@ =~= start + cleared_up(0));
    while i < n
        invariant
            i <= n,
            s@ == start + cleared_up(i as int),
        decreases n - i,
    {
        s.append("\u{1b}[2K\u{1b}[A");
        i += 1;
        assert(s@ =~= start + cleared_up(i as int));
    }
    s.append("\u{1b}[2K\r");
    s
}

/// What is drawn behind the prompt.
pub open spec fn drawn_text(line: Seq<char>, prompt_end: Pos, tab: usize, numbers: bool, offset: usize) -> Seq<char> {
    let s = untabbed(clusters(line), tab);
    if s.contains('\n') || prompt_end.col == 0 {
        numbered(
            rows_of(s),
            Gutter { left_pad: prompt_end.col, show_numbers: numbers, offset },
            rows_of(s).len() as int,
        )
    } else {
        s
    }
}

fn has_line_feed(s: &str) -> (r: bool)
    ensures
        r == s@.contains('\n'),
{
    let chars = chars_of(s);
    let mut i: usize = 0;
    while i < chars.len()
        invariant
            i <= chars@.len(),
            chars@ == s@,
            forall|j: int| 0 <= j < i ==> chars@[j] != '\n',
        decreases chars@.len() - i,
    {
        if chars[i] == '\n' {
            assert(s@[i as int] == '\n');
            return true;
        }
        i += 1;
    }
    false
}

/// What is drawn behind the prompt: the text without its tabs, and with line
/// numbers where it has more than one line or the prompt ends a row.
pub fn draw_line(line: &str, prompt_end: Pos, tab_width: usize, line_numbers: bool, offset: usize) -> (s:
    String)
    ensures
        s@ == drawn_text(line@, prompt_end, tab_width, line_numbers, offset),
{
    let expanded = expand_tabs(line, prompt_end.col, tab_width);
    if prompt_end.col == 0 || has_line_feed(expanded.as_str()) {
        enumerate_lines(expanded.as_str(), prompt_end.col, line_numbers, offset)
    } else {
        expanded
    }
}

/// Whether the terminal has to be told of the row that the text has filled.
pub fn needs_break(layout: &Layout, ends_with_newline: bool) -> (r: bool)
    ensures
        r == (layout.end.col == 0 && layout.end.row > layout.prompt_end.row
            && !ends_with_newline),
{
    layout.end.col == 0 && layout.end.row > layout.prompt_end.row && !ends_with_newline
}

/// Where a text ends on a terminal that has columns, there is room for more.
pub proof fn law_text_ends_on_screen(s: Seq<char>, orig: Pos, r: Ruler)
    requires
        r.width > 0,
    ensures
        place_after(s, orig, r).col < r.width,
{
}

/// What is kept of a text that is cut fits beside the ellipsis.
pub proof fn law_cut_text_fits(gs: Seq<Seq<char>>, room: int, n: int)
    requires
        0 <= n <= gs.len(),
        run_columns(gs.take(n)).0 <= room,
    ensures
        n <= fitting(gs, room, n) <= gs.len(),
        run_columns(gs.take(fitting(gs, room, n))).0 <= room,
    decreases gs.len() - n,
{
    if n < gs.len() && run_columns(gs.take(n + 1)).0 <= room {
        law_cut_text_fits(gs, room, n + 1);
    }
}

/// A tab leads to the next stop: it takes a column at least and no more than lie
/// between two stops, and a whole number of such spaces lies before its end.
pub proof fn law_tab_leads_to_a_stop(col: usize, esc: Escape, r: Ruler)
    requires
        r.tab > 0,
        r.margin <= col,
    ensures
        ({
            let w = cluster_columns(seq!['\t'], col, esc, r) as int;
            &&& 1 <= w <= r.tab
            &&& (col - r.margin + w) % (r.tab as int) == 0
        }),
{
    let n = col - r.margin;
    let t = r.tab as int;
    let w = cluster_columns(seq!['\t'], col, esc, r) as int;
    assert(w == t - n % t);
    assert((n + (t - n % t)) % t == 0) by (nonlinear_arith)
        requires
            t > 0,
            n >= 0,
    {
        assert(n == t * (n / t) + n % t);
        assert((t * (n / t + 1)) % t == 0);
        assert(n + (t - n % t) == t * (n / t + 1));
    }
}

/// No more of a text that is cut could be kept: with the next cluster it would
/// not fit.
pub proof fn law_cut_text_is_as_long_as_fits(gs: Seq<Seq<char>>, room: int, n: int)
    requires
        0 <= n <= gs.len(),
    ensures
        fitting(gs, room, n) < gs.len() ==> run_columns(gs.take(fitting(gs, room, n) + 1)).0 > room,
    decreases gs.len() - n,
{
    if n < gs.len() && run_columns(gs.take(n + 1)).0 <= room {
        law_cut_text_is_as_long_as_fits(gs, room, n + 1);
    }
}

proof fn lemma_columns_grow(gs: Seq<Seq<char>>)
    ensures
        run_columns(gs).0 >= 0,
        gs.len() > 0 ==> run_columns(gs.drop_last()).0 <= run_columns(gs).0,
    decreases gs.len(),
{
    if gs.len() > 0 {
        lemma_columns_grow(gs.drop_last());
    }
}

/// A text that fits its row, with neither tabs nor line feeds, ends in that row,
/// as many columns on as it takes.
pub proof fn law_short_text_stays_in_its_row(gs: Seq<Seq<char>>, orig: Pos, r: Ruler)
    requires
        !r.raw,
        forall|i: int|
            0 <= i < gs.len() ==> #[trigger] gs[i] != seq!['\t'] && gs[i] != seq!['\n'],
        orig.col + run_columns(gs).0 <= r.width,
    ensures
        laid(gs, orig, r).0.row == orig.row,
        laid(gs, orig, r).0.col == orig.col + run_columns(gs).0,
        laid(gs, orig, r).1 == run_columns(gs).1,
    decreases gs.len(),
{
    lemma_columns_grow(gs);
    if gs.len() > 0 {
        assert(gs.last() == gs[gs.len() - 1]);
        assert forall|i: int| 0 <= i < gs.drop_last().len() implies #[trigger] gs.drop_last()[i]
            != seq!['\t'] && gs.drop_last()[i] != seq!['\n'] by {
            assert(gs[i] != seq!['\t'] && gs[i] != seq!['\n']);
        }
        law_short_text_stays_in_its_row(gs.drop_last(), orig, r);
    }
}

/// A cluster that does not fit behind the others of its row begins the next.
pub proof fn law_cluster_that_does_not_fit_begins_a_row(gs: Seq<Seq<char>>, g: Seq<char>, orig: Pos, r: Ruler)
    requires
        g != seq!['\n'],
        laid(gs, orig, r).0.row < usize::MAX,
    ensures
        ({
            let (p, esc) = laid(gs, orig, r);
            let w = cluster_columns(g, p.col, esc, r);
            let q = laid(gs.push(g), orig, r).0;
            &&& p.col + w <= r.width ==> q.row == p.row && q.col == p.col + w
            &&& p.col + w > r.width && r.width < usize::MAX ==> q.row == p.row + 1 && q.col == w
        }),
{
    assert(gs.push(g).drop_last() =~= gs);
}

/// Expanding tabs leaves none, and keeps every cluster that is none.
pub proof fn law_expanded_text_has_no_tabs(gs: Seq<Seq<char>>, tab: usize)
    requires
        forall|i: int, j: int|
            0 <= i < gs.len() && gs[i] != seq!['\t'] && 0 <= j < gs[i].len()
                ==> #[trigger] gs[i][j] != '\t',
    ensures
        forall|k: int| 0 <= k < untabbed(gs, tab).len() ==> #[trigger] untabbed(gs, tab)[k] != '\t',
        gs.len() > 0 && gs.last() != seq!['\t'] ==> untabbed(gs, tab) == untabbed(
            gs.drop_last(),
            tab,
        ) + gs.last(),
        gs.len() > 0 && gs.last() == seq!['\t'] ==> untabbed(gs, tab).len() == untabbed(
            gs.drop_last(),
            tab,
        ).len() + tab,
    decreases gs.len(),
{
    if gs.len() > 0 {
        assert forall|i: int, j: int|
            0 <= i < gs.drop_last().len() && gs.drop_last()[i] != seq!['\t'] && 0 <= j
                < gs.drop_last()[i].len() implies #[trigger] gs.drop_last()[i][j] != '\t' by {
            assert(gs[i][j] != '\t');
        }
        law_expanded_text_has_no_tabs(gs.drop_last(), tab);
        let a = untabbed(gs.drop_last(), tab);
        let u = untabbed(gs, tab);
        assert forall|k: int| 0 <= k < u.len() implies #[trigger] u[k] != '\t' by {
            if k < a.len() {
                assert(a[k] != '\t');
                assert(u[k] == a[k]);
            } else if gs.last() != seq!['\t'] {
                assert(gs[gs.len() - 1][k - a.len()] != '\t');
            }
        }
    }
}

} // verus!
