//! Buffers of lines.

use vstd::prelude::*;
use vstd::std_specs::convert::FromSpecImpl;
use crate::linebuf::line::{
    leading, lemma_leading_is, lemma_line_size_nonneg, line_size, line_text, to_graphemes, Line,
    LineV,
};
use crate::linebuf::pos::Pos;
use crate::seqs::{group_views, sat, views};
use crate::text::{chars_of, clusters, string_of};

verus! {

broadcast use group_views;

/// A buffer as a sequence of lines.
pub type LinesV = Seq<LineV>;

/// The lines of a buffer.
#[derive(Debug)]
pub struct Lines(pub Vec<Line>);

impl View for Lines {
    type V = LinesV;

    open spec fn view(&self) -> LinesV {
        views(self.0@)
    }
}

/// A line without clusters.
pub open spec fn blank() -> LineV {
    Seq::empty()
}

/// The lines, or one blank line where there are none.
pub open spec fn or_blank(ls: LinesV) -> LinesV {
    if ls.len() == 0 {
        seq![blank()]
    } else {
        ls
    }
}

/// The text of a buffer: its lines with a line feed between each two.
pub open spec fn text_of(ls: LinesV) -> Seq<char>
    decreases ls.len(),
{
    if ls.len() == 0 {
        Seq::empty()
    } else if ls.len() == 1 {
        line_text(ls[0])
    } else {
        text_of(ls.drop_last()).push('\n') + line_text(ls.last())
    }
}

/// The pieces of a text between its line feeds.
pub open spec fn rows_of(s: Seq<char>) -> Seq<Seq<char>>
    decreases s.len(),
{
    if s.len() == 0 {
        seq![Seq::empty()]
    } else {
        let rows = rows_of(s.drop_last());
        if s.last() == '\n' {
            rows.push(Seq::empty())
        } else {
            rows.update(rows.len() - 1, rows.last().push(s.last()))
        }
    }
}

/// The lines of a text.
pub open spec fn lines_of(s: Seq<char>) -> LinesV {
    Seq::new(rows_of(s).len(), |i: int| clusters(rows_of(s)[i]))
}

/// The column where a cut of row `row` at column `col` falls.
pub open spec fn cut_at(ls: LinesV, pos: Pos) -> int {
    if pos.col <= ls[pos.row as int].len() {
        pos.col as int
    } else {
        ls[pos.row as int].len() as int
    }
}

/// What lies before `pos`.
pub open spec fn before(ls: LinesV, pos: Pos) -> LinesV {
    ls.take(pos.row as int).push(ls[pos.row as int].take(cut_at(ls, pos)))
}

/// What lies at and behind `pos`.
pub open spec fn behind(ls: LinesV, pos: Pos) -> LinesV {
    seq![ls[pos.row as int].skip(cut_at(ls, pos))] + ls.skip(pos.row + 1)
}

/// Two buffers put together: the first line of `b` continues the last of `a`.
pub open spec fn attached(a: LinesV, b: LinesV) -> LinesV {
    if b.len() == 0 {
        a
    } else if a.len() == 0 {
        b
    } else {
        a.drop_last().push(a.last() + b.first()) + b.skip(1)
    }
}

/// Whether the text of `a` is how `b` begins: the lines but the last are
/// those of `b`, the last begins the line of `b` in its place.
pub open spec fn begins(a: LinesV, b: LinesV) -> bool {
    &&& 0 < a.len() <= b.len()
    &&& forall|i: int| 0 <= i < a.len() - 1 ==> (#[trigger] a[i]) == b[i]
    &&& a.last().is_prefix_of(b[a.len() - 1])
}

/// How many items two sequences share at their front.
pub open spec fn common<T>(a: Seq<T>, b: Seq<T>) -> int
    decreases a.len(),
{
    if a.len() > 0 && b.len() > 0 && a[0] == b[0] {
        1 + common(a.skip(1), b.skip(1))
    } else {
        0
    }
}

/// Every line is blank.
pub open spec fn all_blank(ls: LinesV) -> bool {
    forall|i: int| 0 <= i < ls.len() ==> (#[trigger] ls[i]).len() == 0
}

/// What `ls` holds beyond what it shares with `other`: the shared lines go,
/// then the shared clusters of the first line left. Where `other` ends with
/// the shared lines, a blank line stands for its last one.
pub open spec fn beyond(ls: LinesV, other: LinesV) -> LinesV {
    let n = common(ls, other);
    let rest = ls.skip(n);
    if rest.len() == 0 {
        rest
    } else if n < other.len() {
        rest.update(0, rest[0].skip(common(rest[0], other[n])))
    } else if n > 0 {
        seq![blank()] + rest
    } else {
        rest
    }
}

/// The bytes UTF-8 takes for the lines, each with its line feed.
pub open spec fn lines_size(ls: LinesV) -> int
    decreases ls.len(),
{
    if ls.len() == 0 {
        0
    } else {
        lines_size(ls.drop_last()) + line_size(ls.last()) + 1
    }
}

/// How many clusters the lines hold.
pub open spec fn cluster_count(ls: LinesV) -> int
    decreases ls.len(),
{
    if ls.len() == 0 {
        0
    } else {
        cluster_count(ls.drop_last()) + ls.last().len()
    }
}

/// The lines without the blank ones at the end.
pub open spec fn without_tail_blanks(ls: LinesV) -> LinesV
    decreases ls.len(),
{
    if ls.len() > 0 && ls.last().len() == 0 {
        without_tail_blanks(ls.drop_last())
    } else {
        ls
    }
}

/// The lines without the blank ones at the front.
pub open spec fn without_head_blanks(ls: LinesV) -> LinesV {
    ls.skip(leading(ls, |l: LineV| l.len() == 0) as int)
}

pub proof fn lemma_rows_nonempty(s: Seq<char>)
    ensures
        rows_of(s).len() > 0,
    decreases s.len(),
{
    if s.len() > 0 {
        lemma_rows_nonempty(s.drop_last());
    }
}

/// Pieces of text with a line feed between each two.
pub open spec fn rows_joined(rows: Seq<Seq<char>>) -> Seq<char>
    decreases rows.len(),
{
    if rows.len() == 0 {
        Seq::empty()
    } else if rows.len() == 1 {
        rows[0]
    } else {
        rows_joined(rows.drop_last()).push('\n') + rows.last()
    }
}

/// The pieces of a text make it up again.
pub proof fn lemma_rows_join(s: Seq<char>)
    ensures
        rows_joined(rows_of(s)) == s,
    decreases s.len(),
{
    if s.len() == 0 {
        assert(rows_of(s)[0] =~= s);
    } else {
        let t = s.drop_last();
        let rows = rows_of(t);
        lemma_rows_nonempty(t);
        lemma_rows_join(t);
        let now = rows_of(s);
        if s.last() == '\n' {
            assert(now.drop_last() =~= rows);
            assert(t.push('\n') + Seq::<char>::empty() =~= s);
        } else {
            assert(now.drop_last() =~= rows.drop_last());
            assert(now.last() == rows.last().push(s.last()));
            if rows.len() == 1 {
                assert(rows[0].push(s.last()) =~= s);
            } else {
                let head = rows_joined(rows.drop_last()).push('\n');
                assert(head + rows.last() == t);
                assert(head + rows.last().push(s.last()) =~= t.push(s.last()));
                assert(t.push(s.last()) =~= s);
            }
        }
    }
}

proof fn lemma_text_of_rows(ls: LinesV, rows: Seq<Seq<char>>)
    requires
        ls.len() == rows.len(),
        forall|k: int| 0 <= k < ls.len() ==> line_text(#[trigger] ls[k]) == rows[k],
    ensures
        text_of(ls) == rows_joined(rows),
    decreases ls.len(),
{
    if ls.len() > 1 {
        assert forall|k: int| 0 <= k < ls.len() - 1 implies line_text(
            #[trigger] ls.drop_last()[k],
        ) == rows.drop_last()[k] by {
            assert(ls.drop_last()[k] == ls[k]);
        }
        lemma_text_of_rows(ls.drop_last(), rows.drop_last());
        assert(line_text(ls.last()) == rows.last());
    } else if ls.len() == 1 {
        assert(line_text(ls[0]) == rows[0]);
    }
}

/// The pieces of a text between its line feeds.
pub fn split_rows(s: &str) -> (rows: Vec<Vec<char>>)
    ensures
        views(rows@) == rows_of(s@),
{
    let chars = chars_of(s);
    let mut rows: Vec<Vec<char>> = Vec::new();
    let first: Vec<char> = Vec::new();
    rows.push(first);
    let mut i: usize = 0;
    assert(chars@.take(0) =~= Seq::<char>::empty());
    assert(views(rows@) =~= rows_of(chars@.take(0)));
    while i < chars.len()
        invariant
            i <= chars@.len(),
            rows@.len() > 0,
            views(rows@) == rows_of(chars@.take(i as int)),
        decreases chars@.len() - i,
    {
        let c = chars[i];
        let ghost prefix = chars@.take(i as int);
        assert(chars@.take(i + 1) =~= prefix.push(c));
        assert(prefix.push(c).drop_last() =~= prefix);
        if c == '\n' {
            let next: Vec<char> = Vec::new();
            rows.push(next);
        } else {
            let ghost was = rows@;
            let mut last = rows.pop().unwrap();
            last.push(c);
            rows.push(last);
            assert(views(rows@) =~= views(was).update(was.len() - 1, views(was).last().push(c)));
        }
        i += 1;
    }
    assert(chars@.take(chars@.len() as int) =~= chars@);
    rows
}

pub proof fn lemma_cluster_count_nonneg(ls: LinesV)
    ensures
        cluster_count(ls) >= 0,
    decreases ls.len(),
{
    if ls.len() > 0 {
        lemma_cluster_count_nonneg(ls.drop_last());
    }
}

pub proof fn lemma_lines_size_nonneg(ls: LinesV)
    ensures
        lines_size(ls) >= 0,
    decreases ls.len(),
{
    if ls.len() > 0 {
        lemma_lines_size_nonneg(ls.drop_last());
        lemma_line_size_nonneg(ls.last());
    }
}

/// `n` shared items, the next ones (if both go on) different.
pub proof fn lemma_common_is<T>(a: Seq<T>, b: Seq<T>, n: int)
    requires
        0 <= n <= a.len(),
        n <= b.len(),
        forall|i: int| 0 <= i < n ==> (#[trigger] a[i]) == b[i],
        n < a.len() && n < b.len() ==> a[n] != b[n],
    ensures
        common(a, b) == n,
    decreases n,
{
    if n > 0 {
        assert(a[0] == b[0]);
        let c = a.skip(1);
        let d = b.skip(1);
        assert forall|i: int| 0 <= i < n - 1 implies (#[trigger] c[i]) == d[i] by {
            assert(a[i + 1] == b[i + 1]);
        }
        lemma_common_is(c, d, n - 1);
    }
}

impl Clone for Lines {
    fn clone(&self) -> (l: Lines)
        ensures
            l@ == self@,
    {
        let v = self.0.clone();
        assert(views(v@) =~= self@);
        Lines(v)
    }
}

impl PartialEq for Lines {
    fn eq(&self, other: &Lines) -> (r: bool) {
        if self.0.len() != other.0.len() {
            assert(self@.len() != other@.len());
            return false;
        }
        let mut i: usize = 0;
        while i < self.0.len()
            invariant
                i <= self.0@.len(),
                self.0@.len() == other.0@.len(),
                forall|j: int| 0 <= j < i ==> (#[trigger] self@[j]) == other@[j],
            decreases self.0@.len() - i,
        {
            if self.0[i] != other.0[i] {
                assert(self@[i as int] != other@[i as int]);
                return false;
            }
            i += 1;
        }
        assert(self@ =~= other@);
        true
    }
}

impl vstd::std_specs::cmp::PartialEqSpecImpl for Lines {
    open spec fn obeys_eq_spec() -> bool {
        true
    }

    open spec fn eq_spec(&self, other: &Lines) -> bool {
        self@ == other@
    }
}

impl Default for Lines {
    fn default() -> (l: Lines)
        ensures
            l@ == seq![blank()],
    {
        let mut v: Vec<Line> = Vec::new();
        v.push(Line::default());
        assert(views(v@) =~= seq![blank()]);
        Lines(v)
    }
}

impl From<Vec<Line>> for Lines {
    fn from(value: Vec<Line>) -> (l: Lines) {
        Lines(value)
    }
}

impl FromSpecImpl<Vec<Line>> for Lines {
    open spec fn obeys_from_spec() -> bool {
        true
    }

    open spec fn from_spec(value: Vec<Line>) -> Lines {
        Lines(value)
    }
}

impl Lines {
    pub fn into_vec(self) -> (v: Vec<Line>)
        ensures
            v == self.0,
    {
        self.0
    }

    /// No lines at all.
    pub fn none() -> (l: Lines)
        ensures
            l@ == LinesV::empty(),
    {
        let v: Vec<Line> = Vec::new();
        assert(views(v@) =~= LinesV::empty());
        Lines(v)
    }

    pub fn len(&self) -> (n: usize)
        ensures
            n == self@.len(),
    {
        self.0.len()
    }

    pub fn is_empty(&self) -> (r: bool)
        ensures
            r == (self@.len() == 0),
    {
        self.0.len() == 0
    }

    /// The line in row `i`.
    pub fn at(&self, i: usize) -> (l: &Line)
        requires
            i < self@.len(),
        ensures
            l@ == self@[i as int],
    {
        &self.0[i]
    }

    /// The line in row `i`, where there is one.
    pub fn get(&self, i: usize) -> (l: Option<&Line>)
        ensures
            l is Some <==> i < self@.len(),
            l is Some ==> l->0@ == self@[i as int],
    {
        if i < self.0.len() {
            Some(&self.0[i])
        } else {
            None
        }
    }

    /// Puts `l` in place of the line in row `i`.
    pub fn replace_at(&mut self, i: usize, l: Line)
        requires
            i < old(self)@.len(),
        ensures
            final(self)@ == old(self)@.update(i as int, l@),
    {
        self.0.set(i, l);
    }

    pub fn push(&mut self, l: Line)
        ensures
            final(self)@ == old(self)@.push(l@),
    {
        self.0.push(l);
    }

    pub fn insert(&mut self, i: usize, l: Line)
        requires
            i <= old(self)@.len(),
        ensures
            final(self)@ == old(self)@.insert(i as int, l@),
    {
        self.0.insert(i, l);
    }

    pub fn remove(&mut self, i: usize) -> (l: Line)
        requires
            i < old(self)@.len(),
        ensures
            l@ == old(self)@[i as int],
            final(self)@ == old(self)@.remove(i as int),
    {
        self.0.remove(i)
    }

    pub fn clear(&mut self)
        ensures
            final(self)@ == LinesV::empty(),
    {
        self.0.clear();
        assert(views(self.0@) =~= LinesV::empty());
    }

    /// Moves the lines of `other` behind those of the buffer.
    pub fn append(&mut self, other: &mut Lines)
        ensures
            final(self)@ == old(self)@ + old(other)@,
            final(other)@ == LinesV::empty(),
    {
        self.0.append(&mut other.0);
        assert(views(other.0@) =~= LinesV::empty());
    }

    /// Cuts the buffer before row `at` and returns the rest.
    pub fn split_rows(&mut self, at: usize) -> (rest: Lines)
        requires
            at <= old(self)@.len(),
        ensures
            final(self)@ == old(self)@.take(at as int),
            rest@ == old(self)@.skip(at as int),
    {
        let rest = self.0.split_off(at);
        assert(views(self.0@) =~= old(self)@.take(at as int));
        assert(views(rest@) =~= old(self)@.skip(at as int));
        Lines(rest)
    }

    /// Takes the rows `a..b` out.
    pub fn drain(&mut self, a: usize, b: usize) -> (out: Lines)
        requires
            a <= b <= old(self)@.len(),
        ensures
            out@ == old(self)@.subrange(a as int, b as int),
            final(self)@ == old(self)@.take(a as int) + old(self)@.skip(b as int),
    {
        let mut rest = self.split_rows(b);
        let mid = self.split_rows(a);
        self.append(&mut rest);
        assert(mid@ =~= old(self)@.subrange(a as int, b as int));
        assert(self@ =~= old(self)@.take(a as int) + old(self)@.skip(b as int));
        mid
    }

    /// Puts the lines of `other` before row `at`.
    pub fn splice_rows(&mut self, at: usize, other: Lines)
        requires
            at <= old(self)@.len(),
        ensures
            final(self)@ == old(self)@.take(at as int) + other@ + old(self)@.skip(at as int),
    {
        let mut other = other;
        let mut rest = self.split_rows(at);
        self.append(&mut other);
        self.append(&mut rest);
    }

    /// The lines of a text, cut at its line feeds.
    pub fn to_lines(s: &str) -> (l: Lines)
        ensures
            l@ == lines_of(s@),
            l@.len() > 0,
            text_of(l@) == s@,
    {
        let rows = split_rows(s);
        proof {
            lemma_rows_nonempty(s@);
        }
        let mut out = Lines::none();
        let mut j: usize = 0;
        while j < rows.len()
            invariant
                j <= rows@.len(),
                views(rows@) == rows_of(s@),
                out@ == lines_of(s@).take(j as int),
                forall|k: int| 0 <= k < j ==> line_text(#[trigger] out@[k]) == rows_of(s@)[k],
            decreases rows@.len() - j,
        {
            let row = string_of(rows[j].as_slice());
            let v = to_graphemes(row.as_str());
            assert(row@ == views(rows@)[j as int]);
            out.push(Line(v));
            j += 1;
            assert(out@ =~= lines_of(s@).take(j as int));
        }
        assert(lines_of(s@).take(rows@.len() as int) =~= lines_of(s@));
        proof {
            lemma_text_of_rows(out@, rows_of(s@));
            lemma_rows_join(s@);
        }
        out
    }

    /// Gives a buffer without lines one blank line.
    pub fn push_empty(&mut self)
        ensures
            final(self)@ == or_blank(old(self)@),
    {
        if self.is_empty() {
            self.push(Line::default());
            assert(self@ =~= seq![blank()]);
        }
    }

    /// The text of the buffer.
    pub fn join(&self) -> (s: String)
        ensures
            s@ == text_of(self@),
    {
        let mut s = String::new();
        let mut i: usize = 0;
        assert(self@.take(0) =~= LinesV::empty());
        while i < self.0.len()
            invariant
                i <= self@.len(),
                s@ == text_of(self@.take(i as int)),
            decreases self@.len() - i,
        {
            let ghost head = self@.take(i as int);
            assert(self@.take(i + 1).drop_last() =~= head);
            assert(self@.take(i + 1).last() == self@[i as int]);
            if i > 0 {
                s.push('\n');
            }
            self.0[i].push_onto(&mut s);
            proof {
                if i == 0 {
                    assert(Seq::<char>::empty() + line_text(self@[0]) =~= line_text(self@[0]));
                    assert(self@.take(1)[0] == self@[0]);
                }
            }
            i += 1;
        }
        assert(self@.take(self@.len() as int) =~= self@);
        s
    }

    /// The text of the buffer.
    pub fn to_string(&self) -> (s: String)
        ensures
            s@ == text_of(self@),
    {
        self.join()
    }

    /// Takes the blank lines at the end out, but for one where nothing else is
    /// left.
    pub fn trim_lines(&mut self)
        ensures
            final(self)@ == or_blank(without_tail_blanks(old(self)@)),
    {
        self.drop_tail_blanks();
        self.push_empty();
    }

    /// Takes the blank lines at the end out.
    pub fn drop_tail_blanks(&mut self)
        ensures
            final(self)@ == without_tail_blanks(old(self)@),
    {
        while self.0.len() > 0 && self.0[self.0.len() - 1].is_empty()
            invariant
                without_tail_blanks(self@) == without_tail_blanks(old(self)@),
            decreases self@.len(),
        {
            let ghost was = self@;
            let _ = self.0.pop();
            assert(self@ =~= was.drop_last());
            assert(was.last().len() == 0);
        }
        assert(self@.len() > 0 ==> self@.last().len() != 0);
    }

    /// Takes the blank lines at the front out.
    pub fn drop_head_blanks(&mut self)
        ensures
            final(self)@ == without_head_blanks(old(self)@),
    {
        let mut n: usize = 0;
        while n < self.0.len() && self.0[n].is_empty()
            invariant
                n <= self@.len(),
                forall|i: int| 0 <= i < n ==> (#[trigger] self@[i]).len() == 0,
            decreases self@.len() - n,
        {
            assert(self@[n as int].len() == 0);
            n += 1;
        }
        proof {
            lemma_leading_is(self@, |l: LineV| l.len() == 0, n as int);
        }
        let _ = self.drain(0, n);
        assert(old(self)@.take(0) + old(self)@.skip(n as int) =~= old(self)@.skip(n as int));
    }

    /// Cuts the buffer at `pos` and returns what lies behind.
    pub fn split_lines_at(&mut self, pos: Pos) -> (rest: Lines)
        requires
            pos.row < old(self)@.len(),
        ensures
            final(self)@ == before(old(self)@, pos),
            rest@ == behind(old(self)@, pos),
    {
        let ghost was = self@;
        let mut below = self.split_rows(pos.row);
        let mut line = below.remove(0);
        let tail = line.split_off(pos.col);
        assert(line@ =~= was[pos.row as int].take(cut_at(was, pos)));
        assert(tail@ =~= was[pos.row as int].skip(cut_at(was, pos)));
        self.push(line);
        below.insert(0, tail);
        assert(below@ =~= behind(was, pos));
        below
    }

    /// The buffer cut at `pos`.
    pub fn split_lines(self, pos: Pos) -> (r: (Lines, Lines))
        requires
            pos.row < self@.len(),
        ensures
            r.0@ == before(self@, pos),
            r.1@ == behind(self@, pos),
    {
        let mut head = self;
        let rest = head.split_lines_at(pos);
        (head, rest)
    }

    /// Moves `other` behind the buffer, its first line continuing the last.
    pub fn attach_lines(&mut self, other: &mut Lines)
        ensures
            final(self)@ == attached(old(self)@, old(other)@),
            final(other)@ == LinesV::empty(),
    {
        if other.is_empty() {
            return;
        }
        if self.is_empty() {
            self.append(other);
            assert(self@ =~= old(other)@);
            return;
        }
        let ghost a = self@;
        let ghost b = other@;
        let mut head = other.remove(0);
        let last = self.0.len() - 1;
        let mut tail = self.0.remove(last);
        tail.append(&mut head);
        self.push(tail);
        self.append(other);
        assert(self@ =~= attached(a, b));
    }

    /// Whether the buffer is how `other` begins.
    pub fn is_prefix_lines(&self, other: &Lines) -> (r: bool)
        ensures
            r == begins(self@, other@),
    {
        if self.is_empty() || self.len() > other.len() {
            return false;
        }
        let last = self.len() - 1;
        let mut i: usize = 0;
        while i < last
            invariant
                last == self@.len() - 1,
                self@.len() <= other@.len(),
                i <= last,
                forall|j: int| 0 <= j < i ==> (#[trigger] self@[j]) == other@[j],
            decreases last - i,
        {
            if self.0[i] != other.0[i] {
                assert(self@[i as int] != other@[i as int]);
                return false;
            }
            i += 1;
        }
        let a = self.at(last);
        let b = other.at(last);
        if a.len() > b.len() {
            return false;
        }
        let mut k: usize = 0;
        while k < a.len()
            invariant
                k <= a@.len() <= b@.len(),
                a@ == self@.last(),
                b@ == other@[self@.len() - 1],
                self@.len() > 0,
                forall|j: int| 0 <= j < k ==> (#[trigger] a@[j]) == b@[j],
            decreases a@.len() - k,
        {
            if a.at(k) != b.at(k) {
                assert(a@[k as int] != b@[k as int]);
                return false;
            }
            k += 1;
        }
        assert(b@.take(a@.len() as int) =~= a@);
        true
    }

    /// What the buffer holds beyond what it shares with `other`; none where
    /// that is nothing but blank lines.
    pub fn strip_prefix_lines(self, other: &Lines) -> (r: Option<Lines>)
        ensures
            r is Some <==> !all_blank(beyond(self@, other@)),
            r is Some ==> r->0@ == beyond(self@, other@),
    {
        let mut rest = self;
        let mut n: usize = 0;
        while n < rest.len() && n < other.len() && rest.0[n] == other.0[n]
            invariant
                n <= rest@.len(),
                n <= other@.len(),
                rest@ == self@,
                forall|i: int| 0 <= i < n ==> (#[trigger] rest@[i]) == other@[i],
            decreases rest@.len() - n,
        {
            assert(rest@[n as int] == other@[n as int]);
            n += 1;
        }
        proof {
            assert(n < rest@.len() && n < other@.len() ==> rest@[n as int] != other@[n as int]);
            lemma_common_is(self@, other@, n as int);
        }
        let _ = rest.drain(0, n);
        assert(rest@ =~= self@.skip(n as int));
        if rest.is_empty() {
            return None;
        }
        if n < other.len() {
            let mut first = rest.remove(0);
            let theirs = other.at(n);
            let ghost f = first@;
            let mut k: usize = 0;
            while k < first.len() && k < theirs.len() && first.at(k) == theirs.at(k)
                invariant
                    k <= first@.len(),
                    k <= theirs@.len(),
                    first@ == f,
                    forall|i: int| 0 <= i < k ==> (#[trigger] first@[i]) == theirs@[i],
                decreases first@.len() - k,
            {
                assert(first@[k as int] == theirs@[k as int]);
                k += 1;
            }
            proof {
                lemma_common_is(f, theirs@, k as int);
            }
            let _ = first.drain(0, k);
            assert(first@ =~= f.skip(k as int));
            rest.insert(0, first);
            assert(rest@ =~= beyond(self@, other@));
        } else if n > 0 {
            rest.insert(0, Line::default());
            assert(rest@ =~= beyond(self@, other@));
        }
        if rest.has_text() {
            Some(rest)
        } else {
            None
        }
    }

    /// Whether some line is not blank.
    pub fn has_text(&self) -> (r: bool)
        ensures
            r == !all_blank(self@),
    {
        let mut i: usize = 0;
        while i < self.0.len()
            invariant
                i <= self@.len(),
                forall|j: int| 0 <= j < i ==> (#[trigger] self@[j]).len() == 0,
            decreases self@.len() - i,
        {
            if !self.0[i].is_empty() {
                assert(self@[i as int].len() != 0);
                return true;
            }
            i += 1;
        }
        false
    }

    /// The bytes UTF-8 takes for the lines, each with its line feed.
    pub fn byte_len(&self) -> (n: usize)
        ensures
            n == sat(lines_size(self@)),
    {
        let mut n: usize = 0;
        let mut i: usize = 0;
        assert(self@.take(0) =~= LinesV::empty());
        while i < self.0.len()
            invariant
                i <= self@.len(),
                n == sat(lines_size(self@.take(i as int))),
            decreases self@.len() - i,
        {
            proof {
                lemma_lines_size_nonneg(self@.take(i as int));
                lemma_line_size_nonneg(self@[i as int]);
                assert(self@.take(i + 1).drop_last() =~= self@.take(i as int));
            }
            n = n.saturating_add(self.0[i].byte_len()).saturating_add(1);
            i += 1;
        }
        assert(self@.take(self@.len() as int) =~= self@);
        n
    }

    /// How many clusters the lines hold.
    pub fn count_graphemes(&self) -> (n: usize)
        ensures
            n == sat(cluster_count(self@)),
    {
        let mut n: usize = 0;
        let mut i: usize = 0;
        assert(self@.take(0) =~= LinesV::empty());
        while i < self.0.len()
            invariant
                i <= self@.len(),
                n == sat(cluster_count(self@.take(i as int))),
            decreases self@.len() - i,
        {
            proof {
                lemma_cluster_count_nonneg(self@.take(i as int));
                assert(self@.take(i + 1).drop_last() =~= self@.take(i as int));
            }
            n = n.saturating_add(self.0[i].len());
            i += 1;
        }
        assert(self@.take(self@.len() as int) =~= self@);
        n
    }
}

} // verus!
