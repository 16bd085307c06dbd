//! Lines of clusters.

use vstd::prelude::*;
use vstd::std_specs::convert::FromSpecImpl;
use crate::linebuf::char_class::is_ws;
use crate::linebuf::grapheme::{chars_width, lemma_chars_width_nonneg, lemma_utf8_size_nonneg, Grapheme};
use crate::seqs::{group_views, min_of, sat, views};
use crate::text::{clusters, split_clusters, utf8_size};

verus! {

broadcast use group_views;

/// A line as a sequence of clusters.
pub type LineV = Seq<Seq<char>>;

/// A line of text, without its line feed.
#[derive(Debug)]
pub struct Line(pub Vec<Grapheme>);

impl View for Line {
    type V = LineV;

    open spec fn view(&self) -> LineV {
        views(self.0@)
    }
}

/// The columns a line takes.
pub open spec fn line_width(l: LineV) -> int
    decreases l.len(),
{
    if l.len() == 0 {
        0
    } else {
        line_width(l.drop_last()) + chars_width(l.last())
    }
}

/// The bytes UTF-8 takes for a line.
pub open spec fn line_size(l: LineV) -> int
    decreases l.len(),
{
    if l.len() == 0 {
        0
    } else {
        line_size(l.drop_last()) + utf8_size(l.last())
    }
}

/// The text of a line.
pub open spec fn line_text(l: LineV) -> Seq<char> {
    l.flatten()
}

/// `mid` put into `l` before column `at`, or behind it all where `at` lies
/// past the end.
pub open spec fn spliced<T>(l: Seq<T>, at: int, mid: Seq<T>) -> Seq<T> {
    if at <= l.len() {
        l.take(at) + mid + l.skip(at)
    } else {
        l + mid
    }
}

/// How many items at the front satisfy `p`.
pub open spec fn leading<T>(s: Seq<T>, p: spec_fn(T) -> bool) -> nat
    decreases s.len(),
{
    if s.len() > 0 && p(s[0]) {
        1 + leading(s.skip(1), p)
    } else {
        0
    }
}

/// What is left of a line without its leading white space.
pub open spec fn unindented(l: LineV) -> LineV {
    l.skip(leading(l, |g: Seq<char>| is_ws(g)) as int)
}

/// What is left of a line without its trailing white space.
pub open spec fn trimmed_end(l: LineV) -> LineV
    decreases l.len(),
{
    if l.len() > 0 && is_ws(l.last()) {
        trimmed_end(l.drop_last())
    } else {
        l
    }
}

pub proof fn lemma_line_width_nonneg(l: LineV)
    ensures
        line_width(l) >= 0,
    decreases l.len(),
{
    if l.len() > 0 {
        lemma_line_width_nonneg(l.drop_last());
        lemma_chars_width_nonneg(l.last());
    }
}

pub proof fn lemma_line_size_nonneg(l: LineV)
    ensures
        line_size(l) >= 0,
    decreases l.len(),
{
    if l.len() > 0 {
        lemma_line_size_nonneg(l.drop_last());
        lemma_utf8_size_nonneg(l.last());
    }
}

/// `n` items at the front satisfy `p` and the next one does not.
pub proof fn lemma_leading_is<T>(s: Seq<T>, p: spec_fn(T) -> bool, n: int)
    requires
        0 <= n <= s.len(),
        forall|i: int| 0 <= i < n ==> p(#[trigger] s[i]),
        n < s.len() ==> !p(s[n]),
    ensures
        leading(s, p) == n,
    decreases n,
{
    if n > 0 {
        assert(p(s[0]));
        let t = s.skip(1);
        assert forall|i: int| 0 <= i < n - 1 implies p(#[trigger] t[i]) by {
            assert(t[i] == s[i + 1]);
        }
        lemma_leading_is(t, p, n - 1);
    }
}

/// The clusters of a text.
pub fn to_graphemes(s: &str) -> (v: Vec<Grapheme>)
    ensures
        views(v@) == clusters(s@),
        views(v@).flatten() == s@,
{
    let parts = split_clusters(s);
    let mut v: Vec<Grapheme> = Vec::new();
    let mut i: usize = 0;
    while i < parts.len()
        invariant
            i <= parts@.len(),
            views(v@) == views(parts@).take(i as int),
        decreases parts@.len() - i,
    {
        v.push(Grapheme::of_text(parts[i].as_str()));
        i += 1;
        assert(views(parts@).take(i as int) =~= views(parts@).take(i - 1).push(parts@[i - 1]@));
    }
    assert(views(parts@).take(parts@.len() as int) =~= views(parts@));
    v
}

impl Clone for Line {
    fn clone(&self) -> (l: Line)
        ensures
            l@ == self@,
    {
        let v = self.0.clone();
        assert(v@ =~= self.0@);
        Line(v)
    }
}

impl PartialEq for Line {
    fn eq(&self, other: &Line) -> (r: bool) {
        if self.0.len() != other.0.len() {
            assert(self@.len() != other@.len());
            return false;
        }
        let mut i: usize = 0;
        while i < self.0.len()
            invariant
                i <= self.0@.len(),
                self.0@.len() == other.0@.len(),
                forall|j: int| 0 <= j < i ==> (#[trigger] self@[j]) == other@[j],
            decreases self.0@.len() - i,
        {
            if self.0[i] != other.0[i] {
                assert(self@[i as int] != other@[i as int]);
                return false;
            }
            i += 1;
        }
        assert(self@ =~= other@);
        true
    }
}

impl vstd::std_specs::cmp::PartialEqSpecImpl for Line {
    open spec fn obeys_eq_spec() -> bool {
        true
    }

    open spec fn eq_spec(&self, other: &Line) -> bool {
        self@ == other@
    }
}

impl Default for Line {
    fn default() -> (l: Line)
        ensures
            l@ == LineV::empty(),
    {
        Line(Vec::new())
    }
}

impl From<Vec<Grapheme>> for Line {
    fn from(value: Vec<Grapheme>) -> (l: Line) {
        Line(value)
    }
}

impl FromSpecImpl<Vec<Grapheme>> for Line {
    open spec fn obeys_from_spec() -> bool {
        true
    }

    open spec fn from_spec(value: Vec<Grapheme>) -> Line {
        Line(value)
    }
}

impl Line {
    pub fn graphemes(&self) -> (s: &[Grapheme])
        ensures
            views(s@) == self@,
            s@ == self.0@,
    {
        self.0.as_slice()
    }

    pub fn len(&self) -> (n: usize)
        ensures
            n == self@.len(),
    {
        self.0.len()
    }

    pub fn is_empty(&self) -> (r: bool)
        ensures
            r == (self@.len() == 0),
    {
        self.len() == 0
    }

    /// The cluster in column `i`.
    pub fn at(&self, i: usize) -> (g: &Grapheme)
        requires
            i < self@.len(),
        ensures
            g@ == self@[i as int],
    {
        &self.0[i]
    }

    /// The cluster in column `i`, where there is one.
    pub fn get(&self, i: usize) -> (g: Option<&Grapheme>)
        ensures
            g is Some <==> i < self@.len(),
            g is Some ==> g->0@ == self@[i as int],
    {
        if i < self.0.len() {
            Some(&self.0[i])
        } else {
            None
        }
    }

    /// Puts `g` in place of the cluster in column `i`.
    pub fn replace_at(&mut self, i: usize, g: Grapheme)
        requires
            i < old(self)@.len(),
        ensures
            final(self)@ == old(self)@.update(i as int, g@),
    {
        self.0.set(i, g);
    }

    /// Takes the cluster in column `i` out.
    pub fn remove(&mut self, i: usize) -> (g: Grapheme)
        requires
            i < old(self)@.len(),
        ensures
            g@ == old(self)@[i as int],
            final(self)@ == old(self)@.remove(i as int),
    {
        self.0.remove(i)
    }

    /// Takes the last cluster out.
    pub fn pop(&mut self) -> (g: Option<Grapheme>)
        ensures
            old(self)@.len() == 0 ==> g is None && final(self)@ == old(self)@,
            old(self)@.len() > 0 ==> g is Some && g->0@ == old(self)@.last() && final(self)@
                == old(self)@.drop_last(),
    {
        let g = self.0.pop();
        assert(old(self)@.len() > 0 ==> views(self.0@) =~= old(self)@.drop_last());
        g
    }

    /// Takes the columns `a..b` out.
    pub fn drain(&mut self, a: usize, b: usize) -> (out: Line)
        requires
            a <= b <= old(self)@.len(),
        ensures
            out@ == old(self)@.subrange(a as int, b as int),
            final(self)@ == old(self)@.take(a as int) + old(self)@.skip(b as int),
    {
        let mut rest = self.0.split_off(b);
        let mid = self.0.split_off(a);
        self.0.append(&mut rest);
        assert(views(mid@) =~= old(self)@.subrange(a as int, b as int));
        assert(views(self.0@) =~= old(self)@.take(a as int) + old(self)@.skip(b as int));
        Line(mid)
    }

    pub fn push(&mut self, g: Grapheme)
        ensures
            final(self)@ == old(self)@.push(g@),
    {
        self.0.push(g);
    }

    pub fn push_str(&mut self, s: &str)
        ensures
            final(self)@ == old(self)@ + clusters(s@),
    {
        let mut v = to_graphemes(s);
        self.0.append(&mut v);
    }

    pub fn push_char(&mut self, c: char)
        ensures
            final(self)@ == old(self)@.push(seq![c]),
    {
        self.0.push(Grapheme::from(c));
    }

    /// Cuts the line before column `at` and returns the rest; past the end
    /// nothing is cut off.
    pub fn split_off(&mut self, at: usize) -> (rest: Line)
        ensures
            at <= old(self)@.len() ==> final(self)@ == old(self)@.take(at as int) && rest@
                == old(self)@.skip(at as int),
            at > old(self)@.len() ==> final(self)@ == old(self)@ && rest@ == LineV::empty(),
    {
        if at > self.0.len() {
            return Line(Vec::new());
        }
        let rest = self.0.split_off(at);
        assert(views(self.0@) =~= old(self)@.take(at as int));
        assert(views(rest@) =~= old(self)@.skip(at as int));
        Line(rest)
    }

    /// Moves the clusters of `other` behind those of the line.
    pub fn append(&mut self, other: &mut Line)
        ensures
            final(self)@ == old(self)@ + old(other)@,
            final(other)@ == LineV::empty(),
    {
        self.0.append(&mut other.0);
    }

    /// Puts a text into the line before column `at`; line feeds in it become
    /// clusters like any other.
    pub fn insert_str(&mut self, at: usize, other: &str)
        ensures
            final(self)@ == spliced(old(self)@, at as int, clusters(other@)),
    {
        let at = min_of(at, self.0.len());
        let mut mid = to_graphemes(other);
        let mut rest = self.0.split_off(at);
        self.0.append(&mut mid);
        self.0.append(&mut rest);
        assert(self@ =~= spliced(old(self)@, at as int, clusters(other@)));
    }

    pub fn insert_char(&mut self, at: usize, c: char)
        ensures
            final(self)@ == spliced(old(self)@, at as int, seq![seq![c]]),
    {
        self.insert(at, Grapheme::from(c));
    }

    pub fn insert(&mut self, at: usize, g: Grapheme)
        ensures
            final(self)@ == spliced(old(self)@, at as int, seq![g@]),
    {
        let at = min_of(at, self.0.len());
        self.0.insert(at, g);
        assert(self@ =~= spliced(old(self)@, at as int, seq![g@]));
    }

    /// The columns the line takes.
    pub fn width(&self) -> (w: usize)
        ensures
            w == sat(line_width(self@)),
    {
        let mut w: usize = 0;
        let mut i: usize = 0;
        assert(self@.take(0) =~= LineV::empty());
        while i < self.0.len()
            invariant
                i <= self@.len(),
                w == sat(line_width(self@.take(i as int))),
            decreases self@.len() - i,
        {
            proof {
                lemma_line_width_nonneg(self@.take(i as int));
                lemma_chars_width_nonneg(self@[i as int]);
                assert(self@.take(i + 1).drop_last() =~= self@.take(i as int));
            }
            w = w.saturating_add(self.0[i].width());
            i += 1;
        }
        assert(self@.take(self@.len() as int) =~= self@);
        w
    }

    /// The bytes UTF-8 takes for the line.
    pub fn byte_len(&self) -> (n: usize)
        ensures
            n == sat(line_size(self@)),
    {
        let mut n: usize = 0;
        let mut i: usize = 0;
        assert(self@.take(0) =~= LineV::empty());
        while i < self.0.len()
            invariant
                i <= self@.len(),
                n == sat(line_size(self@.take(i as int))),
            decreases self@.len() - i,
        {
            proof {
                lemma_line_size_nonneg(self@.take(i as int));
                lemma_utf8_size_nonneg(self@[i as int]);
                assert(self@.take(i + 1).drop_last() =~= self@.take(i as int));
            }
            n = n.saturating_add(self.0[i].len_utf8());
            i += 1;
        }
        assert(self@.take(self@.len() as int) =~= self@);
        n
    }

    /// How many clusters of white space the line starts with.
    pub fn indent_len(&self) -> (n: usize)
        ensures
            n == leading(self@, |g: Seq<char>| is_ws(g)),
            n <= self@.len(),
    {
        let mut n: usize = 0;
        while n < self.0.len() && self.0[n].is_ws()
            invariant
                n <= self@.len(),
                forall|i: int| 0 <= i < n ==> is_ws(#[trigger] self@[i]),
            decreases self@.len() - n,
        {
            n += 1;
        }
        proof {
            lemma_leading_is(self@, |g: Seq<char>| is_ws(g), n as int);
        }
        n
    }

    /// Takes the leading white space out.
    pub fn unindent(&mut self)
        ensures
            final(self)@ == unindented(old(self)@),
    {
        let n = self.indent_len();
        let _ = self.drain(0, n);
        assert(old(self)@.take(0) + old(self)@.skip(n as int) =~= old(self)@.skip(n as int));
    }

    /// The line without its leading white space.
    pub fn trim_start(&self) -> (l: Line)
        ensures
            l@ == unindented(self@),
    {
        let mut l = self.clone();
        l.unindent();
        l
    }

    /// Takes the trailing white space out.
    pub fn trim_end(&mut self)
        ensures
            final(self)@ == trimmed_end(old(self)@),
    {
        while self.0.len() > 0 && self.0[self.0.len() - 1].is_ws()
            invariant
                trimmed_end(self@) == trimmed_end(old(self)@),
            decreases self@.len(),
        {
            let ghost before = self@;
            let _ = self.pop();
            assert(is_ws(before.last()));
        }
        assert(self@.len() > 0 ==> !is_ws(self@.last()));
    }

    /// Puts the text of the line behind `out`.
    pub fn push_onto(&self, out: &mut String)
        ensures
            final(out)@ == old(out)@ + line_text(self@),
    {
        let mut i: usize = 0;
        assert(self@.take(0) =~= LineV::empty());
        assert(old(out)@ + Seq::<char>::empty() =~= old(out)@);
        while i < self.0.len()
            invariant
                i <= self@.len(),
                out@ == old(out)@ + line_text(self@.take(i as int)),
            decreases self@.len() - i,
        {
            self.0[i].push_onto(out);
            proof {
                assert(self@.take(i + 1) =~= self@.take(i as int).push(self@[i as int]));
                self@.take(i as int).lemma_flatten_push(self@[i as int]);
                assert(old(out)@ + (line_text(self@.take(i as int)) + self@[i as int]) =~= old(
                    out,
                )@ + line_text(self@.take(i as int)) + self@[i as int]);
            }
            i += 1;
        }
        assert(self@.take(self@.len() as int) =~= self@);
    }

    /// The text of the line.
    pub fn to_string(&self) -> (s: String)
        ensures
            s@ == line_text(self@),
    {
        let mut s = String::new();
        self.push_onto(&mut s);
        assert(Seq::<char>::empty() + line_text(self@) =~= line_text(self@));
        s
    }
}

} // verus!
