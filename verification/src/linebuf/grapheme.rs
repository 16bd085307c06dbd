//! Grapheme clusters.

use vstd::prelude::*;
use vstd::std_specs::convert::FromSpecImpl;
use crate::linebuf::char_class::{class_of, is_ws, CharClass};
use crate::seqs::sat;
use crate::text::{
    char_columns, char_utf8_len, chars_of, clusters, columns, held, split_clusters, store_clone,
    store_eq, store_get, store_len, store_new, store_push, utf8_size, CharStore,
};

verus! {

/// One grapheme cluster: a unit of display and editing, made of one or more
/// characters.
#[derive(Debug)]
pub struct Grapheme(CharStore);

impl View for Grapheme {
    type V = Seq<char>;

    closed spec fn view(&self) -> Seq<char> {
        held(self.0)
    }
}

impl Clone for Grapheme {
    fn clone(&self) -> (g: Grapheme)
        ensures
            g == *self,
    {
        Grapheme(store_clone(&self.0))
    }
}

impl PartialEq for Grapheme {
    fn eq(&self, other: &Grapheme) -> (r: bool) {
        store_eq(&self.0, &other.0)
    }
}

impl vstd::std_specs::cmp::PartialEqSpecImpl for Grapheme {
    open spec fn obeys_eq_spec() -> bool {
        true
    }

    open spec fn eq_spec(&self, other: &Grapheme) -> bool {
        self@ == other@
    }
}

/// ASCII control bytes but for tab and line feed, and DEL: a terminal shows
/// them in caret notation.
pub open spec fn shown_in_caret(c: char) -> bool {
    c <= '\u{08}' || '\u{0b}' <= c <= '\u{1f}' || c == '\u{7f}'
}

/// The columns a character takes in the prompt.
pub open spec fn char_width(c: char) -> int {
    if shown_in_caret(c) {
        2
    } else {
        match columns(c) {
            Some(w) => w as int,
            None => 0,
        }
    }
}

/// The columns a run of characters takes.
pub open spec fn chars_width(s: Seq<char>) -> int
    decreases s.len(),
{
    if s.len() == 0 {
        0
    } else {
        chars_width(s.drop_last()) + char_width(s.last())
    }
}

/// The single character of a cluster that has just one.
pub open spec fn sole_char(g: Seq<char>) -> Option<char> {
    if g.len() == 1 {
        Some(g[0])
    } else {
        None
    }
}

pub proof fn lemma_chars_width_nonneg(s: Seq<char>)
    ensures
        chars_width(s) >= 0,
    decreases s.len(),
{
    if s.len() > 0 {
        lemma_chars_width_nonneg(s.drop_last());
    }
}

pub proof fn lemma_utf8_size_nonneg(s: Seq<char>)
    ensures
        utf8_size(s) >= s.len(),
    decreases s.len(),
{
    if s.len() > 0 {
        lemma_utf8_size_nonneg(s.drop_last());
    }
}

impl Grapheme {
    /// How many characters the cluster is made of.
    pub fn len(&self) -> (n: usize)
        ensures
            n == self@.len(),
    {
        store_len(&self.0)
    }

    pub fn char_at(&self, i: usize) -> (c: char)
        requires
            i < self@.len(),
        ensures
            c == self@[i as int],
    {
        store_get(&self.0, i)
    }

    /// The columns the cluster takes; control characters in caret notation
    /// take two, other unprintable ones none.
    pub fn width(&self) -> (w: usize)
        ensures
            w == sat(chars_width(self@)),
    {
        let mut w: usize = 0;
        let mut i: usize = 0;
        assert(self@.take(0) =~= Seq::<char>::empty());
        while i < self.len()
            invariant
                i <= self@.len(),
                w == sat(chars_width(self@.take(i as int))),
            decreases self@.len() - i,
        {
            let c = self.char_at(i);
            let n = if Grapheme::is_visualized_control(c) {
                2
            } else {
                match char_columns(c) {
                    Some(n) => n,
                    None => 0,
                }
            };
            proof {
                lemma_chars_width_nonneg(self@.take(i as int));
                assert(self@.take(i + 1).drop_last() =~= self@.take(i as int));
            }
            w = w.saturating_add(n);
            i += 1;
        }
        assert(self@.take(self@.len() as int) =~= self@);
        w
    }

    pub fn is_visualized_control(c: char) -> (r: bool)
        ensures
            r == shown_in_caret(c),
    {
        c <= '\u{08}' || ('\u{0b}' <= c && c <= '\u{1f}') || c == '\u{7f}'
    }

    /// How many bytes UTF-8 takes for the cluster.
    pub fn len_utf8(&self) -> (n: usize)
        ensures
            n == sat(utf8_size(self@)),
    {
        let mut n: usize = 0;
        let mut i: usize = 0;
        assert(self@.take(0) =~= Seq::<char>::empty());
        while i < self.len()
            invariant
                i <= self@.len(),
                n == sat(utf8_size(self@.take(i as int))),
            decreases self@.len() - i,
        {
            proof {
                lemma_utf8_size_nonneg(self@.take(i as int));
                assert(self@.take(i + 1).drop_last() =~= self@.take(i as int));
            }
            n = n.saturating_add(char_utf8_len(self.char_at(i)));
            i += 1;
        }
        assert(self@.take(self@.len() as int) =~= self@);
        n
    }

    /// Whether the cluster is a line feed.
    pub fn is_lf(&self) -> (r: bool)
        ensures
            r == (self@ == seq!['\n']),
    {
        self.is_char('\n')
    }

    /// Whether the cluster is just the character `c`.
    pub fn is_char(&self, c: char) -> (r: bool)
        ensures
            r == (self@ == seq![c]),
            r == (sole_char(self@) == Some(c)),
    {
        let r = self.len() == 1 && self.char_at(0) == c;
        assert(r ==> self@ =~= seq![c]);
        r
    }

    /// The class of the cluster, by the properties of its characters.
    pub fn class(&self) -> (c: CharClass)
        ensures
            c == class_of(self@),
    {
        CharClass::of(self)
    }

    /// The character of a cluster that has just one.
    pub fn as_char(&self) -> (c: Option<char>)
        ensures
            c == sole_char(self@),
    {
        if self.len() == 1 {
            Some(self.char_at(0))
        } else {
            None
        }
    }

    /// Whether the cluster counts as white space.
    pub fn is_ws(&self) -> (r: bool)
        ensures
            r == is_ws(self@),
    {
        self.class() == CharClass::Whitespace
    }

    /// The characters of the cluster.
    pub fn chars(&self) -> (v: Vec<char>)
        ensures
            v@ == self@,
    {
        let mut v: Vec<char> = Vec::new();
        let mut i: usize = 0;
        while i < self.len()
            invariant
                i <= self@.len(),
                v@ == self@.take(i as int),
            decreases self@.len() - i,
        {
            v.push(self.char_at(i));
            i += 1;
        }
        assert(self@.take(self@.len() as int) =~= self@);
        v
    }

    /// Puts the cluster behind `out`.
    pub fn push_onto(&self, out: &mut String)
        ensures
            final(out)@ == old(out)@ + self@,
    {
        let mut i: usize = 0;
        assert(old(out)@ + self@.take(0) =~= old(out)@);
        while i < self.len()
            invariant
                i <= self@.len(),
                out@ == old(out)@ + self@.take(i as int),
            decreases self@.len() - i,
        {
            out.push(self.char_at(i));
            i += 1;
            assert(old(out)@ + self@.take(i as int) =~= (old(out)@ + self@.take(i - 1)).push(
                self@[i - 1],
            ));
        }
        assert(self@.take(self@.len() as int) =~= self@);
    }

    /// The cluster as a text.
    pub fn to_string(&self) -> (s: String)
        ensures
            s@ == self@,
    {
        let mut s = String::new();
        self.push_onto(&mut s);
        assert(Seq::<char>::empty() + self@ =~= self@);
        s
    }

    /// The cluster made of the characters of `s`.
    pub(crate) fn of_text(s: &str) -> (g: Grapheme)
        ensures
            g@ == s@,
    {
        let chars = chars_of(s);
        let mut store = store_new();
        let mut i: usize = 0;
        while i < chars.len()
            invariant
                i <= chars@.len(),
                held(store) == chars@.take(i as int),
            decreases chars@.len() - i,
        {
            store_push(&mut store, chars[i]);
            i += 1;
        }
        assert(chars@.take(chars@.len() as int) =~= chars@);
        Grapheme(store)
    }
}

impl Grapheme {
    /// The text as one cluster; none where it is not exactly one.
    pub fn from_text(s: &str) -> (g: Option<Grapheme>)
        ensures
            g is Some <==> clusters(s@).len() == 1,
            g is Some ==> g->0@ == s@,
    {
        if split_clusters(s).len() == 1 {
            Some(Grapheme::of_text(s))
        } else {
            None
        }
    }
}

impl From<char> for Grapheme {
    fn from(value: char) -> (g: Grapheme)
        ensures
            g@ == seq![value],
    {
        let mut store = store_new();
        store_push(&mut store, value);
        assert(held(store) =~= seq![value]);
        Grapheme(store)
    }
}

impl FromSpecImpl<char> for Grapheme {
    open spec fn obeys_from_spec() -> bool {
        false
    }

    open spec fn from_spec(value: char) -> Grapheme {
        arbitrary()
    }
}

} // verus!
