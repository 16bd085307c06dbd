//! Hints: text suggested behind the buffer.

use core::cmp::Ordering;
use vstd::prelude::*;
use crate::linebuf::lines::{blank, lines_of, text_of, Lines, LinesV};
use crate::seqs::min_of;
use crate::text::chars_of;

verus! {

/// A suggestion: the whole text that it would make of the buffer.
#[derive(Debug)]
pub enum Hint {
    /// Asked for from outside.
    Override(Lines),
    /// Found in the history.
    History(Lines),
}

#[verifier::ext_equal]
pub enum HintV {
    Override(LinesV),
    History(LinesV),
}

impl View for Hint {
    type V = HintV;

    open spec fn view(&self) -> HintV {
        match self {
            Hint::Override(l) => HintV::Override(l@),
            Hint::History(l) => HintV::History(l@),
        }
    }
}

/// The lines a hint holds.
pub open spec fn hint_text(h: HintV) -> LinesV {
    match h {
        HintV::Override(l) => l,
        HintV::History(l) => l,
    }
}

/// The rank of a hint: a hint does not displace one of higher rank.
pub open spec fn rank(h: HintV) -> int {
    match h {
        HintV::Override(_) => 1,
        HintV::History(_) => 0,
    }
}

/// Whether a hint suggests nothing.
pub open spec fn hint_is_empty(h: HintV) -> bool {
    hint_text(h).len() == 0 || (hint_text(h).len() == 1 && hint_text(h)[0].len() == 0)
}

/// The escape sequence for dim text.
pub open spec fn dim() -> Seq<char> {
    seq!['\u{1b}', '[', '9', '0', 'm']
}

/// The escape sequence that ends it.
pub open spec fn plain() -> Seq<char> {
    seq!['\u{1b}', '[', '0', 'm']
}

/// The text with the escape sequence for dim text behind each line feed.
pub open spec fn dimmed(s: Seq<char>) -> Seq<char>
    decreases s.len(),
{
    if s.len() == 0 {
        Seq::empty()
    } else if s.last() == '\n' {
        dimmed(s.drop_last()).push('\n') + dim()
    } else {
        dimmed(s.drop_last()).push(s.last())
    }
}

/// `text` without `prefix`, where it begins with it.
pub open spec fn after_prefix(text: Seq<char>, prefix: Option<Seq<char>>) -> Seq<char> {
    match prefix {
        Some(p) => if p.is_prefix_of(text) {
            text.skip(p.len() as int)
        } else {
            text
        },
        None => text,
    }
}

/// How a hint is shown behind `prefix`.
pub open spec fn shown(h: HintV, prefix: Option<Seq<char>>) -> Seq<char> {
    dimmed(dim() + after_prefix(text_of(hint_text(h)), prefix) + plain())
}

/// Copies a text, with the escape sequence for dim text behind each line feed.
fn dim_lines(s: &[char]) -> (out: String)
    ensures
        out@ == dimmed(s@),
{
    let mut out = String::new();
    let mut i: usize = 0;
    assert(s@.take(0) =~= Seq::<char>::empty());
    while i < s.len()
        invariant
            i <= s@.len(),
            out@ == dimmed(s@.take(i as int)),
        decreases s@.len() - i,
    {
        assert(s@.take(i + 1).drop_last() =~= s@.take(i as int));
        let ghost done = out@;
        out.push(s[i]);
        if s[i] == '\n' {
            out.push('\u{1b}');
            out.push('[');
            out.push('9');
            out.push('0');
            out.push('m');
            assert(out@ =~= done.push('\n') + dim());
        }
        i += 1;
    }
    assert(s@.take(s@.len() as int) =~= s@);
    out
}

impl PartialEq for Hint {
    fn eq(&self, other: &Hint) -> (r: bool) {
        match (self, other) {
            (Hint::Override(a), Hint::Override(b)) => *a == *b,
            (Hint::History(a), Hint::History(b)) => *a == *b,
            _ => false,
        }
    }
}

impl vstd::std_specs::cmp::PartialEqSpecImpl for Hint {
    open spec fn obeys_eq_spec() -> bool {
        true
    }

    open spec fn eq_spec(&self, other: &Hint) -> bool {
        self@ == other@
    }
}

impl Clone for Hint {
    fn clone(&self) -> (h: Hint)
        ensures
            h@ == self@,
    {
        match self {
            Hint::Override(l) => Hint::Override(l.clone()),
            Hint::History(l) => Hint::History(l.clone()),
        }
    }
}

impl Hint {
    /// A hint that was asked for.
    pub fn new_override(s: &str) -> (h: Hint)
        ensures
            h@ == HintV::Override(lines_of(s@)),
    {
        Hint::Override(Lines::to_lines(s))
    }

    /// A hint from the history.
    pub fn new_history(s: &str) -> (h: Hint)
        ensures
            h@ == HintV::History(lines_of(s@)),
    {
        Hint::History(Lines::to_lines(s))
    }

    pub fn set_lines(&mut self, new_lines: Lines)
        ensures
            final(self)@ == match old(self)@ {
                HintV::Override(_) => HintV::Override(new_lines@),
                HintV::History(_) => HintV::History(new_lines@),
            },
    {
        *self = match self {
            Hint::Override(_) => Hint::Override(new_lines),
            Hint::History(_) => Hint::History(new_lines),
        };
    }

    pub fn lines(&self) -> (l: &Lines)
        ensures
            l@ == hint_text(self@),
    {
        match self {
            Hint::Override(l) => l,
            Hint::History(l) => l,
        }
    }

    /// The text of the hint.
    pub fn raw(&self) -> (s: String)
        ensures
            s@ == text_of(hint_text(self@)),
    {
        self.lines().join()
    }

    /// Takes the lines out and leaves one blank line.
    pub fn take_lines(&mut self) -> (l: Lines)
        ensures
            l@ == hint_text(old(self)@),
            hint_text(final(self)@) == seq![blank()],
            rank(final(self)@) == rank(old(self)@),
    {
        let mut out = Lines::default();
        match self {
            Hint::Override(l) => core::mem::swap(l, &mut out),
            Hint::History(l) => core::mem::swap(l, &mut out),
        }
        out
    }

    /// The hint as it is shown behind `prefix`: dim on every line.
    pub fn display(&self, prefix: Option<&str>) -> (s: String)
        ensures
            s@ == shown(
                self@,
                match prefix {
                    Some(p) => Some(p@),
                    None => None,
                },
            ),
    {
        let raw = self.raw();
        let text = chars_of(raw.as_str());
        let mut from: usize = 0;
        if let Some(prefix) = prefix {
            let p = chars_of(prefix);
            let mut k: usize = 0;
            let n = min_of(p.len(), text.len());
            while k < n && p[k] == text[k]
                invariant
                    k <= n,
                    n <= p@.len(),
                    n <= text@.len(),
                    forall|i: int| 0 <= i < k ==> p@[i] == text@[i],
                decreases n - k,
            {
                k += 1;
            }
            if k == p.len() {
                from = k;
                assert(text@.take(k as int) =~= p@);
                assert(p@.is_prefix_of(text@));
            } else {
                assert(!p@.is_prefix_of(text@)) by {
                    if p@.is_prefix_of(text@) {
                        assert(text@.take(p@.len() as int)[k as int] == p@[k as int]);
                    }
                }
            }
        }
        let ghost rest = after_prefix(
            text@,
            match prefix {
                Some(p) => Some(p@),
                None => None,
            },
        );
        assert(rest =~= text@.skip(from as int));
        let mut body: Vec<char> = Vec::new();
        body.push('\u{1b}');
        body.push('[');
        body.push('9');
        body.push('0');
        body.push('m');
        let mut i: usize = from;
        assert(body@ =~= dim() + text@.subrange(from as int, from as int));
        while i < text.len()
            invariant
                from <= i <= text@.len(),
                body@ == dim() + text@.subrange(from as int, i as int),
            decreases text@.len() - i,
        {
            body.push(text[i]);
            i += 1;
            assert(body@ =~= dim() + text@.subrange(from as int, i as int));
        }
        body.push('\u{1b}');
        body.push('[');
        body.push('0');
        body.push('m');
        assert(body@ =~= dim() + rest + plain());
        dim_lines(body.as_slice())
    }

    pub fn is_empty(&self) -> (r: bool)
        ensures
            r == hint_is_empty(self@),
    {
        let l = self.lines();
        l.is_empty() || (l.len() == 1 && l.at(0).is_empty())
    }

    /// Compares the ranks of two hints.
    pub fn cmp(&self, other: &Hint) -> (o: Ordering)
        ensures
            o == Ordering::Less <==> rank(self@) < rank(other@),
            o == Ordering::Equal <==> rank(self@) == rank(other@),
            o == Ordering::Greater <==> rank(self@) > rank(other@),
    {
        match (self, other) {
            (Hint::Override(_), Hint::History(_)) => Ordering::Greater,
            (Hint::History(_), Hint::Override(_)) => Ordering::Less,
            _ => Ordering::Equal,
        }
    }
}

} // verus!
