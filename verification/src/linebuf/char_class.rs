//! What kind of character a cluster counts as.

use vstd::prelude::*;
use crate::linebuf::grapheme::Grapheme;
use crate::text::{ascii_punct, is_alnum, is_punct, is_space};

verus! {

/// The classes that word motions tell apart.
#[derive(Clone, Copy, Debug, PartialEq, Eq, Structural)]
pub enum CharClass {
    Alphanum,
    Symbol,
    Whitespace,
    Other,
}

impl Default for CharClass {
    fn default() -> (c: CharClass)
        ensures
            c == CharClass::Alphanum,
    {
        CharClass::Alphanum
    }
}

/// Behind a letter or digit, punctuation and the two common accents keep a
/// cluster alphanumeric.
pub open spec fn is_mark(c: char) -> bool {
    is_punct(c) || c == '\u{0301}' || c == '\u{0308}'
}

/// The class of a cluster.
pub open spec fn class_of(g: Seq<char>) -> CharClass {
    if g.len() == 0 {
        CharClass::Other
    } else if is_alnum(g[0]) && forall|i: int| 1 <= i < g.len() ==> is_mark(#[trigger] g[i]) {
        CharClass::Alphanum
    } else if forall|i: int| 0 <= i < g.len() ==> (is_alnum(#[trigger] g[i]) || g[i] == '_') {
        CharClass::Alphanum
    } else if forall|i: int| 0 <= i < g.len() ==> is_space(#[trigger] g[i]) {
        CharClass::Whitespace
    } else if forall|i: int| 0 <= i < g.len() ==> !is_alnum(#[trigger] g[i]) {
        CharClass::Symbol
    } else {
        CharClass::Other
    }
}

/// A cluster that counts as white space.
pub open spec fn is_ws(g: Seq<char>) -> bool {
    class_of(g) == CharClass::Whitespace
}

/// Two classes differ, or one of them is white space.
pub open spec fn breaks(a: CharClass, b: CharClass) -> bool {
    a == CharClass::Whitespace || b == CharClass::Whitespace || a != b
}

impl CharClass {
    pub fn is_other_class(&self, other: &CharClass) -> (r: bool)
        ensures
            r == (*self != *other),
    {
        *self != *other
    }

    pub fn is_other_class_not_ws(&self, other: &CharClass) -> (r: bool)
        ensures
            r == (*self != CharClass::Whitespace && *other != CharClass::Whitespace && *self
                != *other),
    {
        if self.is_ws() || other.is_ws() {
            false
        } else {
            self.is_other_class(other)
        }
    }

    pub fn is_other_class_or_ws(&self, other: &CharClass) -> (r: bool)
        ensures
            r == breaks(*self, *other),
    {
        if self.is_ws() || other.is_ws() {
            true
        } else {
            self.is_other_class(other)
        }
    }

    pub fn is_ws(&self) -> (r: bool)
        ensures
            r == (*self == CharClass::Whitespace),
    {
        *self == CharClass::Whitespace
    }

    /// The class of a cluster.
    pub fn of(g: &Grapheme) -> (c: CharClass)
        ensures
            c == class_of(g@),
    {
        let n = g.len();
        if n == 0 {
            return CharClass::Other;
        }
        let mut marks = true;
        let mut words = true;
        let mut spaces = true;
        let mut symbols = true;
        let mut i: usize = 0;
        while i < n
            invariant
                n == g@.len(),
                n > 0,
                i <= n,
                marks == forall|j: int| 1 <= j < i ==> is_mark(#[trigger] g@[j]),
                words == forall|j: int| 0 <= j < i ==> (is_alnum(#[trigger] g@[j]) || g@[j] == '_'),
                spaces == forall|j: int| 0 <= j < i ==> is_space(#[trigger] g@[j]),
                symbols == forall|j: int| 0 <= j < i ==> !is_alnum(#[trigger] g@[j]),
            decreases n - i,
        {
            let c = g.char_at(i);
            let alnum = c.is_alphanumeric();
            if i > 0 && !(ascii_punct(c) || c == '\u{0301}' || c == '\u{0308}') {
                marks = false;
            }
            if !(alnum || c == '_') {
                words = false;
            }
            if !c.is_whitespace() {
                spaces = false;
            }
            if alnum {
                symbols = false;
            }
            i += 1;
        }
        if g.char_at(0).is_alphanumeric() && marks {
            CharClass::Alphanum
        } else if words {
            CharClass::Alphanum
        } else if spaces {
            CharClass::Whitespace
        } else if symbols {
            CharClass::Symbol
        } else {
            CharClass::Other
        }
    }
}

} // verus!
