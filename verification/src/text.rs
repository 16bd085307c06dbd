//! Characters and grapheme clusters: what std, `smallvec`,
//! `unicode-segmentation` and `unicode-width` say of them.

use smallvec::SmallVec;
use unicode_segmentation::UnicodeSegmentation;
use unicode_width::{UnicodeWidthChar, UnicodeWidthStr};
use vstd::prelude::*;
use crate::seqs::views;

verus! {

/// The characters of one grapheme cluster, kept in place up to four of them
/// by `smallvec::SmallVec`.
#[verifier::external_body]
#[derive(Debug)]
pub struct CharStore {
    chars: SmallVec<[char; 4]>,
}

/// The characters a store holds, in order.
pub uninterp spec fn held(store: CharStore) -> Seq<char>;

/// `SmallVec::new`: the new store holds nothing.
#[verifier::external_body]
pub(crate) fn store_new() -> (store: CharStore)
    ensures
        held(store) == Seq::<char>::empty(),
{
    CharStore { chars: SmallVec::new() }
}

/// `SmallVec::push`: the character comes behind those held.
#[verifier::external_body]
pub(crate) fn store_push(store: &mut CharStore, c: char)
    ensures
        held(*final(store)) == held(*old(store)).push(c),
{
    store.chars.push(c)
}

/// `SmallVec::len`: how many characters are held.
#[verifier::external_body]
pub(crate) fn store_len(store: &CharStore) -> (n: usize)
    ensures
        n == held(*store).len(),
{
    store.chars.len()
}

/// `Index::index` of `SmallVec`: the character at a place that is held.
#[verifier::external_body]
pub(crate) fn store_get(store: &CharStore, i: usize) -> (c: char)
    requires
        i < held(*store).len(),
    ensures
        c == held(*store)[i as int],
{
    store.chars[i]
}

/// `Clone::clone` of `SmallVec`: a store that nothing tells apart from the
/// given one.
#[verifier::external_body]
pub(crate) fn store_clone(store: &CharStore) -> (r: CharStore)
    ensures
        r == *store,
{
    CharStore { chars: store.chars.clone() }
}

/// `PartialEq::eq` of `SmallVec`: whether the same characters are held.
#[verifier::external_body]
pub(crate) fn store_eq(a: &CharStore, b: &CharStore) -> (r: bool)
    ensures
        r == (held(*a) == held(*b)),
{
    a.chars == b.chars
}

/// The extended grapheme clusters of a text, as Unicode Standard Annex 29
/// cuts it.
pub uninterp spec fn clusters(text: Seq<char>) -> Seq<Seq<char>>;

/// `UnicodeSegmentation::graphemes` with extended clusters. The clusters are
/// pieces of the text, none of them empty, that make it up in order.
#[verifier::external_body]
pub(crate) fn split_clusters(text: &str) -> (r: Vec<String>)
    ensures
        views(r@) == clusters(text@),
        views(r@).flatten() == text@,
        forall|i: int| 0 <= i < r@.len() ==> (#[trigger] r@[i])@.len() > 0,
{
    text.graphemes(true).map(|g| g.to_string()).collect()
}

/// The columns a character takes on a terminal; none where it is a control
/// character.
pub uninterp spec fn columns(c: char) -> Option<usize>;

/// `UnicodeWidthChar::width`: the columns of a character, which its width
/// tables alone decide.
#[verifier::external_body]
pub(crate) fn char_columns(c: char) -> (w: Option<usize>)
    ensures
        w == columns(c),
{
    c.width()
}

/// The columns a text takes on a terminal.
pub uninterp spec fn text_columns(text: Seq<char>) -> usize;

/// `UnicodeWidthStr::width`. What it counts for a text is only named: it goes
/// by the width tables of Unicode, and by sequences that are shown as one.
#[verifier::external_body]
pub(crate) fn str_columns(text: &str) -> (w: usize)
    ensures
        w == text_columns(text@),
{
    text.width()
}

/// Whether Unicode counts the character as alphabetic or numeric.
pub uninterp spec fn is_alnum(c: char) -> bool;

/// `char::is_alphanumeric`: the tables of Unicode decide, for each character
/// the same way every time.
pub assume_specification[ char::is_alphanumeric ](c: char) -> (r: bool)
    ensures
        r == is_alnum(c),
;

/// Whether Unicode counts the character as white space.
pub uninterp spec fn is_space(c: char) -> bool;

/// `char::is_whitespace`: the tables of Unicode decide, for each character
/// the same way every time.
pub assume_specification[ char::is_whitespace ](c: char) -> (r: bool)
    ensures
        r == is_space(c),
;

/// `String::push`: the character comes behind the text.
pub assume_specification[ String::push ](s: &mut String, c: char)
    ensures
        final(s)@ == old(s)@.push(c),
;

pub open spec fn is_lower(c: char) -> bool {
    'a' <= c <= 'z'
}

pub open spec fn is_upper(c: char) -> bool {
    'A' <= c <= 'Z'
}

pub open spec fn is_digit(c: char) -> bool {
    '0' <= c <= '9'
}

/// The characters that ASCII counts as punctuation.
pub open spec fn is_punct(c: char) -> bool {
    '!' <= c <= '/' || ':' <= c <= '@' || '[' <= c <= '`' || '{' <= c <= '~'
}

pub fn ascii_lower(c: char) -> (r: bool)
    ensures
        r == is_lower(c),
{
    'a' <= c && c <= 'z'
}

pub fn ascii_upper(c: char) -> (r: bool)
    ensures
        r == is_upper(c),
{
    'A' <= c && c <= 'Z'
}

pub fn ascii_digit(c: char) -> (r: bool)
    ensures
        r == is_digit(c),
{
    '0' <= c && c <= '9'
}

pub fn ascii_punct(c: char) -> (r: bool)
    ensures
        r == is_punct(c),
{
    ('!' <= c && c <= '/') || (':' <= c && c <= '@') || ('[' <= c && c <= '`') || ('{' <= c && c
        <= '~')
}

/// The letter of the other case that stands at the same place of the alphabet.
pub open spec fn lower_of(c: char) -> char {
    if is_upper(c) {
        ((c as u8) + 32) as u8 as char
    } else {
        c
    }
}

pub open spec fn upper_of(c: char) -> char {
    if is_lower(c) {
        ((c as u8) - 32) as u8 as char
    } else {
        c
    }
}

pub fn to_lower(c: char) -> (r: char)
    ensures
        r == lower_of(c),
{
    if ascii_upper(c) {
        (c as u8 + 32) as char
    } else {
        c
    }
}

pub fn to_upper(c: char) -> (r: char)
    ensures
        r == upper_of(c),
{
    if ascii_lower(c) {
        (c as u8 - 32) as char
    } else {
        c
    }
}

/// How many bytes UTF-8 takes for a character.
pub open spec fn utf8_len(c: char) -> int {
    if c <= '\u{7f}' {
        1
    } else if c <= '\u{7ff}' {
        2
    } else if c <= '\u{ffff}' {
        3
    } else {
        4
    }
}

pub fn char_utf8_len(c: char) -> (n: usize)
    ensures
        n == utf8_len(c),
{
    if c <= '\u{7f}' {
        1
    } else if c <= '\u{7ff}' {
        2
    } else if c <= '\u{ffff}' {
        3
    } else {
        4
    }
}

/// How many bytes UTF-8 takes for a text.
pub open spec fn utf8_size(s: Seq<char>) -> int
    decreases s.len(),
{
    if s.len() == 0 {
        0
    } else {
        utf8_size(s.drop_last()) + utf8_len(s.last())
    }
}

/// The characters of a text.
pub fn chars_of(s: &str) -> (v: Vec<char>)
    ensures
        v@ == s@,
{
    let mut v: Vec<char> = Vec::new();
    for c in it: s.chars()
        invariant
            v@ == s@.take(it.index()),
            it.seq() == s@,
    {
        v.push(c);
    }
    assert(s@.take(s@.len() as int) == s@);
    v
}

/// The text made of the given characters.
pub fn string_of(v: &[char]) -> (s: String)
    ensures
        s@ == v@,
{
    let mut s = String::new();
    let mut i: usize = 0;
    while i < v.len()
        invariant
            i <= v@.len(),
            s@ == v@.take(i as int),
        decreases v@.len() - i,
    {
        s.push(v[i]);
        i += 1;
    }
    assert(v@.take(v@.len() as int) == v@);
    s
}

/// A text without its leading white space.
pub open spec fn trim_front(s: Seq<char>) -> Seq<char>
    decreases s.len(),
{
    if s.len() > 0 && is_space(s[0]) {
        trim_front(s.skip(1))
    } else {
        s
    }
}

/// A text without its trailing white space.
pub open spec fn trim_back(s: Seq<char>) -> Seq<char>
    decreases s.len(),
{
    if s.len() > 0 && is_space(s.last()) {
        trim_back(s.drop_last())
    } else {
        s
    }
}

/// A text without the white space around it.
pub open spec fn trimmed(s: Seq<char>) -> Seq<char> {
    trim_back(trim_front(s))
}

/// A text without its trailing white space.
pub fn trim_text_end(s: &str) -> (r: String)
    ensures
        r@ == trim_back(s@),
{
    let mut v = chars_of(s);
    drop_back(&mut v);
    string_of(v.as_slice())
}

fn drop_back(v: &mut Vec<char>)
    ensures
        final(v)@ == trim_back(old(v)@),
{
    while v.len() > 0 && v[v.len() - 1].is_whitespace()
        invariant
            trim_back(v@) == trim_back(old(v)@),
        decreases v@.len(),
    {
        let ghost was = v@;
        let _ = v.pop();
        assert(v@ =~= was.drop_last());
    }
}

/// A text without the white space around it.
pub fn trim_text(s: &str) -> (r: String)
    ensures
        r@ == trimmed(s@),
{
    let mut v = chars_of(s);
    let mut n: usize = 0;
    assert(v@.skip(0) =~= v@);
    while n < v.len() && v[n].is_whitespace()
        invariant
            n <= v@.len(),
            v@ == s@,
            trim_front(s@) == trim_front(v@.skip(n as int)),
        decreases v@.len() - n,
    {
        assert(v@.skip(n as int).skip(1) =~= v@.skip(n + 1));
        n += 1;
    }
    let mut rest = v.split_off(n);
    assert(rest@ =~= s@.skip(n as int));
    drop_back(&mut rest);
    string_of(rest.as_slice())
}

/// Whether a text begins with another.
pub fn starts_with(s: &str, prefix: &str) -> (r: bool)
    ensures
        r == prefix@.is_prefix_of(s@),
{
    let a = chars_of(s);
    let p = chars_of(prefix);
    if p.len() > a.len() {
        return false;
    }
    let mut i: usize = 0;
    while i < p.len()
        invariant
            i <= p@.len() <= a@.len(),
            a@ == s@,
            p@ == prefix@,
            forall|j: int| 0 <= j < i ==> a@[j] == p@[j],
        decreases p@.len() - i,
    {
        if a[i] != p[i] {
            assert(a@.take(p@.len() as int)[i as int] != p@[i as int]);
            return false;
        }
        i += 1;
    }
    assert(a@.take(p@.len() as int) =~= p@);
    true
}

/// Whether a text ends with another.
pub fn ends_with(s: &str, suffix: &str) -> (r: bool)
    ensures
        r == suffix@.is_suffix_of(s@),
{
    let a = chars_of(s);
    let p = chars_of(suffix);
    if p.len() > a.len() {
        return false;
    }
    let n = a.len();
    let from = n - p.len();
    let mut i: usize = 0;
    while i < p.len()
        invariant
            i <= p@.len(),
            n == a@.len(),
            from + p@.len() == n,
            a@ == s@,
            p@ == suffix@,
            forall|j: int| 0 <= j < i ==> a@[from + j] == p@[j],
        decreases p@.len() - i,
    {
        if a[from + i] != p[i] {
            assert(a@.subrange(from as int, a@.len() as int)[i as int] != p@[i as int]);
            return false;
        }
        i += 1;
    }
    assert(a@.subrange(from as int, a@.len() as int) =~= p@);
    true
}

/// Whether two texts are the same.
pub fn same_text(a: &str, b: &str) -> (r: bool)
    ensures
        r == (a@ == b@),
{
    let x = chars_of(a);
    let y = chars_of(b);
    if x.len() != y.len() {
        return false;
    }
    let mut i: usize = 0;
    while i < x.len()
        invariant
            x@.len() == y@.len(),
            x@ == a@,
            y@ == b@,
            i <= x@.len(),
            forall|j: int| 0 <= j < i ==> x@[j] == y@[j],
        decreases x@.len() - i,
    {
        if x[i] != y[i] {
            return false;
        }
        i += 1;
    }
    assert(x@ == y@);
    true
}

} // verus!
