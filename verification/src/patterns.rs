//! Regular expressions, as `regex` reads them.

use regex::Regex;
use vstd::prelude::*;
use vstd::string::StringSliceAdditionalSpecFns;

verus! {

/// A compiled pattern of the `regex` crate.
#[verifier::external_type_specification]
#[verifier::external_body]
pub struct ExRegex(Regex);

/// The text a pattern was compiled from.
pub uninterp spec fn source(re: Regex) -> Seq<char>;

/// The message for a text that is no pattern.
pub uninterp spec fn flaw(text: Seq<char>) -> Option<Seq<char>>;

/// Whether a text is a pattern.
pub open spec fn is_pattern(text: Seq<char>) -> bool {
    flaw(text) is None
}

/// `Regex::new`: compiles a text, where it is a pattern, and else gives its
/// error as a message. Whether the text is a pattern, and what the message
/// says, depends on the text alone, and what the compiled pattern does on the
/// text it was compiled from.
#[verifier::external_body]
pub(crate) fn compile(text: &str) -> (re: Result<Regex, String>)
    ensures
        match re {
            Ok(re) => flaw(text@) is None && source(re) == text@,
            Err(msg) => flaw(text@) == Some(msg@),
        },
{
    Regex::new(text).map_err(|e| e.to_string())
}

/// Whether a pattern matches somewhere in a text.
pub uninterp spec fn matches_in(pattern: Seq<char>, text: Seq<char>) -> bool;

/// `Regex::is_match`: whether there is a match, which the pattern and the text
/// decide.
#[verifier::external_body]
pub(crate) fn is_match(re: &Regex, text: &str) -> (r: bool)
    ensures
        r == matches_in(source(*re), text@),
{
    re.is_match(text)
}

/// The bytes of the first match of a pattern that starts at or behind a byte.
pub uninterp spec fn first_match(pattern: Seq<char>, text: Seq<char>, from: usize) -> Option<
    (usize, usize),
>;

/// `Regex::find_at`: the bytes of the first match from a byte on, which lies
/// within the text. It panics where the byte lies past the end.
#[verifier::external_body]
pub(crate) fn find_at(re: &Regex, text: &str, from: usize) -> (m: Option<(usize, usize)>)
    requires
        from <= text.spec_bytes().len(),
    ensures
        m == first_match(source(*re), text@, from),
        m matches Some(span) ==> from <= span.0 <= span.1 <= text.spec_bytes().len(),
{
    re.find_at(text, from).map(|m| (m.start(), m.end()))
}

/// The bytes of the matches of a pattern, one behind the other.
pub uninterp spec fn all_matches(pattern: Seq<char>, text: Seq<char>) -> Seq<(usize, usize)>;

/// `Regex::find_iter`: the bytes of all matches that do not overlap, which the
/// pattern and the text decide.
#[verifier::external_body]
pub(crate) fn find_all(re: &Regex, text: &str) -> (v: Vec<(usize, usize)>)
    ensures
        v@ == all_matches(source(*re), text@),
{
    re.find_iter(text).map(|m| (m.start(), m.end())).collect()
}

/// A text with the first match replaced, references to groups put in.
pub uninterp spec fn first_replaced(pattern: Seq<char>, text: Seq<char>, by: Seq<char>) -> Seq<
    char,
>;

/// `Regex::replace` with a replacement text: what comes of it, the pattern,
/// the text and the replacement decide.
#[verifier::external_body]
pub(crate) fn replace_first(re: &Regex, text: &str, by: &str) -> (s: String)
    ensures
        s@ == first_replaced(source(*re), text@, by@),
{
    re.replace(text, by).into_owned()
}

/// A text with all matches replaced, references to groups put in.
pub uninterp spec fn all_replaced(pattern: Seq<char>, text: Seq<char>, by: Seq<char>) -> Seq<char>;

/// `Regex::replace_all` with a replacement text: what comes of it, the pattern,
/// the text and the replacement decide.
#[verifier::external_body]
pub(crate) fn replace_all(re: &Regex, text: &str, by: &str) -> (s: String)
    ensures
        s@ == all_replaced(source(*re), text@, by@),
{
    re.replace_all(text, by).into_owned()
}

} // verus!
