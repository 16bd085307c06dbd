//! What is told of a text that was written or read, and how the height of the
//! viewport is given.

use vstd::prelude::*;
use crate::linebuf::buffer::LineBuf;
use crate::linebuf::excmd::{parse_count, read_count};
use crate::linebuf::lines::{lemma_rows_nonempty, rows_of, split_rows, text_of};
use crate::linebuf::number::{count_text, digits_of};
use crate::seqs::views;
use crate::text::chars_of;

verus! {

/// How often a byte occurs.
pub open spec fn occurrences(s: Seq<u8>, b: u8) -> nat
    decreases s.len(),
{
    if s.len() == 0 {
        0
    } else {
        occurrences(s.drop_last(), b) + if s.last() == b {
            1nat
        } else {
            0
        }
    }
}

/// `bytecount::count`: how often a byte occurs in a slice.
pub assume_specification[ bytecount::count ](haystack: &[u8], needle: u8) -> (n: usize)
    ensures
        n == occurrences(haystack@, needle),
;

/// How many lines a text has; an empty one at its end does not count.
pub open spec fn line_count(s: Seq<char>) -> int {
    rows_of(s).len() - if rows_of(s).last().len() == 0 {
        1int
    } else {
        0
    }
}

/// How many lines a text has.
pub fn count_lines(s: &str) -> (n: usize)
    ensures
        n == line_count(s@),
{
    proof {
        lemma_rows_nonempty(s@);
    }
    let rows = split_rows(s);
    assert(rows@[rows@.len() - 1]@ == views(rows@)[rows@.len() - 1]);
    if rows[rows.len() - 1].len() == 0 {
        rows.len() - 1
    } else {
        rows.len()
    }
}

/// The words for so many lines of a size, written to or read from a path.
pub open spec fn report_text(verb: Seq<char>, lines: int, size: Seq<char>, to: Seq<char>, path: Seq<char>) -> Seq<
    char,
> {
    verb + digits_of(lines, 10) + " lines ["@ + size + to + path + "'"@
}

fn report(verb: &str, lines: usize, size: &str, to: &str, path: &str) -> (s: String)
    ensures
        s@ == report_text(verb@, lines as int, size@, to@, path@),
{
    let mut s = String::from_str(verb);
    let n = count_text(lines);
    s.append(n.as_str());
    s.append(" lines [");
    s.append(size);
    s.append(to);
    s.append(path);
    s.append("'");
    s
}

impl LineBuf {
    /// What is told when the text was written to a path: how many line feeds
    /// it holds, and its size as it is shown.
    pub fn write_report(&self, size: &str, path: &str) -> (s: String)
        ensures
            s@ == report_text(
                "Wrote "@,
                occurrences(vstd::utf8::encode_utf8(text_of(self@.lines)), 10) as int,
                size@,
                "] to '"@,
                path@,
            ),
    {
        let t = self.to_string();
        let n = bytecount::count(t.as_str().as_bytes(), 10);
        report("Wrote ", n, size, "] to '", path)
    }
}

/// What is told when a text was read from a path.
pub fn read_report(contents: &str, size: &str, path: &str) -> (s: String)
    ensures
        s@ == report_text("Read "@, line_count(contents@), size@, "] from '"@, path@),
{
    report("Read ", count_lines(contents), size, "] from '", path)
}

/// How the height of the viewport is given.
#[derive(Clone, Copy, Debug, PartialEq, Eq, Structural)]
pub enum ViewportHeight {
    Rows(usize),
    /// A share of the terminal's height.
    Percent(usize),
}

/// The height a text gives: a number of lines, or a share with a percent sign;
/// half of the terminal where it gives neither.
pub open spec fn viewport_of(s: Seq<char>) -> ViewportHeight {
    match read_count(s) {
        Some(n) => ViewportHeight::Rows(n),
        None => if s.len() > 0 && s.last() == '%' {
            match read_count(s.drop_last()) {
                Some(n) => ViewportHeight::Percent(n),
                None => ViewportHeight::Percent(50),
            }
        } else {
            ViewportHeight::Percent(50)
        },
    }
}

/// The height a text gives.
pub fn parse_viewport_height(s: &str) -> (h: ViewportHeight)
    ensures
        h == viewport_of(s@),
{
    let mut chars = chars_of(s);
    if let Some(n) = parse_count(chars.as_slice()) {
        return ViewportHeight::Rows(n);
    }
    if chars.len() > 0 && chars[chars.len() - 1] == '%' {
        chars.pop();
        assert(chars@ =~= s@.drop_last());
        if let Some(n) = parse_count(chars.as_slice()) {
            return ViewportHeight::Percent(n);
        }
    }
    ViewportHeight::Percent(50)
}

} // verus!
