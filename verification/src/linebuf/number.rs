//! Numbers in the text: reading them, and writing them back changed.

use vstd::prelude::*;
use crate::text::chars_of;

verus! {

/// The value of a digit.
pub open spec fn digit_value(c: char, radix: int) -> Option<int> {
    let v = if '0' <= c <= '9' {
        c as int - '0' as int
    } else if 'a' <= c <= 'z' {
        c as int - 'a' as int + 10
    } else if 'A' <= c <= 'Z' {
        c as int - 'A' as int + 10
    } else {
        radix
    };
    if v < radix {
        Some(v)
    } else {
        None
    }
}

/// The value of a run of digits.
pub open spec fn digits_value(s: Seq<char>, radix: int) -> Option<int>
    decreases s.len(),
{
    if s.len() == 0 {
        Some(0)
    } else {
        match (digits_value(s.drop_last(), radix), digit_value(s.last(), radix)) {
            (Some(v), Some(d)) => Some(v * radix + d),
            _ => None,
        }
    }
}

/// The number a text writes: digits behind an optional sign, within the range
/// of a machine integer.
pub open spec fn read_number(s: Seq<char>, radix: int) -> Option<int> {
    let signed = s.len() > 0 && (s[0] == '-' || s[0] == '+');
    let digits = if signed {
        s.skip(1)
    } else {
        s
    };
    if digits.len() == 0 {
        None
    } else {
        match digits_value(digits, radix) {
            Some(v) => {
                let n = if signed && s[0] == '-' {
                    -v
                } else {
                    v
                };
                if i64::MIN <= n <= i64::MAX {
                    Some(n)
                } else {
                    None
                }
            },
            None => None,
        }
    }
}

/// The digit for a value.
pub open spec fn digit_for(v: int) -> char {
    if v < 10 {
        (v + '0' as int) as u8 as char
    } else {
        (v - 10 + 'a' as int) as u8 as char
    }
}

/// The digits of a number.
pub open spec fn digits_of(n: int, radix: int) -> Seq<char>
    decreases n,
    via digits_of_ends
{
    if n < radix || radix < 2 {
        seq![digit_for(n)]
    } else {
        digits_of(n / radix, radix).push(digit_for(n % radix))
    }
}

#[via_fn]
proof fn digits_of_ends(n: int, radix: int) {
    if n >= radix && radix >= 2 {
        assert(0 <= n / radix < n) by (nonlinear_arith)
            requires
                n >= radix,
                radix >= 2,
        ;
    }
}

/// Zeros before a text, up to a width.
pub open spec fn padded(s: Seq<char>, width: int) -> Seq<char> {
    if s.len() >= width {
        s
    } else {
        Seq::new((width - s.len()) as nat, |i: int| '0') + s
    }
}

/// A machine integer in another base: a negative one by its bits.
pub open spec fn bits_of(n: int) -> int {
    if n < 0 {
        n + 0x1_0000_0000_0000_0000
    } else {
        n
    }
}

/// A number with a prefix, moved by `inc` and written as wide as before.
pub open spec fn moved_prefixed(word: Seq<char>, inc: int, letter: char, radix: int) -> Option<
    Seq<char>,
> {
    let body = word.skip(2);
    match read_number(body, radix) {
        Some(n) => if i64::MIN <= n + inc <= i64::MAX {
            Some(
                seq!['0', letter] + padded(
                    digits_of(bits_of(n + inc), radix),
                    body.len() as int,
                ),
            )
        } else {
            None
        },
        None => None,
    }
}

/// How wide a decimal number is to be written: as wide as before where it has
/// leading zeros.
pub open spec fn decimal_width(word: Seq<char>) -> int {
    let digits = if word.len() > 0 && (word[0] == '-' || word[0] == '+') {
        word.skip(1)
    } else {
        word
    };
    if digits.len() > 1 && digits[0] == '0' {
        digits.len() as int
    } else {
        0
    }
}

/// A decimal number moved by `inc`; leading zeros are kept, but for the sign.
pub open spec fn moved_decimal(word: Seq<char>, inc: int) -> Option<Seq<char>> {
    match read_number(word, 10) {
        Some(n) => {
            let width = decimal_width(word);
            if !(i64::MIN <= n + inc <= i64::MAX) {
                None
            } else if n + inc < 0 {
                Some(seq!['-'] + padded(digits_of(-(n + inc), 10), width))
            } else {
                Some(padded(digits_of(n + inc, 10), width))
            }
        },
        None => None,
    }
}

/// A number moved by `inc`, in the base its prefix tells.
pub open spec fn moved_number(word: Seq<char>, inc: int) -> Option<Seq<char>> {
    if seq!['0', 'x'].is_prefix_of(word) {
        moved_prefixed(word, inc, 'x', 16)
    } else if seq!['0', 'b'].is_prefix_of(word) {
        moved_prefixed(word, inc, 'b', 2)
    } else if seq!['0', 'o'].is_prefix_of(word) {
        moved_prefixed(word, inc, 'o', 8)
    } else {
        moved_decimal(word, inc)
    }
}

pub proof fn lemma_digits_grow(s: Seq<char>, radix: int, k: int)
    requires
        0 <= k <= s.len(),
        radix >= 2,
        digits_value(s, radix) is Some,
    ensures
        digits_value(s.take(k), radix) is Some,
        0 <= digits_value(s.take(k), radix)->0 <= digits_value(s, radix)->0,
    decreases s.len(),
{
    if k == s.len() {
        assert(s.take(k) =~= s);
        if s.len() > 0 {
            lemma_digits_grow(s.drop_last(), radix, s.len() - 1);
            assert(s.drop_last().take(s.len() - 1) =~= s.drop_last());
            let v = digits_value(s.drop_last(), radix)->0;
            assert(v * radix >= 0) by (nonlinear_arith)
                requires
                    v >= 0,
                    radix >= 2,
            ;
        }
    } else {
        assert(s.drop_last().take(k) =~= s.take(k));
        lemma_digits_grow(s.drop_last(), radix, k);
        let v = digits_value(s.drop_last(), radix)->0;
        assert(v * radix >= v) by (nonlinear_arith)
            requires
                v >= 0,
                radix >= 2,
        ;
    }
}

pub(crate) fn digit_at(c: char, radix: u32) -> (r: Option<u32>)
    requires
        2 <= radix <= 36,
    ensures
        r is Some <==> digit_value(c, radix as int) is Some,
        r is Some ==> r->0 == digit_value(c, radix as int)->0,
        r is Some ==> r->0 < radix,
{
    let v: u32 = if '0' <= c && c <= '9' {
        c as u32 - 48
    } else if 'a' <= c && c <= 'z' {
        c as u32 - 97 + 10
    } else if 'A' <= c && c <= 'Z' {
        c as u32 - 65 + 10
    } else {
        radix
    };
    if v < radix {
        Some(v)
    } else {
        None
    }
}

/// Reads a number.
pub fn parse_number(s: &[char], radix: u32) -> (r: Option<i64>)
    requires
        2 <= radix <= 36,
    ensures
        r is Some <==> read_number(s@, radix as int) is Some,
        r is Some ==> r->0 == read_number(s@, radix as int)->0,
{
    let signed = s.len() > 0 && (s[0] == '-' || s[0] == '+');
    let from: usize = if signed {
        1
    } else {
        0
    };
    let ghost digits = if signed {
        s@.skip(1)
    } else {
        s@
    };
    assert(digits =~= s@.skip(from as int));
    if s.len() == from {
        return None;
    }
    let mut acc: i128 = 0;
    let mut i: usize = from;
    assert(digits.take(0) =~= Seq::<char>::empty());
    while i < s.len()
        invariant
            from <= i <= s@.len(),
            from <= 1,
            2 <= radix <= 36,
            digits == s@.skip(from as int),
            digits.len() > 0,
            signed == (s@.len() > 0 && (s@[0] == '-' || s@[0] == '+')),
            digits == if signed {
                s@.skip(1)
            } else {
                s@
            },
            0 <= acc <= 0x8000_0000_0000_0000,
            digits_value(digits.take(i - from), radix as int) == Some(acc as int),
        decreases s@.len() - i,
    {
        proof {
            assert(digits.take(i - from + 1).drop_last() =~= digits.take(i - from));
            assert(digits.take(i - from + 1).last() == s@[i as int]);
        }
        match digit_at(s[i], radix) {
            Some(d) => {
                assert(acc * radix <= 0x8000_0000_0000_0000 * 36) by (nonlinear_arith)
                    requires
                        0 <= acc <= 0x8000_0000_0000_0000,
                        2 <= radix <= 36,
                ;
                assert(acc * radix >= 0) by (nonlinear_arith)
                    requires
                        0 <= acc,
                        2 <= radix,
                ;
                acc = acc * radix as i128 + d as i128;
                if acc > 0x8000_0000_0000_0000 {
                    proof {
                        if digits_value(digits, radix as int) is Some {
                            lemma_digits_grow(digits, radix as int, i - from + 1);
                        }
                    }
                    return None;
                }
            },
            None => {
                proof {
                    if digits_value(digits, radix as int) is Some {
                        lemma_digits_grow(digits, radix as int, i - from + 1);
                    }
                }
                return None;
            },
        }
        i += 1;
    }
    assert(digits.take(i - from) =~= digits);
    let n = if signed && s[0] == '-' {
        -acc
    } else {
        acc
    };
    if n <= i64::MAX as i128 {
        Some(n as i64)
    } else {
        None
    }
}

fn char_for(v: u32) -> (c: char)
    requires
        v < 36,
    ensures
        c == digit_for(v as int),
{
    if v < 10 {
        (v as u8 + 48) as char
    } else {
        (v as u8 - 10 + 97) as char
    }
}

fn write_digits(n: u64, radix: u64) -> (v: Vec<char>)
    requires
        2 <= radix <= 36,
    ensures
        v@ == digits_of(n as int, radix as int),
    decreases n,
{
    if n < radix {
        let mut v: Vec<char> = Vec::new();
        v.push(char_for(n as u32));
        assert(v@ =~= seq![digit_for(n as int)]);
        return v;
    }
    assert(n / radix < n) by (nonlinear_arith)
        requires
            n >= radix,
            radix >= 2,
    ;
    assert(n % radix < radix) by (nonlinear_arith)
        requires
            radix >= 2,
    ;
    let mut v = write_digits(n / radix, radix);
    v.push(char_for((n % radix) as u32));
    v
}

/// Puts a number behind `out`, zeros before it up to a width.
fn push_padded(out: &mut String, n: u64, radix: u64, width: usize)
    requires
        2 <= radix <= 36,
    ensures
        final(out)@ == old(out)@ + padded(digits_of(n as int, radix as int), width as int),
{
    let digits = write_digits(n, radix);
    let ghost d = digits@;
    let zeros = if digits.len() >= width {
        0
    } else {
        width - digits.len()
    };
    let ghost pad = Seq::new(zeros as nat, |i: int| '0');
    let mut i: usize = 0;
    assert(old(out)@ + pad.take(0) =~= old(out)@);
    while i < zeros
        invariant
            i <= zeros,
            pad == Seq::new(zeros as nat, |i: int| '0'),
            out@ == old(out)@ + pad.take(i as int),
        decreases zeros - i,
    {
        out.push('0');
        i += 1;
        assert(out@ =~= old(out)@ + pad.take(i as int));
    }
    assert(pad.take(zeros as int) =~= pad);
    let mut k: usize = 0;
    assert(out@ =~= old(out)@ + pad + d.take(0));
    while k < digits.len()
        invariant
            k <= digits@.len(),
            digits@ == d,
            out@ == old(out)@ + pad + d.take(k as int),
        decreases digits@.len() - k,
    {
        out.push(digits[k]);
        k += 1;
        assert(out@ =~= old(out)@ + pad + d.take(k as int));
    }
    assert(d.take(d.len() as int) =~= d);
    assert(old(out)@ + pad + d =~= old(out)@ + padded(d, width as int));
}

/// A long number in decimal digits.
pub fn long_text(n: u64) -> (s: String)
    ensures
        s@ == digits_of(n as int, 10),
{
    let digits = write_digits(n, 10);
    crate::text::string_of(digits.as_slice())
}

/// A number in decimal digits.
pub fn count_text(n: usize) -> (s: String)
    ensures
        s@ == digits_of(n as int, 10),
{
    let digits = write_digits(n as u64, 10);
    crate::text::string_of(digits.as_slice())
}

fn move_prefixed(word: &[char], inc: i64, letter: char, radix: u32) -> (r: Option<String>)
    requires
        2 <= radix <= 36,
        word@.len() >= 2,
    ensures
        r is Some <==> moved_prefixed(word@, inc as int, letter, radix as int) is Some,
        r is Some ==> r->0@ == moved_prefixed(word@, inc as int, letter, radix as int)->0,
{
    let body = vstd::slice::slice_subrange(word, 2, word.len());
    assert(body@ =~= word@.skip(2));
    let n = match parse_number(body, radix) {
        Some(n) => n,
        None => {
            return None;
        },
    };
    match n.checked_add(inc) {
        Some(m) => {
            let mut out = String::new();
            out.push('0');
            out.push(letter);
            assert(out@ =~= seq!['0', letter]);
            let bits: u64 = if m < 0 {
                (m as i128 + 0x1_0000_0000_0000_0000) as u64
            } else {
                m as u64
            };
            push_padded(&mut out, bits, radix as u64, body.len());
            Some(out)
        },
        None => None,
    }
}

fn move_decimal(word: &[char], inc: i64) -> (r: Option<String>)
    ensures
        r is Some <==> moved_decimal(word@, inc as int) is Some,
        r is Some ==> r->0@ == moved_decimal(word@, inc as int)->0,
{
    let n = match parse_number(word, 10) {
        Some(n) => n,
        None => {
            return None;
        },
    };
    let from: usize = if word[0] == '-' || word[0] == '+' {
        1
    } else {
        0
    };
    let width: usize = if word.len() - from > 1 && word[from] == '0' {
        word.len() - from
    } else {
        0
    };
    match n.checked_add(inc) {
        Some(m) => {
            let mut out = String::new();
            if m < 0 {
                out.push('-');
                assert(out@ =~= seq!['-']);
                push_padded(&mut out, (-(m as i128)) as u64, 10, width);
            } else {
                push_padded(&mut out, m as u64, 10, width);
                assert(Seq::<char>::empty() + padded(digits_of(m as int, 10), width as int)
                    =~= padded(digits_of(m as int, 10), width as int));
            }
            Some(out)
        },
        None => None,
    }
}

fn has_prefix(word: &[char], letter: char) -> (r: bool)
    ensures
        r == seq!['0', letter].is_prefix_of(word@),
        r ==> word@.len() >= 2,
{
    let r = word.len() >= 2 && word[0] == '0' && word[1] == letter;
    proof {
        if r {
            assert(word@.take(2) =~= seq!['0', letter]);
        } else if word@.len() >= 2 {
            assert(word@.take(2)[0] == word@[0]);
            assert(word@.take(2)[1] == word@[1]);
            assert(seq!['0', letter][0] == '0');
            assert(seq!['0', letter][1] == letter);
        }
    }
    r
}

/// A number moved by `inc`, written in its base and as wide as before.
pub fn format_adjusted(word: &str, inc: i64) -> (r: Option<String>)
    ensures
        r is Some <==> moved_number(word@, inc as int) is Some,
        r is Some ==> r->0@ == moved_number(word@, inc as int)->0,
{
    let chars = chars_of(word);
    let w = chars.as_slice();
    if has_prefix(w, 'x') {
        move_prefixed(w, inc, 'x', 16)
    } else if has_prefix(w, 'b') {
        move_prefixed(w, inc, 'b', 2)
    } else if has_prefix(w, 'o') {
        move_prefixed(w, inc, 'o', 8)
    } else {
        move_decimal(w, inc)
    }
}

/// The digits of a number read back give the number.
pub proof fn law_digits_read_back(n: int, radix: int)
    requires
        0 <= n,
        2 <= radix <= 36,
    ensures
        digits_value(digits_of(n, radix), radix) == Some(n),
        digits_of(n, radix).len() > 0,
        digit_value(digits_of(n, radix)[0], radix) is Some,
    decreases n,
{
    if n < radix {
        let s = digits_of(n, radix);
        assert(s =~= seq![digit_for(n)]);
        assert(s.drop_last() =~= Seq::<char>::empty());
        assert(digits_value(s.drop_last(), radix) == Some(0int));
        lemma_digit_reads_back(n, radix);
        assert(0 * radix == 0) by (nonlinear_arith);
    } else {
        assert(0 <= n / radix < n) by (nonlinear_arith)
            requires
                n >= radix,
                radix >= 2,
        ;
        assert(0 <= n % radix < radix) by (nonlinear_arith)
            requires
                radix >= 2,
        ;
        law_digits_read_back(n / radix, radix);
        lemma_digit_reads_back(n % radix, radix);
        let s = digits_of(n, radix);
        assert(s.drop_last() =~= digits_of(n / radix, radix));
        assert(s.last() == digit_for(n % radix));
        assert((n / radix) * radix + n % radix == n) by (nonlinear_arith)
            requires
                radix >= 2,
        ;
    }
}

proof fn lemma_digit_reads_back(v: int, radix: int)
    requires
        0 <= v < radix <= 36,
    ensures
        digit_value(digit_for(v), radix) == Some(v),
{
}

proof fn lemma_zeros_count_nothing(s: Seq<char>, k: nat, radix: int)
    requires
        2 <= radix <= 36,
    ensures
        digits_value(Seq::new(k, |i: int| '0') + s, radix) == digits_value(s, radix),
    decreases s.len() + k,
{
    let z = Seq::new(k, |i: int| '0');
    if s.len() > 0 {
        lemma_zeros_count_nothing(s.drop_last(), k, radix);
        assert((z + s).drop_last() =~= z + s.drop_last());
        assert((z + s).last() == s.last());
    } else if k > 0 {
        lemma_zeros_count_nothing(s, (k - 1) as nat, radix);
        let y = Seq::new((k - 1) as nat, |i: int| '0');
        assert((z + s).drop_last() =~= y + s);
        assert((z + s).last() == '0');
        assert(digit_value('0', radix) == Some(0int));
        assert(s =~= Seq::<char>::empty());
        assert(0 * radix == 0) by (nonlinear_arith);
    } else {
        assert(z + s =~= s);
    }
}

/// A decimal number that was moved reads as the number it was moved to,
/// however it is written.
pub proof fn law_moved_number_reads_moved(word: Seq<char>, inc: int)
    requires
        read_number(word, 10) matches Some(n) && i64::MIN <= n + inc <= i64::MAX,
    ensures
        moved_decimal(word, inc) matches Some(w) && read_number(w, 10) == Some(
            read_number(word, 10).unwrap() + inc,
        ),
{
    let m = read_number(word, 10).unwrap() + inc;
    let width = decimal_width(word);
    let d = digits_of(if m < 0 { -m } else { m }, 10);
    law_digits_read_back(if m < 0 { -m } else { m }, 10);
    let p = padded(d, width);
    if d.len() < width {
        lemma_zeros_count_nothing(d, (width - d.len()) as nat, 10);
    }
    assert(digits_value(p, 10) == digits_value(d, 10));
    assert(p[0] == '0' || p[0] == d[0]);
    assert(digit_value('-', 10) is None);
    assert(digit_value('+', 10) is None);
    assert(digit_value('0', 10) == Some(0int));
    if m < 0 {
        let w = seq!['-'] + p;
        assert(w.skip(1) =~= p);
    }
}

/// A number with a prefix that was moved keeps the prefix, is at least as wide as
/// before, and reads as the number it was moved to, where that is not negative.
pub proof fn law_moved_prefixed_number_reads_moved(word: Seq<char>, inc: int, letter: char, radix: int)
    requires
        (letter == 'x' && radix == 16) || (letter == 'b' && radix == 2) || (letter == 'o' && radix
            == 8),
        word.len() > 2,
        word[0] == '0',
        word[1] == letter,
        read_number(word.skip(2), radix) matches Some(n) && 0 <= n + inc <= i64::MAX,
    ensures
        moved_number(word, inc) matches Some(w) && w.len() >= word.len() && w[0] == '0' && w[1]
            == letter && read_number(w.skip(2), radix) == Some(
            read_number(word.skip(2), radix).unwrap() + inc,
        ),
{
    let body = word.skip(2);
    let m = read_number(body, radix).unwrap() + inc;
    let d = digits_of(m, radix);
    law_digits_read_back(m, radix);
    let p = padded(d, body.len() as int);
    if d.len() < body.len() {
        lemma_zeros_count_nothing(d, (body.len() - d.len()) as nat, radix);
    }
    assert(digits_value(p, radix) == Some(m));
    assert(p[0] == '0' || p[0] == d[0]);
    assert(digit_value('-', radix) is None);
    assert(digit_value('+', radix) is None);
    assert(digit_value('0', radix) == Some(0int));
    let w = seq!['0', letter] + p;
    assert(w.skip(2) =~= p);
    assert(seq!['0', letter].is_prefix_of(word)) by {
        assert(word.take(2) =~= seq!['0', letter]);
    }
    assert(!seq!['0', 'x'].is_prefix_of(word) || letter == 'x') by {
        assert(seq!['0', 'x'][1] == 'x');
    }
    assert(!seq!['0', 'b'].is_prefix_of(word) || letter == 'b') by {
        assert(seq!['0', 'b'][1] == 'b');
    }
    assert(moved_number(word, inc) == Some(w));
}

} // verus!
