//! Clusters, lines and texts.

use shed_line::linebuf::grapheme::Grapheme;
use shed_line::linebuf::line::Line;
use shed_line::linebuf::lines::Lines;
use shed_line::linebuf::pos::Pos;

fn text(s: &str) -> Grapheme {
    Grapheme::from_text(s).unwrap()
}

fn line(s: &str) -> Line {
    let mut l = Line::default();
    l.push_str(s);
    l
}

fn lines_from(rows: &[&str]) -> Lines {
    Lines(rows.iter().map(|s| line(s)).collect())
}

#[test]
fn grapheme_width_ascii_printable_is_one() {
    assert_eq!(Grapheme::from('A').width(), 1);
    assert_eq!(Grapheme::from(' ').width(), 1);
    assert_eq!(Grapheme::from('~').width(), 1);
}

#[test]
fn grapheme_width_wide_char_is_two() {
    // CJK ideographs are 2 columns wide in a terminal cell.
    assert_eq!(Grapheme::from('\u{4e16}').width(), 2);
}

#[test]
fn grapheme_width_visualized_control_is_two() {
    // ASCII control bytes render as `^X` caret notation -> 2 columns.
    assert_eq!(Grapheme::from('\x00').width(), 2);
    assert_eq!(Grapheme::from('\x01').width(), 2);
    assert_eq!(Grapheme::from('\x08').width(), 2);
    assert_eq!(Grapheme::from('\x0b').width(), 2);
    assert_eq!(Grapheme::from('\x1b').width(), 2); // ESC
    assert_eq!(Grapheme::from('\x1f').width(), 2);
    assert_eq!(Grapheme::from('\x7f').width(), 2); // DEL
}

#[test]
fn grapheme_width_excludes_tab_and_lf_from_visualization() {
    // \t (0x09) and \n (0x0a) are handled specially by the renderer,
    // not visualized as caret notation, so they must NOT report width 2.
    assert_eq!(Grapheme::from('\t').width(), 0);
    assert_eq!(Grapheme::from('\n').width(), 0);
}

#[test]
fn grapheme_width_combining_mark_is_zero() {
    // U+0301 (combining acute) on its own has zero display width.
    assert_eq!(Grapheme::from('\u{0301}').width(), 0);
}

#[test]
fn grapheme_width_composed_grapheme_sums_chars() {
    // "e-acute" = 'e' + U+0301 -> width 1 + 0 = 1.
    let g = text("e\u{0301}");
    assert_eq!(g.width(), 1);
}

#[test]
fn grapheme_is_visualized_control_boundaries() {
    // Inclusive range 0x00..=0x08
    assert!(Grapheme::is_visualized_control('\x00'));
    assert!(Grapheme::is_visualized_control('\x08'));
    // Excluded: \t (0x09), \n (0x0a)
    assert!(!Grapheme::is_visualized_control('\t'));
    assert!(!Grapheme::is_visualized_control('\n'));
    // Inclusive range 0x0b..=0x1f
    assert!(Grapheme::is_visualized_control('\x0b'));
    assert!(Grapheme::is_visualized_control('\x1f'));
    // Excluded: printable ASCII
    assert!(!Grapheme::is_visualized_control(' '));
    assert!(!Grapheme::is_visualized_control('A'));
    assert!(!Grapheme::is_visualized_control('~'));
    // DEL
    assert!(Grapheme::is_visualized_control('\x7f'));
    // Above DEL (non-ASCII)
    assert!(!Grapheme::is_visualized_control('\u{4e16}'));
}

#[test]
fn grapheme_as_char_returns_none_for_multi_char_cluster() {
    // Composed grapheme cluster "e-acute" stores two chars internally.
    let g = text("e\u{0301}");
    assert_eq!(g.as_char(), None);
}

#[test]
fn grapheme_as_char_returns_some_for_single_char() {
    assert_eq!(Grapheme::from('A').as_char(), Some('A'));
}

#[test]
fn line_insert_str_at_start() {
    let mut l = line("world");
    l.insert_str(0, "hello ");
    assert_eq!(l.to_string(), "hello world");
}

#[test]
fn line_insert_str_in_middle() {
    let mut l = line("heo");
    l.insert_str(2, "ll");
    assert_eq!(l.to_string(), "hello");
}

#[test]
fn line_insert_str_at_end() {
    let mut l = line("hello");
    let end = l.len();
    l.insert_str(end, " world");
    assert_eq!(l.to_string(), "hello world");
}

#[test]
fn line_insert_str_beyond_end_clamps() {
    let mut l = line("hi");
    l.insert_str(999, "!");
    assert_eq!(l.to_string(), "hi!");
}

#[test]
fn line_insert_str_empty_is_noop() {
    let mut l = line("hello");
    l.insert_str(2, "");
    assert_eq!(l.to_string(), "hello");
}

#[test]
fn line_insert_str_with_newline_inserts_literal() {
    // Inserting a string containing '\n' logs a warning but still inserts
    // the chars as literal graphemes (newlines become literal chars in the
    // line; line-splitting is the caller's responsibility).
    let mut l = line("ab");
    l.insert_str(1, "X\nY");
    assert_eq!(l.len(), 5);
    assert_eq!(l.at(0).as_char(), Some('a'));
    assert_eq!(l.at(1).as_char(), Some('X'));
    assert_eq!(l.at(2).as_char(), Some('\n'));
    assert_eq!(l.at(3).as_char(), Some('Y'));
    assert_eq!(l.at(4).as_char(), Some('b'));
}

#[test]
fn line_insert_str_multibyte_grapheme() {
    // Composed graphemes are inserted as single units.
    let mut l = line("ab");
    l.insert_str(1, "e\u{0301}");
    assert_eq!(l.len(), 3); // a, e-acute, b
    assert_eq!(l.at(0).as_char(), Some('a'));
    assert_eq!(l.at(1).as_char(), None); // e-acute is multi-char
    assert_eq!(l.at(2).as_char(), Some('b'));
}

#[test]
fn attach_lines_into_empty_self_takes_other_contents() {
    // Truly empty Lines (vec![]), not the Default which has one empty line.
    let mut sink = Lines(vec![]);
    let mut other = Lines::to_lines("hello\nworld");
    let other_len_before = other.len();
    sink.attach_lines(&mut other);

    // push_empty only fires if self is still empty after append; here other
    // had content, so it's moved into self verbatim with no trailing line.
    assert_eq!(sink.join(), "hello\nworld");
    // `other` should have been drained by Vec::append.
    assert!(other.is_empty());
    assert!(other_len_before > 0); // sanity
}

#[test]
fn attach_lines_early_returns_when_other_is_empty() {
    let mut sink = lines_from(&["foo"]);
    let mut other = Lines(vec![]);
    sink.attach_lines(&mut other);
    assert_eq!(sink.join(), "foo");
}

#[test]
fn is_prefix_lines_false_when_self_is_empty() {
    let empty = Lines(vec![]);
    let other = Lines::to_lines("anything");
    assert!(!empty.is_prefix_lines(&other));
}

#[test]
fn is_prefix_lines_true_when_self_equals_other() {
    let a = lines_from(&["hello", "world"]);
    let b = lines_from(&["hello", "world"]);
    assert!(a.is_prefix_lines(&b));
}

#[test]
fn is_prefix_lines_true_for_partial_last_line() {
    // self last line is a string prefix of other's last line.
    let a = lines_from(&["hello", "wo"]);
    let b = lines_from(&["hello", "world"]);
    assert!(a.is_prefix_lines(&b));
}

#[test]
fn is_prefix_lines_true_when_self_has_fewer_lines() {
    let a = lines_from(&["hello"]);
    let b = lines_from(&["hello", "world"]);
    assert!(a.is_prefix_lines(&b));
}

#[test]
fn is_prefix_lines_false_when_earlier_line_differs() {
    let a = lines_from(&["heXlo", "world"]);
    let b = lines_from(&["hello", "world"]);
    assert!(!a.is_prefix_lines(&b));
}

#[test]
fn is_prefix_lines_false_when_last_line_longer_than_other() {
    // self last line is longer than the corresponding line in other.
    let a = lines_from(&["hello", "worldly"]);
    let b = lines_from(&["hello", "world"]);
    assert!(!a.is_prefix_lines(&b));
}

#[test]
fn is_prefix_lines_false_when_self_has_more_lines_than_other() {
    let a = lines_from(&["hello", "world", "extra"]);
    let b = lines_from(&["hello", "world"]);
    assert!(!a.is_prefix_lines(&b));
}

#[test]
fn is_prefix_lines_false_when_last_line_diverges() {
    let a = lines_from(&["hello", "woXld"]);
    let b = lines_from(&["hello", "world"]);
    assert!(!a.is_prefix_lines(&b));
}

#[test]
fn strip_prefix_lines_returns_none_when_self_is_empty() {
    let empty = Lines(vec![]);
    let other = Lines::to_lines("hello");
    assert!(empty.strip_prefix_lines(&other).is_none());
}

#[test]
fn from_impls_produce_equivalent_results() {
    // However it is made, a cluster of one character is the same.
    let g_char = Grapheme::from('A');
    let g_str = text("A");
    let g_string = text(&String::from("A"));
    let g_string_ref = text(&String::from("A"));
    assert_eq!(g_char, g_str);
    assert_eq!(g_str, g_string);
    assert_eq!(g_string, g_string_ref);
    assert_eq!(g_char.as_char(), Some('A'));

    // Line::from(Vec<Grapheme>) wraps the vec directly.
    let gs = vec![
        Grapheme::from('a'),
        Grapheme::from('b'),
        Grapheme::from('c'),
    ];
    let l = Line::from(gs);
    assert_eq!(l.len(), 3);
    assert_eq!(l.to_string(), "abc");

    // Lines::from(Vec<Line>) wraps the vec directly.
    let ls = Lines::from(vec![line("foo"), line("bar")]);
    assert_eq!(ls.len(), 2);
    assert_eq!(ls.join(), "foo\nbar");

        let collected: Lines = Lines::from(vec![line("x"), line("y")]);
    assert_eq!(collected.join(), "x\ny");
}

#[test]
fn strip_prefix_lines_gives_the_rest() {
    let whole = Lines::to_lines("echo foo\necho bar");
    let rest = whole.strip_prefix_lines(&Lines::to_lines("echo f")).unwrap();
    assert_eq!(rest.join(), "oo\necho bar");
}

#[test]
fn splitting_and_attaching_restores() {
    for row in 0..3 {
        for col in 0..5 {
            let mut ls = Lines::to_lines("abcd\n\nxyz");
            let mut rest = ls.split_lines_at(Pos { row, col });
            ls.attach_lines(&mut rest);
            assert_eq!(ls.join(), "abcd\n\nxyz");
        }
    }
}

#[test]
fn a_text_comes_back_from_its_lines() {
    for s in ["", "a", "a\n", "\n", "e\u{301}x\n\u{4e16}\n\nz"] {
        assert_eq!(Lines::to_lines(s).join(), s);
    }
}

#[test]
fn empty_text_is_no_cluster() {
    assert!(Grapheme::from_text("").is_none());
}
