//! The buffer: places, selections, edits and what is shown.

use shed_line::editcmd::{Anchor, Cmd, Direction, EditCmd, Motion, Verb};
use shed_line::error::ShErrKind;
use shed_line::linebuf::buffer::LineBuf;
use shed_line::linebuf::char_class::CharClass;
use shed_line::linebuf::effect::Effect;
use shed_line::linebuf::grapheme::Grapheme;
use shed_line::linebuf::hint::Hint;
use shed_line::linebuf::killring::KillRing;
use shed_line::linebuf::lines::Lines;
use shed_line::linebuf::marks::Markers;
use shed_line::linebuf::number::format_adjusted;
use shed_line::linebuf::pos::{MotionKind, Pos};
use shed_line::linebuf::recase::{rot13, rot13_char, toggle_case_char, Recase};
use shed_line::register::Registers;
use shed_line::shell::{Answer, Ask, Env, Opts};

fn opts() -> Opts {
    Opts {
        tab_width: 4,
        scroll_offset: 1,
        viewport_rows: 3,
        auto_suggest: true,
        auto_indent: false,
        expand_aliases: true,
    }
}

fn shell(_: &str, _: Ask) -> Answer {
    Answer { depth: 0, failed: false, alias: None, keys: Vec::new(), closes: false, command: None }
}

fn env() -> Env<fn(&str, Ask) -> Answer> {
    Env { opts: opts(), shell }
}

fn buf(s: &str) -> LineBuf {
    let mut b = LineBuf::new();
    b.set_buffer(s, &opts());
    b
}

fn at(row: usize, col: usize) -> Pos {
    Pos { row, col }
}

fn run(b: &mut LineBuf, verb: Option<Verb>, motion: Option<Motion>) {
    let mut c = EditCmd::new();
    if let Some(v) = verb {
        c.set_verb(Cmd(1, v));
    }
    if let Some(m) = motion {
        c.set_motion(Cmd(1, m));
    }
    let e = b.exec_cmd(&c, &env(), &mut Registers::new());
    assert!(matches!(e, Effect::Done | Effect::Report(_)));
}

#[test]
fn flat_places_lead_back() {
    let b = buf("ab\n\ne\u{301}\u{4e16}");
    for row in 0..3 {
        for col in 0..=b.line(row).len() {
            assert_eq!(b.pos_from_flat(b.pos_to_flat(at(row, col))), at(row, col));
        }
    }
    assert_eq!(b.pos_to_flat(at(2, 1)), 5);
    assert_eq!(b.pos_from_flat(99), at(2, 2));
}

#[test]
fn byte_places_lead_back() {
    let b = buf("ab\n\ne\u{301}\u{4e16}");
    for row in 0..3 {
        for col in 0..=b.line(row).len() {
            let byte = b.pos_to_byte(at(row, col)).unwrap();
            assert_eq!(b.byte_to_pos(byte), Some(at(row, col)));
        }
    }
    assert_eq!(b.pos_to_byte(at(2, 1)), Some(7));
    assert_eq!(b.byte_to_pos(99), None);
}

#[test]
fn columns_count_tabs_and_wide_clusters() {
    let b = buf("\ta\u{4e16}b");
    assert_eq!(b.calc_display_col_for(at(0, 1), &opts()), 4);
    assert_eq!(b.calc_display_col_for(at(0, 3), &opts()), 7);
    assert_eq!(b.display_col_to_index(0, 5, &opts()), 2);
}

#[test]
fn places_are_read_from_text() {
    let b = buf("ab\ncd");
    assert_eq!(b.parse_pos("1:1").unwrap(), at(1, 1));
    assert_eq!(b.parse_pos("4").unwrap(), at(1, 1));
    let err = b.parse_pos("x:y").unwrap_err();
    assert_eq!(err.kind, ShErrKind::ParseErr);
    assert_eq!(
        err.msg,
        "Invalid position format: 'x:y'. Expected 'row:col' or grapheme index."
    );
}

#[test]
fn a_number_names_a_byte_of_the_text() {
    let b = buf("\u{e9}a");
    assert_eq!(b.parse_pos("2").unwrap(), at(0, 1));
    assert_eq!(b.parse_pos("0").unwrap(), at(0, 0));
    assert_eq!(b.parse_pos("1").unwrap(), at(0, 1));
    assert_eq!(b.parse_pos("3").unwrap(), at(0, 2));
    assert_eq!(b.parse_pos("99").unwrap(), at(0, 2));
    let b = buf("ab\n\ne\u{301}\u{4e16}");
    for row in 0..3 {
        for col in 0..=b.line(row).len() {
            let byte = b.byte_of_pos(at(row, col));
            assert_eq!(b.parse_pos(&byte.to_string()).unwrap(), at(row, col));
        }
    }
    assert_eq!(b.byte_of_pos(at(2, 1)), 7);
    assert_eq!(b.byte_of_pos(at(9, 9)), 10);
}

#[test]
fn commands_are_undone_and_redone() {
    let verbs = [
        (Some(Verb::Delete), Some(Motion::WholeLine)),
        (Some(Verb::ToUpper), Some(Motion::EndOfLine)),
        (Some(Verb::JoinLines), Some(Motion::WholeLine)),
        (Some(Verb::Insert("x\ny".to_string())), None),
        (Some(Verb::EndOfFile), None),
    ];
    for (verb, motion) in verbs {
        let mut b = buf("one two\nthree");
        b.set_cursor(at(0, 4));
        run(&mut b, verb, motion);
        let changed = b.joined();
        assert_ne!(changed, "one two\nthree");
        run(&mut b, Some(Verb::Undo), None);
        assert_eq!((b.joined().as_str(), b.cursor()), ("one two\nthree", at(0, 4)));
        run(&mut b, Some(Verb::Redo), None);
        assert_eq!(b.joined(), changed);
    }
}

#[test]
fn what_was_extracted_goes_back() {
    let mut b = buf("one two\nthree\nfour");
    let m = MotionKind::Char { start: at(0, 4), end: at(2, 1), inclusive: false };
    let out = b.extract_range(&m);
    assert_eq!(out.join(), "two\nthree\nf");
    assert_eq!(b.joined(), "one our");
    b.insert_lines_at(at(0, 4), out);
    assert_eq!(b.joined(), "one two\nthree\nfour");
}

#[test]
fn entries_put_together_come_apart() {
    let mut b = buf("b");
    b.concat_left(" && ", "a");
    assert_eq!(b.joined(), "a && b");
    assert!(b.pop_left(&opts()));
    assert_eq!(b.joined(), "b");
    b.concat_right("; ", "c");
    assert_eq!(b.joined(), "b; c");
    assert!(b.pop_right(&opts()));
    assert_eq!(b.joined(), "b");
    assert!(!b.pop_right(&opts()));
}

#[test]
fn undo_takes_back_and_redo_does_again() {
    let mut b = buf("one two");
    run(&mut b, Some(Verb::Delete), Some(Motion::EndOfLine));
    assert_eq!(b.joined(), "");
    run(&mut b, Some(Verb::Undo), None);
    assert_eq!(b.joined(), "one two");
    assert_eq!(b.cursor(), at(0, 0));
    run(&mut b, Some(Verb::Redo), None);
    assert_eq!(b.joined(), "");
    run(&mut b, Some(Verb::Undo), None);
    run(&mut b, Some(Verb::Insert("x".to_string())), None);
    run(&mut b, Some(Verb::Redo), None);
    assert_eq!(b.joined(), "xone two");
}

#[test]
fn typed_characters_are_one_edit() {
    let mut b = buf("");
    for c in "abc".chars() {
        run(&mut b, Some(Verb::InsertChar(c)), Some(Motion::ForwardChar));
    }
    assert_eq!(b.joined(), "abc");
    run(&mut b, Some(Verb::Undo), None);
    assert_eq!(b.joined(), "");
}

#[test]
fn moving_and_yanking_keep_the_text() {
    let mut b = buf("one two\nthree");
    for m in [Motion::EndOfLine, Motion::LineDown, Motion::StartOfBuffer] {
        run(&mut b, None, Some(m));
        assert_eq!(b.joined(), "one two\nthree");
    }
    run(&mut b, Some(Verb::Yank), Some(Motion::EndOfBuffer));
    assert_eq!(b.joined(), "one two\nthree");
}

#[test]
fn the_ends_of_a_selection_swap() {
    let mut b = buf("hello");
    b.start_char_select();
    b.set_cursor(at(0, 3));
    run(&mut b, Some(Verb::SwapVisualAnchor), None);
    assert_eq!(b.cursor(), at(0, 0));
    assert!(matches!(b.select_range(), Some(Motion::CharRange(s, e)) if s == at(0, 0) && e == at(0, 3)));
    run(&mut b, Some(Verb::SwapVisualAnchor), None);
    assert_eq!(b.cursor(), at(0, 3));
}

#[test]
fn indenting_and_dedenting() {
    let mut b = buf("a\nb");
    run(&mut b, Some(Verb::Indent), Some(Motion::WholeLine));
    assert_eq!(b.joined(), "\ta\nb");
    run(&mut b, Some(Verb::Dedent), Some(Motion::WholeLine));
    assert_eq!(b.joined(), "a\nb");
}

#[test]
fn kills_go_round() {
    let mut ring = KillRing::new();
    for s in ["a", "b"] {
        ring.push_back(Lines::to_lines(s));
    }
    ring.push_back(Lines::to_lines(""));
    assert_eq!(ring.len(), 2);
    assert_eq!(ring.next().unwrap().join(), "b");
    assert_eq!(ring.next().unwrap().join(), "a");
    assert_eq!(ring.next().unwrap().join(), "b");
    for i in 0..200 {
        ring.push_back(Lines::to_lines(&format!("k{i}")));
    }
    assert!(ring.len() < 200);
    assert_eq!(ring.pop_back().unwrap().join(), "k199");
}

#[test]
fn a_kill_is_put_back() {
    let mut b = buf("one two");
    run(&mut b, Some(Verb::Kill), Some(Motion::EndOfLine));
    assert_eq!(b.joined(), "");
    run(&mut b, Some(Verb::KillPut), None);
    assert_eq!(b.joined(), "one two");
}

#[test]
fn numbers_are_moved() {
    let moved = |s: &str, n: i64| format_adjusted(s, n);
    assert_eq!(moved("41", 1).as_deref(), Some("42"));
    assert_eq!(moved("007", 3).as_deref(), Some("010"));
    assert_eq!(moved("0", -1).as_deref(), Some("-1"));
    assert_eq!(moved("-1", 1).as_deref(), Some("0"));
    assert_eq!(moved("0x0f", 1).as_deref(), Some("0x10"));
    assert_eq!(moved("0b011", 1).as_deref(), Some("0b100"));
    assert_eq!(moved("0o17", 1).as_deref(), Some("0o20"));
    assert_eq!(moved("x", 1), None);
    assert_eq!(moved("9223372036854775807", 1), None);
}

#[test]
fn letters_are_turned() {
    assert_eq!(rot13("Hello, World"), "Uryyb, Jbeyq");
    assert_eq!(rot13(&rot13("Hello")), "Hello");
    assert_eq!(rot13_char('n'), 'a');
    assert_eq!(toggle_case_char('a'), 'A');
    assert_eq!(toggle_case_char(toggle_case_char('Q')), 'Q');
    assert_eq!(toggle_case_char('1'), '1');
}

#[test]
fn classes_tell_words_apart() {
    let class = |c: char| CharClass::of(&Grapheme::from(c));
    assert!(class(' ').is_ws());
    assert!(class('\u{a0}').is_ws());
    assert!(!class('a').is_other_class(&class('_')));
    assert!(!class('\u{e9}').is_other_class(&class('a')));
    assert!(class('a').is_other_class(&class('.')));
    assert!(!class('a').is_other_class_not_ws(&class(' ')));
    assert!(class('a').is_other_class_or_ws(&class(' ')));
}

#[test]
fn matches_and_selection_are_marked() {
    let m = Markers { match_start: '<', match_end: '>', visual_start: '[', visual_end: ']' };
    let mut b = buf("foo bar\nfoo");
    b.update_pending_search(Some("o+".to_string()));
    assert_eq!(b.search_match_spans(), vec![(1, 3), (9, 11)]);
    assert_eq!(b.marked_string(&m), "f<oo> bar\nf<oo>");
    b.update_pending_search(Some("[".to_string()));
    assert_eq!(b.search_match_spans(), vec![]);
    b.clear_pending_search();
    b.start_char_select();
    b.set_cursor(at(0, 2));
    assert_eq!(b.marked_string(&m), "[foo] bar\nfoo");
}

#[test]
fn the_window_follows_the_cursor() {
    let mut b = buf("1\n2\n3\n4\n5\n6");
    assert_eq!(b.window_joined(&opts()), "1\n2\n3");
    b.set_cursor(at(4, 0));
    b.fix_cursor(&opts());
    assert_eq!(b.window_joined(&opts()), "4\n5\n6");
    assert_eq!(b.scroll_offset(), 3);
    assert_eq!(b.get_viewport_height(&opts()), 3);
}

#[test]
fn hints_are_shown_behind_the_text() {
    let mut b = buf("ec");
    b.set_hint(Some(Hint::new_history("echo hi")), &opts());
    assert_eq!(b.get_hint_text(), "\u{1b}[90mho hi\u{1b}[0m");
    assert_eq!(b.display_window_joined("ec", &opts()), "ec\u{1b}[90mho hi\u{1b}[0m");
    b.set_hint(Some(Hint::new_override("echo all")), &opts());
    b.set_hint(Some(Hint::new_history("echo hi")), &opts());
    assert_eq!(b.join_hint(), "echo all");
    b.accept_hint(&env());
    assert_eq!(b.joined(), "echo all");
    assert!(!b.has_hint());
    let mut h = Hint::new_history("x");
    h.set_lines(Lines::to_lines("y"));
    assert_eq!(h.raw(), "y");
}

#[test]
fn replacing_and_searching_by_pattern() {
    let mut b = buf("aaa bbb\nabab");
    run(&mut b, None, Some(Motion::Search("b+".to_string(), Direction::Forward)));
    assert_eq!(b.cursor(), at(0, 4));
    run(&mut b, None, Some(Motion::RepeatSearch));
    assert_eq!(b.cursor(), at(0, 5));
    run(&mut b, None, Some(Motion::RepeatSearchRev));
    assert_eq!(b.cursor(), at(0, 4));
    run(&mut b, None, Some(Motion::Search("ab".to_string(), Direction::Forward)));
    assert_eq!(b.cursor(), at(1, 0));
    run(&mut b, None, Some(Motion::Search("zz".to_string(), Direction::Forward)));
    assert_eq!(b.cursor(), at(1, 0));
}

#[test]
fn text_is_trimmed() {
    let mut b = buf("\n  a  \n\tb \n\n");
    b.trim();
    assert_eq!(b.joined(), "a\n\tb");
    assert_eq!(b.take_buf(), "a\n\tb");
    assert!(b.is_empty());
}

#[test]
fn putting_goes_to_either_side() {
    let mut regs = Registers::new();
    let mut b = buf("ab");
    let mut y = EditCmd::new();
    y.set_verb(Cmd(1, Verb::Yank));
    y.set_motion(Cmd(1, Motion::ForwardChar));
    b.exec_cmd(&y, &env(), &mut regs);
    let mut p = EditCmd::new();
    p.set_verb(Cmd(1, Verb::Put(Anchor::After)));
    b.exec_cmd(&p, &env(), &mut regs);
    assert_eq!(b.joined(), "aab");
}

#[test]
fn recasing_a_range_twice_restores_it() {
    let text = "Hello\nWorld 1\nfoo";
    for k in [Recase::Toggle, Recase::Rot13] {
        let mut b = buf(text);
        let m = MotionKind::Char { start: at(0, 2), end: at(2, 0), inclusive: true };
        b.motion_mutation(&m, k);
        assert!(b.joined().starts_with("He") && b.joined().ends_with("oo"));
        assert_ne!(b.joined(), text);
        b.motion_mutation(&m, k);
        assert_eq!(b.joined(), text);
    }
}

#[test]
fn deleted_text_is_put_back() {
    let mut regs = Registers::new();
    let mut b = buf("one\ntwo\nthree");
    let mut d = EditCmd::new();
    d.set_verb(Cmd(1, Verb::Delete));
    let mut p = EditCmd::new();
    p.set_verb(Cmd(1, Verb::Put(Anchor::Before)));
    for m in [Motion::WholeLine, Motion::ForwardChar] {
        d.set_motion(Cmd(1, m));
        b.set_cursor(at(1, 0));
        b.exec_cmd(&d, &env(), &mut regs);
        assert_ne!(b.joined(), "one\ntwo\nthree");
        b.exec_cmd(&p, &env(), &mut regs);
        assert_eq!(b.joined(), "one\ntwo\nthree");
    }
}
