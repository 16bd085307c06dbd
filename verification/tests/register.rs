//! Registers.

use shed_line::keys::{KeyCode, KeyEvent, ModKeys};
use shed_line::linebuf::line::Line;
use shed_line::register::{
    restore_registers, save_registers, Register, RegisterContent, RegisterName, Registers,
};
use shed_line::shell::{Answer, Ask};

fn line(s: &str) -> Line {
    let mut l = Line::default();
    l.push_str(s);
    l
}

fn key(c: char) -> KeyEvent {
    KeyEvent { code: KeyCode::Char(c), mods: ModKeys::empty(), seq: Some(c.to_string()) }
}

fn shell(text: &str, ask: Ask) -> Answer {
    Answer {
        depth: 0,
        failed: false,
        alias: None,
        keys: if ask == Ask::Keys { text.chars().map(key).collect() } else { Vec::new() },
        closes: false,
        command: None,
    }
}

fn reg_with(content: RegisterContent) -> Register {
    let mut r = Register::default();
    r.write(content);
    r
}

#[test]
fn appending_empty_into_existing_is_noop() {
    let mut r = reg_with(RegisterContent::Span(vec![line("hello")]));
    r.append(RegisterContent::Empty, &shell);
    match r.content() {
        RegisterContent::Span(lines) => {
            assert_eq!(lines.len(), 1);
            assert_eq!(lines[0].to_string(), "hello");
        }
        other => panic!("expected Span, got {other:?}"),
    }
}

#[test]
fn appending_into_empty_overwrites() {
    let mut r = Register::default();
    r.append(RegisterContent::Span(vec![line("first")]), &shell);
    match r.content() {
        RegisterContent::Span(lines) => assert_eq!(lines[0].to_string(), "first"),
        other => panic!("expected Span, got {other:?}"),
    }
}

#[test]
fn span_into_span_extends() {
    let mut r = reg_with(RegisterContent::Span(vec![line("a"), line("b")]));
    r.append(RegisterContent::Span(vec![line("c")]), &shell);
    match r.content() {
        RegisterContent::Span(lines) => {
            assert_eq!(lines.len(), 3);
            assert_eq!(lines[2].to_string(), "c");
        }
        other => panic!("expected Span, got {other:?}"),
    }
}

#[test]
fn line_into_block_extends_in_place() {
    let mut r = reg_with(RegisterContent::Block(vec![line("x")]));
    r.append(RegisterContent::Line(vec![line("y")]), &shell);
    match r.content() {
        RegisterContent::Block(lines) => assert_eq!(lines.len(), 2),
        other => panic!("expected Block, got {other:?}"),
    }
}

#[test]
fn macro_into_macro_extends() {
    let mut r = reg_with(RegisterContent::Macro(vec![key('a')]));
    r.append(RegisterContent::Macro(vec![key('b')]), &shell);
    match r.content() {
        RegisterContent::Macro(keys) => assert_eq!(keys.len(), 2),
        other => panic!("expected Macro, got {other:?}"),
    }
}

#[test]
fn text_into_macro_parses_as_keys() {
    let mut r = reg_with(RegisterContent::Macro(Vec::new()));
    r.append(RegisterContent::Span(vec![line("ab")]), &shell);
    match r.content() {
        RegisterContent::Macro(keys) => assert_eq!(keys.len(), 2),
        other => panic!("expected Macro, got {other:?}"),
    }
}

#[test]
fn macro_into_text_renders_to_line() {
    let mut r = reg_with(RegisterContent::Span(vec![line("existing")]));
    r.append(RegisterContent::Macro(vec![key('a'), key('b')]), &shell);
    match r.content() {
        RegisterContent::Span(lines) => {
            assert_eq!(lines.len(), 2);
            assert_eq!(lines[1].to_string(), "ab");
        }
        other => panic!("expected Span, got {other:?}"),
    }
}

#[test]
fn what_is_written_is_read_back() {
    let mut regs = Registers::new();
    let a = RegisterName::new(Some('a'));
    a.write_to_register(&mut regs, RegisterContent::Span(vec![line("x")]), &shell);
    assert_eq!(a.read_from_register(&regs).unwrap().to_string(), "x");
    let b = RegisterName::new(Some('b'));
    assert!(matches!(b.read_from_register(&regs), Some(RegisterContent::Empty)));
    assert!(RegisterName::new(Some('!')).read_from_register(&regs).is_none());
}

#[test]
fn capital_names_append() {
    let mut regs = Registers::new();
    let a = RegisterName::new(Some('a'));
    let big = RegisterName::new(Some('A'));
    assert_eq!(big.name(), Some('a'));
    assert_eq!(big.display(), Some('A'));
    a.write_to_register(&mut regs, RegisterContent::Line(vec![line("x")]), &shell);
    big.write_to_register(&mut regs, RegisterContent::Line(vec![line("y")]), &shell);
    assert_eq!(a.read_from_register(&regs).unwrap().to_string(), "x\ny");
}

#[test]
fn saved_registers_come_back_once() {
    let mut regs = Registers::new();
    let a = RegisterName::new(Some('a'));
    let mut saved = None;
    a.write_to_register(&mut regs, RegisterContent::Span(vec![line("kept")]), &shell);
    save_registers(&regs, &mut saved);
    a.write_to_register(&mut regs, RegisterContent::Span(vec![line("gone")]), &shell);
    restore_registers(&mut regs, &mut saved);
    assert_eq!(a.read_from_register(&regs).unwrap().to_string(), "kept");
}

#[test]
fn a_register_is_changed_in_place() {
    let mut regs = Registers::new();
    regs.get_reg_mut(Some('c')).unwrap().write(RegisterContent::Span(vec![line("z")]));
    assert_eq!(regs.get_reg(Some('c')).unwrap().content().to_string(), "z");
    assert!(regs.get_reg_mut(Some('?')).is_none());
}

#[test]
fn a_name_is_shown_as_given() {
    for name in [None, Some('a'), Some('Q'), Some('"'), Some('7'), Some('\u{e9}'), Some('\u{c9}')] {
        assert_eq!(RegisterName::new(name).display(), name);
    }
}
