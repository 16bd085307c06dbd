//! Ex commands: the stash, shell commands, reading and writing.

use shed_line::editcmd::{
    AddressRange, Cmd, Direction, EditCmd, ExNdRule, ExNode, LineAddr, Motion, ReadSrc, StashArgs,
    StashListArg, SubFlags, Verb, WriteDest,
};
use shed_line::linebuf::buffer::LineBuf;
use shed_line::linebuf::effect::{Effect, ShellJob};
use shed_line::linebuf::excmd::ShellReply;
use shed_line::linebuf::notices::pattern_notices;
use shed_line::linebuf::pos::{MotionKind, Pos};
use shed_line::linebuf::report::{parse_viewport_height, read_report, ViewportHeight};
use shed_line::linebuf::stash::{
    stash_dropped, stash_listed, Notice, StashAsk, StashEntry, StashReply,
};
use shed_line::register::Registers;
use shed_line::shell::{Answer, Ask, Env, Opts};

fn opts() -> Opts {
    Opts {
        tab_width: 4,
        scroll_offset: 2,
        viewport_rows: 50,
        auto_suggest: true,
        auto_indent: false,
        expand_aliases: true,
    }
}

fn shell(_: &str, _: Ask) -> Answer {
    Answer { depth: 0, failed: false, alias: None, keys: Vec::new(), closes: false, command: None }
}

fn env() -> Env<fn(&str, Ask) -> Answer> {
    Env { opts: opts(), shell }
}

fn make_buf(content: &str) -> LineBuf {
    let mut buf = LineBuf::default();
    buf.set_buffer(content, &opts());
    buf
}

/// A stash that is kept in memory.
#[derive(Default)]
struct Stash {
    stack: Vec<(String, String)>,
    named: Vec<(String, String, String)>,
}

impl Stash {
    fn do_ask(&mut self, ask: &StashAsk) -> StashReply {
        match ask {
            StashAsk::Nothing => StashReply::Stored,
            StashAsk::Push { name, buffer, row, col } => {
                let at = format!("{row}:{col}");
                match name {
                    Some(n) => {
                        self.named.retain(|e| e.0 != *n);
                        self.named.push((n.clone(), buffer.clone(), at));
                    }
                    None => self.stack.push((buffer.clone(), at)),
                }
                StashReply::Stored
            }
            StashAsk::Pop(i) => {
                if *i < self.stack.len() {
                    let (buffer, cursor_pos) = self.stack.remove(*i);
                    StashReply::Entry(Some(StashEntry { name: None, buffer, cursor_pos }))
                } else {
                    StashReply::Entry(None)
                }
            }
            StashAsk::Get(n) => StashReply::Entry(self.get(n)),
            StashAsk::List { named_only, stack_only } => {
                let mut s = String::new();
                if !stack_only {
                    for e in &self.named {
                        s.push_str(&format!("{}: {}\n", e.0, e.1));
                    }
                }
                if !named_only {
                    for e in &self.stack {
                        s.push_str(&format!("{}\n", e.0));
                    }
                }
                StashReply::Listed(s)
            }
        }
    }

    fn get(&self, n: &str) -> Option<StashEntry> {
        if let Some(e) = self.named.iter().find(|e| e.0 == n) {
            return Some(StashEntry {
                name: Some(e.0.clone()),
                buffer: e.1.clone(),
                cursor_pos: e.2.clone(),
            });
        }
        let e = self.stack.get(n.parse::<usize>().ok()?)?;
        Some(StashEntry { name: None, buffer: e.0.clone(), cursor_pos: e.1.clone() })
    }

    fn stack_len(&self) -> usize {
        self.stack.len()
    }
}

/// Does what a stash command asks for; gives the notices.
fn ex_stash(buf: &mut LineBuf, stash: &mut Stash, args: StashArgs) -> Vec<String> {
    let n = stash.stack_len();
    let (ask, notice) = buf.stash_ask(&args, n);
    if let Some(n) = notice {
        return vec![n.text()];
    }
    let reply = stash.do_ask(&ask);
    let name = match &ask {
        StashAsk::Get(n) => n.clone(),
        _ => String::new(),
    };
    let idx = match &ask {
        StashAsk::Pop(i) => *i,
        _ => 0,
    };
    let entry = match &reply {
        StashReply::Entry(Some(e)) => Some(e),
        _ => None,
    };
    let notices: Vec<Notice> = match &args {
        StashArgs::Push(_) => {
            buf.stash_pushed(&opts());
            Vec::new()
        }
        StashArgs::Pop(_) => buf.stash_popped(idx, n, &reply, &opts()),
        StashArgs::Drop(_) => vec![stash_dropped(idx, n, &reply)],
        StashArgs::Apply(_) => buf.stash_applied(&name, n, entry, &opts()),
        StashArgs::Insert(_) => buf.stash_inserted(&name, n, entry, &env()),
        StashArgs::Swap(_) => {
            let (asks, notice) = buf.stash_swap_asks(&name, n, entry);
            for a in &asks {
                stash.do_ask(a);
            }
            match entry {
                Some(e) => buf.stash_swapped(e, &opts()),
                None => notice.into_iter().collect(),
            }
        }
        StashArgs::List(arg) => match &reply {
            StashReply::Listed(s) => stash_listed(arg, s).into_iter().collect(),
            _ => Vec::new(),
        },
    };
    notices.iter().map(|n| n.text()).collect()
}

#[test]
fn stash_push_clears_buffer_and_persists_to_stack() {
    let mut stash = Stash::default();
    let mut buf = make_buf("echo hello");
    ex_stash(&mut buf, &mut stash, StashArgs::Push(None));
    assert_eq!(buf.to_string(), "", "push should clear the buffer");
    assert_eq!(stash.stack_len(), 1, "stack should have one entry");
}

#[test]
fn stash_push_named_does_not_increase_stack_count() {
    let mut stash = Stash::default();
    let mut buf = make_buf("named cmd");
    ex_stash(&mut buf, &mut stash, StashArgs::Push(Some("my_name".into())));
    assert_eq!(stash.stack_len(), 0);
    assert_eq!(stash.get("my_name").unwrap().buffer, "named cmd");
}

#[test]
fn stash_push_on_empty_buffer_is_noop() {
    let mut stash = Stash::default();
    let mut buf = LineBuf::default();
    let told = ex_stash(&mut buf, &mut stash, StashArgs::Push(None));
    assert_eq!(stash.stack_len(), 0, "empty push should not persist");
    assert_eq!(told, vec!["Buffer is empty, nothing to stash"]);
}

#[test]
fn stash_push_with_blank_name_goes_on_the_stack() {
    let mut stash = Stash::default();
    let mut buf = make_buf("x");
    ex_stash(&mut buf, &mut stash, StashArgs::Push(Some("  ".into())));
    assert_eq!(stash.stack_len(), 1);
}

#[test]
fn stash_pop_restores_buffer_and_removes_from_stack() {
    let mut stash = Stash::default();
    let mut buf = make_buf("first cmd");
    ex_stash(&mut buf, &mut stash, StashArgs::Push(None));
    assert_eq!(buf.to_string(), "");
    let told = ex_stash(&mut buf, &mut stash, StashArgs::Pop(None));
    assert_eq!(buf.to_string(), "first cmd");
    assert_eq!(stash.stack_len(), 0);
    assert_eq!(told, vec!["stash: Popped stash entry"]);
}

#[test]
fn stash_pop_empty_is_noop() {
    let mut stash = Stash::default();
    let mut buf = make_buf("starting content");
    let told = ex_stash(&mut buf, &mut stash, StashArgs::Pop(None));
    assert_eq!(buf.to_string(), "starting content");
    assert_eq!(told, vec!["stash: Stash is empty, nothing to pop"]);
}

#[test]
fn stash_pop_by_index() {
    let mut stash = Stash::default();
    let mut buf = make_buf("entry one");
    ex_stash(&mut buf, &mut stash, StashArgs::Push(None));
    buf.set_buffer("entry two", &opts());
    ex_stash(&mut buf, &mut stash, StashArgs::Push(None));
    ex_stash(&mut buf, &mut stash, StashArgs::Pop(Some("0".into())));
    assert_eq!(buf.to_string(), "entry one");
    assert_eq!(stash.stack_len(), 1, "only one left after popping idx 0");
    let told = ex_stash(&mut buf, &mut stash, StashArgs::Pop(Some("7".into())));
    assert_eq!(told, vec!["stash: No stash entry at index '7'"]);
}

#[test]
fn stash_pop_restores_cursor() {
    let mut stash = Stash::default();
    let mut buf = make_buf("one\ntwo");
    buf.set_cursor_from_flat(5, &opts());
    ex_stash(&mut buf, &mut stash, StashArgs::Push(None));
    assert_eq!(stash.stack[0].1, "1:1");
    ex_stash(&mut buf, &mut stash, StashArgs::Pop(None));
    assert_eq!((buf.row(), buf.col()), (1, 1));
    assert_eq!(buf.cursor_to_flat(), 5);
    let entry = StashEntry { name: None, buffer: "x".into(), cursor_pos: "nowhere".into() };
    let told = buf.stash_popped(0, 1, &StashReply::Entry(Some(entry)), &opts());
    assert_eq!(told.len(), 2);
    assert!(matches!(told[1], Notice::BadCursor(_)));
    assert_eq!(buf.cursor_to_flat(), 0);
}

#[test]
fn stash_pop_that_fails_is_told() {
    let mut buf = make_buf("kept");
    let told = buf.stash_popped(0, 1, &StashReply::Failed("locked".into()), &opts());
    assert_eq!(told[0].text(), "stash: Failed to pop stash entry: locked");
    assert_eq!(buf.to_string(), "kept");
}

#[test]
fn stash_drop_removes_entry_without_touching_buffer() {
    let mut stash = Stash::default();
    let mut buf = make_buf("to be stashed");
    ex_stash(&mut buf, &mut stash, StashArgs::Push(None));
    buf.set_buffer("current work", &opts());
    ex_stash(&mut buf, &mut stash, StashArgs::Drop(Some("0".into())));
    assert_eq!(buf.to_string(), "current work", "drop should not modify the buffer");
    assert_eq!(stash.stack_len(), 0);
    let told = ex_stash(&mut buf, &mut stash, StashArgs::Drop(None));
    assert_eq!(told, vec!["stash: Stash is empty, nothing to drop"]);
}

#[test]
fn stash_apply_named_replaces_buffer_but_keeps_entry() {
    let mut stash = Stash::default();
    let mut buf = make_buf("saved cmd");
    ex_stash(&mut buf, &mut stash, StashArgs::Push(Some("snap".into())));
    buf.set_buffer("now editing", &opts());
    let told = ex_stash(&mut buf, &mut stash, StashArgs::Apply(Some("snap".into())));
    assert_eq!(buf.to_string(), "saved cmd");
    assert!(stash.get("snap").is_some());
    assert_eq!(told, vec!["stash: Applied stash entry 'snap'"]);
}

#[test]
fn stash_apply_unknown_name_is_noop() {
    let mut stash = Stash::default();
    let mut buf = make_buf("current");
    let told = ex_stash(&mut buf, &mut stash, StashArgs::Apply(Some("nope_doesnt_exist".into())));
    assert_eq!(buf.to_string(), "current");
    assert_eq!(told, vec!["stash: No stash entry named 'nope_doesnt_exist'"]);
    let told = ex_stash(&mut buf, &mut stash, StashArgs::Apply(None));
    assert_eq!(told, vec!["stash: Stash is empty"]);
}

#[test]
fn stash_insert_pastes_into_existing_buffer() {
    let mut stash = Stash::default();
    let mut buf = make_buf("stash content");
    ex_stash(&mut buf, &mut stash, StashArgs::Push(Some("piece".into())));
    buf.set_buffer("hello world", &opts());
    ex_stash(&mut buf, &mut stash, StashArgs::Insert(Some("piece".into())));
    let result = buf.to_string();
    assert!(result.contains("stash content"), "got: {result:?}");
    assert!(result.contains("hello world"), "got: {result:?}");
    assert_eq!(result, "stash contenthello world");
}

#[test]
fn stash_swap_exchanges_texts() {
    let mut stash = Stash::default();
    let mut buf = make_buf("first");
    ex_stash(&mut buf, &mut stash, StashArgs::Push(Some("n".into())));
    buf.set_buffer("second", &opts());
    let told = ex_stash(&mut buf, &mut stash, StashArgs::Swap(Some("n".into())));
    assert_eq!(buf.to_string(), "first");
    assert_eq!(stash.get("n").unwrap().buffer, "second");
    assert_eq!(told, vec!["stash: Swapped with 'n'"]);
    ex_stash(&mut buf, &mut stash, StashArgs::Push(None));
    buf.set_buffer("third", &opts());
    let told = ex_stash(&mut buf, &mut stash, StashArgs::Swap(None));
    assert_eq!(buf.to_string(), "first");
    assert_eq!(stash.stack, vec![("third".to_string(), "0:0".to_string())]);
    assert_eq!(told, vec!["stash: Swapped with stack entry"]);
}

#[test]
fn stash_list_does_not_panic_on_empty_or_populated_stash() {
    let mut stash = Stash::default();
    let mut buf = make_buf("");
    let told = ex_stash(&mut buf, &mut stash, StashArgs::List(None));
    assert_eq!(told, vec!["stash: No stash entries"]);
    let told = ex_stash(&mut buf, &mut stash, StashArgs::List(Some(StashListArg::Stack)));
    assert_eq!(told, vec!["stash: Stack is empty"]);
    let told = ex_stash(&mut buf, &mut stash, StashArgs::List(Some(StashListArg::Named)));
    assert_eq!(told, vec!["stash: No named stash entries"]);
    buf.set_buffer("on the stack", &opts());
    ex_stash(&mut buf, &mut stash, StashArgs::Push(None));
    buf.set_buffer("by name", &opts());
    ex_stash(&mut buf, &mut stash, StashArgs::Push(Some("alpha".into())));
    assert!(ex_stash(&mut buf, &mut stash, StashArgs::List(None)).is_empty());
    assert!(ex_stash(&mut buf, &mut stash, StashArgs::List(Some(StashListArg::Stack))).is_empty());
    assert!(ex_stash(&mut buf, &mut stash, StashArgs::List(Some(StashListArg::Named))).is_empty());
}

/// A shell that knows assignments to its variables, `cat` and `echo`. What a
/// command that filters lines assigns stays with it.
fn sh(job: &ShellJob) -> ShellReply {
    let mut reply = ShellReply {
        buffer: job.buffer.clone(),
        cursor: job.cursor.to_string(),
        anchor: job.anchor.map(|a| a.to_string()),
        output: None,
    };
    let input = job.input.as_ref().map(|i| i.0.clone());
    for part in job.command.split(';') {
        if let Some(v) = part.strip_prefix("BUFFER=") {
            if input.is_none() {
                reply.buffer = v.to_string();
            }
        } else if let Some(v) = part.strip_prefix("CURSOR=") {
            if input.is_none() {
                reply.cursor = v.to_string();
            }
        } else if part == "cat" {
            reply.output = input.as_ref().map(|s| s.trim_end_matches('\n').to_string());
        }
    }
    reply
}

fn run(buf: &mut LineBuf, command: &str) {
    let job = buf.ex_shell_cmd(&EditCmd::new(), command, &opts());
    assert!(job.input.is_none());
    let reply = sh(&job);
    buf.ex_shell_done(&job, &reply, &opts());
}

#[test]
fn without_stdin_returns_none() {
    let mut buf = make_buf("original");
    let job = buf.ex_shell_cmd(&EditCmd::new(), "BUFFER=stays", &opts());
    assert!(job.input.is_none());
    assert_eq!(sh(&job).output, None);
}

#[test]
fn buffer_var_set_in_shell_cmd_updates_linebuf() {
    let mut buf = make_buf("original");
    run(&mut buf, "BUFFER=replaced");
    assert_eq!(buf.to_string(), "replaced");
}

#[test]
fn cursor_var_set_to_valid_pos_moves_cursor() {
    let mut buf = make_buf("abcdef");
    buf.set_cursor_from_flat(0, &opts());
    run(&mut buf, "CURSOR=3");
    assert_eq!(buf.cursor_to_flat(), 3);
}

#[test]
fn cursor_var_invalid_falls_back_to_original_position() {
    let mut buf = make_buf("abcdef");
    buf.set_cursor_from_flat(2, &opts());
    run(&mut buf, "CURSOR=garbage");
    assert_eq!(buf.cursor_to_flat(), 2);
}

#[test]
fn buffer_and_cursor_replacement_together() {
    let mut buf = make_buf("original");
    run(&mut buf, "BUFFER=replaced;CURSOR=4");
    assert_eq!(buf.to_string(), "replaced");
    assert_eq!(buf.cursor_to_flat(), 4);
}

#[test]
fn an_untouched_cursor_stays_where_it_is() {
    let mut buf = make_buf("\u{e9}\u{4e16}a\nb");
    buf.set_cursor(Pos { row: 0, col: 2 });
    run(&mut buf, "true");
    assert_eq!(buf.cursor(), Pos { row: 0, col: 2 });
    run(&mut buf, "CURSOR=2");
    assert_eq!(buf.cursor(), Pos { row: 0, col: 1 });
    run(&mut buf, "CURSOR=1:0");
    assert_eq!(buf.cursor(), Pos { row: 1, col: 0 });
    buf.set_cursor(Pos { row: 0, col: 0 });
    buf.start_char_select();
    buf.set_cursor(Pos { row: 0, col: 2 });
    let before = format!("{:?}", buf.select_range());
    run(&mut buf, "true");
    assert_eq!(format!("{:?}", buf.select_range()), before);
}

#[test]
fn a_cursor_that_names_no_place_keeps_its_number() {
    let mut buf = make_buf("\u{e9}");
    buf.set_cursor(Pos { row: 0, col: 1 });
    assert_eq!(buf.cursor_to_flat(), 1);
    run(&mut buf, "BUFFER=abc;CURSOR=nowhere");
    assert_eq!(buf.cursor(), Pos { row: 0, col: 1 });
}

#[test]
fn an_anchor_leads_to_its_place() {
    let mut buf = make_buf("\u{e9}\u{4e16}a");
    buf.start_char_select();
    buf.set_cursor(Pos { row: 0, col: 2 });
    let job = buf.ex_shell_cmd(&EditCmd::new(), "true", &opts());
    assert_eq!((job.cursor, job.anchor, job.flat), (5, Some(0), 2));
    let mut reply = sh(&job);
    reply.anchor = Some("2".to_string());
    buf.ex_shell_done(&job, &reply, &opts());
    assert_eq!(buf.anchor_to_flat(), Some(1));
    reply.anchor = Some("nowhere".to_string());
    buf.ex_shell_done(&job, &reply, &opts());
    assert_eq!(buf.anchor_to_flat(), Some(1));
}

#[test]
fn an_expanded_text_takes_the_place_of_the_old() {
    let mut buf = make_buf("one\ntwo\nthree");
    let range = MotionKind::Line { start: 0, end: 1, inclusive: true };
    assert_eq!(buf.yank_range(&range).join(), "one\ntwo");
    buf.expand_done(&range, "1\n2\n2b");
    assert_eq!(buf.to_string(), "1\n2\n2b\nthree");
    let range = MotionKind::Char {
        start: Pos { row: 3, col: 3 },
        end: Pos { row: 3, col: 1 },
        inclusive: false,
    };
    buf.expand_done(&range, "HR");
    assert_eq!(buf.to_string(), "1\n2\n2b\ntHRee");
    buf.expand_done(&MotionKind::Line { start: 9, end: 9, inclusive: true }, "x");
    assert_eq!(buf.to_string(), "1\n2\n2b\ntHRee");
}

#[test]
fn a_command_that_ended_late_is_undone_and_redone() {
    let mut buf = make_buf("one\ntwo");
    let mut regs = Registers::new();
    let c = ex(ExNdRule::Shell("BUFFER=three".into()));
    let Effect::Finish { first, cmd, before } = buf.exec_cmd(&c, &env(), &mut regs) else { panic!() };
    let Effect::Shell(job) = *first else { panic!() };
    buf.ex_shell_done(&job, &sh(&job), &opts());
    buf.end_cmd(&cmd, before, &opts());
    assert_eq!(buf.to_string(), "three");
    let mut undo = EditCmd::new();
    undo.set_verb(Cmd(1, Verb::Undo));
    buf.exec_cmd(&undo, &env(), &mut regs);
    assert_eq!(buf.to_string(), "one\ntwo");
    let mut redo = EditCmd::new();
    redo.set_verb(Cmd(1, Verb::Redo));
    buf.exec_cmd(&redo, &env(), &mut regs);
    assert_eq!(buf.to_string(), "three");
}

#[test]
fn patterns_that_are_none_are_told_of() {
    let mut buf = make_buf("one (\ntwo");
    let mut regs = Registers::new();
    let flags = SubFlags { global: true };
    let subst = |pat: &str| ExNdRule::Substitute { pat: pat.into(), repl: "x".into(), flags };
    buf.exec_cmd(&ex(subst("(")), &env(), &mut regs);
    assert_eq!(buf.to_string(), "one (\ntwo");
    let told = buf.take_notices();
    assert_eq!(told.len(), 1);
    assert!(told[0].contains("unclosed group"), "{}", told[0]);
    assert!(buf.take_notices().is_empty());
    buf.exec_cmd(&ex(subst("o")), &env(), &mut regs);
    assert_eq!(buf.to_string(), "xne (\ntwo");
    assert!(buf.take_notices().is_empty());

    let mut c = EditCmd::new();
    c.set_motion(Cmd(1, Motion::Search("[".into(), Direction::Forward)));
    buf.exec_cmd(&c, &env(), &mut regs);
    assert_eq!(buf.take_notices(), pattern_notices("["));
    c.set_motion(Cmd(1, Motion::Line(LineAddr::Pattern("*".into()))));
    buf.exec_cmd(&c, &env(), &mut regs);
    assert_eq!(buf.take_notices(), pattern_notices("*"));

    let within = AddressRange::Range(LineAddr::Number(1), LineAddr::Last);
    let nested = Box::new(ExNode { address: None, bang: false, kind: ExNdRule::Delete });
    let node = ExNode { address: Some(within), bang: false, kind: ExNdRule::Global { pat: "(".into(), nested } };
    assert_eq!(buf.node_notices(&node), pattern_notices("("));
    let mut c = EditCmd::new();
    c.set_verb(Cmd(1, Verb::ExCmd(node)));
    buf.exec_cmd(&c, &env(), &mut regs);
    assert_eq!(buf.to_string(), "xne (\ntwo");
    assert_eq!(buf.take_notices(), pattern_notices("("));
    assert!(pattern_notices("a+").is_empty());
}

#[test]
fn no_motion_runs_command_without_replacing_lines() {
    let mut buf = make_buf("first\nsecond\nthird");
    run(&mut buf, "BUFFER=after_no_motion");
    assert_eq!(buf.to_string(), "after_no_motion");
}

#[test]
fn line_motion_replaces_with_cat_output() {
    let mut buf = make_buf("alpha\nbeta\ngamma");
    let mut cmd = EditCmd::new();
    cmd.set_motion(Cmd(1, Motion::Line(LineAddr::Number(2))));
    let job = buf.ex_shell_cmd(&cmd, "cat", &opts());
    assert_eq!(job.input, Some(("beta\n".to_string(), 1)));
    assert_eq!(job.buffer, "alpha\ngamma");
    let reply = sh(&job);
    buf.ex_shell_done(&job, &reply, &opts());
    assert_eq!(buf.to_string(), "alpha\nbeta\ngamma");
}

#[test]
fn read_file_inserts_contents_into_buffer() {
    let mut buf = make_buf("");
    buf.ex_read_done("line one\nline two\n");
    let joined = buf.to_string();
    assert!(joined.contains("line one"), "got: {joined:?}");
    assert!(joined.contains("line two"), "got: {joined:?}");
}

fn ex(kind: ExNdRule) -> EditCmd {
    let mut c = EditCmd::new();
    c.set_verb(Cmd(1, Verb::ExCmd(ExNode { address: None, bang: false, kind })));
    c
}

#[test]
fn writing_and_reading_are_left_to_the_caller() {
    let mut buf = make_buf("a\nb\n");
    let mut regs = Registers::new();
    let e = buf.exec_cmd(&ex(ExNdRule::Write(WriteDest::File("f".into()))), &env(), &mut regs);
    match e {
        Effect::Finish { first, .. } => {
            assert!(matches!(*first, Effect::Write(WriteDest::File(ref p)) if p == "f"))
        }
        other => panic!("{other:?}"),
    }
    let e = buf.exec_cmd(&ex(ExNdRule::Read(ReadSrc::File("g".into()))), &env(), &mut regs);
    match e {
        Effect::Finish { first, .. } => assert!(matches!(*first, Effect::Read(_))),
        other => panic!("{other:?}"),
    }
    assert_eq!(buf.write_report("4 B", "f"), "Wrote 2 lines [4 B] to 'f'");
    assert_eq!(read_report("a\nb\n", "4 B", "g"), "Read 2 lines [4 B] from 'g'");
    assert_eq!(read_report("", "0 B", "g"), "Read 0 lines [0 B] from 'g'");
}

#[test]
fn line_feeds_are_counted_in_long_texts() {
    let mut s = String::new();
    for i in 0..100 {
        s.push_str(&"\u{4e16}x".repeat(i % 7));
        s.push('\n');
    }
    assert_eq!(make_buf(&s).write_report("n", "p"), "Wrote 100 lines [n] to 'p'");
}

#[test]
fn viewport_heights() {
    assert_eq!(parse_viewport_height("20"), ViewportHeight::Rows(20));
    assert_eq!(parse_viewport_height("30%"), ViewportHeight::Percent(30));
    assert_eq!(parse_viewport_height("high"), ViewportHeight::Percent(50));
    assert_eq!(parse_viewport_height("%"), ViewportHeight::Percent(50));
}
