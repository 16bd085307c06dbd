//! The prompt around the buffer.

use shed_line::editcmd::{Cmd, CmdFlags, Direction, EditCmd, Motion, Verb};
use shed_line::keys::{KeyCode, KeyEvent, ModKeys};
use shed_line::layout::{
    calc_str_width, clear_rows, draw_line, enumerate_lines, expand_tabs, move_cursor_to_end,
    truncate_with_ellipsis, Layout,
};
use shed_line::linebuf::effect::Effect;
use shed_line::linebuf::hint::Hint;
use shed_line::linebuf::history::HistUse;
use shed_line::linebuf::lines::Lines;
use shed_line::linebuf::pos::Pos;
use shed_line::readline::acts::{Act, ShownMode};
use shed_line::readline::complete::{Choice, CompOutcome, CompResponse, TabStart};
use shed_line::readline::draw::{
    below_text, one_line, preceding_width, right_text, status_content, sub_prompt, RightText, RowShift,
};
use shed_line::readline::exec::{RepeatPlan, RepeatStep};
use shed_line::readline::keys::{room_for_statline, KeyStep, LineCmd, Route, RunPlan, ScreenStep, SubmitStep, Widget};
use shed_line::readline::mode::{fix_editing_mode, CmdReplay, Mode, ModeReport, NewMode};
use shed_line::readline::record::MacroRecord;
use shed_line::readline::scroll::{HistStart, Joining, ScrollAsk, SelectorResponse};
use shed_line::readline::session::ShedLine;
use shed_line::readline::simple::SimpleEditor;
use shed_line::register::{RegisterName, Registers};
use shed_line::shell::{Answer, Ask, Env, Opts};
use shed_line::statusline::Prompt;

fn opts() -> Opts {
    Opts {
        tab_width: 4,
        scroll_offset: 2,
        viewport_rows: 50,
        auto_suggest: true,
        auto_indent: true,
        expand_aliases: true,
    }
}

fn key(code: KeyCode) -> KeyEvent {
    KeyEvent { code, mods: ModKeys::empty(), seq: None }
}

fn ctrl(c: char) -> KeyEvent {
    let mods = ModKeys { ctrl: true, alt: false, shift: false };
    KeyEvent { code: KeyCode::Char(c), mods, seq: None }
}

fn shell(text: &str, ask: Ask) -> Answer {
    Answer {
        depth: if matches!(ask, Ask::Depth { .. }) { text.matches('{').count() } else { 0 },
        failed: false,
        alias: None,
        keys: Vec::new(),
        closes: false,
        command: None,
    }
}

fn env() -> Env<fn(&str, Ask) -> Answer> {
    Env { opts: opts(), shell }
}

fn mode(report: ModeReport) -> Mode {
    Mode { report, pending_seq: Some(String::new()), input: false, clamp: false }
}

fn fresh_line(initial: &str) -> ShedLine {
    let prompt = Prompt { ps1_expanded: "$ ".to_string(), psr_expanded: None, dirty: false, from_var: false };
    let mut line = ShedLine::new(prompt, None, mode(ModeReport::Emacs));
    line.editor.set_buffer(initial, &opts());
    line.editor.move_cursor_to_end();
    line
}

/// What a completer gives for a candidate where nothing is typed.
fn choice(s: &str) -> Choice {
    Choice { content: s.to_string(), len: s.len(), line: s.to_string(), span_start: 0 }
}

fn completing(initial: &str) -> ShedLine {
    let mut line = fresh_line(initial);
    line.completing = true;
    line
}

#[test]
fn enter_accepts_selected_candidate_and_clears_completer() {
    let mut line = completing("");
    let (ret, acts) = line.handle_completion_key(&CompResponse::Accept(choice("hello")), true, &opts());
    assert!(ret, "handle_completion_key should return true on Accept");
    assert!(!line.completing, "completer should be cleared");
    assert_eq!(line.editor.joined(), "hello");
    assert_eq!(line.editor.cursor_to_flat(), "hello".len());
    assert_eq!(acts.len(), 4);
    assert!(matches!(acts[3], Act::OnCompletionSelect(ref s) if s == "hello"));
}

#[test]
fn enter_with_multiple_candidates_accepts_cursor_position() {
    let mut line = completing("");
    line.handle_completion_key(&CompResponse::Accept(choice("gamma")), false, &opts());
    assert_eq!(line.editor.joined(), "gamma");
    assert!(!line.completing);
}

#[test]
fn esc_dismisses_and_clears_completer() {
    let mut line = completing("partial");
    let (ret, _) = line.handle_completion_key(&CompResponse::Dismiss, true, &opts());
    assert!(ret);
    assert!(!line.completing);
    assert_eq!(line.editor.joined(), "partial");
}

#[test]
fn ctrl_d_dismisses_and_clears_completer() {
    let mut line = completing("partial");
    let (ret, acts) = line.handle_completion_key(&CompResponse::Dismiss, true, &opts());
    assert!(ret);
    assert!(!line.completing);
    assert_eq!(line.editor.joined(), "partial");
    assert!(matches!(acts[0], Act::OnCompletionCancel));
}

#[test]
fn tab_consumed_keeps_completer_and_marks_redraw() {
    let mut line = completing("");
    line.needs_redraw = false;
    let (ret, acts) = line.handle_completion_key(&CompResponse::Consumed, true, &opts());
    assert!(ret);
    assert!(line.completing, "completer should remain active");
    assert!(line.needs_redraw, "Consumed should request redraw");
    assert!(acts.is_empty());
}

#[test]
fn down_consumed_keeps_completer() {
    let mut line = completing("");
    line.handle_completion_key(&CompResponse::Consumed, true, &opts());
    assert!(line.completing);
}

#[test]
fn up_consumed_keeps_completer() {
    let mut line = completing("");
    line.handle_completion_key(&CompResponse::Consumed, true, &opts());
    assert!(line.completing);
}

#[test]
fn tab_then_enter_accepts_advanced_candidate() {
    let mut line = completing("");
    line.handle_completion_key(&CompResponse::Preview(choice("beta")), true, &opts());
    assert!(line.completing);
    line.handle_completion_key(&CompResponse::Accept(choice("beta")), true, &opts());
    assert_eq!(line.editor.joined(), "beta");
}

#[test]
fn enter_on_empty_filtered_dismisses() {
    let mut line = completing("");
    let (ret, _) = line.handle_completion_key(&CompResponse::Dismiss, true, &opts());
    assert!(ret);
    assert!(!line.completing);
}

#[test]
fn a_key_that_is_passed_on_is_not_used_up() {
    let mut line = completing("x");
    let (ret, acts) = line.handle_completion_key(&CompResponse::Passthrough, true, &opts());
    assert!(!ret && acts.is_empty() && line.completing);
    let (ret, _) = line.handle_completion_key(&CompResponse::DismissPassthrough, true, &opts());
    assert!(!ret && !line.completing);
}

fn many(active: bool) -> CompOutcome {
    CompOutcome::Many {
        active,
        matches: vec!["echo".to_string(), "ed".to_string()],
        token: "e".to_string(),
    }
}

#[test]
fn tab_asks_for_the_word_before_the_cursor() {
    let mut line = fresh_line("ec");
    match line.begin_tab(&key(KeyCode::Tab), &[], &env()) {
        TabStart::Complete(a) => {
            assert_eq!((a.line.as_str(), a.cursor, a.direction, a.ex, a.fresh), ("ec", 2, 1, false, true));
        }
        other => panic!("{other:?}"),
    }
    let shift = KeyEvent { code: KeyCode::Tab, mods: ModKeys { ctrl: false, alt: false, shift: true }, seq: None };
    assert!(matches!(line.begin_tab(&shift, &[], &env()), TabStart::Complete(a) if a.direction == -1));
    assert!(matches!(line.begin_tab(&key(KeyCode::Enter), &[], &env()), TabStart::NotTab));
    line.handle_tab(&CompOutcome::One(choice("echo")), true, &opts());
    assert_eq!(line.editor.joined(), "echo");
    assert!(!line.completing);
    let acts = line.handle_tab(&many(true), true, &opts());
    assert!(line.completing);
    match &acts[0] {
        Act::OnCompletionStart { matches, token } => {
            assert_eq!(matches, &["echo", "ed"]);
            assert_eq!(token, "e");
        }
        other => panic!("{other:?}"),
    }
    assert!(matches!(acts[1], Act::ShowMode(ShownMode::Complete)));
    let acts = line.handle_tab(&many(false), true, &opts());
    assert!(matches!(acts[1], Act::Bell));
}

#[test]
fn tab_expands_history_in_place() {
    let mut line = fresh_line("echo !!");
    let found = [HistUse { start: 5, end: 7, raw: "!!".to_string(), resolved: Some("world".to_string()) }];
    assert!(matches!(line.begin_tab(&key(KeyCode::Tab), &found, &env()), TabStart::Expanded));
    assert_eq!(line.editor.joined(), "echo world");
}

fn searching() -> ShedLine {
    let mut line = fresh_line("");
    line.history.searching = true;
    line.needs_redraw = false;
    line
}

fn accept(idx: usize, s: &str) -> SelectorResponse {
    SelectorResponse::Accept { idx, content: s.to_string() }
}

#[test]
fn enter_accepts_and_clears_finder() {
    let mut line = searching();
    let acts = line.handle_hist_search_key(&accept(0, "ls -la"), Some("ls -la"), 1, &opts());
    assert!(!line.history.searching);
    assert!(line.needs_redraw);
    assert_eq!(line.editor.joined(), "ls -la");
    assert!(matches!(acts[0], Act::StatusMsg(ref s) if s == "jumped to hist entry: 1/1"));
}

#[test]
fn enter_accept_with_multiple_candidates_clears_finder() {
    let mut line = searching();
    line.handle_hist_search_key(&accept(2, "gamma"), Some("gamma"), 3, &opts());
    assert!(!line.history.searching);
}

#[test]
fn esc_dismisses_and_clears_finder() {
    let mut line = searching();
    line.handle_hist_search_key(&SelectorResponse::Dismiss, None, 0, &opts());
    assert!(!line.history.searching);
    assert!(line.needs_redraw);
}

#[test]
fn ctrl_d_dismisses_and_clears_finder() {
    let mut line = searching();
    line.handle_hist_search_key(&SelectorResponse::Dismiss, None, 0, &opts());
    assert!(!line.history.searching);
}

#[test]
fn tab_consumed_keeps_finder_and_marks_redraw() {
    let mut line = searching();
    line.handle_hist_search_key(&SelectorResponse::Consumed, None, 0, &opts());
    assert!(line.history.searching);
    assert!(line.needs_redraw);
}

#[test]
fn down_consumed_keeps_finder() {
    let mut line = searching();
    line.handle_hist_search_key(&SelectorResponse::Consumed, None, 0, &opts());
    assert!(line.history.searching);
}

#[test]
fn up_consumed_keeps_finder() {
    let mut line = searching();
    line.handle_hist_search_key(&SelectorResponse::Consumed, None, 0, &opts());
    assert!(line.history.searching);
}

/// Runs a command to its end.
fn run(line: &mut ShedLine, cmd: EditCmd) -> Effect {
    assert!(matches!(line.begin_run(&cmd, &mut Registers::new(), &env().shell), RunPlan::Exec));
    let before = line.editor.joined();
    let cursor = line.editor.cursor();
    let effect = line.editor.exec_cmd(&cmd, &env(), &mut Registers::new());
    line.run_cmd(&cmd, &before, cursor);
    effect
}

fn ctrl_d() -> EditCmd {
    let mut c = EditCmd::new();
    c.set_verb(Cmd(1, Verb::DeleteOrEof));
    c.set_motion(Cmd(1, Motion::ForwardChar));
    c
}

#[test]
fn ctrl_d_on_empty_buffer_returns_eof() {
    let mut line = fresh_line("");
    let cmd = line.resolve_cmd(ctrl_d(), false);
    assert!(matches!(line.handle_key(cmd), KeyStep::Eof));
}

#[test]
fn ctrl_d_on_non_empty_buffer_deletes_char_returns_none() {
    let mut line = fresh_line("hello");
    line.editor.set_cursor_from_flat(0, &opts());
    let cmd = line.resolve_cmd(ctrl_d(), false);
    let KeyStep::Run(c) = line.handle_key(cmd) else { panic!("no event, but a command to run") };
    assert!(matches!(run(&mut line, c), Effect::Done));
    assert_eq!(line.editor.joined(), "ello");
}

#[test]
fn ctrl_l_marks_redraw_returns_none() {
    let mut line = fresh_line("anything");
    let mut c = EditCmd::new();
    c.set_verb(Cmd(1, Verb::ClearScreen));
    let cmd = line.resolve_cmd(c, false);
    assert!(matches!(cmd, LineCmd::ClearScreen));
    assert!(matches!(line.handle_key(cmd), KeyStep::ClearScreen));
    line.needs_redraw = false;
    assert_eq!(line.clear_screen(false, None, Some(9)), ScreenStep::Scroll(8));
    assert!(line.needs_redraw);
    assert_eq!(line.clear_screen(false, None, None), ScreenStep::Nothing);
    assert_eq!(line.clear_screen(true, Some((1, 20)), None), ScreenStep::Park { scroll: 20, row: 20 });
}

#[test]
fn ctrl_r_in_insert_mode_starts_history_search() {
    let line = fresh_line("");
    assert!(matches!(line.resolve_key(&ctrl('r')), Some(LineCmd::TriggerHistSearch)));
}

fn enter() -> EditCmd {
    let mut c = EditCmd::new();
    c.set_verb(Cmd(1, Verb::AcceptLineOrNewline));
    c
}

fn submit(line: &mut ShedLine) -> Option<String> {
    let LineCmd::SubmitLine(_) = line.resolve_cmd(enter(), false) else { panic!() };
    match line.submit_line(&[], true, &env()) {
        SubmitStep::Submit => {
            line.begin_submit(&opts());
            Some(line.submit(false))
        }
        _ => None,
    }
}

#[test]
fn enter_on_empty_buffer_returns_line() {
    assert_eq!(submit(&mut fresh_line("")), Some(String::new()));
}

#[test]
fn enter_on_simple_command_submits_line() {
    let mut line = fresh_line("echo hi");
    line.blank_rows_above = 3;
    assert_eq!(submit(&mut line), Some("echo hi".to_string()));
    assert_eq!(line.editor.joined(), "");
    assert_eq!(line.blank_rows_above, 0);
}

#[test]
fn enter_on_an_open_block_goes_on() {
    assert_eq!(submit(&mut fresh_line("f() {")), None);
    let mut line = fresh_line("echo \\");
    assert_eq!(submit(&mut line), None);
    line.mode.report = ModeReport::Normal;
    assert_eq!(submit(&mut line), Some("echo \\".to_string()));
}

#[test]
fn typing_a_char_grows_buffer_returns_none() {
    let mut line = fresh_line("");
    let mut c = EditCmd::new();
    c.set_verb(Cmd(1, Verb::InsertChar('x')));
    c.set_motion(Cmd(1, Motion::ForwardChar));
    let cmd = line.resolve_cmd(c, false);
    let KeyStep::Run(c) = line.handle_key(cmd) else { panic!("no event, but a command to run") };
    assert!(matches!(run(&mut line, c), Effect::Done));
    assert_eq!(line.editor.joined(), "x");
}

#[test]
fn key_with_no_command_returns_none() {
    let mut line = fresh_line("");
    assert!(line.resolve_key(&key(KeyCode::F(12))).is_none());
    line.needs_redraw = false;
    line.no_command();
    assert!(line.needs_redraw);
}

#[test]
fn simple_editor_up_at_col0_scrolls_history_back() {
    let mut ed = SimpleEditor::new(true);
    let mut up = EditCmd::new();
    up.set_motion(Cmd(1, Motion::LineUp));
    ed.handle_key(&up, Some("second"), &env(), &mut Registers::new());
    assert_eq!(ed.buf.joined(), "second");
}

#[test]
fn simple_editor_down_on_last_line_restores_pending() {
    let mut ed = SimpleEditor::new(true);
    ed.buf.set_buffer("pending_input", &opts());
    let mut up = EditCmd::new();
    up.set_motion(Cmd(1, Motion::LineUp));
    ed.handle_key(&up, Some("second"), &env(), &mut Registers::new());
    assert_eq!(ed.buf.joined(), "second");
    let mut down = EditCmd::new();
    down.set_motion(Cmd(1, Motion::LineDown));
    ed.handle_key(&down, None, &env(), &mut Registers::new());
    assert_eq!(ed.buf.joined(), "pending_input");
}

#[test]
fn simple_editor_ctrl_d_on_empty_resolves_to_endoffile() {
    let mut ed = SimpleEditor::new(false);
    ed.handle_key(&ctrl_d(), None, &env(), &mut Registers::new());
    assert_eq!(ed.buf.joined(), "");
}

#[test]
fn simple_editor_ctrl_d_on_nonempty_resolves_to_delete() {
    let mut ed = SimpleEditor::new(false);
    ed.buf.set_buffer("hello", &opts());
    ed.buf.set_cursor_from_flat(0, &opts());
    ed.handle_key(&ctrl_d(), None, &env(), &mut Registers::new());
    assert_eq!(ed.buf.joined(), "ello");
}

#[test]
fn reset_active_widget_with_completer_keeps_it_active_and_marks_redraw() {
    let mut line = completing("");
    line.needs_redraw = false;
    assert_eq!(line.reset_active_widget(), Widget::Completer);
    assert!(line.completing, "completer should remain");
    assert!(line.needs_redraw);
    assert_eq!(searching().reset_active_widget(), Widget::Finder);
}

#[test]
fn reset_active_widget_with_no_widget_falls_through_to_reset() {
    let mut line = fresh_line("some content");
    assert_eq!(line.editor.joined(), "some content");
    assert_eq!(line.reset_active_widget(), Widget::Nothing);
    line.reset(mode(ModeReport::Emacs), false, None);
    assert_eq!(line.editor.joined(), "");
    assert!(line.prompt.dirty);
}

#[test]
fn handle_keymap_executes_action_on_exact_match() {
    let mut line = fresh_line("hello");
    line.buffer_key(&ctrl('a'));
    let run = line.handle_keymap(1, true, vec![ctrl('e')]);
    assert_eq!(run.keys.len(), 1);
    assert_eq!(run.keys[0].code, KeyCode::Char('e'));
    assert!(run.redraw);
    assert!(line.pending_keymap.is_empty(), "exact match should clear pending_keymap");
}

#[test]
fn keys_of_no_key_map_are_themselves() {
    let mut line = fresh_line("");
    line.buffer_key(&ctrl('x'));
    let run = line.handle_keymap(2, false, Vec::new());
    assert!(run.keys.is_empty() && !run.redraw);
    assert_eq!(line.pending_keymap.len(), 1);
    line.buffer_key(&ctrl('y'));
    let run = line.handle_keymap(0, false, Vec::new());
    assert_eq!(run.keys.len(), 2);
    assert!(line.pending_keymap.is_empty());
}

#[test]
fn start_hist_search_with_prefix_match_adopts_entry() {
    let mut line = fresh_line("echo");
    line.start_hist_search(&HistStart::One("echo foobar".to_string()), &opts());
    assert_eq!(line.editor.joined(), "echo foobar");
    assert!(!line.history.searching, "finder should not have opened");
}

#[test]
fn start_hist_search_with_multiple_matches_opens_finder() {
    let mut line = fresh_line("git");
    let entries = vec!["ls".to_string(), "git add".to_string(), "git log".to_string()];
    let matches = entries[1..].to_vec();
    let start = HistStart::Open { shown: true, entries, matches };
    let acts = line.start_hist_search(&start, &opts());
    assert!(line.history.searching, "finder should be active for ambiguous prefix");
    match &acts[0] {
        Act::OnHistoryOpen { entries, matches, search } => {
            assert_eq!(entries, &["ls", "git add", "git log"]);
            assert_eq!(matches, &["git add", "git log"]);
            assert_eq!(search, "git");
        }
        other => panic!("{other:?}"),
    }
    assert_eq!(line.dispatch_key(false), Route::HistSearch);
}

#[test]
fn a_repeated_mode_is_one_edit_each_round() {
    let mut line = fresh_line("");
    let mut enter = EditCmd::new();
    enter.set_verb(Cmd(1, Verb::InsertMode));
    let mut typed = EditCmd::new();
    typed.set_verb(Cmd(1, Verb::InsertChar('x')));
    line.mode.report = ModeReport::Normal;
    line.repeat_action = Some(CmdReplay::ModeReplay { cmds: vec![enter, typed], repeat: 1 });
    let mut dot = EditCmd::new();
    dot.set_verb(Cmd(3, Verb::RepeatLast));
    let RepeatPlan::Mode { round, repeat } = line.handle_cmd_repeat(&dot) else { panic!() };
    assert_eq!(repeat, 3);
    match round.as_slice() {
        [RepeatStep::Exec(a), RepeatStep::StartMerge, RepeatStep::Exec(b), RepeatStep::StopMerge, RepeatStep::Back(NewMode::Normal)] =>
        {
            assert!(matches!(a.verb, Some(Cmd(1, Verb::InsertMode))));
            assert!(matches!(b.verb, Some(Cmd(1, Verb::InsertChar('x')))));
        }
        other => panic!("{other:?}"),
    }
    line.repeat_action = Some(CmdReplay::ModeReplay { cmds: Vec::new(), repeat: 2 });
    dot.set_verb(Cmd(1, Verb::RepeatLast));
    let RepeatPlan::Mode { round, repeat } = line.handle_cmd_repeat(&dot) else { panic!() };
    assert_eq!(repeat, 2);
    assert!(matches!(round.as_slice(), [RepeatStep::StopMerge, RepeatStep::Back(NewMode::Normal)]));
    line.repeat_action = None;
    assert!(matches!(line.handle_cmd_repeat(&dot), RepeatPlan::Nothing));
}

fn ctrl_d_motion_cmd() -> EditCmd {
    let mut c = EditCmd::new();
    c.set_motion(Cmd(1, Motion::HalfScreenDown));
    c
}

fn run_ctrl_d(line: &mut ShedLine) -> bool {
    let c = ctrl_d_motion_cmd();
    let before = line.editor.joined();
    let cursor = line.editor.cursor();
    assert!(matches!(line.begin_run(&c, &mut Registers::new(), &shell), RunPlan::Exec));
    line.editor.exec_cmd(&c, &env(), &mut Registers::new());
    let acts = line.run_cmd(&c, &before, cursor);
    matches!(acts[0], Act::StatusMsg(_))
}

#[test]
fn run_cmd_ctrl_d_motion_on_empty_fires_warning_each_call() {
    let mut line = fresh_line("");
    assert_eq!(line.ctrl_d_warning_counter, 0);
    assert!(run_ctrl_d(&mut line));
    assert_eq!(line.ctrl_d_warning_counter, 0);
}

#[test]
fn run_cmd_ctrl_d_motion_increments_counter_then_resets() {
    let mut line = fresh_line("single line");
    assert!(!run_ctrl_d(&mut line));
    assert_eq!(line.ctrl_d_warning_counter, 1);
    run_ctrl_d(&mut line);
    assert_eq!(line.ctrl_d_warning_counter, 2);
    run_ctrl_d(&mut line);
    assert_eq!(line.ctrl_d_warning_counter, 3);
    assert!(run_ctrl_d(&mut line));
    assert_eq!(line.ctrl_d_warning_counter, 0);
}

#[test]
fn an_edit_that_changes_nothing_rings() {
    let mut line = fresh_line("x");
    let mut c = EditCmd::new();
    c.set_verb(Cmd(1, Verb::Delete));
    let acts = line.run_cmd(&c, "x", line.editor.cursor());
    assert!(matches!(acts[0], Act::Bell));
    let acts = line.run_cmd(&c, "xy", line.editor.cursor());
    assert!(matches!(acts[0], Act::MarkMaskStale));
}

fn virtual_scroll_cmd(motion: Motion, shift: bool) -> EditCmd {
    let mut c = EditCmd::new();
    c.set_motion(Cmd(1, motion));
    c.flags = CmdFlags { has_shift: shift, has_ctrl: !shift, ..CmdFlags::empty() };
    c
}

#[test]
fn scroll_history_virtual_lineup_shift_prepends_with_amp() {
    let mut line = fresh_line("current");
    let c = virtual_scroll_cmd(Motion::LineUp, true);
    assert_eq!(ShedLine::plan_joining(&c, None), Some((Joining::Left, 1)));
    line.join_entries(&c, &[Some("prev_cmd".to_string())], true);
    assert_eq!(line.editor.joined(), "prev_cmd && current");
}

#[test]
fn scroll_history_virtual_lineup_ctrl_prepends_with_semicolon() {
    let mut line = fresh_line("current");
    let c = virtual_scroll_cmd(Motion::LineUp, false);
    line.join_entries(&c, &[Some("prev_cmd".to_string())], true);
    assert_eq!(line.editor.joined(), "prev_cmd; current");
}

#[test]
fn scroll_history_virtual_linedown_after_lineup_pops_left() {
    let mut line = fresh_line("current");
    let c = virtual_scroll_cmd(Motion::LineUp, true);
    line.join_entries(&c, &[Some("prev_cmd".to_string())], true);
    assert_eq!(line.editor.joined(), "prev_cmd && current");
    let d = virtual_scroll_cmd(Motion::LineDown, true);
    assert_eq!(ShedLine::plan_joining(&d, Some(Direction::Backward)), Some((Joining::PopLeft, 1)));
    assert_eq!(line.pop_entries(1, true, &opts()), (1, false));
    assert_eq!(line.editor.joined(), "current");
    assert_eq!(line.pop_entries(1, true, &opts()), (0, true));
    assert_eq!(line.editor.joined(), "");
}

#[test]
fn scroll_history_virtual_linedown_none_direction_concats_right() {
    let mut line = fresh_line("current");
    let c = virtual_scroll_cmd(Motion::LineDown, true);
    assert_eq!(ShedLine::plan_joining(&c, None), Some((Joining::Right, 1)));
    line.join_entries(&c, &[Some("alpha".to_string())], false);
    let joined = line.editor.joined();
    assert!(
        joined == "current && alpha" || joined == "current && beta",
        "expected concat_right with one of the entries, got {joined:?}"
    );
}

#[test]
fn scrolling_up_and_down_gives_the_typed_text_back() {
    let mut line = fresh_line("typed");
    assert!(matches!(line.scroll_history(1), ScrollAsk::Bell));
    assert!(matches!(line.scroll_history(-1), ScrollAsk::Refresh(s) if s == "typed"));
    assert!(!line.swap_history_editor(Some("entry"), &opts()));
    assert_eq!(line.editor.joined(), "entry");
    assert_eq!(line.editor.cursor_to_flat(), 5);
    assert!(matches!(line.scroll_history(-1), ScrollAsk::Go));
    assert!(!line.swap_history_editor(None, &opts()));
    assert_eq!(line.editor.joined(), "typed");
    assert!(line.swap_history_editor(None, &opts()));
}

#[test]
fn the_hint_is_taken_at_the_end_only() {
    let mut line = fresh_line("ech");
    line.editor.set_hint(Some(Hint::History(Lines::to_lines("echo hi"))), &opts());
    assert!(line.should_accept_hint(&key(KeyCode::Right)));
    assert!(!line.should_accept_hint(&key(KeyCode::Char('l'))));
    line.mode.report = ModeReport::Normal;
    assert!(line.should_accept_hint(&key(KeyCode::Char('l'))));
    line.mode.pending_seq = Some("d".to_string());
    assert!(!line.should_accept_hint(&key(KeyCode::Char('l'))));
    line.accept_hint(true, &env());
    assert_eq!(line.editor.joined(), "echo hi");
    assert!(line.needs_redraw);
}

#[test]
fn a_macro_is_recorded_until_q() {
    let mut line = fresh_line("");
    let mut regs = Registers::new();
    let mut c = EditCmd::new();
    c.register = RegisterName::new(Some('a'));
    c.set_verb(Cmd(1, Verb::RecordMacro));
    assert!(matches!(line.begin_run(&c, &mut regs, &shell), RunPlan::Nothing));
    assert_eq!(line.macro_record.status().as_deref(), Some("recording a"));
    assert!(!line.record_key(&key(KeyCode::Char('x')), &mut regs, &shell));
    assert!(line.record_key(&key(KeyCode::Char('q')), &mut regs, &shell));
    assert!(matches!(line.macro_record, MacroRecord::Idle));
    let mut p = EditCmd::new();
    p.set_verb(Cmd(1, Verb::PlayMacro));
    match line.begin_run(&p, &mut regs, &shell) {
        RunPlan::Replay(keys) => assert_eq!(keys.len(), 1),
        other => panic!("{other:?}"),
    }
}

#[test]
fn completion_hints_are_asked_for_once() {
    let mut line = fresh_line("ls");
    let q = line.try_comp_hint().unwrap();
    assert_eq!((q.req_gen, q.buffer.as_str(), q.cursor_pos), (1, "ls", 2));
    assert_eq!(line.worker_req_gen(), 1);
    assert!(line.try_comp_hint().is_none());
    line.editor.set_cursor_from_flat(0, &opts());
    assert!(line.try_comp_hint().is_none());
    assert!(fresh_line("").try_comp_hint().is_none());
}

#[test]
fn the_mode_follows_the_option() {
    assert!(matches!(fix_editing_mode(ModeReport::Emacs, true), Some(NewMode::Insert { .. })));
    assert!(matches!(fix_editing_mode(ModeReport::Normal, false), Some(NewMode::Emacs)));
    assert!(fix_editing_mode(ModeReport::Normal, true).is_none());
    assert!(fix_editing_mode(ModeReport::Emacs, false).is_none());
}

#[test]
fn line_data_is_on_one_line() {
    let line = fresh_line("a\nb");
    let d = line.get_line_data();
    assert_eq!(d.buffer, "a\\nb");
    assert_eq!(d.cursor, 3);
    assert_eq!(d.hint, None);
    assert_eq!(d.mode, ModeReport::Emacs);
}

#[test]
fn layouts_wrap_at_the_width() {
    let l = Layout::from_parts(10, "$ ", "abcdefgh", "abcdefghij", 4);
    assert_eq!(l.prompt_end, Pos { row: 0, col: 2 });
    assert_eq!(l.cursor, Pos { row: 1, col: 0 });
    assert_eq!(l.end, Pos { row: 1, col: 2 });
    let l = Layout::from_parts(10, "\u{1b}[1m$\u{1b}[0m ", "a\tb", "a\nb", 4);
    assert_eq!(l.prompt_end, Pos { row: 0, col: 2 });
    assert_eq!(l.cursor, Pos { row: 0, col: 7 });
    assert_eq!(l.end, Pos { row: 1, col: 3 });
    assert!(Layout::is_ctl_char("\u{1}") && !Layout::is_ctl_char("\t") && !Layout::is_ctl_char(""));
    assert_eq!(Layout::calc_pos(10, "\u{1}", Pos { row: 0, col: 0 }, 0, true, 4).col, 2);
    assert_eq!(Layout::calc_pos(80, "\t", Pos { row: 0, col: 1 }, 0, false, 8).col, 8);
    assert_eq!(Layout::calc_pos(80, "\t", Pos { row: 0, col: 1 }, 1, false, 8).col, 9);
    let line = fresh_line("a\tb");
    let l = line.get_layout("$ ", "a\tb", 80, 4);
    assert_eq!(l.end, Pos { row: 0, col: 8 });
    assert_eq!(l.cursor.row, 0);
}

#[test]
fn tabs_are_as_many_blanks_as_a_stop_is_wide() {
    assert_eq!(expand_tabs("a\tb", 0, 4), "a    b");
    assert_eq!(expand_tabs("a\tb\n\tc", 2, 4), "a    b\n    c");
    assert_eq!(expand_tabs("a\tb", 0, 0), "ab");
    assert_eq!(calc_str_width("\u{4e16}\u{1b}[31mx"), 3);
    assert_eq!(truncate_with_ellipsis("hello", 3), "he\u{2026}");
    assert_eq!(truncate_with_ellipsis("hi", 3), "hi");
}

#[test]
fn lines_are_numbered_and_keep_their_style() {
    assert_eq!(
        enumerate_lines("\u{1b}[31mred\nstill\u{1b}[0m\nplain", 2, true, 0),
        "\u{1b}[31mred\n\u{1b}[0m\u{1b}[90m2 |\u{1b}[0m \u{1b}[31mstill\u{1b}[0m\n\u{1b}[0m\u{1b}[90m3 |\u{1b}[0m plain"
    );
    assert_eq!(enumerate_lines("a\nb", 7, false, 8), "a\n        b");
    assert_eq!(draw_line("a\tb", Pos { row: 0, col: 2 }, 4, true, 0), "a    b");
}

#[test]
fn the_screen_is_settled() {
    let mut line = fresh_line("");
    line.old_layout = Some(Layout::new());
    assert_eq!(line.drop_statline(24), 23);
    assert!(line.statline.is_none());
    assert_eq!(line.drop_statline(1), 1);
    assert!(!line.rescue_cursor(23, Some(23)) && !line.rescue_cursor(23, None));
    assert!(line.old_layout.is_some());
    assert!(line.rescue_cursor(23, Some(24)));
    assert!(line.old_layout.is_none());
    let mut l = Layout::new();
    l.end.row = 3;
    l.cursor = Pos { row: 1, col: 2 };
    let (s, below) = below_text(&l, true);
    assert_eq!((s.as_str(), below.cursor), ("\u{1b}[2B", Pos { row: 3, col: 2 }));
    let (s, below) = below_text(&l, false);
    assert_eq!((s.as_str(), below), ("", l));
}

#[test]
fn what_was_drawn_is_cleared() {
    let mut l = Layout::new();
    l.end.row = 2;
    l.cursor.row = 1;
    assert_eq!(move_cursor_to_end(&l, 80), "\u{1b}[1B");
    assert_eq!(clear_rows(&l, 80), "\u{1b}[1B\u{1b}[2K\u{1b}[A\u{1b}[2K\u{1b}[A\u{1b}[2K\r");
    l.psr_end = Some(Pos { row: 2, col: 0 });
    l.t_cols = 80;
    assert_eq!(move_cursor_to_end(&l, 40), "\u{1b}[2B");
}

#[test]
fn the_prompt_keeps_its_last_row() {
    let mut line = fresh_line("");
    let mut old = Layout::new();
    old.end.row = 3;
    line.print_line(old, 2);
    assert!(!line.needs_redraw());
    assert_eq!(line.overlay_displacement, 2);
    let mut new = Layout::new();
    new.end.row = 1;
    assert_eq!(line.shift_rows(&new, 0, 0, true), RowShift::Down(4));
    assert_eq!(line.blank_rows_above, 4);
    line.print_line(new, 0);
    new.end.row = 7;
    assert_eq!(line.shift_rows(&new, 0, 0, true), RowShift::Up { scroll: 2, rows: 6 });
    assert_eq!(line.blank_rows_above, 0);
    assert_eq!(line.shift_rows(&new, 9, 0, false), RowShift::Same);
    assert_eq!(room_for_statline(24, Some(24)), (22, 2));
}

#[test]
fn the_right_border_shows_keys_or_prompt() {
    let mut l = Layout::new();
    l.end = Pos { row: 1, col: 3 };
    match right_text(Some("2d"), Some("psr"), &l, 5, 20, 4, false) {
        RightText::Typed(s) => assert_eq!(s, "\u{1b}7\u{1b}[18G2d\u{1b}8"),
        other => panic!("{other:?}"),
    }
    match right_text(Some(""), Some("psr"), &l, 5, 20, 4, false) {
        RightText::Prompt(s, end) => {
            assert_eq!(s, "\u{1b}7\u{1b}[1B\u{1b}[17Gpsr\u{1b}8");
            assert_eq!(end, Pos { row: 2, col: 0 });
        }
        other => panic!("{other:?}"),
    }
    assert!(matches!(right_text(None, Some("psr"), &l, 5, 6, 4, false), RightText::Nothing));
    assert_eq!(preceding_width(&l, 20), 4);
    assert_eq!(one_line("a\nb"), "a");
    assert_eq!(one_line("a\n"), "a\n");
}

#[test]
fn sub_prompts_stand_below_the_text() {
    let mut l = Layout::new();
    l.end = Pos { row: 1, col: 3 };
    let (s, new) = sub_prompt(ModeReport::Ex, "wq", &l, 1);
    assert_eq!(s, "\u{1b}[1B\u{1b}[1G\n: wq\u{1b}[4G");
    assert_eq!(new.cursor, Pos { row: 2, col: 3 });
    assert_eq!(new.end.row, 2);
}

#[test]
fn status_messages_last_five_seconds() {
    let (s, left) = status_content("one\ntwo", 1500).unwrap();
    assert_eq!((s.as_str(), left), ("one", 3500));
    assert!(status_content("one", 5000).is_none());
}
