//! The status line and the prompt.

use shed_line::statusline::{default_ps1, Expanded, Prompt, PromptVars, StatOpts, StatusLine};

fn stat(left: &str, middle: &str, right: &str) -> StatOpts {
    StatOpts {
        left_string: left.to_string(),
        middle_string: middle.to_string(),
        right_string: right.to_string(),
    }
}

/// Expands to the text itself; what it runs ends with one status more.
fn same(s: &str, status: i32) -> Expanded {
    Expanded { text: Some(s.to_string()), status: status + 1 }
}

fn fails(_: &str, status: i32) -> Expanded {
    Expanded { text: None, status: status + 1 }
}

#[test]
fn statline_new_reads_shopt_strings() {
    let o = stat("LEFT", "MID", "RIGHT");
    let mut s = StatusLine::new(&o, &same, &mut 0);
    let (l, m, r) = s.parts(&o, &same, &mut 0);
    assert_eq!(l, "LEFT");
    assert_eq!(m, "MID");
    assert_eq!(r, "RIGHT");
}

#[test]
fn statline_render_pads_between_parts_when_room() {
    let o = stat("L", "M", "R");
    let mut s = StatusLine::new(&o, &same, &mut 0);
    assert_eq!(s.render(11, &o, &same, &mut 0), "L    M    R");
}

#[test]
fn statline_render_truncates_middle_when_too_narrow() {
    let o = stat("", "MIDDLE_TEXT", "R");
    let mut s = StatusLine::new(&o, &same, &mut 0);
    let out = s.render(6, &o, &same, &mut 0);
    assert!(out.ends_with('R'), "render = {out:?}");
    assert!(!out.contains("MIDDLE_TEXT"), "render = {out:?}");
    assert_eq!(out, "MIDD\u{2026}R");
}

#[test]
fn statline_refresh_marks_dirty_and_parts_refreshes() {
    let mut o = stat("A", "B", "C");
    let mut s = StatusLine::new(&o, &same, &mut 0);
    o.left_string = "Z".to_string();
    let (l, _, _) = s.parts(&o, &same, &mut 0);
    assert_eq!(l, "A");
    s.refresh();
    let (l, _, _) = s.parts(&o, &same, &mut 0);
    assert_eq!(l, "Z", "refresh_now should have repopulated from shopt");
}

#[test]
fn statline_keeps_text_that_does_not_expand() {
    let o = stat("raw", "", "");
    let mut s = StatusLine::new(&o, &fails, &mut 0);
    assert_eq!(s.parts(&o, &fails, &mut 0).0, "raw");
}

#[test]
fn statline_counts_escape_sequences_as_nothing() {
    let o = stat("\u{1b}[1;36mL\u{1b}[0m", "", "\u{754c}");
    let mut s = StatusLine::new(&o, &same, &mut 0);
    assert_eq!(s.render(6, &o, &same, &mut 0), "\u{1b}[1;36mL\u{1b}[0m   \u{754c}");
}

#[test]
fn statline_fills_row_whatever_its_parts() {
    for width in 0..30 {
        let o = stat("left", "middle", "right");
        let mut s = StatusLine::new(&o, &same, &mut 0);
        let n = s.render(width, &o, &same, &mut 0).chars().count();
        assert_eq!(n, width.max(5));
    }
}

#[test]
fn prompt_new_uses_ps1_and_psr_when_set() {
    let vars = PromptVars { ps1: Some("PS1_RAW".to_string()), psr: Some("PSR_RAW".to_string()) };
    let mut p = Prompt::new(&vars, &same, &mut 0);
    assert_eq!(p.get_ps1(&vars, &same, &mut 0), "PS1_RAW");
    assert_eq!(p.psr_expanded.as_deref(), Some("PSR_RAW"));
}

#[test]
fn prompt_falls_back_without_ps1() {
    let vars = PromptVars { ps1: None, psr: Some("PSR_RAW".to_string()) };
    let mut p = Prompt::new(&vars, &same, &mut 0);
    assert_eq!(p.get_ps1(&vars, &same, &mut 0), default_ps1());
    assert!(p.psr_expanded.is_none());
    let vars = PromptVars { ps1: Some("x".to_string()), psr: None };
    let p = Prompt::new(&vars, &fails, &mut 0);
    assert_eq!(p.ps1_expanded, default_ps1());
}

#[test]
fn prompt_refresh_expands_again() {
    let mut vars = PromptVars { ps1: Some("a".to_string()), psr: None };
    let mut p = Prompt::new(&vars, &same, &mut 0);
    vars.ps1 = Some("b".to_string());
    assert_eq!(p.get_ps1(&vars, &same, &mut 0), "a");
    p.refresh();
    assert_eq!(p.get_ps1(&vars, &same, &mut 0), "b");
}

#[test]
fn the_exit_status_survives_the_prompt() {
    let mut status = 7;
    let vars = PromptVars { ps1: Some("a".to_string()), psr: Some("b".to_string()) };
    let mut p = Prompt::new(&vars, &same, &mut status);
    assert_eq!(status, 7);
    assert!(p.from_var);
    p.refresh();
    assert_eq!(p.get_ps1(&vars, &same, &mut status), "a");
    assert!(!p.dirty);
    assert_eq!(status, 7);
    let none = PromptVars { ps1: None, psr: None };
    p.refresh();
    assert_eq!(p.get_ps1(&none, &same, &mut status), default_ps1());
    assert!(!p.from_var);
    assert_eq!(status, 7);
    Prompt::new(&none, &same, &mut status);
    assert_eq!(status, 8);
    let o = stat("l", "m", "r");
    let mut line = StatusLine::new(&o, &same, &mut status);
    line.refresh();
    line.render(9, &o, &fails, &mut status);
    assert_eq!(status, 8);
}
