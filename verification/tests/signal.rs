//! Signals.

use shed_line::error::{ShErr, ShErrKind, ShResult};
use shed_line::signal::{
    job_report, parse_signal, set_child_stat, Child, ChildStat, Sig, SigStep, SignalState,
};
use std::cell::RefCell;

fn nothing(_: SigStep) -> ShResult<()> {
    Ok(())
}

fn with(sigs: &[Sig]) -> SignalState {
    let mut s = SignalState::new();
    for sig in sigs {
        s.handle_signal(*sig);
    }
    s
}

#[test]
fn check_signals_no_pending_is_ok() {
    assert!(SignalState::new().check_signals(true, &nothing).is_ok());
}

#[test]
fn check_signals_clears_pending_bitmask() {
    let mut s = with(&[Sig::Usr2]);
    assert!(s.signals_pending());
    assert!(s.check_signals(true, &nothing).is_ok());
    assert_eq!(s.pending, 0);
    assert!(!s.signals_pending());
}

#[test]
fn check_signals_sigint_returns_interrupt_err() {
    let mut s = with(&[Sig::Int]);
    assert!(s.sigint_pending());
    let err = s.check_signals(true, &nothing).expect_err("SIGINT should return Err");
    assert!(matches!(err.kind, ShErrKind::Interrupt));
}

#[test]
fn check_signals_sighup_sets_should_quit() {
    let mut s = with(&[Sig::Hup]);
    let err = s.check_signals(true, &nothing).expect_err("SIGHUP should trigger CleanExit");
    assert!(matches!(err.kind, ShErrKind::CleanExit(1)));
    assert!(s.should_quit);
}

#[test]
fn check_signals_sigchld_when_reaping_disabled_is_noop() {
    let mut s = with(&[Sig::Chld]);
    s.disable_reaping();
    let seen = RefCell::new(Vec::new());
    let perform = |step: SigStep| {
        seen.borrow_mut().push(step);
        Ok(())
    };
    assert!(
        s.check_signals(true, &perform).is_ok(),
        "SIGCHLD with reaping disabled should not error"
    );
    assert!(seen.borrow().is_empty());
}

#[test]
fn check_signals_sigchld_with_no_children_is_ok() {
    let mut s = with(&[Sig::Chld]);
    s.disable_reaping();
    s.enable_reaping();
    let seen = RefCell::new(Vec::new());
    let perform = |step: SigStep| {
        seen.borrow_mut().push(step);
        Ok(())
    };
    assert!(s.check_signals(true, &perform).is_ok());
    assert_eq!(*seen.borrow(), vec![SigStep::Trap(Sig::Chld), SigStep::Reap]);
}

#[test]
fn check_signals_sigwinch_sets_flag() {
    let mut s = with(&[Sig::Winch]);
    s.check_signals(true, &nothing).unwrap();
    assert!(s.got_sigwinch);
}

#[test]
fn check_signals_sigusr1_sets_flag() {
    let mut s = with(&[Sig::Usr1]);
    s.check_signals(true, &nothing).unwrap();
    assert!(s.got_sigusr1);
}

#[test]
fn check_signals_sigterm_in_non_interactive_shell_quits() {
    let mut s = with(&[Sig::Term]);
    let err = s.check_signals(false, &nothing).expect_err("SIGTERM in non-interactive quits");
    assert!(matches!(err.kind, ShErrKind::CleanExit(_)));
    assert!(s.should_quit);
    assert_eq!(s.quit_code, 128 + 15);
}

#[test]
fn check_signals_sigterm_in_interactive_shell_is_ignored() {
    let mut s = with(&[Sig::Term]);
    assert!(s.check_signals(true, &nothing).is_ok());
    assert!(!s.should_quit);
}

#[test]
fn check_signals_should_quit_already_set_returns_clean_exit() {
    let mut s = SignalState::new();
    s.should_quit = true;
    s.quit_code = 42;
    let err = s.check_signals(true, &nothing).expect_err("SHOULD_QUIT set");
    assert!(matches!(err.kind, ShErrKind::CleanExit(42)));
}

#[test]
fn check_signals_misc_signal_runs_trap() {
    let mut s = with(&[Sig::Usr2]);
    let seen = RefCell::new(Vec::new());
    let perform = |step: SigStep| {
        seen.borrow_mut().push(step);
        Ok(())
    };
    s.check_signals(true, &perform).unwrap();
    assert_eq!(*seen.borrow(), vec![SigStep::Trap(Sig::Usr2)]);
}

#[test]
fn check_signals_sigwinch_trap_fires_alongside_flag() {
    let mut s = with(&[Sig::Winch]);
    let seen = RefCell::new(Vec::new());
    let perform = |step: SigStep| {
        seen.borrow_mut().push(step);
        Ok(())
    };
    s.check_signals(true, &perform).unwrap();
    assert!(s.got_sigwinch);
    assert!(seen.borrow().contains(&SigStep::Trap(Sig::Winch)));
}

#[test]
fn check_signals_processes_winch_and_usr1_in_one_call() {
    let mut s = with(&[Sig::Winch, Sig::Usr1]);
    s.check_signals(true, &nothing).unwrap();
    assert!(s.got_sigwinch);
    assert!(s.got_sigusr1);
}

#[test]
fn check_signals_sigint_short_circuits_other_signals() {
    let mut s = with(&[Sig::Int, Sig::Winch]);
    let err = s.check_signals(true, &nothing).expect_err("SIGINT returns early");
    assert!(matches!(err.kind, ShErrKind::Interrupt));
    assert!(!s.got_sigwinch, "SIGINT should have returned before reaching SIGWINCH");
}

#[test]
fn a_failing_trap_ends_the_check() {
    let mut s = with(&[Sig::Hup, Sig::Winch]);
    let fails = |step: SigStep| match step {
        SigStep::Trap(Sig::Hup) => {
            Err(ShErr { kind: ShErrKind::SyntaxErr, msg: "bad trap".to_string() })
        }
        _ => Ok(()),
    };
    let err = s.check_signals(true, &fails).unwrap_err();
    assert_eq!(err.msg, "bad trap");
    assert!(!s.should_quit);
    assert!(!s.got_sigwinch);
    assert_eq!(s.pending, 0);
}

#[test]
fn signals_are_parsed_by_name_and_number() {
    for s in ["TERM", "SIGTERM", "term", "15", "143", "SigTerm"] {
        assert_eq!(parse_signal(s).unwrap(), Sig::Term, "{s}");
    }
    assert_eq!(parse_signal("9").unwrap(), Sig::Kill);
    assert_eq!(parse_signal("usr1").unwrap(), Sig::Usr1);
    assert_eq!(parse_signal("10").unwrap().name().len(), 7);
}

#[test]
fn other_texts_are_no_signals() {
    for s in ["", "bogus", "0", "128", "4000", "-9", "SIGSIGTERM"] {
        let err = parse_signal(s).unwrap_err();
        assert_eq!(err.kind, ShErrKind::SyntaxErr);
        assert_eq!(err.msg, format!("Invalid signal name or number: {s}"));
    }
}

fn child(pid: i32, stat: ChildStat, cmd: &str) -> Child {
    Child { pid, stat, cmd: cmd.to_string() }
}

#[test]
fn a_child_is_found_by_its_process() {
    let mut v = vec![child(3, ChildStat::Running, "a"), child(4, ChildStat::Running, "b")];
    assert!(set_child_stat(&mut v, 4, ChildStat::Exited(2)));
    assert_eq!(v[0].stat, ChildStat::Running);
    assert_eq!(v[1].stat, ChildStat::Exited(2));
    assert!(!set_child_stat(&mut v, 5, ChildStat::Exited(1)));
}

#[test]
fn a_job_is_reported_with_its_statuses() {
    let v = [
        child(1, ChildStat::Exited(-1), "a"),
        child(2, ChildStat::Stopped(20), "b"),
        child(3, ChildStat::Signaled(2), "c"),
    ];
    let r = job_report(&v, 2);
    let pairs: Vec<(&str, &str)> = r.children.iter().map(|c| (c.0.as_str(), c.1.as_str())).collect();
    assert_eq!(pairs, vec![("a", "-1"), ("b", "1"), ("c", "130")]);
    assert_eq!(r.status, "130");
    assert!(r.interrupted);
    assert!(!job_report(&v[..2], 2).interrupted);
    assert_eq!(job_report(&[], 2).status, "");
}
