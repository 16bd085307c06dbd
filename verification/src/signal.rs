//! Signals: their names, which of them are pending, and what the shell does
//! about them.

use nix::sys::signal::Signal;
use vstd::prelude::*;
use crate::error::{ShErr, ShErrKind, ShResult};
use crate::linebuf::excmd::{parse_count, read_count};
use crate::linebuf::number::{digits_of, long_text};
use crate::seqs::first_from;
use crate::text::{chars_of, same_text, upper_of};

verus! {

/// A signal of the operating system.
#[derive(Clone, Copy, Debug, PartialEq, Eq, Structural)]
pub enum Sig {
    Hup,
    Int,
    Quit,
    Ill,
    Trap,
    Abrt,
    Bus,
    Fpe,
    Kill,
    Usr1,
    Segv,
    Usr2,
    Pipe,
    Alrm,
    Term,
    Stkflt,
    Chld,
    Cont,
    Stop,
    Tstp,
    Ttin,
    Ttou,
    Urg,
    Xcpu,
    Xfsz,
    Vtalrm,
    Prof,
    Winch,
    Io,
    Pwr,
    Sys,
    Emt,
    Info,
}

/// The name of a signal.
pub open spec fn name_of(sig: Sig) -> Seq<char> {
    match sig {
        Sig::Hup => "SIGHUP"@,
        Sig::Int => "SIGINT"@,
        Sig::Quit => "SIGQUIT"@,
        Sig::Ill => "SIGILL"@,
        Sig::Trap => "SIGTRAP"@,
        Sig::Abrt => "SIGABRT"@,
        Sig::Bus => "SIGBUS"@,
        Sig::Fpe => "SIGFPE"@,
        Sig::Kill => "SIGKILL"@,
        Sig::Usr1 => "SIGUSR1"@,
        Sig::Segv => "SIGSEGV"@,
        Sig::Usr2 => "SIGUSR2"@,
        Sig::Pipe => "SIGPIPE"@,
        Sig::Alrm => "SIGALRM"@,
        Sig::Term => "SIGTERM"@,
        Sig::Stkflt => "SIGSTKFLT"@,
        Sig::Chld => "SIGCHLD"@,
        Sig::Cont => "SIGCONT"@,
        Sig::Stop => "SIGSTOP"@,
        Sig::Tstp => "SIGTSTP"@,
        Sig::Ttin => "SIGTTIN"@,
        Sig::Ttou => "SIGTTOU"@,
        Sig::Urg => "SIGURG"@,
        Sig::Xcpu => "SIGXCPU"@,
        Sig::Xfsz => "SIGXFSZ"@,
        Sig::Vtalrm => "SIGVTALRM"@,
        Sig::Prof => "SIGPROF"@,
        Sig::Winch => "SIGWINCH"@,
        Sig::Io => "SIGIO"@,
        Sig::Pwr => "SIGPWR"@,
        Sig::Sys => "SIGSYS"@,
        Sig::Emt => "SIGEMT"@,
        Sig::Info => "SIGINFO"@,
    }
}

/// The place of a signal among the pending ones.
pub open spec fn index_of(sig: Sig) -> u64 {
    match sig {
        Sig::Hup => 0,
        Sig::Int => 1,
        Sig::Quit => 2,
        Sig::Ill => 3,
        Sig::Trap => 4,
        Sig::Abrt => 5,
        Sig::Bus => 6,
        Sig::Fpe => 7,
        Sig::Kill => 8,
        Sig::Usr1 => 9,
        Sig::Segv => 10,
        Sig::Usr2 => 11,
        Sig::Pipe => 12,
        Sig::Alrm => 13,
        Sig::Term => 14,
        Sig::Stkflt => 15,
        Sig::Chld => 16,
        Sig::Cont => 17,
        Sig::Stop => 18,
        Sig::Tstp => 19,
        Sig::Ttin => 20,
        Sig::Ttou => 21,
        Sig::Urg => 22,
        Sig::Xcpu => 23,
        Sig::Xfsz => 24,
        Sig::Vtalrm => 25,
        Sig::Prof => 26,
        Sig::Winch => 27,
        Sig::Io => 28,
        Sig::Pwr => 29,
        Sig::Sys => 30,
        Sig::Emt => 31,
        Sig::Info => 32,
    }
}

/// The signal at a place.
pub open spec fn at_index(i: u64) -> Option<Sig> {
    match i {
        0 => Some(Sig::Hup),
        1 => Some(Sig::Int),
        2 => Some(Sig::Quit),
        3 => Some(Sig::Ill),
        4 => Some(Sig::Trap),
        5 => Some(Sig::Abrt),
        6 => Some(Sig::Bus),
        7 => Some(Sig::Fpe),
        8 => Some(Sig::Kill),
        9 => Some(Sig::Usr1),
        10 => Some(Sig::Segv),
        11 => Some(Sig::Usr2),
        12 => Some(Sig::Pipe),
        13 => Some(Sig::Alrm),
        14 => Some(Sig::Term),
        15 => Some(Sig::Stkflt),
        16 => Some(Sig::Chld),
        17 => Some(Sig::Cont),
        18 => Some(Sig::Stop),
        19 => Some(Sig::Tstp),
        20 => Some(Sig::Ttin),
        21 => Some(Sig::Ttou),
        22 => Some(Sig::Urg),
        23 => Some(Sig::Xcpu),
        24 => Some(Sig::Xfsz),
        25 => Some(Sig::Vtalrm),
        26 => Some(Sig::Prof),
        27 => Some(Sig::Winch),
        28 => Some(Sig::Io),
        29 => Some(Sig::Pwr),
        30 => Some(Sig::Sys),
        31 => Some(Sig::Emt),
        32 => Some(Sig::Info),
        _ => None,
    }
}

impl Sig {
    pub fn name(self) -> (s: &'static str)
        ensures
            s@ == name_of(self),
    {
        match self {
            Sig::Hup => "SIGHUP",
            Sig::Int => "SIGINT",
            Sig::Quit => "SIGQUIT",
            Sig::Ill => "SIGILL",
            Sig::Trap => "SIGTRAP",
            Sig::Abrt => "SIGABRT",
            Sig::Bus => "SIGBUS",
            Sig::Fpe => "SIGFPE",
            Sig::Kill => "SIGKILL",
            Sig::Usr1 => "SIGUSR1",
            Sig::Segv => "SIGSEGV",
            Sig::Usr2 => "SIGUSR2",
            Sig::Pipe => "SIGPIPE",
            Sig::Alrm => "SIGALRM",
            Sig::Term => "SIGTERM",
            Sig::Stkflt => "SIGSTKFLT",
            Sig::Chld => "SIGCHLD",
            Sig::Cont => "SIGCONT",
            Sig::Stop => "SIGSTOP",
            Sig::Tstp => "SIGTSTP",
            Sig::Ttin => "SIGTTIN",
            Sig::Ttou => "SIGTTOU",
            Sig::Urg => "SIGURG",
            Sig::Xcpu => "SIGXCPU",
            Sig::Xfsz => "SIGXFSZ",
            Sig::Vtalrm => "SIGVTALRM",
            Sig::Prof => "SIGPROF",
            Sig::Winch => "SIGWINCH",
            Sig::Io => "SIGIO",
            Sig::Pwr => "SIGPWR",
            Sig::Sys => "SIGSYS",
            Sig::Emt => "SIGEMT",
            Sig::Info => "SIGINFO",
        }
    }

    pub fn index(self) -> (i: u64)
        ensures
            i == index_of(self),
            i < 33,
            at_index(i) == Some(self),
    {
        match self {
            Sig::Hup => 0,
            Sig::Int => 1,
            Sig::Quit => 2,
            Sig::Ill => 3,
            Sig::Trap => 4,
            Sig::Abrt => 5,
            Sig::Bus => 6,
            Sig::Fpe => 7,
            Sig::Kill => 8,
            Sig::Usr1 => 9,
            Sig::Segv => 10,
            Sig::Usr2 => 11,
            Sig::Pipe => 12,
            Sig::Alrm => 13,
            Sig::Term => 14,
            Sig::Stkflt => 15,
            Sig::Chld => 16,
            Sig::Cont => 17,
            Sig::Stop => 18,
            Sig::Tstp => 19,
            Sig::Ttin => 20,
            Sig::Ttou => 21,
            Sig::Urg => 22,
            Sig::Xcpu => 23,
            Sig::Xfsz => 24,
            Sig::Vtalrm => 25,
            Sig::Prof => 26,
            Sig::Winch => 27,
            Sig::Io => 28,
            Sig::Pwr => 29,
            Sig::Sys => 30,
            Sig::Emt => 31,
            Sig::Info => 32,
        }
    }

    /// The signal at a place.
    pub fn at(i: u64) -> (r: Option<Sig>)
        ensures
            r == at_index(i),
            r is Some <==> i < 33,
    {
        match i {
            0 => Some(Sig::Hup),
            1 => Some(Sig::Int),
            2 => Some(Sig::Quit),
            3 => Some(Sig::Ill),
            4 => Some(Sig::Trap),
            5 => Some(Sig::Abrt),
            6 => Some(Sig::Bus),
            7 => Some(Sig::Fpe),
            8 => Some(Sig::Kill),
            9 => Some(Sig::Usr1),
            10 => Some(Sig::Segv),
            11 => Some(Sig::Usr2),
            12 => Some(Sig::Pipe),
            13 => Some(Sig::Alrm),
            14 => Some(Sig::Term),
            15 => Some(Sig::Stkflt),
            16 => Some(Sig::Chld),
            17 => Some(Sig::Cont),
            18 => Some(Sig::Stop),
            19 => Some(Sig::Tstp),
            20 => Some(Sig::Ttin),
            21 => Some(Sig::Ttou),
            22 => Some(Sig::Urg),
            23 => Some(Sig::Xcpu),
            24 => Some(Sig::Xfsz),
            25 => Some(Sig::Vtalrm),
            26 => Some(Sig::Prof),
            27 => Some(Sig::Winch),
            28 => Some(Sig::Io),
            29 => Some(Sig::Pwr),
            30 => Some(Sig::Sys),
            31 => Some(Sig::Emt),
            32 => Some(Sig::Info),
            _ => None,
        }
    }
}

/// Signals that not every operating system has.
pub open spec fn is_local(sig: Sig) -> bool {
    sig is Stkflt || sig is Io || sig is Pwr || sig is Emt || sig is Info
}

/// `s` is the name of a signal.
pub open spec fn is_name(s: Seq<char>) -> bool {
    exists|sig: Sig| #[trigger] name_of(sig) == s
}

/// `s` is the name of a signal that every operating system has.
pub open spec fn is_common_name(s: Seq<char>) -> bool {
    exists|sig: Sig| #[trigger] name_of(sig) == s && !is_local(sig)
}

/// `<Signal as FromStr>::from_str` of `nix`, and `Signal::as_str`: the names
/// it knows are those of signals, and each stands for itself. It knows those
/// that every operating system has; which of the others it knows is left to
/// the operating system.
#[verifier::external_body]
fn named(name: &str) -> (r: Option<String>)
    ensures
        match r {
            Some(t) => t@ == name@ && is_name(t@),
            None => !is_common_name(name@),
        },
{
    name.parse::<Signal>().ok().map(|s| s.as_str().to_string())
}

/// The signals whose numbers are the same everywhere.
pub open spec fn fixed_number(n: i32) -> Option<Sig> {
    match n {
        1 => Some(Sig::Hup),
        2 => Some(Sig::Int),
        3 => Some(Sig::Quit),
        6 => Some(Sig::Abrt),
        9 => Some(Sig::Kill),
        14 => Some(Sig::Alrm),
        15 => Some(Sig::Term),
        _ => None,
    }
}

/// `<Signal as TryFrom<i32>>::try_from` of `nix`, and `Signal::as_str`: the
/// name of the signal with a number. The numbers that POSIX fixes are stated;
/// the others are left to the operating system.
#[verifier::external_body]
fn numbered(n: i32) -> (r: Option<String>)
    ensures
        match r {
            Some(t) => is_name(t@) && (fixed_number(n) is Some ==> t@ == name_of(
                fixed_number(n).unwrap(),
            )),
            None => fixed_number(n) is None,
        },
{
    Signal::try_from(n).ok().map(|s| s.as_str().to_string())
}

/// A text in upper case.
pub uninterp spec fn uppercased(s: Seq<char>) -> Seq<char>;

/// `str::to_uppercase`: by the case tables of Unicode; an ASCII text letter
/// for letter.
#[verifier::external_body]
fn to_uppercase(s: &str) -> (r: String)
    ensures
        r@ == uppercased(s@),
        (forall|i: int| 0 <= i < s@.len() ==> (#[trigger] s@[i] as u32) < 128) ==> r@ == s@.map_values(
            |c: char| upper_of(c),
        ),
{
    s.to_uppercase()
}

/// Two signals do not share a name.
pub proof fn law_names_differ(a: Sig, b: Sig)
    requires
        name_of(a) == name_of(b),
    ensures
        a == b,
{
    reveal_strlit("SIGHUP");
    reveal_strlit("SIGINT");
    reveal_strlit("SIGQUIT");
    reveal_strlit("SIGILL");
    reveal_strlit("SIGTRAP");
    reveal_strlit("SIGABRT");
    reveal_strlit("SIGBUS");
    reveal_strlit("SIGFPE");
    reveal_strlit("SIGKILL");
    reveal_strlit("SIGUSR1");
    reveal_strlit("SIGSEGV");
    reveal_strlit("SIGUSR2");
    reveal_strlit("SIGPIPE");
    reveal_strlit("SIGALRM");
    reveal_strlit("SIGTERM");
    reveal_strlit("SIGSTKFLT");
    reveal_strlit("SIGCHLD");
    reveal_strlit("SIGCONT");
    reveal_strlit("SIGSTOP");
    reveal_strlit("SIGTSTP");
    reveal_strlit("SIGTTIN");
    reveal_strlit("SIGTTOU");
    reveal_strlit("SIGURG");
    reveal_strlit("SIGXCPU");
    reveal_strlit("SIGXFSZ");
    reveal_strlit("SIGVTALRM");
    reveal_strlit("SIGPROF");
    reveal_strlit("SIGWINCH");
    reveal_strlit("SIGIO");
    reveal_strlit("SIGPWR");
    reveal_strlit("SIGSYS");
    reveal_strlit("SIGEMT");
    reveal_strlit("SIGINFO");
    let s = name_of(a);
    let t = name_of(b);
    assert(s.len() == t.len());
    assert(forall|i: int| 0 <= i < s.len() ==> s[i] == t[i]);
    if s.len() > 3 {
        assert(s[3] == t[3]);
    }
    if s.len() > 4 {
        assert(s[4] == t[4]);
    }
    if s.len() > 5 {
        assert(s[5] == t[5]);
    }
    if s.len() > 6 {
        assert(s[6] == t[6]);
    }
}

/// The signal with a name.
pub fn by_name(name: &str) -> (r: Option<Sig>)
    ensures
        match r {
            Some(sig) => name_of(sig) == name@,
            None => !is_name(name@),
        },
{
    let mut i: u64 = 0;
    while i < 33
        invariant
            i <= 33,
            forall|sig: Sig| index_of(sig) < i ==> #[trigger] name_of(sig) != name@,
        decreases 33 - i,
    {
        if let Some(sig) = Sig::at(i) {
            if same_text(sig.name(), name) {
                return Some(sig);
            }
            assert forall|s: Sig| index_of(s) < i + 1 implies #[trigger] name_of(s) != name@ by {
                if index_of(s) == i {
                    assert(s == sig);
                }
            }
        }
        i += 1;
    }
    assert forall|s: Sig| #[trigger] name_of(s) != name@ by {
        assert(index_of(s) < 33);
    }
    None
}

/// The low 32 bits of a count as a signed number.
pub open spec fn wrapped(n: int) -> int {
    let m = n % 0x1_0000_0000;
    if m >= 0x8000_0000 {
        m - 0x1_0000_0000
    } else {
        m
    }
}

fn wrap_count(n: usize) -> (r: i32)
    ensures
        r == wrapped(n as int),
{
    let m: i64 = (n as u64 % 0x1_0000_0000) as i64;
    if m >= 0x8000_0000 {
        (m - 0x1_0000_0000) as i32
    } else {
        m as i32
    }
}

/// The number a text gives a signal by; an exit code counts from 128.
pub open spec fn number_in(s: Seq<char>) -> Option<int> {
    match read_count(s) {
        Some(n) => Some(
            wrapped(
                if n > 128 {
                    n - 128
                } else {
                    n as int
                },
            ),
        ),
        None => None,
    }
}

pub open spec fn no_such_signal(s: Seq<char>, e: ShErr) -> bool {
    e.kind == ShErrKind::SyntaxErr && e.msg@ == "Invalid signal name or number: "@ + s
}

/// The first of three readings of `s` that gives a signal.
pub fn pick_signal(s: &str, name: Option<Sig>, short: Option<Sig>, number: Option<Sig>) -> (r: ShResult<
    Sig,
>)
    ensures
        match (name, short, number) {
            (Some(x), _, _) => r == ShResult::<Sig>::Ok(x),
            (None, Some(x), _) => r == ShResult::<Sig>::Ok(x),
            (None, None, Some(x)) => r == ShResult::<Sig>::Ok(x),
            (None, None, None) => r matches Err(e) && no_such_signal(s@, e),
        },
{
    match name {
        Some(x) => {
            return Ok(x);
        },
        None => {},
    }
    match short {
        Some(x) => {
            return Ok(x);
        },
        None => {},
    }
    match number {
        Some(x) => {
            return Ok(x);
        },
        None => {},
    }
    let mut msg = String::from_str("Invalid signal name or number: ");
    msg.append(s);
    Err(ShErr { kind: ShErrKind::SyntaxErr, msg })
}

/// The signal that a text names, with or without its first three letters, in
/// any case, or gives the number of, maybe as an exit code. Which signals
/// there are beyond the common ones, and what numbers they have beyond the
/// fixed ones, is left to the operating system.
pub fn parse_signal(s: &str) -> (r: ShResult<Sig>)
    ensures
        ({
            let full = uppercased(s@);
            let short = "SIG"@ + full;
            &&& is_common_name(full) ==> (r matches Ok(sig) && name_of(sig) == full)
            &&& !is_name(full) && is_common_name(short) ==> (r matches Ok(sig) && name_of(sig)
                == short)
            &&& !is_name(full) && !is_name(short) ==> match number_in(s@) {
                Some(n) => fixed_number(n as i32) matches Some(sig) ==> r == ShResult::<Sig>::Ok(
                    sig,
                ),
                None => r is Err,
            }
            &&& r matches Ok(sig) ==> (name_of(sig) == full || name_of(sig) == short
                || number_in(s@) is Some)
            &&& r matches Err(e) ==> no_such_signal(s@, e)
        }),
{
    let full = to_uppercase(s);
    let name = match named(full.as_str()) {
        Some(t) => by_name(t.as_str()),
        None => None,
    };
    let mut with_sig = String::from_str("SIG");
    with_sig.append(full.as_str());
    let short = match named(with_sig.as_str()) {
        Some(t) => by_name(t.as_str()),
        None => None,
    };
    let chars = chars_of(s);
    let number = match parse_count(chars.as_slice()) {
        Some(n) => {
            let k: usize = if n > 128 {
                n - 128
            } else {
                n
            };
            let number = wrap_count(k);
            match numbered(number) {
                Some(t) => {
                    let found = by_name(t.as_str());
                    proof {
                        if let Some(sig) = fixed_number(number) {
                            law_names_differ(sig, found.unwrap());
                        }
                    }
                    found
                },
                None => None,
            }
        },
        None => None,
    };
    pick_signal(s, name, short, number)
}

/// The signals that only run their traps, in the order they are looked at.
pub open spec fn misc() -> Seq<Sig> {
    seq![
        Sig::Int,
        Sig::Ill,
        Sig::Trap,
        Sig::Abrt,
        Sig::Bus,
        Sig::Quit,
        Sig::Fpe,
        Sig::Segv,
        Sig::Usr2,
        Sig::Pipe,
        Sig::Alrm,
        Sig::Cont,
        Sig::Urg,
        Sig::Xcpu,
        Sig::Xfsz,
        Sig::Vtalrm,
        Sig::Prof,
        Sig::Winch,
        Sig::Io,
        Sig::Sys,
        Sig::Stkflt,
        Sig::Pwr,
    ]
}

/// The signals that only run their traps.
pub fn misc_signals() -> (v: Vec<Sig>)
    ensures
        v@ == misc(),
{
    let v: Vec<Sig> = vec![
        Sig::Int,
        Sig::Ill,
        Sig::Trap,
        Sig::Abrt,
        Sig::Bus,
        Sig::Quit,
        Sig::Fpe,
        Sig::Segv,
        Sig::Usr2,
        Sig::Pipe,
        Sig::Alrm,
        Sig::Cont,
        Sig::Urg,
        Sig::Xcpu,
        Sig::Xfsz,
        Sig::Vtalrm,
        Sig::Prof,
        Sig::Winch,
        Sig::Io,
        Sig::Sys,
        Sig::Stkflt,
        Sig::Pwr,
    ];
    assert(v@ =~= misc());
    v
}

/// Whether a child process gets a signal's default back before it runs. Two
/// cannot be changed, and one in the foreground keeps those of the terminal.
pub fn resets(sig: Sig, is_fg: bool) -> (r: bool)
    ensures
        r == !(sig is Kill || sig is Stop || (is_fg && (sig is Ttin || sig is Ttou))),
{
    match sig {
        Sig::Kill => false,
        Sig::Stop => false,
        Sig::Ttin => !is_fg,
        Sig::Ttou => !is_fg,
        _ => true,
    }
}

/// The signals that came in, and what they led to.
#[derive(Clone, Copy, Debug, PartialEq, Eq, Structural)]
pub struct SignalState {
    /// One bit for each signal, by its place.
    pub pending: u64,
    pub reaping: bool,
    pub should_quit: bool,
    pub quit_code: i32,
    pub got_sigwinch: bool,
    pub got_sigusr1: bool,
}

/// The signal is pending.
pub open spec fn is_pending(bits: u64, sig: Sig) -> bool {
    bits & (1u64 << index_of(sig)) != 0
}

/// What the shell does about a signal.
#[derive(Clone, Copy, Debug, PartialEq, Eq, Structural)]
pub enum SigStep {
    /// Pass the interrupt on to the job in the foreground.
    Interrupt,
    /// Run the signal's trap, where one is set.
    Trap(Sig),
    /// Hang up all jobs.
    HangUp,
    /// Stop the job in the foreground.
    Stop,
    /// Look after children that changed.
    Reap,
    MarkWinch,
    MarkUsr1,
    Quit(i32),
}

/// The code the shell ends with on a termination signal.
pub open spec fn term_code() -> i32 {
    143
}

pub open spec fn when(b: bool, s: Seq<SigStep>) -> Seq<SigStep> {
    if b {
        s
    } else {
        Seq::empty()
    }
}

/// The traps of those of the first `k` other signals that are pending.
pub open spec fn misc_traps(bits: u64, k: int) -> Seq<SigStep>
    decreases k,
{
    if k <= 0 {
        Seq::empty()
    } else {
        misc_traps(bits, k - 1) + when(
            is_pending(bits, misc()[k - 1]),
            seq![SigStep::Trap(misc()[k - 1])],
        )
    }
}

/// What is to be done about the pending signals, in order. An interrupt comes
/// before everything else, and instead of it.
pub open spec fn steps_for(s: SignalState, interactive: bool) -> Seq<SigStep> {
    let bits = s.pending;
    if is_pending(bits, Sig::Int) {
        seq![SigStep::Interrupt, SigStep::Trap(Sig::Int)]
    } else {
        when(is_pending(bits, Sig::Hup), seq![SigStep::Trap(Sig::Hup), SigStep::HangUp]) + when(
            is_pending(bits, Sig::Tstp),
            seq![SigStep::Trap(Sig::Tstp), SigStep::Stop],
        ) + when(
            is_pending(bits, Sig::Chld) && s.reaping,
            seq![SigStep::Trap(Sig::Chld), SigStep::Reap],
        ) + when(
            is_pending(bits, Sig::Winch),
            seq![SigStep::MarkWinch, SigStep::Trap(Sig::Winch)],
        ) + when(
            is_pending(bits, Sig::Usr1),
            seq![SigStep::MarkUsr1, SigStep::Trap(Sig::Usr1)],
        ) + when(
            is_pending(bits, Sig::Term) && !interactive,
            seq![SigStep::Quit(term_code())],
        ) + when(is_pending(bits, Sig::Term), seq![SigStep::Trap(Sig::Term)]) + misc_traps(
            bits,
            misc().len() as int,
        )
    }
}

/// What a step leaves behind.
pub open spec fn after_step(s: SignalState, step: SigStep) -> SignalState {
    match step {
        SigStep::HangUp => SignalState { should_quit: true, quit_code: 1, ..s },
        SigStep::MarkWinch => SignalState { got_sigwinch: true, ..s },
        SigStep::MarkUsr1 => SignalState { got_sigusr1: true, ..s },
        SigStep::Quit(code) => SignalState { should_quit: true, quit_code: code, ..s },
        _ => s,
    }
}

/// What the first `k` steps leave behind.
pub open spec fn after_steps(s: SignalState, steps: Seq<SigStep>, k: int) -> SignalState
    decreases k,
{
    if k <= 0 {
        s
    } else {
        after_step(after_steps(s, steps, k - 1), steps[k - 1])
    }
}

/// The steps that only leave a mark need nothing done.
pub open spec fn needs_doing(step: SigStep) -> bool {
    !(step is MarkWinch || step is MarkUsr1 || step is Quit)
}

/// What is said of the signals once every step was done.
pub open spec fn says(was: SignalState, s: SignalState, r: ShResult<()>) -> bool {
    if is_pending(was.pending, Sig::Int) {
        r matches Err(e) && e.kind == ShErrKind::Interrupt && e.msg@ == "Interrupted"@
    } else if s.should_quit {
        r matches Err(e) && e.kind == ShErrKind::CleanExit(s.quit_code) && e.msg@ == "exit"@
    } else {
        r is Ok
    }
}

/// The first `k` steps went well.
pub open spec fn went_well<D: Fn(SigStep) -> ShResult<()>>(perform: D, steps: Seq<SigStep>, k: int) -> bool {
    forall|i: int|
        0 <= i < k && needs_doing(#[trigger] steps[i]) ==> call_ensures(
            perform,
            (steps[i],),
            ShResult::<()>::Ok(()),
        )
}

/// The steps are done one after the other, up to the first that fails.
pub open spec fn checked<D: Fn(SigStep) -> ShResult<()>>(
    was: SignalState,
    s: SignalState,
    r: ShResult<()>,
    interactive: bool,
    perform: D,
) -> bool {
    let steps = steps_for(was, interactive);
    let start = SignalState { pending: 0, ..was };
    ||| (went_well(perform, steps, steps.len() as int) && s == after_steps(
        start,
        steps,
        steps.len() as int,
    ) && says(was, s, r))
    ||| (exists|k: int|
        0 <= k < steps.len() && went_well(perform, steps, k) && needs_doing(steps[k])
            && s == #[trigger] after_steps(start, steps, k + 1) && r is Err && call_ensures(
            perform,
            (steps[k],),
            r,
        ))
}

fn push_when(v: &mut Vec<SigStep>, b: bool, x: SigStep, y: SigStep)
    ensures
        final(v)@ == old(v)@ + when(b, seq![x, y]),
{
    if b {
        v.push(x);
        v.push(y);
    }
    assert(v@ =~= old(v)@ + when(b, seq![x, y]));
}

fn push_one(v: &mut Vec<SigStep>, b: bool, x: SigStep)
    ensures
        final(v)@ == old(v)@ + when(b, seq![x]),
{
    if b {
        v.push(x);
    }
    assert(v@ =~= old(v)@ + when(b, seq![x]));
}

proof fn lemma_raise(bits: u64, i: u64, j: u64)
    requires
        i < 64,
        j < 64,
    ensures
        (bits | (1u64 << i)) & (1u64 << j) != 0 <==> (i == j || bits & (1u64 << j) != 0),
{
    assert((bits | (1u64 << i)) & (1u64 << j) != 0 <==> (i == j || bits & (1u64 << j) != 0))
        by (bit_vector)
        requires
            i < 64,
            j < 64,
    ;
}

impl SignalState {
    /// Nothing has come in.
    pub fn new() -> (s: SignalState)
        ensures
            s == (SignalState {
                pending: 0,
                reaping: true,
                should_quit: false,
                quit_code: 0,
                got_sigwinch: false,
                got_sigusr1: false,
            }),
    {
        SignalState {
            pending: 0,
            reaping: true,
            should_quit: false,
            quit_code: 0,
            got_sigwinch: false,
            got_sigusr1: false,
        }
    }

    /// A signal came in.
    pub fn handle_signal(&mut self, sig: Sig)
        ensures
            forall|s: Sig| #[trigger]
                is_pending(final(self).pending, s) <==> (s == sig || is_pending(
                    old(self).pending,
                    s,
                )),
            *final(self) == (SignalState { pending: final(self).pending, ..*old(self) }),
    {
        let i = sig.index();
        let ghost was = self.pending;
        self.pending = self.pending | (1u64 << i);
        assert forall|s: Sig| #[trigger]
            is_pending(self.pending, s) <==> (s == sig || is_pending(was, s)) by {
            lemma_raise(was, index_of(sig), index_of(s));
            if index_of(s) == index_of(sig) {
                assert(at_index(index_of(s)) == Some(s));
            }
        }
    }

    fn got(&self, sig: Sig) -> (r: bool)
        ensures
            r == is_pending(self.pending, sig),
    {
        self.pending & (1u64 << sig.index()) != 0
    }

    pub fn signals_pending(&self) -> (r: bool)
        ensures
            r == (self.pending != 0 || self.should_quit),
    {
        self.pending != 0 || self.should_quit
    }

    pub fn sigint_pending(&self) -> (r: bool)
        ensures
            r == is_pending(self.pending, Sig::Int),
    {
        self.got(Sig::Int)
    }

    pub fn disable_reaping(&mut self)
        ensures
            *final(self) == (SignalState { reaping: false, ..*old(self) }),
    {
        self.reaping = false;
    }

    pub fn enable_reaping(&mut self)
        ensures
            *final(self) == (SignalState { reaping: true, ..*old(self) }),
    {
        self.reaping = true;
    }

    /// The shell is to end, for want of a terminal.
    pub fn hang_up(&mut self)
        ensures
            *final(self) == (SignalState { should_quit: true, quit_code: 1, ..*old(self) }),
    {
        self.should_quit = true;
        self.quit_code = 1;
    }

    fn list_steps(&self, interactive: bool) -> (v: Vec<SigStep>)
        ensures
            v@ == steps_for(*self, interactive),
    {
        let mut v: Vec<SigStep> = Vec::new();
        if self.got(Sig::Int) {
            v.push(SigStep::Interrupt);
            v.push(SigStep::Trap(Sig::Int));
            assert(v@ =~= steps_for(*self, interactive));
            return v;
        }
        push_when(&mut v, self.got(Sig::Hup), SigStep::Trap(Sig::Hup), SigStep::HangUp);
        assert(v@ =~= when(
            is_pending(self.pending, Sig::Hup),
            seq![SigStep::Trap(Sig::Hup), SigStep::HangUp],
        ));
        push_when(&mut v, self.got(Sig::Tstp), SigStep::Trap(Sig::Tstp), SigStep::Stop);
        push_when(
            &mut v,
            self.got(Sig::Chld) && self.reaping,
            SigStep::Trap(Sig::Chld),
            SigStep::Reap,
        );
        push_when(&mut v, self.got(Sig::Winch), SigStep::MarkWinch, SigStep::Trap(Sig::Winch));
        push_when(&mut v, self.got(Sig::Usr1), SigStep::MarkUsr1, SigStep::Trap(Sig::Usr1));
        push_one(&mut v, self.got(Sig::Term) && !interactive, SigStep::Quit(143));
        push_one(&mut v, self.got(Sig::Term), SigStep::Trap(Sig::Term));
        let ghost head = v@;
        let others = misc_signals();
        let mut k: usize = 0;
        assert(v@ =~= head + misc_traps(self.pending, 0));
        while k < others.len()
            invariant
                k <= others@.len(),
                others@ == misc(),
                v@ == head + misc_traps(self.pending, k as int),
            decreases others@.len() - k,
        {
            let sig = others[k];
            push_one(&mut v, self.got(sig), SigStep::Trap(sig));
            k += 1;
            assert(v@ =~= head + misc_traps(self.pending, k as int));
        }
        v
    }

    /// Does what the pending signals ask for, step by step, up to the first
    /// step that fails.
    pub fn check_signals<D: Fn(SigStep) -> ShResult<()>>(&mut self, interactive: bool, perform: &D) -> (r:
        ShResult<()>)
        requires
            forall|step: SigStep| #[trigger] call_requires(*perform, (step,)),
        ensures
            checked(*old(self), *final(self), r, interactive, *perform),
    {
        let ghost was = *self;
        let steps = self.list_steps(interactive);
        let interrupted = self.got(Sig::Int);
        self.pending = 0;
        let ghost start = *self;
        let mut k: usize = 0;
        while k < steps.len()
            invariant
                k <= steps@.len(),
                steps@ == steps_for(was, interactive),
                start == (SignalState { pending: 0, ..was }),
                forall|step: SigStep| #[trigger] call_requires(*perform, (step,)),
                went_well(*perform, steps@, k as int),
                *self == after_steps(start, steps@, k as int),
                was == *old(self),
            decreases steps@.len() - k,
        {
            let step = steps[k];
            let needs = match step {
                SigStep::HangUp => {
                    self.hang_up();
                    true
                },
                SigStep::MarkWinch => {
                    self.got_sigwinch = true;
                    false
                },
                SigStep::MarkUsr1 => {
                    self.got_sigusr1 = true;
                    false
                },
                SigStep::Quit(code) => {
                    self.should_quit = true;
                    self.quit_code = code;
                    false
                },
                _ => true,
            };
            assert(*self == after_steps(start, steps@, k + 1));
            if needs {
                let r = perform(step);
                assert(call_ensures(*perform, (steps@[k as int],), r));
                match r {
                    Ok(u) => {
                        assert(u == ());
                    },
                    Err(e) => {
                        return Err(e);
                    },
                }
            }
            k += 1;
        }
        if interrupted {
            return Err(ShErr { kind: ShErrKind::Interrupt, msg: String::from_str("Interrupted") });
        }
        if self.should_quit {
            return Err(
                ShErr {
                    kind: ShErrKind::CleanExit(self.quit_code),
                    msg: String::from_str("exit"),
                },
            );
        }
        Ok(())
    }
}

/// An interrupt is handled alone: nothing else that is pending leaves a mark.
pub proof fn law_interrupt_comes_alone(s: SignalState, interactive: bool)
    requires
        is_pending(s.pending, Sig::Int),
    ensures
        ({
            let steps = steps_for(s, interactive);
            after_steps(SignalState { pending: 0, ..s }, steps, steps.len() as int)
                == (SignalState { pending: 0, ..s })
        }),
{
    let steps = steps_for(s, interactive);
    reveal_with_fuel(after_steps, 3);
    assert(steps.len() == 2);
}

proof fn lemma_marks_stay(s: SignalState, steps: Seq<SigStep>, k: int, j: int)
    requires
        0 <= k <= j <= steps.len(),
    ensures
        after_steps(s, steps, k).got_sigwinch ==> after_steps(s, steps, j).got_sigwinch,
        after_steps(s, steps, k).got_sigusr1 ==> after_steps(s, steps, j).got_sigusr1,
        after_steps(s, steps, k).should_quit ==> after_steps(s, steps, j).should_quit,
    decreases j - k,
{
    if k < j {
        lemma_marks_stay(s, steps, k, j - 1);
    }
}

proof fn lemma_step_leaves_mark(s: SignalState, steps: Seq<SigStep>, i: int)
    requires
        0 <= i < steps.len(),
    ensures
        ({
            let t = after_steps(s, steps, steps.len() as int);
            &&& steps[i] is MarkWinch ==> t.got_sigwinch
            &&& steps[i] is MarkUsr1 ==> t.got_sigusr1
            &&& steps[i] is HangUp || steps[i] is Quit ==> t.should_quit
        }),
{
    lemma_marks_stay(s, steps, i + 1, steps.len() as int);
}

proof fn lemma_holds_on(a: Seq<SigStep>, b: Seq<SigStep>, x: SigStep)
    requires
        a.contains(x) || b.contains(x),
    ensures
        (a + b).contains(x),
{
    if a.contains(x) {
        let i = choose|i: int| 0 <= i < a.len() && a[i] == x;
        assert((a + b)[i] == x);
    } else {
        let i = choose|i: int| 0 <= i < b.len() && b[i] == x;
        assert((a + b)[a.len() + i] == x);
    }
}

proof fn lemma_held_step_leaves_mark(s: SignalState, steps: Seq<SigStep>, x: SigStep)
    requires
        steps.contains(x),
    ensures
        ({
            let t = after_steps(s, steps, steps.len() as int);
            &&& x is MarkWinch ==> t.got_sigwinch
            &&& x is MarkUsr1 ==> t.got_sigusr1
            &&& x is HangUp || x is Quit ==> t.should_quit
        }),
{
    let i = choose|i: int| 0 <= i < steps.len() && steps[i] == x;
    lemma_step_leaves_mark(s, steps, i);
}

proof fn lemma_marks_left(
    s: SignalState,
    hup: bool,
    tstp: bool,
    chld: bool,
    winch: bool,
    usr1: bool,
    quit: bool,
    term: bool,
    rest: Seq<SigStep>,
)
    ensures
        ({
            let steps = when(hup, seq![SigStep::Trap(Sig::Hup), SigStep::HangUp]) + when(
                tstp,
                seq![SigStep::Trap(Sig::Tstp), SigStep::Stop],
            ) + when(chld, seq![SigStep::Trap(Sig::Chld), SigStep::Reap]) + when(
                winch,
                seq![SigStep::MarkWinch, SigStep::Trap(Sig::Winch)],
            ) + when(usr1, seq![SigStep::MarkUsr1, SigStep::Trap(Sig::Usr1)]) + when(
                quit,
                seq![SigStep::Quit(term_code())],
            ) + when(term, seq![SigStep::Trap(Sig::Term)]) + rest;
            let t = after_steps(s, steps, steps.len() as int);
            &&& hup ==> t.should_quit
            &&& winch ==> t.got_sigwinch
            &&& usr1 ==> t.got_sigusr1
            &&& quit ==> t.should_quit
        }),
{
    let p1 = when(hup, seq![SigStep::Trap(Sig::Hup), SigStep::HangUp]);
    let p2 = when(tstp, seq![SigStep::Trap(Sig::Tstp), SigStep::Stop]);
    let p3 = when(chld, seq![SigStep::Trap(Sig::Chld), SigStep::Reap]);
    let p4 = when(winch, seq![SigStep::MarkWinch, SigStep::Trap(Sig::Winch)]);
    let p5 = when(usr1, seq![SigStep::MarkUsr1, SigStep::Trap(Sig::Usr1)]);
    let p6 = when(quit, seq![SigStep::Quit(term_code())]);
    let p7 = when(term, seq![SigStep::Trap(Sig::Term)]);
    let steps = p1 + p2 + p3 + p4 + p5 + p6 + p7 + rest;
    if hup {
        let x = SigStep::HangUp;
        assert(p1[1] == x);
        lemma_holds_on(p1, p2, x);
        lemma_holds_on(p1 + p2, p3, x);
        lemma_holds_on(p1 + p2 + p3, p4, x);
        lemma_holds_on(p1 + p2 + p3 + p4, p5, x);
        lemma_holds_on(p1 + p2 + p3 + p4 + p5, p6, x);
        lemma_holds_on(p1 + p2 + p3 + p4 + p5 + p6, p7, x);
        lemma_holds_on(p1 + p2 + p3 + p4 + p5 + p6 + p7, rest, x);
        lemma_held_step_leaves_mark(s, steps, x);
    }
    if winch {
        let x = SigStep::MarkWinch;
        assert(p4[0] == x);
        lemma_holds_on(p1 + p2 + p3, p4, x);
        lemma_holds_on(p1 + p2 + p3 + p4, p5, x);
        lemma_holds_on(p1 + p2 + p3 + p4 + p5, p6, x);
        lemma_holds_on(p1 + p2 + p3 + p4 + p5 + p6, p7, x);
        lemma_holds_on(p1 + p2 + p3 + p4 + p5 + p6 + p7, rest, x);
        lemma_held_step_leaves_mark(s, steps, x);
    }
    if usr1 {
        let x = SigStep::MarkUsr1;
        assert(p5[0] == x);
        lemma_holds_on(p1 + p2 + p3 + p4, p5, x);
        lemma_holds_on(p1 + p2 + p3 + p4 + p5, p6, x);
        lemma_holds_on(p1 + p2 + p3 + p4 + p5 + p6, p7, x);
        lemma_holds_on(p1 + p2 + p3 + p4 + p5 + p6 + p7, rest, x);
        lemma_held_step_leaves_mark(s, steps, x);
    }
    if quit {
        let x = SigStep::Quit(term_code());
        assert(p6[0] == x);
        lemma_holds_on(p1 + p2 + p3 + p4 + p5, p6, x);
        lemma_holds_on(p1 + p2 + p3 + p4 + p5 + p6, p7, x);
        lemma_holds_on(p1 + p2 + p3 + p4 + p5 + p6 + p7, rest, x);
        lemma_held_step_leaves_mark(s, steps, x);
    }
}

/// Where no interrupt is pending, every other signal that leaves a mark leaves
/// it, whatever else is pending: a change of the window, the request to
/// refresh, and a hang-up or a termination that ends the shell.
pub proof fn law_signals_leave_their_marks(s: SignalState, interactive: bool)
    requires
        !is_pending(s.pending, Sig::Int),
    ensures
        ({
            let steps = steps_for(s, interactive);
            let t = after_steps(SignalState { pending: 0, ..s }, steps, steps.len() as int);
            &&& is_pending(s.pending, Sig::Winch) ==> t.got_sigwinch
            &&& is_pending(s.pending, Sig::Usr1) ==> t.got_sigusr1
            &&& is_pending(s.pending, Sig::Hup) ==> t.should_quit
            &&& is_pending(s.pending, Sig::Term) && !interactive ==> t.should_quit
            &&& s.should_quit ==> t.should_quit
        }),
{
    let start = SignalState { pending: 0, ..s };
    let steps = steps_for(s, interactive);
    lemma_marks_left(
        start,
        is_pending(s.pending, Sig::Hup),
        is_pending(s.pending, Sig::Tstp),
        is_pending(s.pending, Sig::Chld) && s.reaping,
        is_pending(s.pending, Sig::Winch),
        is_pending(s.pending, Sig::Usr1),
        is_pending(s.pending, Sig::Term) && !interactive,
        is_pending(s.pending, Sig::Term),
        misc_traps(s.pending, misc().len() as int),
    );
    lemma_marks_stay(start, steps, 0, steps.len() as int);
}

/// How a child process stands.
#[derive(Clone, Copy, Debug, PartialEq, Eq, Structural)]
pub enum ChildStat {
    Running,
    Exited(i32),
    /// Ended by the signal with this number.
    Signaled(i32),
    Stopped(i32),
}

/// A process of a job.
#[derive(Debug)]
pub struct Child {
    pub pid: i32,
    pub stat: ChildStat,
    pub cmd: String,
}

/// The place of the first child with a process id; their number where there
/// is none.
pub open spec fn child_at(children: Seq<Child>, pid: i32) -> int {
    first_from(children, |c: Child| c.pid == pid, 0)
}

/// Notes how the child with a process id stands now. Tells whether there is
/// one.
pub fn set_child_stat(children: &mut Vec<Child>, pid: i32, stat: ChildStat) -> (r: bool)
    ensures
        r == (child_at(old(children)@, pid) < old(children)@.len()),
        final(children)@ == if r {
            let i = child_at(old(children)@, pid);
            old(children)@.update(i, Child { stat, ..old(children)@[i] })
        } else {
            old(children)@
        },
{
    let ghost p = |c: Child| c.pid == pid;
    let mut i: usize = 0;
    while i < children.len()
        invariant
            i <= children@.len(),
            children@ == old(children)@,
            p == (|c: Child| c.pid == pid),
            child_at(children@, pid) == first_from(children@, p, i as int),
        decreases children@.len() - i,
    {
        if children[i].pid == pid {
            children[i].stat = stat;
            return true;
        }
        i += 1;
    }
    false
}

/// A number in decimal digits, a sign before a negative one.
pub open spec fn signed_digits(n: int) -> Seq<char> {
    if n < 0 {
        seq!['-'] + digits_of(-n, 10)
    } else {
        digits_of(n, 10)
    }
}

fn signed_text(n: i64) -> (s: String)
    requires
        n > i64::MIN,
    ensures
        s@ == signed_digits(n as int),
{
    if n < 0 {
        let digits = long_text((-n) as u64);
        let mut s = String::new();
        s.push('-');
        s.append(digits.as_str());
        assert(s@ =~= signed_digits(n as int));
        s
    } else {
        long_text(n as u64)
    }
}

/// The status a child leaves: its exit code, or 128 and the signal.
pub open spec fn status_text(stat: ChildStat) -> Seq<char> {
    match stat {
        ChildStat::Exited(code) => signed_digits(code as int),
        ChildStat::Signaled(sig) => signed_digits(128 + sig),
        _ => "1"@,
    }
}

/// What is told of a job that has finished.
#[derive(Debug)]
pub struct JobReport {
    /// The commands of the job and their statuses.
    pub children: Vec<(String, String)>,
    /// The status of the last one.
    pub status: String,
    /// One of them was interrupted, so the shell is too.
    pub interrupted: bool,
}

fn stat_text(stat: ChildStat) -> (s: String)
    ensures
        s@ == status_text(stat),
{
    match stat {
        ChildStat::Exited(code) => signed_text(code as i64),
        ChildStat::Signaled(sig) => signed_text(128 + sig as i64),
        _ => String::from_str("1"),
    }
}

/// What is told of a job that has finished. `interrupt` is the number of the
/// interrupt signal.
pub fn job_report(children: &[Child], interrupt: i32) -> (r: JobReport)
    ensures
        r.children@.len() == children@.len(),
        forall|i: int|
            0 <= i < children@.len() ==> (#[trigger] r.children@[i]).0@ == children@[i].cmd@
                && r.children@[i].1@ == status_text(children@[i].stat),
        r.status@ == if children@.len() == 0 {
            Seq::empty()
        } else {
            status_text(children@.last().stat)
        },
        r.interrupted == exists|i: int|
            0 <= i < children@.len() && (#[trigger] children@[i]).stat == ChildStat::Signaled(
                interrupt,
            ),
{
    let mut out: Vec<(String, String)> = Vec::new();
    let mut interrupted = false;
    let mut status = String::new();
    let mut i: usize = 0;
    while i < children.len()
        invariant
            i <= children@.len(),
            out@.len() == i,
            forall|j: int|
                0 <= j < i ==> (#[trigger] out@[j]).0@ == children@[j].cmd@ && out@[j].1@
                    == status_text(children@[j].stat),
            status@ == if i == 0 {
                Seq::empty()
            } else {
                status_text(children@[i - 1].stat)
            },
            interrupted == exists|j: int|
                0 <= j < i && (#[trigger] children@[j]).stat == ChildStat::Signaled(interrupt),
        decreases children@.len() - i,
    {
        let text = stat_text(children[i].stat);
        status = text.clone();
        out.push((children[i].cmd.clone(), text));
        if let ChildStat::Signaled(n) = children[i].stat {
            if n == interrupt {
                assert(children@[i as int].stat == ChildStat::Signaled(interrupt));
                interrupted = true;
            }
        }
        i += 1;
    }
    JobReport { children: out, status, interrupted }
}

} // verus!
