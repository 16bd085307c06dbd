//! A line editor for short inputs, with a history where it keeps one.

use vstd::prelude::*;
use crate::editcmd::{Cmd, EditCmd, Motion, Verb};
use crate::linebuf::buffer::{no_text, opt_view, wf, BufV, LineBuf};
use crate::linebuf::effect::Effect;
use crate::linebuf::places::flat_start;
use crate::linebuf::verb::{run_cmd, Ran};
use crate::readline::keys::on_last_line;
use crate::readline::scroll::{entry_buffer, opt_str};
use crate::readline::session::{scroll_wf, Scroll, ScrollV};
use crate::register::Registers;
use crate::shell::{env_ok, Answer, Ask, Env, Opts};

verus! {

/// A line editor with an optional history.
pub struct SimpleEditor {
    pub buf: LineBuf,
    pub history: Option<Scroll>,
}

#[verifier::ext_equal]
pub struct SimpleV {
    pub buf: BufV,
    pub history: Option<ScrollV>,
}

impl View for SimpleEditor {
    type V = SimpleV;

    open spec fn view(&self) -> SimpleV {
        SimpleV { buf: self.buf@, history: opt_view(self.history) }
    }
}

pub open spec fn simple_wf(v: SimpleV) -> bool {
    wf(v.buf) && (v.history matches Some(h) ==> scroll_wf(h))
}

/// The command goes beyond the text, into the history.
pub open spec fn leaves_text(b: BufV, cmd: EditCmd) -> bool {
    ||| (cmd.verb is None && (cmd.motion matches Some(Cmd(_, m)) && m is LineUp) && flat_start(
        b.lines,
        b.cursor.pos.row as int,
    ) == 0)
    ||| ((cmd.motion matches Some(Cmd(_, m)) && m is LineDown) && on_last_line(b))
}

/// The entry in place of the typed text, or the typed text back.
pub open spec fn simple_scrolled(v: SimpleV, entry: Option<Seq<char>>, opts: Opts) -> SimpleV {
    match v.history {
        None => v,
        Some(h) => match entry {
            Some(e) => SimpleV {
                buf: entry_buffer(e, opts),
                history: Some(
                    ScrollV {
                        pending: if h.pending is Some {
                            h.pending
                        } else {
                            Some(v.buf)
                        },
                        ..h
                    },
                ),
            },
            None => match h.pending {
                Some(b) => SimpleV { buf: b, history: Some(ScrollV { pending: None, ..h }) },
                None => v,
            },
        },
    }
}

/// What is done about a command.
#[derive(Debug)]
pub enum SimplePlan {
    /// Scroll the history, one up or down.
    Scroll(isize),
    Run(EditCmd),
}

impl SimpleEditor {
    pub fn new(with_history: bool) -> (s: SimpleEditor)
        ensures
            s@ == (SimpleV {
                buf: crate::linebuf::buffer::fresh(),
                history: if with_history {
                    Some(ScrollV { pending: None, searching: false })
                } else {
                    None
                },
            }),
            simple_wf(s@),
    {
        let history = if with_history {
            Some(Scroll { pending: None, searching: false })
        } else {
            None
        };
        let s = SimpleEditor { buf: LineBuf::new(), history };
        assert(s@ =~= (SimpleV {
            buf: crate::linebuf::buffer::fresh(),
            history: if with_history {
                Some(ScrollV { pending: None, searching: false })
            } else {
                None
            },
        }));
        s
    }

    /// Whether a command goes beyond the text, into the history.
    pub fn should_grab_history(&self, cmd: &EditCmd) -> (r: bool)
        requires
            simple_wf(self@),
        ensures
            r == leaves_text(self@.buf, *cmd),
    {
        match &cmd.motion {
            Some(Cmd(_, Motion::LineUp)) => {
                proof {
                    crate::linebuf::places::lemma_flat_start_nonneg(
                        self.buf@.lines,
                        self.buf@.cursor.pos.row as int,
                    );
                }
                cmd.verb.is_none() && self.buf.start_of_line() == 0
            },
            Some(Cmd(_, Motion::LineDown)) => self.buf.on_last_line(),
            _ => false,
        }
    }

    /// Shows the entry the history was scrolled to, or the typed text again.
    pub fn scroll_history(&mut self, entry: Option<&str>, opts: &Opts)
        requires
            simple_wf(old(self)@),
        ensures
            final(self)@ == simple_scrolled(old(self)@, opt_str(entry), *opts),
            simple_wf(final(self)@),
    {
        if let Some(h) = self.history.as_mut() {
            match entry {
                Some(e) => {
                    let mut b = LineBuf::new();
                    b.set_buffer(e, opts);
                    b.clear_hint();
                    b.move_cursor_to_end();
                    std::mem::swap(&mut self.buf, &mut b);
                    if h.pending.is_none() {
                        h.pending = Some(b);
                    }
                },
                None => {
                    let mut taken: Option<LineBuf> = None;
                    std::mem::swap(&mut h.pending, &mut taken);
                    if let Some(b) = taken {
                        self.buf = b;
                    }
                },
            }
        }
        assert(self@ =~= simple_scrolled(old(self)@, opt_str(entry), *opts));
    }

    /// What is done about a command: the history is scrolled, or the command
    /// run. The key that deletes or ends the input does the one or the other.
    pub fn plan(&self, cmd: &EditCmd) -> (p: SimplePlan)
        requires
            simple_wf(self@),
        ensures
            p == simple_plan(self@, *cmd),
    {
        if self.should_grab_history(cmd) {
            return match &cmd.motion {
                Some(Cmd(_, Motion::LineUp)) => SimplePlan::Scroll(-1),
                _ => SimplePlan::Scroll(1),
            };
        }
        if let Some(Cmd(n, Verb::DeleteOrEof)) = &cmd.verb {
            let verb = if self.buf.is_empty() {
                Verb::EndOfFile
            } else {
                Verb::Delete
            };
            return SimplePlan::Run(cmd.new_with_verb(Some(Cmd(*n, verb))));
        }
        SimplePlan::Run(cmd.copy())
    }

    /// Handles a command: `entry` is the history entry one up or down, for
    /// when it is scrolled.
    pub fn handle_key<S: Fn(&str, Ask) -> Answer>(
        &mut self,
        cmd: &EditCmd,
        entry: Option<&str>,
        env: &Env<S>,
        regs: &mut Registers,
    ) -> (e: Effect)
        requires
            simple_wf(old(self)@),
            env_ok(*env),
        ensures
            match simple_plan(old(self)@, *cmd) {
                SimplePlan::Scroll(_) => {
                    &&& e@ is Done
                    &&& final(regs)@ == old(regs)@
                    &&& final(self)@ == simple_scrolled(old(self)@, opt_str(entry), env.opts)
                },
                SimplePlan::Run(c) => {
                    &&& (Ran { buf: final(self)@.buf, regs: final(regs)@, effect: e@ }) == run_cmd(
                        old(self)@.buf,
                        old(regs)@,
                        c,
                        *env,
                    )
                    &&& final(self)@.history == old(self)@.history
                },
            },
            e@ is Done || e@ is Report ==> simple_wf(final(self)@),
    {
        match self.plan(cmd) {
            SimplePlan::Scroll(_) => {
                self.scroll_history(entry, &env.opts);
                Effect::Done
            },
            SimplePlan::Run(c) => self.buf.exec_cmd(&c, env, regs),
        }
    }
}

/// What is done about a command.
pub open spec fn simple_plan(v: SimpleV, cmd: EditCmd) -> SimplePlan {
    if leaves_text(v.buf, cmd) {
        if cmd.motion.unwrap().1 is LineUp {
            SimplePlan::Scroll((-1) as isize)
        } else {
            SimplePlan::Scroll(1)
        }
    } else if cmd.verb matches Some(Cmd(_, w)) && w is DeleteOrEof {
        SimplePlan::Run(
            EditCmd {
                verb: Some(
                    Cmd(
                        cmd.verb.unwrap().0,
                        if no_text(v.buf.lines) {
                            Verb::EndOfFile
                        } else {
                            Verb::Delete
                        },
                    ),
                ),
                ..cmd
            },
        )
    } else {
        SimplePlan::Run(cmd)
    }
}

} // verus!
