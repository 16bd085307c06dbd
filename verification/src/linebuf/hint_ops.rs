//! The hint of a buffer: setting it, showing it, accepting it.

use vstd::prelude::*;
use crate::linebuf::buffer::{fixed, moved, no_text, opt_view, wf, with_lines, BufV, LineBuf};
use crate::linebuf::effect::{Snapshot, SnapshotV};
use crate::linebuf::hint::{hint_is_empty, hint_text, rank, shown, Hint, HintV};
use crate::linebuf::lines::{
    all_blank, attached, before, begins, beyond, blank, lemma_common_is, lines_of, text_of, Lines,
    LinesV,
};
use crate::linebuf::motion::{hint_after, hint_covers, hint_followed, hint_start};
use crate::linebuf::pos::{end_of_all, MotionKind};
use crate::linebuf::undo::recorded;
use crate::shell::{answer, consult, env_ok, Answer, Ask, Env, Opts};

verus! {

/// The hint once another one was offered. One that was asked for is kept until
/// it is displaced by its like; others are shown behind a text only, and only
/// where suggestions are on.
pub open spec fn hint_set(b: BufV, new: Option<HintV>, auto_suggest: bool) -> Option<HintV> {
    let asked = new matches Some(HintV::Override(_));
    if !asked && no_text(b.lines) {
        None
    } else {
        match new {
            None => match b.hint {
                Some(HintV::Override(h)) => Some(HintV::Override(h)),
                _ => None,
            },
            Some(h) => if b.hint is Some && rank(b.hint->0) > rank(h) {
                b.hint
            } else if !asked && !auto_suggest {
                None
            } else if hint_is_empty(h) {
                None
            } else {
                Some(h)
            },
        }
    }
}

/// The buffer with the aliases of all its commands put in.
pub open spec fn aliases_put<S: Fn(&str, Ask) -> Answer>(b: BufV, shell: S) -> BufV {
    match answer(shell, text_of(b.lines), Ask::AllCommands).alias {
        Some(u) => with_lines(b, lines_of(u.expanded)),
        None => b,
    }
}

/// The buffer with the hint taken over, the cursor at its end.
pub open spec fn hint_accepted<S: Fn(&str, Ask) -> Answer>(b: BufV, env: Env<S>) -> BufV {
    match b.hint {
        None => b,
        Some(h) => {
            let c = BufV { hint: None, ..b };
            let rest = beyond(hint_text(h), b.lines);
            if all_blank(rest) {
                c
            } else {
                fixed(
                    moved(
                        aliases_put(with_lines(c, attached(b.lines, rest)), env.shell),
                        end_of_all(),
                    ),
                    env.opts,
                )
            }
        },
    }
}

impl LineBuf {
    /// Offers a hint, or takes the one that is there back.
    pub fn set_hint(&mut self, hint: Option<Hint>, opts: &Opts)
        ensures
            final(self)@ == (BufV {
                hint: hint_set(old(self)@, opt_view(hint), opts.auto_suggest),
                ..old(self)@
            }),
    {
        let ghost want = hint_set(old(self)@, opt_view(hint), opts.auto_suggest);
        let asked = match &hint {
            Some(Hint::Override(_)) => true,
            _ => false,
        };
        if !asked && self.is_empty() {
            self.hint = None;
        } else {
            match hint {
                None => {
                    let keep = match &self.hint {
                        Some(Hint::Override(_)) => true,
                        _ => false,
                    };
                    if !keep {
                        self.hint = None;
                    }
                },
                Some(h) => {
                    let outranked = match &self.hint {
                        Some(was) => is_greater(was, &h),
                        None => false,
                    };
                    if outranked {
                    } else if !asked && !opts.auto_suggest {
                        self.hint = None;
                    } else if h.is_empty() {
                        self.hint = None;
                    } else {
                        self.hint = Some(h);
                    }
                },
            }
        }
        assert(opt_view(self.hint) == want);
        assert(self@ =~= (BufV { hint: want, ..old(self)@ }));
    }

    /// Whether there is a hint with some text.
    pub fn has_hint(&self) -> (r: bool)
        ensures
            r == (self@.hint matches Some(h) && !all_blank(hint_text(h))),
    {
        match &self.hint {
            Some(h) => h.lines().has_text(),
            None => false,
        }
    }

    /// The hint as it is shown behind the text.
    pub fn try_get_hint_text(&self) -> (s: Option<String>)
        ensures
            opt_view(s) == match self@.hint {
                Some(h) => Some(shown(h, Some(text_of(self@.lines)))),
                None => None,
            },
    {
        match &self.hint {
            Some(h) => {
                let text = self.joined();
                Some(h.display(Some(text.as_str())))
            },
            None => None,
        }
    }

    pub fn get_hint_text(&self) -> (s: String)
        ensures
            s@ == match self@.hint {
                Some(h) => shown(h, Some(text_of(self@.lines))),
                None => Seq::empty(),
            },
    {
        match self.try_get_hint_text() {
            Some(s) => s,
            None => String::new(),
        }
    }

    /// The text of the hint.
    pub fn try_join_hint(&self) -> (s: Option<String>)
        ensures
            opt_view(s) == match self@.hint {
                Some(h) => Some(text_of(hint_text(h))),
                None => None,
            },
    {
        match &self.hint {
            Some(h) => Some(h.raw()),
            None => None,
        }
    }

    pub fn join_hint(&self) -> (s: String)
        ensures
            s@ == match self@.hint {
                Some(h) => text_of(hint_text(h)),
                None => Seq::empty(),
            },
    {
        match self.try_join_hint() {
            Some(s) => s,
            None => String::new(),
        }
    }

    /// Puts in the aliases of all commands; says whether there were any.
    pub fn attempt_alias_expansion_all<S: Fn(&str, Ask) -> Answer>(&mut self, env: &Env<S>) -> (r:
        bool)
        requires
            env_ok(*env),
        ensures
            r == answer(env.shell, text_of(old(self)@.lines), Ask::AllCommands).alias is Some,
            final(self)@ == aliases_put(old(self)@, env.shell),
            old(self)@.lines.len() > 0 ==> final(self)@.lines.len() > 0,
    {
        let raw = self.joined();
        let ans = consult(&env.shell, raw.as_str(), Ask::AllCommands);
        match ans.alias {
            Some(u) => {
                self.lines = Lines::to_lines(u.expanded.as_str());
                assert(self@ =~= with_lines(old(self)@, lines_of(u.expanded@)));
                true
            },
            None => false,
        }
    }

    /// Takes the hint over, and goes to its end.
    pub fn accept_hint<S: Fn(&str, Ask) -> Answer>(&mut self, env: &Env<S>)
        requires
            wf(old(self)@),
            env_ok(*env),
        ensures
            final(self)@ == hint_accepted(old(self)@, *env),
            wf(final(self)@),
    {
        let mut hint = match self.hint.take() {
            Some(h) => h,
            None => {
                assert(self@ =~= old(self)@);
                return;
            },
        };
        let ghost c = BufV { hint: None, ..old(self)@ };
        assert(self@ =~= c);
        let lines = hint.take_lines();
        let mut rest = match lines.strip_prefix_lines(&self.lines) {
            Some(l) => l,
            None => {
                return;
            },
        };
        let ghost r = rest@;
        self.lines.attach_lines(&mut rest);
        assert(self@ =~= with_lines(c, attached(c.lines, r)));
        self.attempt_alias_expansion_all(env);
        self.move_cursor_to_end();
        self.fix_cursor(&env.opts);
    }

    /// Keeps the text and the cursor for [`LineBuf::record_edit`].
    pub fn snapshot(&self) -> (s: Snapshot)
        ensures
            s@ == (SnapshotV { lines: self@.lines, cursor: self@.cursor.pos }),
    {
        Snapshot { lines: self.lines.clone(), cursor: self.cursor.pos }
    }

    /// Records that the text was changed from what it was, so that it can be
    /// undone.
    pub fn record_edit(&mut self, was: Snapshot)
        ensures
            final(self)@ == (BufV {
                hint: if no_text(old(self)@.lines) {
                    None
                } else {
                    old(self)@.hint
                },
                undo_stack: recorded(
                    old(self)@.undo_stack,
                    was@.lines,
                    old(self)@.lines,
                    was@.cursor,
                    old(self)@.cursor.pos,
                ),
                ..old(self)@
            }),
    {
        if self.is_empty() {
            self.clear_hint();
        }
        let cursor = self.cursor.pos;
        let at = was.cursor;
        self.handle_edit(was.lines, cursor, at);
    }
}

fn is_greater(a: &Hint, b: &Hint) -> (r: bool)
    ensures
        r == (rank(a@) > rank(b@)),
{
    match (a, b) {
        (Hint::Override(_), Hint::History(_)) => true,
        _ => false,
    }
}

/// The rest of a hint put behind the text it begins with makes the whole hint.
pub proof fn law_rest_completes_hint(ls: LinesV, h: LinesV)
    requires
        begins(ls, h),
    ensures
        all_blank(beyond(h, ls)) || attached(ls, beyond(h, ls)) == h,
{
    let last = ls.len() - 1;
    if ls.last() == h[last] {
        assert forall|i: int| 0 <= i < ls.len() implies (#[trigger] h[i]) == ls[i] by {
            if i < last {
                assert(ls[i] == h[i]);
            }
        }
        lemma_common_is(h, ls, ls.len() as int);
        let rest = h.skip(ls.len() as int);
        if rest.len() == 0 {
            assert(all_blank(beyond(h, ls)));
        } else {
            assert(beyond(h, ls) =~= seq![blank()] + rest);
            assert(ls.last() + blank() =~= ls.last());
            assert(attached(ls, beyond(h, ls)) =~= h);
        }
    } else {
        assert forall|i: int| 0 <= i < last implies (#[trigger] h[i]) == ls[i] by {
            assert(ls[i] == h[i]);
        }
        lemma_common_is(h, ls, last);
        let rest = h.skip(last);
        let p = ls.last();
        assert forall|i: int| 0 <= i < p.len() implies (#[trigger] h[last][i]) == p[i] by {
            assert(h[last].take(p.len() as int)[i] == p[i]);
        }
        lemma_common_is(h[last], p, p.len() as int);
        assert(p + h[last].skip(p.len() as int) =~= h[last]) by {
            assert(h[last].take(p.len() as int) =~= p);
        }
        assert(attached(ls, beyond(h, ls)) =~= h);
    }
}

/// Evaluating a motion with the hint in view leaves the text as it was, where
/// the hint goes on from it, and never touches the hint.
pub proof fn law_looking_into_hint_changes_nothing(b: BufV, cmd: crate::editcmd::EditCmd, opts: Opts)
    requires
        b.lines.len() > 0,
        b.lines.len() <= usize::MAX,
        b.lines.last().len() <= usize::MAX,
        b.hint matches Some(h) ==> begins(b.lines, hint_text(h)),
    ensures
        hint_after(b, cmd, opts).lines == b.lines,
        hint_after(b, cmd, opts).hint == b.hint,
{
    reveal(crate::linebuf::motion::after_motion);
    if hint_covers(b) && cmd.motion is Some {
        let h = hint_text(b.hint->0);
        let p = hint_start(b);
        assert(h[p.row as int].take(p.col as int) =~= b.lines.last());
        assert(before(h, p) =~= b.lines);
    }
}

/// Following a motion never makes the hint grow: it stays what it was, and
/// only what of it counts as text changes.
pub proof fn law_hint_never_grows<S: Fn(&str, Ask) -> Answer>(b: BufV, m: MotionKind, shell: S)
    ensures
        hint_followed(b, m, shell).hint == b.hint,
{
}

} // verus!
