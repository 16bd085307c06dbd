//! Completion: what is asked of the completer, and what its answers make of
//! the text.

use vstd::prelude::*;
use crate::keys::{KeyCode, KeyEvent, ModKeys};
use crate::linebuf::buffer::{fixed, with_cursor, BufV};
use crate::linebuf::history::{history_expanded, use_changes, HistUse};
use crate::linebuf::lines::{lines_of, text_of};
use crate::linebuf::motion::{alias_here, alias_put};
use crate::linebuf::places::{cursor_byte, flat_of, place_of};
use crate::readline::acts::{act_if, copy_texts, Act, ActV, ShownMode};
use crate::readline::mode::ModeReport;
use crate::readline::scroll::edit_recorded;
use crate::readline::session::{focus, refreshed, shed_wf, with_focus, ShedLine, ShedV};
use crate::readline::worker::{next_gen, CompHintRequest, WorkerV};
use crate::seqs::{group_views, sat, views};
use crate::shell::{env_ok, Answer, Ask, Env, Opts};

verus! {

broadcast use group_views;

/// A candidate that was chosen.
#[derive(Debug)]
pub struct Choice {
    pub content: String,
    pub len: usize,
    /// The line with the candidate put in.
    pub line: String,
    /// Where the word begins that it stands for.
    pub span_start: usize,
}

/// What a key did while candidates were shown.
#[derive(Debug)]
pub enum CompResponse {
    Accept(Choice),
    /// The candidate is shown, and the choice goes on.
    Preview(Choice),
    Consumed,
    Passthrough,
    Dismiss,
    DismissPassthrough,
}

/// How completing a word went.
#[derive(Debug)]
pub enum CompOutcome {
    Failed,
    /// There was one candidate.
    One(Choice),
    /// There are several to choose from, or none.
    Many { active: bool, matches: Vec<String>, token: String },
}

/// What the completer is asked for.
#[derive(Debug)]
pub struct CompAsk {
    pub line: String,
    pub cursor: usize,
    /// Which way to go through the candidates.
    pub direction: isize,
    /// Commands of the ex mode, not of the shell.
    pub ex: bool,
    /// A new choice begins.
    pub fresh: bool,
}

/// What the tab key leads to.
#[derive(Debug)]
pub enum TabStart {
    NotTab,
    /// Something was expanded in place.
    Expanded,
    Complete(CompAsk),
}

/// The buffer with the candidate in it, the cursor behind it.
pub open spec fn chosen(b: BufV, line: Seq<char>, span_start: usize, len: usize, opts: Opts) -> BufV {
    let c = fixed(BufV { lines: lines_of(line), concat_points: Seq::empty(), ..b }, opts);
    fixed(with_cursor(c, place_of(c.lines, sat(span_start + len) as int)), opts)
}

/// The state with the candidate in the buffer that keys go to.
pub open spec fn choice_put(v: ShedV, c: Choice, opts: Opts) -> ShedV {
    with_focus(v, chosen(focus(v), c.line@, c.span_start, c.len, opts))
}

/// The state with the candidates gone.
pub open spec fn choice_ended(v: ShedV) -> ShedV {
    refreshed(ShedV { completing: false, needs_redraw: true, ..v })
}

/// The state after a key while candidates were shown.
pub open spec fn comp_key_state(v: ShedV, resp: CompResponse, opts: Opts) -> ShedV {
    match resp {
        CompResponse::Accept(c) => choice_ended(choice_put(v, c, opts)),
        CompResponse::Preview(c) => ShedV { needs_redraw: true, ..choice_put(v, c, opts) },
        CompResponse::Consumed => ShedV { needs_redraw: true, ..v },
        CompResponse::Passthrough => v,
        CompResponse::Dismiss => choice_ended(v),
        CompResponse::DismissPassthrough => choice_ended(v),
    }
}

/// What is left to do after a key while candidates were shown.
pub open spec fn comp_key_acts(resp: CompResponse, at_pending: bool) -> Seq<ActV> {
    match resp {
        CompResponse::Accept(c) => act_if(!at_pending, ActV::ResetToPending) + seq![
            ActV::UpdateHint,
            ActV::ClearCompleter,
            ActV::ShowMode(ShownMode::Current),
            ActV::OnCompletionSelect(c.content@),
        ],
        CompResponse::Preview(_) => seq![ActV::UpdateHint],
        CompResponse::Consumed => Seq::empty(),
        CompResponse::Passthrough => Seq::empty(),
        CompResponse::Dismiss => dismissal(),
        CompResponse::DismissPassthrough => dismissal(),
    }
}

pub open spec fn dismissal() -> Seq<ActV> {
    seq![
        ActV::OnCompletionCancel,
        ActV::UpdateHint,
        ActV::ClearCompleter,
        ActV::ShowMode(ShownMode::Current),
    ]
}

/// The state after completing a word.
pub open spec fn tab_state(v: ShedV, out: CompOutcome, opts: Opts) -> ShedV {
    let w = ShedV { needs_redraw: true, ..v };
    match out {
        CompOutcome::Failed => ShedV { old_layout: None, ..w },
        CompOutcome::One(c) => choice_put(w, c, opts),
        CompOutcome::Many { active, .. } => if active {
            ShedV {
                completing: true,
                editor: BufV { hint: None, ..v.editor },
                ..refreshed(w)
            }
        } else {
            w
        },
    }
}

/// What is left to do after completing a word.
pub open spec fn tab_acts(out: CompOutcome, at_pending: bool) -> Seq<ActV> {
    match out {
        CompOutcome::Failed => Seq::empty(),
        CompOutcome::One(c) => seq![ActV::OnCompletionSelect(c.content@)] + act_if(
            !at_pending,
            ActV::ResetToPending,
        ) + seq![ActV::UpdateHint, ActV::ShowMode(ShownMode::Current)],
        CompOutcome::Many { active, matches, token } => seq![
            ActV::OnCompletionStart { matches: views(matches@), token: token@ },
            if active {
                ActV::ShowMode(ShownMode::Complete)
            } else {
                ActV::Bell
            },
        ],
    }
}

/// What expanding in place makes of the buffer: the exclamation marks, then the
/// alias before the cursor.
pub open spec fn expanded_inline<S: Fn(&str, Ask) -> Answer>(b: BufV, found: Seq<HistUse>, shell: S) -> BufV {
    edit_recorded(b, alias_put(history_expanded(b, views(found), shell), shell))
}

/// There is something to expand in place.
pub open spec fn expands_inline<S: Fn(&str, Ask) -> Answer>(b: BufV, found: Seq<HistUse>, shell: S) -> bool {
    use_changes(b.lines, views(found), found.len() as int).len() > 0 || alias_here(
        history_expanded(b, views(found), shell),
        shell,
    ) is Some
}

/// The line, the cursor and the way the completer is asked for.
pub open spec fn comp_asked(v: ShedV, shift_only: bool, a: CompAsk) -> bool {
    &&& a.line@ == text_of(focus(v).lines)
    &&& a.cursor == sat(cursor_byte(focus(v)))
    &&& a.direction == (if shift_only { -1 } else { 1int })
    &&& a.ex == (v.mode.report == ModeReport::Ex)
    &&& a.fresh == !v.completing
}

pub open spec fn only_shift(m: ModKeys) -> bool {
    m == (ModKeys { ctrl: false, alt: false, shift: true })
}

impl ShedLine {
    /// Whether the tab key completes: there is something before the cursor.
    pub fn should_complete(&self) -> (r: bool)
        requires
            shed_wf(self@),
        ensures
            r == !crate::linebuf::buffer::in_leading_ws(focus(self@)),
    {
        !self.focused_editor().cursor_in_leading_ws()
    }

    /// Puts a candidate into the buffer that keys go to.
    fn put_choice(&mut self, c: &Choice, opts: &Opts)
        requires
            shed_wf(old(self)@),
        ensures
            final(self)@ == choice_put(old(self)@, *c, *opts),
            shed_wf(final(self)@),
    {
        let mut b = self.take_focus();
        b.set_buffer(c.line.as_str(), opts);
        b.set_cursor_from_flat(c.span_start.saturating_add(c.len), opts);
        self.put_focus(b);
        assert(self@ =~= choice_put(old(self)@, *c, *opts));
    }

    fn end_choice(&mut self)
        ensures
            final(self)@ == choice_ended(old(self)@),
    {
        self.completing = false;
        self.needs_redraw = true;
        assert(self@ =~= (ShedV { completing: false, needs_redraw: true, ..old(self)@ }));
        self.refresh_prompt();
    }

    /// Goes by what a key did while candidates were shown. Tells whether the
    /// key is used up.
    pub fn handle_completion_key(&mut self, resp: &CompResponse, at_pending: bool, opts: &Opts) -> (r: (
        bool,
        Vec<Act>,
    ))
        requires
            shed_wf(old(self)@),
        ensures
            final(self)@ == comp_key_state(old(self)@, *resp, *opts),
            r.0 == !(resp is Passthrough || resp is DismissPassthrough),
            views(r.1@) == comp_key_acts(*resp, at_pending),
            shed_wf(final(self)@),
    {
        let mut v: Vec<Act> = Vec::new();
        let used = match resp {
            CompResponse::Accept(c) => {
                self.put_choice(c, opts);
                if !at_pending {
                    v.push(Act::ResetToPending);
                }
                assert(views(v@) =~= act_if(!at_pending, ActV::ResetToPending));
                self.end_choice();
                v.push(Act::UpdateHint);
                v.push(Act::ClearCompleter);
                v.push(Act::ShowMode(ShownMode::Current));
                v.push(Act::OnCompletionSelect(c.content.clone()));
                true
            },
            CompResponse::Preview(c) => {
                self.put_choice(c, opts);
                v.push(Act::UpdateHint);
                self.needs_redraw = true;
                true
            },
            CompResponse::Consumed => {
                self.needs_redraw = true;
                true
            },
            CompResponse::Passthrough => false,
            CompResponse::Dismiss => {
                push_dismissal(&mut v);
                self.end_choice();
                true
            },
            CompResponse::DismissPassthrough => {
                push_dismissal(&mut v);
                self.end_choice();
                false
            },
        };
        assert(views(v@) =~= comp_key_acts(*resp, at_pending));
        assert(self@ =~= comp_key_state(old(self)@, *resp, *opts));
        (used, v)
    }

    /// What the tab key leads to: something expanded in place, or a word
    /// completed. `found` are the exclamation marks in the text.
    pub fn begin_tab<S: Fn(&str, Ask) -> Answer>(&mut self, key: &KeyEvent, found: &[HistUse], env: &Env<
        S,
    >) -> (t: TabStart)
        requires
            shed_wf(old(self)@),
            env_ok(*env),
        ensures
            ({
                let v = old(self)@;
                let w = if v.mode.report == ModeReport::Ex {
                    v
                } else {
                    ShedV { editor: expanded_inline(v.editor, found@, env.shell), ..v }
                };
                if key.code != KeyCode::Tab {
                    t is NotTab && final(self)@ == v
                } else if v.mode.report != ModeReport::Ex && expands_inline(
                    v.editor,
                    found@,
                    env.shell,
                ) {
                    t is Expanded && final(self)@ == w
                } else {
                    &&& t matches TabStart::Complete(a) && comp_asked(w, only_shift(key.mods), a)
                    &&& final(self)@ == (ShedV { completing: false, ..w })
                }
            }),
            shed_wf(final(self)@),
    {
        match key.code {
            KeyCode::Tab => {},
            _ => {
                return TabStart::NotTab;
            },
        }
        if self.mode.report != ModeReport::Ex {
            let was = self.editor.snapshot();
            let expanded = self.editor.attempt_inline_expansion(found, env);
            self.editor.record_edit(was);
            assert(self@ =~= (ShedV {
                editor: expanded_inline(old(self)@.editor, found@, env.shell),
                ..old(self)@
            }));
            if expanded {
                return TabStart::Expanded;
            }
        }
        let fresh = !self.completing;
        let direction: isize = if key.mods.shift && !key.mods.ctrl && !key.mods.alt {
            -1
        } else {
            1
        };
        let b = self.focused_editor();
        let line = b.joined();
        let cursor = b.cursor_byte_pos();
        self.completing = false;
        TabStart::Complete(
            CompAsk { line, cursor, direction, ex: self.mode.report == ModeReport::Ex, fresh },
        )
    }

    /// Goes by how completing a word went.
    pub fn handle_tab(&mut self, out: &CompOutcome, at_pending: bool, opts: &Opts) -> (v: Vec<Act>)
        requires
            shed_wf(old(self)@),
        ensures
            final(self)@ == tab_state(old(self)@, *out, *opts),
            views(v@) == tab_acts(*out, at_pending),
            shed_wf(final(self)@),
    {
        let mut v: Vec<Act> = Vec::new();
        self.needs_redraw = true;
        match out {
            CompOutcome::Failed => {
                self.old_layout = None;
            },
            CompOutcome::One(c) => {
                v.push(Act::OnCompletionSelect(c.content.clone()));
                self.put_choice(c, opts);
                if !at_pending {
                    v.push(Act::ResetToPending);
                }
                assert(views(v@) =~= seq![ActV::OnCompletionSelect(c.content@)] + act_if(
                    !at_pending,
                    ActV::ResetToPending,
                ));
                v.push(Act::UpdateHint);
                v.push(Act::ShowMode(ShownMode::Current));
            },
            CompOutcome::Many { active, matches, token } => {
                v.push(
                    Act::OnCompletionStart { matches: copy_texts(matches), token: token.clone() },
                );
                if *active {
                    self.completing = true;
                    v.push(Act::ShowMode(ShownMode::Complete));
                    self.refresh_prompt();
                    self.editor.clear_hint();
                } else {
                    v.push(Act::Bell);
                }
            },
        }
        assert(views(v@) =~= tab_acts(*out, at_pending));
        assert(self@ =~= tab_state(old(self)@, *out, *opts));
        v
    }

    /// The request for a completion hint, where the cursor is at the end of
    /// some text that was not asked for yet.
    pub fn try_comp_hint(&mut self) -> (r: Option<CompHintRequest>)
        requires
            shed_wf(old(self)@),
        ensures
            ({
                let b = old(self)@.editor;
                let text = text_of(b.lines);
                let at = sat(flat_of(b.lines, b.cursor.pos));
                if !at_end(b) || text.len() == 0 || old(self)@.worker.last_sent == Some((text, at)) {
                    r is None && final(self)@ == old(self)@
                } else {
                    &&& final(self)@ == (ShedV {
                        worker: WorkerV {
                            req_gen: next_gen(old(self)@.worker.req_gen),
                            last_sent: Some((text, at)),
                        },
                        ..old(self)@
                    })
                    &&& r matches Some(q) && q.req_gen == next_gen(old(self)@.worker.req_gen)
                        && q.buffer@ == text && q.cursor_pos == at
                }
            }),
            shed_wf(final(self)@),
    {
        if !self.editor.cursor_at_max() {
            return None;
        }
        let buf = self.editor.joined();
        let at = self.editor.cursor_to_flat();
        if buf.as_str().is_empty() {
            return None;
        }
        let r = self.worker.dispatch_worker(buf, at);
        assert(self@ =~= (ShedV { worker: self.worker@, ..old(self)@ }));
        r
    }
}

/// The cursor is at the end of the text.
pub open spec fn at_end(b: BufV) -> bool {
    b.cursor.pos.row == b.lines.len() - 1 && b.cursor.pos.col >= crate::linebuf::pos::last_col(
        b.lines.last().len() as int,
        b.cursor.exclusive,
    )
}

fn push_dismissal(v: &mut Vec<Act>)
    requires
        old(v)@.len() == 0,
    ensures
        views(final(v)@) == dismissal(),
{
    v.push(Act::OnCompletionCancel);
    v.push(Act::UpdateHint);
    v.push(Act::ClearCompleter);
    v.push(Act::ShowMode(ShownMode::Current));
    assert(views(v@) =~= dismissal());
}

} // verus!
