//! The state of the prompt: the buffer being edited, the mode, and what there
//! is to draw and to repeat.

use vstd::prelude::*;
use crate::editcmd::{Cmd, Motion};
use crate::keys::{KeyEvent, KeyEventV};
use crate::layout::Layout;
use crate::linebuf::buffer::{fresh, opt_view, wf, BufV, LineBuf};
use crate::linebuf::pos::Cursor;
use crate::readline::mode::{keymap_flags, CmdReplay, KeyMapFlags, Mode, ModeReport};
use crate::readline::record::MacroRecord;
use crate::readline::worker::{HintWorker, WorkerV};
use crate::register::RegisterName;
use crate::seqs::{group_views, views};
use crate::statusline::{Prompt, StatusLine};

verus! {

broadcast use group_views;

/// Where the prompt stands in a history.
pub struct Scroll {
    /// The text that was being typed, while an entry is shown in its place.
    pub pending: Option<LineBuf>,
    /// The entries are being searched.
    pub searching: bool,
}

#[verifier::ext_equal]
pub struct ScrollV {
    pub pending: Option<BufV>,
    pub searching: bool,
}

impl View for Scroll {
    type V = ScrollV;

    open spec fn view(&self) -> ScrollV {
        ScrollV { pending: opt_view(self.pending), searching: self.searching }
    }
}

/// The editor that a mode has of its own, and its history where it keeps one.
pub struct SubEditor {
    pub editor: LineBuf,
    pub history: Option<Scroll>,
}

#[verifier::ext_equal]
pub struct SubV {
    pub editor: BufV,
    pub history: Option<ScrollV>,
}

impl View for SubEditor {
    type V = SubV;

    open spec fn view(&self) -> SubV {
        SubV { editor: self.editor@, history: opt_view(self.history) }
    }
}

/// The prompt while a line is being typed.
pub struct ShedLine {
    pub prompt: Prompt,
    pub statline: Option<StatusLine>,
    /// Candidates for completion are being chosen from.
    pub completing: bool,
    pub mode: Mode,
    /// The mode that was left for the current one.
    pub saved_mode: Option<ModeReport>,
    pub pending_keymap: Vec<KeyEvent>,
    pub repeat_action: Option<CmdReplay>,
    pub repeat_motion: Option<Cmd<Motion>>,
    pub repeat_macro: Option<RegisterName>,
    pub editor: LineBuf,
    pub sub: Option<SubEditor>,
    pub history: Scroll,
    pub macro_record: MacroRecord,
    pub old_layout: Option<Layout>,
    pub blank_rows_above: u16,
    pub overlay_displacement: u16,
    pub needs_redraw: bool,
    pub ctrl_d_warning_counter: usize,
    pub worker: HintWorker,
}

#[verifier::ext_equal]
pub struct ShedV {
    pub prompt: Prompt,
    pub statline: Option<StatusLine>,
    pub completing: bool,
    pub mode: Mode,
    pub saved_mode: Option<ModeReport>,
    pub pending_keymap: Seq<KeyEventV>,
    pub repeat_action: Option<CmdReplay>,
    pub repeat_motion: Option<Cmd<Motion>>,
    pub repeat_macro: Option<RegisterName>,
    pub editor: BufV,
    pub sub: Option<SubV>,
    pub history: ScrollV,
    pub macro_record: Option<(RegisterName, Seq<KeyEventV>)>,
    pub old_layout: Option<Layout>,
    pub blank_rows_above: u16,
    pub overlay_displacement: u16,
    pub needs_redraw: bool,
    pub ctrl_d_warning_counter: usize,
    pub worker: WorkerV,
}

impl View for ShedLine {
    type V = ShedV;

    open spec fn view(&self) -> ShedV {
        ShedV {
            prompt: self.prompt,
            statline: self.statline,
            completing: self.completing,
            mode: self.mode,
            saved_mode: self.saved_mode,
            pending_keymap: views(self.pending_keymap@),
            repeat_action: self.repeat_action,
            repeat_motion: self.repeat_motion,
            repeat_macro: self.repeat_macro,
            editor: self.editor@,
            sub: opt_view(self.sub),
            history: self.history@,
            macro_record: self.macro_record@,
            old_layout: self.old_layout,
            blank_rows_above: self.blank_rows_above,
            overlay_displacement: self.overlay_displacement,
            needs_redraw: self.needs_redraw,
            ctrl_d_warning_counter: self.ctrl_d_warning_counter,
            worker: self.worker@,
        }
    }
}

pub open spec fn scroll_wf(s: ScrollV) -> bool {
    s.pending matches Some(b) ==> wf(b)
}

/// Every buffer has a line, and its cursor in one.
pub open spec fn shed_wf(v: ShedV) -> bool {
    &&& wf(v.editor)
    &&& scroll_wf(v.history)
    &&& v.sub matches Some(s) ==> wf(s.editor) && (s.history matches Some(h) ==> scroll_wf(h))
}

/// The buffer that keys go to: that of the mode, where it has one.
pub open spec fn focus(v: ShedV) -> BufV {
    match v.sub {
        Some(s) => s.editor,
        None => v.editor,
    }
}

/// The state with another buffer for the keys.
pub open spec fn with_focus(v: ShedV, b: BufV) -> ShedV {
    match v.sub {
        Some(s) => ShedV { sub: Some(SubV { editor: b, ..s }), ..v },
        None => ShedV { editor: b, ..v },
    }
}

/// The history that is scrolled: that of the mode, where it has one.
pub open spec fn focus_history(v: ShedV) -> ScrollV {
    match v.sub {
        Some(SubV { history: Some(h), .. }) => h,
        _ => v.history,
    }
}

/// The state with the history that is scrolled in another.
pub open spec fn with_focus_history(v: ShedV, h: ScrollV) -> ShedV {
    match v.sub {
        Some(s) => match s.history {
            Some(_) => ShedV { sub: Some(SubV { history: Some(h), ..s }), ..v },
            None => ShedV { history: h, ..v },
        },
        None => ShedV { history: h, ..v },
    }
}

/// The prompt and the status line gone stale.
pub open spec fn refreshed(v: ShedV) -> ShedV {
    ShedV {
        prompt: Prompt { dirty: true, ..v.prompt },
        statline: match v.statline {
            Some(l) => Some(StatusLine { dirty: true, ..l }),
            None => None,
        },
        ..v
    }
}

/// The buffer in a mode that lets the cursor behind the text, or not.
pub open spec fn clamp_set(b: BufV, clamp: bool) -> BufV {
    BufV { cursor: Cursor { exclusive: clamp, ..b.cursor }, ..b }
}

/// The state in another mode.
pub open spec fn mode_swapped(v: ShedV, mode: Mode) -> ShedV {
    refreshed(ShedV { mode, editor: clamp_set(v.editor, mode.clamp), ..v })
}

impl ShedLine {
    /// A prompt with nothing typed yet.
    pub fn new(prompt: Prompt, statline: Option<StatusLine>, mode: Mode) -> (s: ShedLine)
        ensures
            s@ == refreshed(
                ShedV {
                    prompt,
                    statline,
                    completing: false,
                    mode,
                    saved_mode: None,
                    pending_keymap: Seq::empty(),
                    repeat_action: None,
                    repeat_motion: None,
                    repeat_macro: None,
                    editor: fresh(),
                    sub: None,
                    history: ScrollV { pending: None, searching: false },
                    macro_record: None,
                    old_layout: None,
                    blank_rows_above: 0,
                    overlay_displacement: 0,
                    needs_redraw: true,
                    ctrl_d_warning_counter: 0,
                    worker: WorkerV { req_gen: 0, last_sent: None },
                },
            ),
            shed_wf(s@),
    {
        let mut new = ShedLine {
            prompt,
            statline,
            completing: false,
            mode,
            saved_mode: None,
            pending_keymap: Vec::new(),
            repeat_action: None,
            repeat_motion: None,
            repeat_macro: None,
            editor: LineBuf::new(),
            sub: None,
            history: Scroll { pending: None, searching: false },
            macro_record: MacroRecord::Idle,
            old_layout: None,
            blank_rows_above: 0,
            overlay_displacement: 0,
            needs_redraw: true,
            ctrl_d_warning_counter: 0,
            worker: HintWorker::new(),
        };
        new.refresh_prompt();
        new
    }

    /// The prompt and the status line have gone stale.
    pub fn refresh_prompt(&mut self)
        ensures
            final(self)@ == refreshed(old(self)@),
    {
        self.prompt.refresh();
        if let Some(line) = self.statline.as_mut() {
            line.refresh();
        }
        assert(self@ =~= refreshed(old(self)@));
    }

    /// The screen has to be drawn again, the prompt and all.
    pub fn mark_dirty(&mut self)
        ensures
            final(self)@ == refreshed(ShedV { needs_redraw: true, ..old(self)@ }),
    {
        self.needs_redraw = true;
        self.refresh_prompt();
    }

    pub fn needs_redraw(&self) -> (r: bool)
        ensures
            r == self@.needs_redraw,
    {
        self.needs_redraw
    }

    pub fn set_needs_redraw(&mut self, needs_redraw: bool)
        ensures
            final(self)@ == (ShedV { needs_redraw, ..old(self)@ }),
    {
        self.needs_redraw = needs_redraw;
    }

    pub fn in_insert_mode(&self) -> (r: bool)
        ensures
            r == (self@.mode.report == ModeReport::Insert),
    {
        self.mode.report == ModeReport::Insert
    }

    pub fn worker_req_gen(&self) -> (n: u64)
        ensures
            n == self@.worker.req_gen,
    {
        self.worker.req_gen
    }

    /// The flags that key maps go by.
    pub fn curr_keymap_flags(&self) -> (f: KeyMapFlags)
        ensures
            f == keymap_flags(self@.mode),
    {
        self.mode.keymap_flags()
    }

    /// The buffer that keys go to.
    pub fn focused_editor(&self) -> (b: &LineBuf)
        ensures
            b@ == focus(self@),
    {
        match &self.sub {
            Some(s) => &s.editor,
            None => &self.editor,
        }
    }

    /// Takes the buffer that keys go to out, for [`ShedLine::put_focus`].
    pub(crate) fn take_focus(&mut self) -> (b: LineBuf)
        ensures
            b@ == focus(old(self)@),
            final(self)@ == with_focus(old(self)@, fresh()),
    {
        let mut b = LineBuf::new();
        match self.sub.as_mut() {
            Some(s) => {
                std::mem::swap(&mut s.editor, &mut b);
            },
            None => {
                std::mem::swap(&mut self.editor, &mut b);
            },
        }
        assert(self@ =~= with_focus(old(self)@, fresh()));
        b
    }

    /// Puts another buffer for the keys in.
    pub(crate) fn put_focus(&mut self, b: LineBuf)
        ensures
            final(self)@ == with_focus(old(self)@, b@),
    {
        match self.sub.as_mut() {
            Some(s) => {
                s.editor = b;
            },
            None => {
                self.editor = b;
            },
        }
        assert(self@ =~= with_focus(old(self)@, b@));
    }

    /// Takes what the history that is scrolled keeps of the typed text out.
    pub(crate) fn take_pending(&mut self) -> (b: Option<LineBuf>)
        ensures
            opt_view(b) == focus_history(old(self)@).pending,
            final(self)@ == with_focus_history(
                old(self)@,
                ScrollV { pending: None, ..focus_history(old(self)@) },
            ),
    {
        let mut taken: Option<LineBuf> = None;
        let own = match &self.sub {
            Some(s) => s.history.is_some(),
            None => false,
        };
        if own {
            if let Some(s) = self.sub.as_mut() {
                if let Some(h) = s.history.as_mut() {
                    std::mem::swap(&mut h.pending, &mut taken);
                }
            }
        } else {
            std::mem::swap(&mut self.history.pending, &mut taken);
        }
        assert(self@ =~= with_focus_history(
            old(self)@,
            ScrollV { pending: None, ..focus_history(old(self)@) },
        ));
        taken
    }

    /// Keeps a text in the history that is scrolled.
    pub(crate) fn put_pending(&mut self, b: Option<LineBuf>)
        ensures
            final(self)@ == with_focus_history(
                old(self)@,
                ScrollV { pending: opt_view(b), ..focus_history(old(self)@) },
            ),
    {
        let ghost v = opt_view(b);
        let own = match &self.sub {
            Some(s) => s.history.is_some(),
            None => false,
        };
        if own {
            if let Some(s) = self.sub.as_mut() {
                if let Some(h) = s.history.as_mut() {
                    h.pending = b;
                }
            }
        } else {
            self.history.pending = b;
        }
        assert(self@ =~= with_focus_history(
            old(self)@,
            ScrollV { pending: v, ..focus_history(old(self)@) },
        ));
    }

    /// Whether an entry is shown in place of the typed text.
    pub fn has_pending(&self) -> (r: bool)
        ensures
            r == focus_history(self@).pending is Some,
    {
        match &self.sub {
            Some(s) => match &s.history {
                Some(h) => h.pending.is_some(),
                None => self.history.pending.is_some(),
            },
            None => self.history.pending.is_some(),
        }
    }

    /// Whether entries of the history are being searched.
    pub fn is_searching(&self) -> (r: bool)
        ensures
            r == focus_history(self@).searching,
    {
        match &self.sub {
            Some(s) => match &s.history {
                Some(h) => h.searching,
                None => self.history.searching,
            },
            None => self.history.searching,
        }
    }

    /// Begins or ends a search in the history that is scrolled.
    pub fn set_searching(&mut self, searching: bool)
        ensures
            final(self)@ == with_focus_history(
                old(self)@,
                ScrollV { searching, ..focus_history(old(self)@) },
            ),
    {
        let own = match &self.sub {
            Some(s) => s.history.is_some(),
            None => false,
        };
        if own {
            if let Some(s) = self.sub.as_mut() {
                if let Some(h) = s.history.as_mut() {
                    h.searching = searching;
                }
            }
        } else {
            self.history.searching = searching;
        }
        assert(self@ =~= with_focus_history(
            old(self)@,
            ScrollV { searching, ..focus_history(old(self)@) },
        ));
    }

    /// Changes to another mode.
    pub fn swap_mode(&mut self, mode: Mode)
        ensures
            final(self)@ == mode_swapped(old(self)@, mode),
            shed_wf(old(self)@) ==> shed_wf(final(self)@),
    {
        let clamp = mode.clamp;
        self.mode = mode;
        self.editor.set_cursor_clamp(clamp);
        assert(self@ =~= (ShedV { mode, editor: clamp_set(old(self)@.editor, clamp), ..old(self)@ }));
        self.refresh_prompt();
    }
}

} // verus!
