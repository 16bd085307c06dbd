//! Going through the history: entries shown in place of the typed text, put
//! together with it, or searched for.

use vstd::prelude::*;
use crate::editcmd::{Cmd, Direction, EditCmd, Motion};
use crate::linebuf::buffer::{fixed, fresh, moved, opt_view, wf, BufV, LineBuf};
use crate::linebuf::change::{joined_left, joined_right, popped_left, popped_right};
use crate::linebuf::lines::{blank, lines_of, text_of};
use crate::linebuf::number::{count_text, digits_of};
use crate::linebuf::pos::end_of_all;
use crate::linebuf::undo::recorded;
use crate::readline::acts::{act_if, copy_texts, Act, ActV, ShownMode};
use crate::readline::session::{
    clamp_set, focus, focus_history, refreshed, shed_wf, with_focus, with_focus_history, ScrollV,
    ShedLine, ShedV,
};
use crate::seqs::{group_views, sat, views};
use crate::shell::Opts;

verus! {

broadcast use group_views;

/// A buffer that shows an entry, the cursor at its end.
pub open spec fn entry_buffer(entry: Seq<char>, opts: Opts) -> BufV {
    let b = fixed(
        BufV { lines: lines_of(entry), concat_points: Seq::empty(), ..fresh() },
        opts,
    );
    moved(BufV { hint: None, ..b }, end_of_all())
}

/// The entry in place of the typed text, or the typed text back.
#[verifier::opaque]
pub open spec fn history_swapped(v: ShedV, entry: Option<Seq<char>>, opts: Opts) -> ShedV {
    let h = focus_history(v);
    match entry {
        Some(e) => with_focus(
            with_focus_history(
                v,
                ScrollV {
                    pending: if h.pending is Some {
                        h.pending
                    } else {
                        Some(focus(v))
                    },
                    ..h
                },
            ),
            fixed(clamp_set(entry_buffer(e, opts), v.mode.clamp), opts),
        ),
        None => match h.pending {
            Some(b) => with_focus(
                with_focus_history(v, ScrollV { pending: None, ..h }),
                fixed(clamp_set(b, v.mode.clamp), opts),
            ),
            None => v,
        },
    }
}

/// What is to be done to scroll the history.
#[derive(Debug)]
pub enum ScrollAsk {
    /// Nothing: there is nothing below the typed text.
    Bell,
    /// Look for entries like the typed text first.
    Refresh(String),
    Go,
}

/// How a command puts entries together with the typed text.
#[derive(Clone, Copy, Debug, PartialEq, Eq, Structural)]
pub enum Joining {
    /// Entries go before it.
    Left,
    /// Entries go behind it.
    Right,
    /// The last entry put before it goes again.
    PopLeft,
    /// The last entry put behind it goes again.
    PopRight,
}

/// What a command that goes up or down does to the text, from the way entries
/// were put together with it before.
pub open spec fn joining(up: bool, dir: Option<Direction>) -> Joining {
    if up {
        if dir == Some(Direction::Forward) {
            Joining::PopRight
        } else {
            Joining::Left
        }
    } else {
        if dir == Some(Direction::Backward) {
            Joining::PopLeft
        } else {
            Joining::Right
        }
    }
}

/// What stands between entries put together.
pub open spec fn separator(cmd: EditCmd) -> Seq<char> {
    if cmd.flags.has_shift {
        " && "@
    } else {
        "; "@
    }
}

/// The text with the first `k` entries put before or behind it, the cursor at
/// the end.
pub open spec fn entries_joined(b: BufV, sep: Seq<char>, entries: Seq<Option<Seq<char>>>, left: bool, k: int) -> BufV
    decreases k,
{
    if k <= 0 {
        b
    } else {
        let c = entries_joined(b, sep, entries, left, k - 1);
        match entries[k - 1] {
            Some(e) => moved(
                if left {
                    joined_left(c, sep, e)
                } else {
                    joined_right(c, sep, e)
                },
                end_of_all(),
            ),
            None => c,
        }
    }
}

/// The buffer without its text.
#[verifier::opaque]
pub open spec fn emptied(b: BufV, opts: Opts) -> BufV {
    fixed(BufV { lines: seq![blank()], concat_points: Seq::empty(), ..b }, opts)
}

/// The text with the entry put before or behind it last taken out again.
#[verifier::opaque]
pub open spec fn entry_popped(b: BufV, left: bool, opts: Opts) -> BufV {
    if left {
        popped_left(b, opts)
    } else {
        popped_right(b, opts)
    }
}

/// The text with up to `k` entries taken out again. Where there are no more,
/// it is emptied.
pub open spec fn entries_popped(b: BufV, left: bool, k: int, opts: Opts) -> BufV
    decreases k,
{
    if k <= 0 {
        b
    } else if b.concat_points.len() == 0 {
        emptied(b, opts)
    } else {
        entries_popped(entry_popped(b, left, opts), left, k - 1, opts)
    }
}

/// How many of `k` entries were taken out again.
pub open spec fn pops(points: int, k: int) -> int {
    if k <= points {
        k
    } else {
        points
    }
}

/// An edit recorded, so that it can be undone.
pub open spec fn edit_recorded(was: BufV, b: BufV) -> BufV {
    BufV {
        hint: if crate::linebuf::buffer::no_text(b.lines) {
            None
        } else {
            b.hint
        },
        undo_stack: recorded(b.undo_stack, was.lines, b.lines, was.cursor.pos, b.cursor.pos),
        ..b
    }
}

/// The words for an entry that was jumped to.
pub open spec fn jumped_text(idx: usize, total: usize) -> Seq<char> {
    "jumped to hist entry: "@ + digits_of(sat(idx + 1) as int, 10) + "/"@ + digits_of(
        total as int,
        10,
    )
}

/// What a search in the history leads to.
#[derive(Debug)]
pub enum SelectorResponse {
    /// The entry with a number, and what it says.
    Accept { idx: usize, content: String },
    Dismiss,
    Consumed,
}

/// How a search in the history begins.
#[derive(Debug)]
pub enum HistStart {
    /// There is only one entry.
    One(String),
    /// The entries are shown, or they were taken away again; with all of them,
    /// and those that match.
    Open { shown: bool, entries: Vec<String>, matches: Vec<String> },
}

fn pop_entry(buf: &mut LineBuf, left: bool, opts: &Opts) -> (r: bool)
    requires
        wf(old(buf)@),
    ensures
        r == (old(buf)@.concat_points.len() > 0),
        r ==> final(buf)@ == entry_popped(old(buf)@, left, *opts),
        r ==> final(buf)@.concat_points.len() == old(buf)@.concat_points.len() - 1,
        !r ==> final(buf)@ == emptied(old(buf)@, *opts),
        wf(final(buf)@),
{
    reveal(entry_popped);
    reveal(emptied);
    let some = if left {
        buf.pop_left(opts)
    } else {
        buf.pop_right(opts)
    };
    if !some {
        buf.clear_buffer(opts);
    }
    some
}

fn pop_many(buf: &mut LineBuf, count: usize, left: bool, opts: &Opts) -> (r: (usize, bool))
    requires
        wf(old(buf)@),
    ensures
        final(buf)@ == entries_popped(old(buf)@, left, count as int, *opts),
        r.0 == pops(old(buf)@.concat_points.len() as int, count as int),
        r.1 == (count > old(buf)@.concat_points.len()),
        wf(final(buf)@),
{
    let ghost b = buf@;
    let mut i: usize = 0;
    while i < count
        invariant
            i <= count,
            wf(buf@),
            b.concat_points.len() >= i,
            buf@.concat_points.len() == b.concat_points.len() - i,
            entries_popped(b, left, count as int, *opts) == entries_popped(
                buf@,
                left,
                count - i,
                *opts,
            ),
            b == old(buf)@,
        decreases count - i,
    {
        if !pop_entry(buf, left, opts) {
            return (i, true);
        }
        i += 1;
    }
    (i, false)
}

impl ShedLine {
    /// Shows an entry in place of the typed text, or the typed text again.
    /// Tells whether there is nothing to show.
    pub fn swap_history_editor(&mut self, entry: Option<&str>, opts: &Opts) -> (bell: bool)
        requires
            shed_wf(old(self)@),
        ensures
            final(self)@ == history_swapped(
                old(self)@,
                match entry {
                    Some(e) => Some(e@),
                    None => None,
                },
                *opts,
            ),
            bell == (entry is None && focus_history(old(self)@).pending is None),
            shed_wf(final(self)@),
    {
        reveal(history_swapped);
        let clamp = self.mode.clamp;
        let mut b = match entry {
            Some(e) => {
                let typed = self.take_focus();
                let mut b = LineBuf::new();
                b.set_buffer(e, opts);
                if !self.has_pending() {
                    self.put_pending(Some(typed));
                } else {
                    proof {
                        assert(self@ =~= with_focus_history(self@, focus_history(self@)));
                    }
                }
                b.clear_hint();
                b.move_cursor_to_end();
                b
            },
            None => match self.take_pending() {
                Some(b) => b,
                None => {
                    assert(self@ =~= old(self)@);
                    return true;
                },
            },
        };
        b.set_cursor_clamp(clamp);
        b.fix_cursor(opts);
        self.put_focus(b);
        assert(self@ =~= history_swapped(
            old(self)@,
            match entry {
                Some(e) => Some(e@),
                None => None,
            },
            *opts,
        ));
        false
    }

    /// What to ask of the history to scroll it.
    pub fn scroll_history(&self, count: isize) -> (a: ScrollAsk)
        ensures
            match a {
                ScrollAsk::Bell => focus_history(self@).pending is None && count >= 0,
                ScrollAsk::Refresh(s) => focus_history(self@).pending is None && count < 0 && s@
                    == text_of(self@.editor.lines),
                ScrollAsk::Go => focus_history(self@).pending is Some,
            },
    {
        if !self.has_pending() {
            if count >= 0 {
                return ScrollAsk::Bell;
            }
            return ScrollAsk::Refresh(self.editor.joined());
        }
        ScrollAsk::Go
    }

    /// Shows the entry that was jumped to, where there is one.
    pub fn scroll_history_to(&mut self, idx: usize, total: usize, entry: Option<&str>, opts: &Opts) -> (v:
        Vec<Act>)
        requires
            shed_wf(old(self)@),
        ensures
            final(self)@ == history_swapped(
                old(self)@,
                match entry {
                    Some(e) => Some(e@),
                    None => None,
                },
                *opts,
            ),
            views(v@) == act_if(entry is Some, ActV::StatusMsg(jumped_text(idx, total))) + act_if(
                entry is None && focus_history(old(self)@).pending is None,
                ActV::Bell,
            ),
            shed_wf(final(self)@),
    {
        let mut v: Vec<Act> = Vec::new();
        if entry.is_some() {
            let mut s = String::from_str("jumped to hist entry: ");
            let i = count_text(idx.saturating_add(1));
            s.append(i.as_str());
            s.append("/");
            let n = count_text(total);
            s.append(n.as_str());
            v.push(Act::StatusMsg(s));
        }
        let bell = self.swap_history_editor(entry, opts);
        if bell {
            v.push(Act::Bell);
        }
        assert(views(v@) =~= act_if(entry is Some, ActV::StatusMsg(jumped_text(idx, total)))
            + act_if(
            entry is None && focus_history(old(self)@).pending is None,
            ActV::Bell,
        ));
        v
    }

    /// What a command that puts entries together does, and how often.
    pub fn plan_joining(cmd: &EditCmd, dir: Option<Direction>) -> (r: Option<(Joining, usize)>)
        ensures
            r == match cmd.motion {
                Some(Cmd(n, Motion::LineUp)) => Some((joining(true, dir), n)),
                Some(Cmd(n, Motion::LineDown)) => Some((joining(false, dir), n)),
                _ => None,
            },
    {
        let (up, n) = match &cmd.motion {
            Some(Cmd(n, Motion::LineUp)) => (true, *n),
            Some(Cmd(n, Motion::LineDown)) => (false, *n),
            _ => {
                return None;
            },
        };
        let j = if up {
            match dir {
                Some(Direction::Forward) => Joining::PopRight,
                _ => Joining::Left,
            }
        } else {
            match dir {
                Some(Direction::Backward) => Joining::PopLeft,
                _ => Joining::Right,
            }
        };
        Some((j, n))
    }

    /// Puts the entries that were scrolled to together with the text.
    pub fn join_entries(&mut self, cmd: &EditCmd, entries: &[Option<String>], left: bool)
        requires
            shed_wf(old(self)@),
        ensures
            final(self)@ == (ShedV {
                editor: edit_recorded(
                    old(self)@.editor,
                    entries_joined(
                        old(self)@.editor,
                        separator(*cmd),
                        texts(entries@),
                        left,
                        entries@.len() as int,
                    ),
                ),
                ..old(self)@
            }),
            shed_wf(final(self)@),
    {
        let sep = if cmd.flags.has_shift {
            " && "
        } else {
            "; "
        };
        let was = self.editor.snapshot();
        let ghost b = self.editor@;
        let mut i: usize = 0;
        while i < entries.len()
            invariant
                i <= entries@.len(),
                sep@ == separator(*cmd),
                wf(self.editor@),
                self@ == (ShedV { editor: self.editor@, ..old(self)@ }),
                self.editor@ == entries_joined(b, sep@, texts(entries@), left, i as int),
            decreases entries@.len() - i,
        {
            assert(texts(entries@)[i as int] == opt_view(entries@[i as int]));
            if let Some(e) = &entries[i] {
                if left {
                    self.editor.concat_left(sep, e.as_str());
                } else {
                    self.editor.concat_right(sep, e.as_str());
                }
                self.editor.move_cursor_to_end();
            }
            i += 1;
        }
        self.editor.record_edit(was);
        assert(self@ =~= (ShedV {
            editor: edit_recorded(
                old(self)@.editor,
                entries_joined(
                    old(self)@.editor,
                    separator(*cmd),
                    texts(entries@),
                    left,
                    entries@.len() as int,
                ),
            ),
            ..old(self)@
        }));
    }

    /// Takes the entries put together with the text last out again. Tells how
    /// many there were, and whether the text was emptied for want of more.
    pub fn pop_entries(&mut self, count: usize, left: bool, opts: &Opts) -> (r: (usize, bool))
        requires
            shed_wf(old(self)@),
        ensures
            final(self)@ == (ShedV {
                editor: edit_recorded(
                    old(self)@.editor,
                    entries_popped(old(self)@.editor, left, count as int, *opts),
                ),
                ..old(self)@
            }),
            r.0 == pops(old(self)@.editor.concat_points.len() as int, count as int),
            r.1 == (count > old(self)@.editor.concat_points.len()),
            shed_wf(final(self)@),
    {
        let was = self.editor.snapshot();
        let (i, emptied) = pop_many(&mut self.editor, count, left, opts);
        self.editor.record_edit(was);
        assert(self@ =~= (ShedV {
            editor: edit_recorded(
                old(self)@.editor,
                entries_popped(old(self)@.editor, left, count as int, *opts),
            ),
            ..old(self)@
        }));
        (i, emptied)
    }

    /// Goes by what was done in a search of the history. `entry` is the entry
    /// that was accepted, where the history has it.
    pub fn handle_hist_search_key(
        &mut self,
        resp: &SelectorResponse,
        entry: Option<&str>,
        total: usize,
        opts: &Opts,
    ) -> (v: Vec<Act>)
        requires
            shed_wf(old(self)@),
        ensures
            final(self)@ == hist_search_state(old(self)@, *resp, opt_str(entry), *opts),
            views(v@) == hist_search_acts(old(self)@, *resp, opt_str(entry), total),
            shed_wf(final(self)@),
    {
        match resp {
            SelectorResponse::Accept { idx, content } => {
                let mut v = self.scroll_history_to(*idx, total, entry, opts);
                v.push(Act::ClearFinder);
                v.push(Act::StopSearch);
                self.set_searching(false);
                v.push(Act::OnHistorySelect(content.clone()));
                v.push(Act::ShowMode(ShownMode::Current));
                self.mark_dirty();
                assert(views(v@) =~= hist_search_acts(old(self)@, *resp, opt_str(entry), total));
                v
            },
            SelectorResponse::Dismiss => {
                let mut v: Vec<Act> = Vec::new();
                v.push(Act::OnHistoryClose);
                self.editor.clear_hint();
                assert(self@ =~= (ShedV {
                    editor: BufV { hint: None, ..old(self)@.editor },
                    ..old(self)@
                }));
                v.push(Act::ClearFinder);
                v.push(Act::StopSearch);
                self.set_searching(false);
                v.push(Act::ShowMode(ShownMode::Current));
                self.mark_dirty();
                assert(views(v@) =~= hist_search_acts(old(self)@, *resp, opt_str(entry), total));
                v
            },
            SelectorResponse::Consumed => {
                self.needs_redraw = true;
                let v: Vec<Act> = Vec::new();
                assert(views(v@) =~= hist_search_acts(old(self)@, *resp, opt_str(entry), total));
                v
            },
        }
    }

    /// Begins a search in the history, with the text of the buffer that keys
    /// go to.
    pub fn start_hist_search(&mut self, start: &HistStart, opts: &Opts) -> (v: Vec<Act>)
        requires
            shed_wf(old(self)@),
        ensures
            final(self)@ == hist_start_state(old(self)@, *start, *opts),
            views(v@) == hist_start_acts(old(self)@, *start),
            shed_wf(final(self)@),
    {
        let mut v: Vec<Act> = Vec::new();
        match start {
            HistStart::One(entry) => {
                v.push(Act::OnHistorySelect(entry.clone()));
                let mut b = self.take_focus();
                b.set_buffer(entry.as_str(), opts);
                b.move_cursor_to_end();
                self.put_focus(b);
                v.push(Act::UpdatePending);
                self.editor.clear_hint();
            },
            HistStart::Open { shown, entries, matches } => {
                let search = self.focused_editor().joined();
                v.push(
                    Act::OnHistoryOpen {
                        entries: copy_texts(entries),
                        matches: copy_texts(matches),
                        search,
                    },
                );
                if *shown {
                    self.set_searching(true);
                    v.push(Act::ShowMode(ShownMode::Search));
                    self.mark_dirty();
                    self.editor.clear_hint();
                } else {
                    v.push(Act::Bell);
                }
            },
        }
        assert(views(v@) =~= hist_start_acts(old(self)@, *start));
        assert(self@ =~= hist_start_state(old(self)@, *start, *opts));
        v
    }
}

pub open spec fn opt_str(s: Option<&str>) -> Option<Seq<char>> {
    match s {
        Some(t) => Some(t@),
        None => None,
    }
}

pub open spec fn texts(entries: Seq<Option<String>>) -> Seq<Option<Seq<char>>> {
    Seq::new(entries.len(), |i: int| opt_view(entries[i]))
}

/// The state with the search in the history ended.
pub open spec fn search_ended(v: ShedV) -> ShedV {
    refreshed(
        ShedV {
            needs_redraw: true,
            ..with_focus_history(v, ScrollV { searching: false, ..focus_history(v) })
        },
    )
}

/// The state after a key in a search of the history.
pub open spec fn hist_search_state(v: ShedV, resp: SelectorResponse, entry: Option<Seq<char>>, opts: Opts) -> ShedV {
    match resp {
        SelectorResponse::Accept { .. } => search_ended(history_swapped(v, entry, opts)),
        SelectorResponse::Dismiss => search_ended(
            ShedV { editor: BufV { hint: None, ..v.editor }, ..v },
        ),
        SelectorResponse::Consumed => ShedV { needs_redraw: true, ..v },
    }
}

/// What is left to do after a key in a search of the history.
pub open spec fn hist_search_acts(v: ShedV, resp: SelectorResponse, entry: Option<Seq<char>>, total: usize) -> Seq<ActV> {
    match resp {
        SelectorResponse::Accept { idx, content } => act_if(
            entry is Some,
            ActV::StatusMsg(jumped_text(idx, total)),
        ) + act_if(entry is None && focus_history(v).pending is None, ActV::Bell) + seq![
            ActV::ClearFinder,
            ActV::StopSearch,
            ActV::OnHistorySelect(content@),
            ActV::ShowMode(ShownMode::Current),
        ],
        SelectorResponse::Dismiss => seq![
            ActV::OnHistoryClose,
            ActV::ClearFinder,
            ActV::StopSearch,
            ActV::ShowMode(ShownMode::Current),
        ],
        SelectorResponse::Consumed => Seq::empty(),
    }
}

/// The state once a search in the history has begun.
pub open spec fn hist_start_state(v: ShedV, start: HistStart, opts: Opts) -> ShedV {
    let w = match start {
        HistStart::One(entry) => with_focus(
            v,
            moved(
                fixed(
                    BufV { lines: lines_of(entry@), concat_points: Seq::empty(), ..focus(v) },
                    opts,
                ),
                end_of_all(),
            ),
        ),
        HistStart::Open { shown: true, .. } => refreshed(
            ShedV {
                needs_redraw: true,
                ..with_focus_history(v, ScrollV { searching: true, ..focus_history(v) })
            },
        ),
        HistStart::Open { shown: false, .. } => v,
    };
    match start {
        HistStart::Open { shown: false, .. } => v,
        _ => ShedV { editor: BufV { hint: None, ..w.editor }, ..w },
    }
}

/// What is left to do once a search in the history has begun.
pub open spec fn hist_start_acts(v: ShedV, start: HistStart) -> Seq<ActV> {
    match start {
        HistStart::One(entry) => seq![ActV::OnHistorySelect(entry@), ActV::UpdatePending],
        HistStart::Open { shown, entries, matches } => seq![
            ActV::OnHistoryOpen {
                entries: views(entries@),
                matches: views(matches@),
                search: text_of(focus(v).lines),
            },
            if shown {
                ActV::ShowMode(ShownMode::Search)
            } else {
                ActV::Bell
            },
        ],
    }
}

/// Going to an entry and back to the typed text leaves the text and the
/// history as they were.
pub proof fn law_scrolling_back_restores(v: ShedV, entry: Seq<char>, opts: Opts)
    requires
        shed_wf(v),
        focus_history(v).pending is None,
    ensures
        ({
            let there = history_swapped(v, Some(entry), opts);
            let back = history_swapped(there, None, opts);
            &&& focus_history(there).pending == Some(focus(v))
            &&& focus_history(back).pending is None
            &&& focus(back).lines == focus(v).lines
            &&& back == with_focus(v, fixed(clamp_set(focus(v), v.mode.clamp), opts))
        }),
{
    reveal(history_swapped);
    let there = history_swapped(v, Some(entry), opts);
    let back = history_swapped(there, None, opts);
    assert(back =~= with_focus(v, fixed(clamp_set(focus(v), v.mode.clamp), opts)));
}

} // verus!
