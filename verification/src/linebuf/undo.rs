//! Undoing edits.

use vstd::prelude::*;
use crate::linebuf::buffer::{BufV, LineBuf};
use crate::linebuf::edit::{Edit, EditV};
use crate::linebuf::lines::{Lines, LinesV};
use crate::linebuf::pos::{Cursor, Pos};
use crate::seqs::{group_views, views};

verus! {

broadcast use group_views;

/// Edits without those at the end that change nothing.
pub open spec fn without_idle(s: Seq<EditV>) -> Seq<EditV>
    decreases s.len(),
{
    if s.len() > 0 && s.last().old == s.last().new {
        without_idle(s.drop_last())
    } else {
        s
    }
}

/// The buffer with the last edit that changed something undone.
pub open spec fn undone(b: BufV) -> BufV {
    let s = without_idle(b.undo_stack);
    if s.len() == 0 {
        BufV { undo_stack: s, ..b }
    } else {
        BufV {
            lines: s.last().old,
            cursor: Cursor { pos: s.last().old_cursor, ..b.cursor },
            undo_stack: s.drop_last(),
            redo_stack: b.redo_stack.push(s.last()),
            ..b
        }
    }
}

/// The buffer with the edit undone last done again.
pub open spec fn redone(b: BufV) -> BufV {
    let s = without_idle(b.redo_stack);
    if s.len() == 0 {
        BufV { redo_stack: s, ..b }
    } else {
        BufV {
            lines: s.last().new,
            cursor: Cursor { pos: s.last().new_cursor, ..b.cursor },
            redo_stack: s.drop_last(),
            undo_stack: b.undo_stack.push(s.last()),
            ..b
        }
    }
}

/// The edits with the last one marked.
pub open spec fn last_marked(s: Seq<EditV>, merging: bool) -> Seq<EditV> {
    if s.len() == 0 {
        s
    } else {
        s.update(s.len() - 1, EditV { merging, ..s.last() })
    }
}

/// The edits once the buffer came to hold `now`: the last one goes on where it
/// is open for that, else there is a new one.
pub open spec fn recorded(s: Seq<EditV>, was: LinesV, now: LinesV, old_cursor: Pos, new_cursor: Pos) -> Seq<
    EditV,
> {
    if s.len() > 0 && s.last().merging {
        s.update(s.len() - 1, EditV { new: now, ..s.last() })
    } else {
        s.push(EditV { old_cursor, new_cursor, old: was, new: now, merging: false })
    }
}

/// What is undone is done again: the text, the cursor and the stacks are what
/// they were after the edit.
pub proof fn law_redo_undoes_undo(b: BufV)
    requires
        b.undo_stack.len() > 0,
        b.undo_stack.last().old != b.undo_stack.last().new,
        b.undo_stack.last().new == b.lines,
        b.undo_stack.last().new_cursor == b.cursor.pos,
    ensures
        undone(b).lines == b.undo_stack.last().old,
        redone(undone(b)) == b,
{
    let s = b.undo_stack;
    assert(s.drop_last().push(s.last()) =~= s);
    let r = b.redo_stack.push(s.last());
    assert(r.drop_last() =~= b.redo_stack);
    assert(redone(undone(b)) =~= b);
}

/// Undoing what was just done again leads back.
pub proof fn law_undo_undoes_redo(b: BufV)
    requires
        b.redo_stack.len() > 0,
        b.redo_stack.last().old != b.redo_stack.last().new,
        b.redo_stack.last().old == b.lines,
        b.redo_stack.last().old_cursor == b.cursor.pos,
    ensures
        redone(b).lines == b.redo_stack.last().new,
        undone(redone(b)) == b,
{
    let s = b.redo_stack;
    assert(s.drop_last().push(s.last()) =~= s);
    let r = b.undo_stack.push(s.last());
    assert(r.drop_last() =~= b.undo_stack);
    assert(undone(redone(b)) =~= b);
}

fn pop_changing(stack: &mut Vec<Edit>) -> (e: Option<Edit>)
    ensures
        ({
            let s = without_idle(views(old(stack)@));
            if s.len() == 0 {
                e is None && views(final(stack)@) == s
            } else {
                e is Some && e->0@ == s.last() && views(final(stack)@) == s.drop_last()
            }
        }),
{
    loop
        invariant
            without_idle(views(stack@)) == without_idle(views(old(stack)@)),
        decreases stack@.len(),
    {
        let ghost was = stack@;
        match stack.pop() {
            Some(e) => {
                assert(views(stack@) =~= views(was).drop_last());
                assert(e@ == views(was).last());
                if !e.is_empty() {
                    return Some(e);
                }
            },
            None => {
                assert(views(stack@) =~= Seq::<EditV>::empty());
                return None;
            },
        }
    }
}

fn mark_last(stack: &mut Vec<Edit>, merging: bool)
    ensures
        views(final(stack)@) == last_marked(views(old(stack)@), merging),
{
    let ghost was = stack@;
    match stack.pop() {
        Some(e) => {
            let mut e = e;
            e.merging = merging;
            stack.push(e);
            assert(views(stack@) =~= last_marked(views(was), merging));
        },
        None => {
            assert(views(stack@) =~= views(was));
        },
    }
}

impl LineBuf {
    /// Undoes the last edit that changed something.
    pub fn undo(&mut self)
        ensures
            final(self)@ == undone(old(self)@),
    {
        match pop_changing(&mut self.undo_stack) {
            Some(e) => {
                self.lines = e.old.clone();
                self.cursor.pos = e.old_cursor;
                self.redo_stack.push(e);
            },
            None => {},
        }
        assert(self@ =~= undone(old(self)@));
    }

    /// Does the edit undone last again.
    pub fn redo(&mut self)
        ensures
            final(self)@ == redone(old(self)@),
    {
        match pop_changing(&mut self.redo_stack) {
            Some(e) => {
                self.lines = e.new.clone();
                self.cursor.pos = e.new_cursor;
                self.undo_stack.push(e);
            },
            None => {},
        }
        assert(self@ =~= redone(old(self)@));
    }

    /// Marks the last edit as one that goes on, or does not.
    pub(crate) fn mark_last_edit(&mut self, merging: bool)
        ensures
            final(self)@ == (BufV {
                undo_stack: last_marked(old(self)@.undo_stack, merging),
                ..old(self)@
            }),
    {
        mark_last(&mut self.undo_stack, merging);
        assert(self@ =~= (BufV {
            undo_stack: last_marked(old(self)@.undo_stack, merging),
            ..old(self)@
        }));
    }

    /// Whether the last edit goes on.
    pub fn is_merging(&self) -> (r: bool)
        ensures
            r == (self@.undo_stack.len() > 0 && self@.undo_stack.last().merging),
    {
        let n = self.undo_stack.len();
        n > 0 && self.undo_stack[n - 1].merging
    }

    /// Makes the edits that follow one, together with the last.
    pub fn start_undo_merge(&mut self)
        ensures
            final(self)@ == (BufV {
                merging_undos: true,
                undo_stack: last_marked(old(self)@.undo_stack, true),
                ..old(self)@
            }),
    {
        self.merging_undos = true;
        mark_last(&mut self.undo_stack, true);
        assert(self@ =~= (BufV {
            merging_undos: true,
            undo_stack: last_marked(old(self)@.undo_stack, true),
            ..old(self)@
        }));
    }

    /// Ends that; an edit that changes nothing keeps what follows apart.
    pub fn stop_undo_merge(&mut self)
        ensures
            final(self)@ == (BufV {
                merging_undos: false,
                undo_stack: last_marked(old(self)@.undo_stack, false).push(
                    EditV {
                        old_cursor: old(self)@.cursor.pos,
                        new_cursor: old(self)@.cursor.pos,
                        old: old(self)@.lines,
                        new: old(self)@.lines,
                        merging: false,
                    },
                ),
                ..old(self)@
            }),
    {
        self.merging_undos = false;
        mark_last(&mut self.undo_stack, false);
        let here = self.cursor.pos;
        let was = self.lines.clone();
        let now = self.lines.clone();
        self.undo_stack.push(
            Edit { old_cursor: here, new_cursor: here, old: was, new: now, merging: false },
        );
        assert(self@ =~= (BufV {
            merging_undos: false,
            undo_stack: last_marked(old(self)@.undo_stack, false).push(
                EditV {
                    old_cursor: here,
                    new_cursor: here,
                    old: old(self)@.lines,
                    new: old(self)@.lines,
                    merging: false,
                },
            ),
            ..old(self)@
        }));
    }

    /// Records that the buffer came to hold what it holds from `was`.
    pub fn handle_edit(&mut self, was: Lines, new_cursor: Pos, old_cursor: Pos)
        ensures
            final(self)@ == (BufV {
                undo_stack: recorded(
                    old(self)@.undo_stack,
                    was@,
                    old(self)@.lines,
                    old_cursor,
                    new_cursor,
                ),
                ..old(self)@
            }),
    {
        let ghost stack = self@.undo_stack;
        let now = self.lines.clone();
        if self.is_merging() {
            match self.undo_stack.pop() {
                Some(e) => {
                    let mut e = e;
                    e.new = now;
                    self.undo_stack.push(e);
                },
                None => {},
            }
        } else {
            self.undo_stack.push(
                Edit { old_cursor, new_cursor, old: was, new: now, merging: false },
            );
        }
        assert(self@.undo_stack =~= recorded(
            stack,
            was@,
            self@.lines,
            old_cursor,
            new_cursor,
        ));
        assert(self@ =~= (BufV { undo_stack: self@.undo_stack, ..old(self)@ }));
    }
}

} // verus!
