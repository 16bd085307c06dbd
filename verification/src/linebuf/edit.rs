//! Edits that can be undone, and the nesting of lines in blocks.

use vstd::prelude::*;
use crate::linebuf::lines::{Lines, LinesV};
use crate::linebuf::pos::Pos;
use crate::shell::{answer, consult, settled, Answer, Ask};
use crate::text::chars_of;

verus! {

/// The buffer before and after an edit.
#[derive(Debug)]
pub struct Edit {
    pub old_cursor: Pos,
    pub new_cursor: Pos,
    pub old: Lines,
    pub new: Lines,
    /// The next edit of its kind goes into this one.
    pub merging: bool,
}

#[verifier::ext_equal]
pub struct EditV {
    pub old_cursor: Pos,
    pub new_cursor: Pos,
    pub old: LinesV,
    pub new: LinesV,
    pub merging: bool,
}

impl View for Edit {
    type V = EditV;

    open spec fn view(&self) -> EditV {
        EditV {
            old_cursor: self.old_cursor,
            new_cursor: self.new_cursor,
            old: self.old@,
            new: self.new@,
            merging: self.merging,
        }
    }
}

impl Edit {
    pub fn start_merge(&mut self)
        ensures
            final(self)@ == (EditV { merging: true, ..old(self)@ }),
    {
        self.merging = true;
    }

    pub fn stop_merge(&mut self)
        ensures
            final(self)@ == (EditV { merging: false, ..old(self)@ }),
    {
        self.merging = false;
    }

    /// Whether the edit changes nothing.
    pub fn is_empty(&self) -> (r: bool)
        ensures
            r == (self@.old == self@.new),
    {
        self.old == self.new
    }
}

/// Where the rows of a text start, in characters.
pub open spec fn row_starts(s: Seq<char>) -> Seq<int>
    decreases s.len(),
{
    if s.len() == 0 {
        seq![0]
    } else if s.last() == '\n' {
        row_starts(s.drop_last()).push(s.len() as int)
    } else {
        row_starts(s.drop_last())
    }
}

/// How deep the text is nested where row `i` starts; behind the last row, at
/// its end.
pub open spec fn depth_at<S: Fn(&str, Ask) -> Answer>(shell: S, s: Seq<char>, i: int) -> usize {
    if i < row_starts(s).len() {
        answer(shell, s.take(row_starts(s)[i]), Ask::Depth { strict: false }).depth
    } else {
        answer(shell, s, Ask::Depth { strict: true }).depth
    }
}

/// For each row of a text, how deep it is nested at its start and its end.
pub open spec fn levels_of<S: Fn(&str, Ask) -> Answer>(shell: S, s: Seq<char>) -> Seq<
    (usize, usize),
> {
    Seq::new(row_starts(s).len(), |i: int| (depth_at(shell, s, i), depth_at(shell, s, i + 1)))
}

/// Whether the text fails to parse.
pub open spec fn parse_fails<S: Fn(&str, Ask) -> Answer>(shell: S, s: Seq<char>) -> bool {
    answer(shell, s, Ask::Depth { strict: true }).failed
}

pub proof fn lemma_row_starts(s: Seq<char>)
    ensures
        row_starts(s).len() > 0,
        forall|i: int| 0 <= i < row_starts(s).len() ==> 0 <= #[trigger] row_starts(s)[i] <= s.len(),
    decreases s.len(),
{
    if s.len() > 0 {
        lemma_row_starts(s.drop_last());
    }
}

/// Finds how deep each row of a text is nested.
#[derive(Clone, Copy, Debug)]
pub struct IndentCtx;

impl IndentCtx {
    pub fn new() -> (c: IndentCtx)
        ensures
            c == IndentCtx,
    {
        IndentCtx
    }

    /// For each row how deep it is nested at its start and its end, and
    /// whether the text fails to parse. A line feed opens and closes nothing,
    /// so the depth where a row starts is the depth where the one before ends.
    pub fn check_levels_per_row<S: Fn(&str, Ask) -> Answer>(&mut self, shell: &S, input: &str) -> (r:
        (Vec<(usize, usize)>, bool))
        requires
            settled(*shell),
        ensures
            r.0@ == levels_of(*shell, input@),
            r.1 == parse_fails(*shell, input@),
    {
        let chars = chars_of(input);
        let mut starts: Vec<usize> = Vec::new();
        starts.push(0);
        let mut i: usize = 0;
        assert(chars@.take(0) =~= Seq::<char>::empty());
        while i < chars.len()
            invariant
                i <= chars@.len(),
                starts@.len() == row_starts(chars@.take(i as int)).len(),
                forall|j: int|
                    0 <= j < starts@.len() ==> (#[trigger] starts@[j]) == row_starts(
                        chars@.take(i as int),
                    )[j],
            decreases chars@.len() - i,
        {
            assert(chars@.take(i + 1).drop_last() =~= chars@.take(i as int));
            if chars[i] == '\n' {
                starts.push(i + 1);
            }
            i += 1;
        }
        assert(chars@.take(chars@.len() as int) =~= chars@);
        proof {
            lemma_row_starts(input@);
        }
        let n = starts.len();
        let mut depths: Vec<usize> = Vec::new();
        let mut k: usize = 0;
        while k < n
            invariant
                settled(*shell),
                k <= n,
                n == starts@.len(),
                n == row_starts(input@).len(),
                forall|j: int| 0 <= j < n ==> (#[trigger] starts@[j]) == row_starts(input@)[j],
                forall|j: int| 0 <= j < n ==> 0 <= #[trigger] row_starts(input@)[j] <= input@.len(),
                depths@.len() == k,
                forall|j: int| 0 <= j < k ==> (#[trigger] depths@[j]) == depth_at(*shell, input@, j),
            decreases n - k,
        {
            let b = starts[k];
            let prefix = input.substring_char(0, b);
            assert(prefix@ =~= input@.take(b as int));
            let a = consult(shell, prefix, Ask::Depth { strict: false });
            depths.push(a.depth);
            k += 1;
        }
        let whole = consult(shell, input, Ask::Depth { strict: true });
        depths.push(whole.depth);
        let mut levels: Vec<(usize, usize)> = Vec::new();
        let mut m: usize = 0;
        while m < n
            invariant
                m <= n,
                n == row_starts(input@).len(),
                depths@.len() == n + 1,
                forall|j: int| 0 <= j <= n ==> (#[trigger] depths@[j]) == depth_at(*shell, input@, j),
                levels@ == levels_of(*shell, input@).take(m as int),
            decreases n - m,
        {
            levels.push((depths[m], depths[m + 1]));
            m += 1;
            assert(levels@ =~= levels_of(*shell, input@).take(m as int));
        }
        assert(levels_of(*shell, input@).take(n as int) =~= levels_of(*shell, input@));
        (levels, whole.failed)
    }
}

} // verus!
