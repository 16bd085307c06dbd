//! Where the motions over words lead, said of the text itself.

use vstd::prelude::*;
use crate::editcmd::{Bound, Cmd, Direction, EditCmd, Motion, TextObj, To, Verb, Word};
use crate::linebuf::buffer::{clamped, wf, BufV};
use crate::linebuf::char_class::{class_of, CharClass};
use crate::linebuf::lines::LinesV;
use crate::linebuf::motion::{cmd_cover, cover};
use crate::linebuf::pos::{end_of_all, Cursor, MotionKind, Pos};
use crate::linebuf::words::{
    backward_cells, cells_back, cells_from, final_col, forward_cells, gap_before, gap_behind,
    next_end, next_start, prev_end, prev_start, row_cells, row_cells_back, seek, wanted, word_motion,
    word_object, word_step, word_steps, Cell, Want,
};
use crate::seqs::lemma_first_from;
use crate::shell::Opts;
use crate::text::{is_alnum, is_space};

verus! {

/// A single character counts as white space, as part of a word, or as a symbol.
pub proof fn law_classes_of_single_characters(c: char)
    ensures
        is_alnum(c) || c == '_' ==> class_of(seq![c]) == CharClass::Alphanum,
        is_space(c) && !is_alnum(c) && c != '_' ==> class_of(seq![c]) == CharClass::Whitespace,
        !is_space(c) && !is_alnum(c) && c != '_' ==> class_of(seq![c]) == CharClass::Symbol,
{
    let g = seq![c];
    assert(g[0] == c);
}

/// A cluster stands at a place.
pub open spec fn on_cluster(ls: LinesV, p: Pos) -> bool {
    p.row < ls.len() && p.col < ls[p.row as int].len()
}

/// The class of the cluster in a row and a column.
pub open spec fn class_in(ls: LinesV, row: int, col: int) -> CharClass {
    class_of(ls[row][col])
}

/// One place comes before another in the text.
pub open spec fn earlier(a: Pos, b: Pos) -> bool {
    a.row < b.row || (a.row == b.row && a.col < b.col)
}

/// Two classes belong to one word.
pub open spec fn together(word: Word, a: CharClass, b: CharClass) -> bool {
    &&& a != CharClass::Whitespace
    &&& b != CharClass::Whitespace
    &&& word == Word::Normal ==> a == b
}

/// A word begins at a place: something other than white space stands there, and
/// it is the first of its line, or does not go on from the cluster before it.
/// So no word goes on over the end of a line.
pub open spec fn begins_word(ls: LinesV, p: Pos, word: Word) -> bool {
    &&& on_cluster(ls, p)
    &&& class_in(ls, p.row as int, p.col as int) != CharClass::Whitespace
    &&& p.col == 0 || !together(
        word,
        class_in(ls, p.row as int, p.col - 1),
        class_in(ls, p.row as int, p.col as int),
    )
}

/// A word ends at a place: something other than white space stands there, and
/// it is the last of its line, or does not go on in the cluster behind it.
pub open spec fn ends_word(ls: LinesV, p: Pos, word: Word) -> bool {
    &&& on_cluster(ls, p)
    &&& class_in(ls, p.row as int, p.col as int) != CharClass::Whitespace
    &&& p.col + 1 == ls[p.row as int].len() || !together(
        word,
        class_in(ls, p.row as int, p.col as int),
        class_in(ls, p.row as int, p.col + 1),
    )
}

/// The text fits machine integers.
pub open spec fn indexable(ls: LinesV) -> bool {
    &&& ls.len() <= usize::MAX
    &&& forall|i: int| 0 <= i < ls.len() ==> (#[trigger] ls[i]).len() <= usize::MAX
}

/// The cursor stands on a cluster, or in a blank line.
pub open spec fn on_text(ls: LinesV, p: Pos) -> bool {
    p.row < ls.len() && (on_cluster(ls, p) || (ls[p.row as int].len() == 0 && p.col == 0))
}

/// A cell says what stands at its place.
spec fn is_true(ls: LinesV, e: Cell) -> bool {
    on_cluster(ls, e.0) && e.1 == class_in(ls, e.0.row as int, e.0.col as int)
}

spec fn lists(s: Seq<Cell>, p: Pos, c: CharClass) -> bool {
    exists|i: int| 0 <= i < s.len() && #[trigger] s[i] == (p, c)
}

/// A cell other than white space, in cells that run backwards: it says what
/// stands at its place, what follows comes before it in the text, and its
/// neighbours are those in its line, or the white space between lines.
spec fn cell_back(ls: LinesV, s: Seq<Cell>, i: int) -> bool {
    s[i].1 != CharClass::Whitespace ==> {
        &&& is_true(ls, s[i])
        &&& forall|j: int| i < j < s.len() ==> earlier((#[trigger] s[j]).0, s[i].0)
        &&& s[i].0.col > 0 ==> i + 1 < s.len() && s[i + 1].0.row == s[i].0.row && s[i + 1].0.col
            == s[i].0.col - 1 && s[i + 1].1 == class_in(ls, s[i].0.row as int, s[i].0.col - 1)
        &&& s[i].0.col == 0 ==> i + 1 == s.len() || s[i + 1].1 == CharClass::Whitespace
        &&& i > 0 && s[i].0.col + 1 < ls[s[i].0.row as int].len() ==> s[i - 1].1 == class_in(
            ls,
            s[i].0.row as int,
            s[i].0.col + 1,
        )
        &&& i > 0 && s[i].0.col + 1 == ls[s[i].0.row as int].len() ==> s[i - 1].1
            == CharClass::Whitespace
    }
}

/// Cells that run backwards from a place tell the text before it.
spec fn tells_back(ls: LinesV, s: Seq<Cell>, from: Pos) -> bool {
    &&& s.len() > 0
    &&& s[0].0 == from
    &&& on_cluster(ls, from) ==> is_true(ls, s[0])
    &&& forall|i: int| 0 <= i < s.len() ==> #[trigger] cell_back(ls, s, i)
    &&& forall|p: Pos|
        on_cluster(ls, p) && !earlier(from, p) ==> #[trigger] lists(
            s,
            p,
            class_in(ls, p.row as int, p.col as int),
        )
    &&& forall|j: int| 0 < j < s.len() ==> earlier((#[trigger] s[j]).0, from)
}

proof fn lemma_tells_back(ls: LinesV, row: int, col: int)
    requires
        0 <= row < ls.len(),
        indexable(ls),
        on_text(ls, Pos { row: row as usize, col: col as usize }),
        0 <= col <= usize::MAX,
    ensures
        tells_back(ls, cells_back(ls, row, col), Pos { row: row as usize, col: col as usize }),
    decreases row,
{
    let s = cells_back(ls, row, col);
    let a = row_cells_back(ls, row, col);
    let g = gap_before(ls, row);
    let from = Pos { row: row as usize, col: col as usize };
    assert(ls[row].len() <= usize::MAX);
    let n = a.len() + g.len();
    let t = if row > 0 {
        cells_back(ls, row - 1, final_col(ls, row - 1))
    } else {
        Seq::empty()
    };
    let up = Pos { row: (row - 1) as usize, col: final_col(ls, row - 1) as usize };
    assert(s =~= a + g + t);
    if row > 0 {
        assert(ls[row - 1].len() <= usize::MAX);
        lemma_tells_back(ls, row - 1, final_col(ls, row - 1));
    }
    assert forall|j: int| n <= j < s.len() implies #[trigger] s[j] == t[j - n] && s[j].0.row < row by {
        if j > n {
            assert(earlier(t[j - n].0, up));
        }
    }
    assert forall|j: int| 0 <= j < a.len() implies #[trigger] s[j] == a[j] && s[j].0.row == row
        && s[j].0.col == col - j by {}
    assert forall|j: int| a.len() <= j < n implies (#[trigger] s[j]).1 == CharClass::Whitespace
        && s[j].0.row < row by {}
    assert forall|i: int| 0 <= i < s.len() implies #[trigger] cell_back(ls, s, i) by {
        if i >= n {
            assert(cell_back(ls, t, i - n));
            if s[i].1 != CharClass::Whitespace {
                assert forall|j: int| i < j < s.len() implies earlier(
                    (#[trigger] s[j]).0,
                    s[i].0,
                ) by {
                    assert(s[j] == t[j - n]);
                }
                if i + 1 < s.len() {
                    assert(s[i + 1] == t[i + 1 - n]);
                }
                if i > n {
                    assert(s[i - 1] == t[i - 1 - n]);
                } else if i > 0 {
                    assert(s[i].0 == up);
                    let e = s[i - 1];
                }
            }
        } else {
            if i + 1 < s.len() {
                let e = s[i + 1];
            }
            if i > 0 {
                let e = s[i - 1];
            }
        }
    }
    assert forall|p: Pos| on_cluster(ls, p) && !earlier(from, p) implies #[trigger] lists(
        s,
        p,
        class_in(ls, p.row as int, p.col as int),
    ) by {
        let c = class_in(ls, p.row as int, p.col as int);
        if p.row == row {
            assert(s[col - p.col] == (p, c));
        } else {
            assert(!earlier(up, p));
            assert(lists(t, p, c));
            let k = choose|k: int| 0 <= k < t.len() && #[trigger] t[k] == (p, c);
            assert(s[k + n] == (p, c));
        }
    }
}

/// A cell other than white space, in cells that run on: it says what stands at
/// its place, what follows comes behind it in the text, and its neighbours are
/// those in its line, or the white space between lines.
spec fn cell_on(ls: LinesV, s: Seq<Cell>, i: int) -> bool {
    s[i].1 != CharClass::Whitespace ==> {
        &&& is_true(ls, s[i])
        &&& forall|j: int| i < j < s.len() ==> earlier(s[i].0, (#[trigger] s[j]).0)
        &&& s[i].0.col + 1 < ls[s[i].0.row as int].len() ==> i + 1 < s.len() && s[i + 1].1
            == class_in(ls, s[i].0.row as int, s[i].0.col + 1)
        &&& s[i].0.col + 1 == ls[s[i].0.row as int].len() ==> i + 1 == s.len() || s[i + 1].1
            == CharClass::Whitespace
        &&& i > 0 && s[i].0.col > 0 ==> s[i - 1].1 == class_in(
            ls,
            s[i].0.row as int,
            s[i].0.col - 1,
        )
        &&& i > 0 && s[i].0.col == 0 ==> s[i - 1].1 == CharClass::Whitespace
    }
}

/// Cells that run on from a place tell the text from there.
spec fn tells_on(ls: LinesV, s: Seq<Cell>, from: Pos) -> bool {
    &&& s.len() > 0
    &&& s[0].0 == from
    &&& on_cluster(ls, from) ==> is_true(ls, s[0])
    &&& !on_cluster(ls, from) ==> s[0].1 == CharClass::Whitespace
    &&& forall|i: int| 0 <= i < s.len() ==> #[trigger] cell_on(ls, s, i)
    &&& forall|p: Pos|
        on_cluster(ls, p) && !earlier(p, from) ==> #[trigger] lists(
            s,
            p,
            class_in(ls, p.row as int, p.col as int),
        )
    &&& forall|j: int| 0 < j < s.len() ==> earlier(from, (#[trigger] s[j]).0)
    &&& s.last().1 != CharClass::Whitespace ==> s.last().0.row == ls.len() - 1 && s.last().0.col
        == ls.last().len() - 1
}

proof fn lemma_tells_on(ls: LinesV, row: int, col: int)
    requires
        0 <= row < ls.len(),
        indexable(ls),
        on_text(ls, Pos { row: row as usize, col: col as usize }),
        0 <= col <= usize::MAX,
    ensures
        tells_on(ls, cells_from(ls, row, col), Pos { row: row as usize, col: col as usize }),
    decreases ls.len() - row,
{
    let s = cells_from(ls, row, col);
    let a = row_cells(ls, row, col);
    let g = gap_behind(ls, row);
    let from = Pos { row: row as usize, col: col as usize };
    assert(ls[row].len() <= usize::MAX);
    let t = cells_from(ls, row + 1, 0);
    let n = a.len() + g.len();
    let down = Pos { row: (row + 1) as usize, col: 0 };
    assert(s =~= a + g + t);
    if row + 1 < ls.len() {
        assert(ls[row + 1].len() <= usize::MAX);
        lemma_tells_on(ls, row + 1, 0);
        assert(s.last() == t.last());
    } else {
        assert(t.len() == 0);
    }
    assert forall|j: int| n <= j < s.len() implies #[trigger] s[j] == t[j - n] && s[j].0.row > row by {
        if j > n {
            assert(earlier(down, t[j - n].0));
        }
    }
    assert forall|j: int| 0 <= j < a.len() implies #[trigger] s[j] == a[j] && s[j].0.row == row
        && s[j].0.col == col + j by {}
    assert forall|j: int| a.len() <= j < n implies (#[trigger] s[j]).1 == CharClass::Whitespace
        && s[j].0.row > row by {}
    assert forall|i: int| 0 <= i < s.len() implies #[trigger] cell_on(ls, s, i) by {
        if i >= n {
            assert(cell_on(ls, t, i - n));
            if s[i].1 != CharClass::Whitespace {
                assert forall|j: int| i < j < s.len() implies earlier(
                    s[i].0,
                    (#[trigger] s[j]).0,
                ) by {
                    assert(s[j] == t[j - n]);
                }
                if i + 1 < s.len() {
                    assert(s[i + 1] == t[i + 1 - n]);
                }
                if i > n {
                    assert(s[i - 1] == t[i - 1 - n]);
                } else if i > 0 {
                    assert(s[i].0 == down);
                    let e = s[i - 1];
                }
            }
        } else {
            if i + 1 < s.len() {
                let e = s[i + 1];
            }
            if i > 0 {
                let e = s[i - 1];
            }
        }
    }
    assert forall|p: Pos| on_cluster(ls, p) && !earlier(p, from) implies #[trigger] lists(
        s,
        p,
        class_in(ls, p.row as int, p.col as int),
    ) by {
        let c = class_in(ls, p.row as int, p.col as int);
        if p.row == row {
            assert(s[p.col - col] == (p, c));
        } else {
            assert(!earlier(p, down));
            assert(lists(t, p, c));
            let k = choose|k: int| 0 <= k < t.len() && #[trigger] t[k] == (p, c);
            assert(s[k + n] == (p, c));
        }
    }
}

pub proof fn lemma_seek(s: Seq<Cell>, w: Want, i: int)
    requires
        0 <= i <= s.len(),
    ensures
        i <= seek(s, w, i) <= s.len(),
        seek(s, w, i) < s.len() ==> wanted(w, s[seek(s, w, i)]),
        forall|k: int| i <= k < seek(s, w, i) ==> !wanted(w, #[trigger] s[k]),
{
    let p = |e: Cell| wanted(w, e);
    lemma_first_from(s, p, i);
    assert forall|k: int| i <= k < seek(s, w, i) implies !wanted(w, #[trigger] s[k]) by {
        assert(!p(s[k]));
    }
}

/// The nearest place before another at which a word begins.
pub open spec fn nearest_start_before(ls: LinesV, from: Pos, word: Word, p: Pos) -> bool {
    &&& begins_word(ls, p, word)
    &&& earlier(p, from)
    &&& forall|q: Pos| #[trigger] begins_word(ls, q, word) && earlier(q, from) ==> !earlier(p, q)
}

/// The nearest place behind another at which a word begins.
pub open spec fn nearest_start_behind(ls: LinesV, from: Pos, word: Word, p: Pos) -> bool {
    &&& begins_word(ls, p, word)
    &&& earlier(from, p)
    &&& forall|q: Pos| #[trigger] begins_word(ls, q, word) && earlier(from, q) ==> !earlier(q, p)
}

/// The nearest place behind another at which a word ends.
pub open spec fn nearest_end_behind(ls: LinesV, from: Pos, word: Word, p: Pos) -> bool {
    &&& ends_word(ls, p, word)
    &&& earlier(from, p)
    &&& forall|q: Pos| #[trigger] ends_word(ls, q, word) && earlier(from, q) ==> !earlier(q, p)
}

proof fn lemma_prev_start(ls: LinesV, s: Seq<Cell>, from: Pos, word: Word)
    requires
        tells_back(ls, s, from),
    ensures
        match prev_start(s, word) {
            Some(p) => nearest_start_before(ls, from, word, p),
            None => forall|q: Pos| earlier(q, from) ==> !#[trigger] begins_word(ls, q, word),
        },
{
    let f = seek(s, Want::NoSpace, 1);
    lemma_seek(s, Want::NoSpace, 1);
    if f >= s.len() {
        assert forall|q: Pos| earlier(q, from) implies !#[trigger] begins_word(ls, q, word) by {
            if begins_word(ls, q, word) {
                let c = class_in(ls, q.row as int, q.col as int);
                assert(lists(s, q, c));
                let i = choose|i: int| 0 <= i < s.len() && #[trigger] s[i] == (q, c);
                assert(i > 0);
                assert(!wanted(Want::NoSpace, s[i]));
            }
        }
    } else {
        let stop = match word {
            Word::Big => Want::Space,
            Word::Normal => Want::Not(s[f].1),
        };
        let j = seek(s, stop, f + 1);
        lemma_seek(s, stop, f + 1);
        let e = s[j - 1];
        let p = e.0;
        assert(cell_back(ls, s, j - 1));
        assert forall|k: int| f <= k < j implies (#[trigger] s[k]).1 != CharClass::Whitespace && (word
            == Word::Normal ==> s[k].1 == s[f].1) by {
            if k > f {
                assert(!wanted(stop, s[k]));
            }
        }
        assert(is_true(ls, e));
        if p.col > 0 {
            assert(j < s.len());
            assert(s[j - 1 + 1].1 == class_in(ls, p.row as int, p.col - 1));
            assert(wanted(stop, s[j]));
        }
        assert(begins_word(ls, p, word));
        assert forall|q: Pos| #[trigger] begins_word(ls, q, word) && earlier(q, from) implies !earlier(
            p,
            q,
        ) by {
            let c = class_in(ls, q.row as int, q.col as int);
            assert(lists(s, q, c));
            let i = choose|i: int| 0 <= i < s.len() && #[trigger] s[i] == (q, c);
            assert(i > 0);
            assert(cell_back(ls, s, i));
            if i < f {
                assert(!wanted(Want::NoSpace, s[i]));
            }
            if i < j - 1 {
                assert(s[i + 1].1 != CharClass::Whitespace);
                assert(s[i].0.col > 0);
                assert(together(word, s[i + 1].1, s[i].1));
            } else if i > j - 1 {
                assert(earlier(s[i].0, s[j - 1].0));
            }
        }
    }
}

proof fn lemma_next_start(ls: LinesV, s: Seq<Cell>, from: Pos, word: Word)
    requires
        tells_on(ls, s, from),
    ensures
        !next_start(s, word, false).1,
        match next_start(s, word, false).0 {
            Some(p) => nearest_start_behind(ls, from, word, p),
            None => forall|q: Pos| earlier(from, q) ==> !#[trigger] begins_word(ls, q, word),
        },
{
    // The cells before `k` hold no start but the first, and `t` is the next
    // cell behind that is not white space.
    let ws = s[0].1 == CharClass::Whitespace;
    let stop = match word {
        Word::Big => Want::Space,
        Word::Normal => Want::Break(s[0].1),
    };
    let k = if ws {
        0
    } else {
        match word {
            Word::Big => seek(s, stop, 0),
            Word::Normal => seek(s, stop, 1),
        }
    };
    lemma_seek(s, Want::Space, 0);
    lemma_seek(s, stop, 1);
    lemma_seek(s, Want::NoSpace, 0);
    if k < s.len() {
        lemma_seek(s, Want::NoSpace, k + 1);
    }
    let t = if k >= s.len() {
        s.len() as int
    } else if ws {
        seek(s, Want::NoSpace, 0)
    } else if s[k].1 != CharClass::Whitespace {
        k
    } else {
        seek(s, Want::NoSpace, k + 1)
    };
    if !ws && word == Word::Big {
        assert(k > 0) by {
            if k == 0 {
                assert(wanted(Want::Space, s[0]));
            }
        }
    }
    assert forall|q: Pos| #[trigger] begins_word(ls, q, word) && earlier(from, q) implies t < s.len()
        && !earlier(q, s[t].0) by {
        let c = class_in(ls, q.row as int, q.col as int);
        assert(lists(s, q, c));
        let i = choose|i: int| 0 <= i < s.len() && #[trigger] s[i] == (q, c);
        assert(i > 0);
        assert(cell_on(ls, s, i));
        if i < k {
            assert(!wanted(stop, s[i]));
            if i - 1 > 0 || word == Word::Big {
                assert(!wanted(stop, s[i - 1]));
            }
            assert(s[i - 1].1 != CharClass::Whitespace);
            assert(s[i].0.col > 0);
            assert(together(word, s[i - 1].1, s[i].1));
        } else if i < t {
            if ws {
                assert(!wanted(Want::NoSpace, s[i]));
            } else if i > k {
                assert(!wanted(Want::NoSpace, s[i]));
            }
        }
        assert(t <= i);
        if t < i {
            assert(cell_on(ls, s, t));
            assert(earlier(s[t].0, s[i].0));
        }
    }
    if t < s.len() {
        assert(t > 0);
        assert(cell_on(ls, s, t));
        assert(is_true(ls, s[t]));
        assert(begins_word(ls, s[t].0, word)) by {
            if s[t].0.col > 0 {
                assert(s[t - 1].1 == class_in(ls, s[t].0.row as int, s[t].0.col - 1));
                if ws {
                    assert(!wanted(Want::NoSpace, s[t - 1]));
                } else if t > k {
                    if t - 1 > k {
                        assert(!wanted(Want::NoSpace, s[t - 1]));
                    }
                } else {
                    assert(wanted(stop, s[t]));
                    if t - 1 > 0 {
                        assert(!wanted(stop, s[t - 1]));
                    }
                }
            }
        }
    }
}

proof fn lemma_next_end(ls: LinesV, s: Seq<Cell>, from: Pos, word: Word)
    requires
        tells_on(ls, s, from),
        ls.len() > 0,
    ensures
        match next_end(s, word) {
            Some(p) => nearest_end_behind(ls, from, word, p),
            None => forall|q: Pos| #[trigger]
                ends_word(ls, q, word) && earlier(from, q) ==> q.row == ls.len() - 1 && q.col
                    == ls.last().len() - 1,
        },
{
    let f = seek(s, Want::NoSpace, 1);
    lemma_seek(s, Want::NoSpace, 1);
    let stop = match word {
        Word::Big => Want::Space,
        Word::Normal => Want::Break(s[f].1),
    };
    let j = if f >= s.len() {
        f
    } else {
        seek(s, stop, f + 1)
    };
    if f < s.len() {
        lemma_seek(s, stop, f + 1);
        assert forall|k: int| f <= k < j implies (#[trigger] s[k]).1 != CharClass::Whitespace && (word
            == Word::Normal ==> s[k].1 == s[f].1) by {
            if k > f {
                assert(!wanted(stop, s[k]));
            }
        }
    }
    assert forall|q: Pos| #[trigger] ends_word(ls, q, word) && earlier(from, q) implies f < s.len()
        && !earlier(q, s[j - 1].0) && (j == s.len() ==> q == s[j - 1].0) by {
        let c = class_in(ls, q.row as int, q.col as int);
        assert(lists(s, q, c));
        let i = choose|i: int| 0 <= i < s.len() && #[trigger] s[i] == (q, c);
        assert(i > 0);
        assert(cell_on(ls, s, i));
        if i < f {
            assert(!wanted(Want::NoSpace, s[i]));
        }
        if i < j - 1 {
            assert(s[i + 1].1 != CharClass::Whitespace);
            assert(q.col + 1 < ls[q.row as int].len());
            assert(together(word, s[i].1, s[i + 1].1));
        } else if i > j - 1 {
            assert(cell_on(ls, s, j - 1));
            assert(earlier(s[j - 1].0, s[i].0));
        }
    }
    if f < s.len() && j < s.len() {
        let e = s[j - 1];
        assert(cell_on(ls, s, j - 1));
        assert(is_true(ls, e));
        assert(wanted(stop, s[j]));
        if e.0.col + 1 < ls[e.0.row as int].len() {
            assert(s[j - 1 + 1].1 == class_in(ls, e.0.row as int, e.0.col + 1));
        }
        assert(ends_word(ls, e.0, word));
    }
}

/// The end of what a command's motion covers.
pub open spec fn leads_to(b: BufV, cmd: EditCmd, opts: Opts) -> Pos {
    match cmd_cover(b, cmd, opts) {
        Some(MotionKind::Char { end, .. }) => end,
        _ => b.cursor.pos,
    }
}

/// A motion back to the start of a word leads to the nearest place before the
/// cursor at which a word begins, and to the start of the text where there is
/// none.
pub proof fn law_back_a_word_leads_to_its_start(b: BufV, cmd: EditCmd, word: Word, opts: Opts)
    requires
        wf(b),
        indexable(b.lines),
        on_text(b.lines, b.cursor.pos),
        cmd.motion == Some(Cmd(1usize, Motion::WordMotion(To::Start, word, Direction::Backward))),
    ensures
        cmd_cover(b, cmd, opts) matches Some(MotionKind::Char { start, .. }) && start
            == b.cursor.pos,
        nearest_start_before(b.lines, b.cursor.pos, word, leads_to(b, cmd, opts)) || (leads_to(
            b,
            cmd,
            opts,
        ) == (Pos { row: 0, col: 0 }) && forall|q: Pos|
            earlier(q, b.cursor.pos) ==> !#[trigger] begins_word(b.lines, q, word)),
{
    reveal(cover);
    reveal(word_motion);
    reveal_with_fuel(word_steps, 2);
    let p = b.cursor.pos;
    let s = backward_cells(b.lines, p);
    lemma_tells_back(b.lines, p.row as int, p.col as int);
    assert(s == cells_back(b.lines, p.row as int, p.col as int));
    lemma_prev_start(b.lines, s, p, word);
}

/// Within a line, a motion back to the start of a word stays in the line: it
/// stops at the first cluster of the run of one class that ends before the
/// cursor.
pub proof fn law_back_a_word_stays_in_its_line(b: BufV, cmd: EditCmd, opts: Opts)
    requires
        wf(b),
        indexable(b.lines),
        on_cluster(b.lines, b.cursor.pos),
        b.cursor.pos.col > 0,
        class_in(b.lines, b.cursor.pos.row as int, b.cursor.pos.col - 1) != CharClass::Whitespace,
        cmd.motion == Some(
            Cmd(1usize, Motion::WordMotion(To::Start, Word::Normal, Direction::Backward)),
        ),
    ensures
        ({
            let p = b.cursor.pos;
            let t = leads_to(b, cmd, opts);
            &&& t.row == p.row
            &&& t.col < p.col
            &&& forall|c: int|
                t.col <= c < p.col ==> #[trigger] class_in(b.lines, p.row as int, c) == class_in(
                    b.lines,
                    p.row as int,
                    p.col - 1,
                )
            &&& t.col > 0 ==> class_in(b.lines, p.row as int, t.col - 1) != class_in(
                b.lines,
                p.row as int,
                p.col - 1,
            )
        }),
{
    law_back_a_word_leads_to_its_start(b, cmd, Word::Normal, opts);
    let p = b.cursor.pos;
    let t = leads_to(b, cmd, opts);
    let row = p.row as int;
    let c0 = class_in(b.lines, row, p.col - 1);
    let k = run_start(b.lines, row, p.col as int);
    lemma_run_start(b.lines, row, p.col as int);
    let q = Pos { row: p.row, col: k as usize };
    assert(begins_word(b.lines, q, Word::Normal));
    assert(t.row == p.row && q.col <= t.col);
    if t.col > q.col {
        assert(class_in(b.lines, row, t.col - 1) == c0);
        assert(class_in(b.lines, row, t.col as int) == c0);
    }
}

/// The first column of the run of one class that ends before column `i`.
spec fn run_start(ls: LinesV, row: int, i: int) -> int
    decreases i,
{
    if i > 1 && class_in(ls, row, i - 2) == class_in(ls, row, i - 1) {
        run_start(ls, row, i - 1)
    } else {
        i - 1
    }
}

proof fn lemma_run_start(ls: LinesV, row: int, i: int)
    requires
        0 < i,
    ensures
        ({
            let k = run_start(ls, row, i);
            &&& 0 <= k < i
            &&& forall|c: int|
                k <= c < i ==> #[trigger] class_in(ls, row, c) == class_in(ls, row, i - 1)
            &&& k > 0 ==> class_in(ls, row, k - 1) != class_in(ls, row, i - 1)
        }),
    decreases i,
{
    if i > 1 && class_in(ls, row, i - 2) == class_in(ls, row, i - 1) {
        lemma_run_start(ls, row, i - 1);
    }
}

/// A motion on to the start of a word leads to the nearest place behind the
/// cursor at which a word begins, and to the end of the text where there is
/// none.
pub proof fn law_on_a_word_leads_to_its_start(b: BufV, cmd: EditCmd, word: Word, opts: Opts)
    requires
        wf(b),
        indexable(b.lines),
        on_text(b.lines, b.cursor.pos),
        cmd.motion == Some(Cmd(1usize, Motion::WordMotion(To::Start, word, Direction::Forward))),
        !(cmd.verb matches Some(Cmd(_, v)) && v is Change),
    ensures
        cmd_cover(b, cmd, opts) matches Some(MotionKind::Char { start, .. }) && start
            == b.cursor.pos,
        nearest_start_behind(b.lines, b.cursor.pos, word, leads_to(b, cmd, opts)) || (leads_to(
            b,
            cmd,
            opts,
        ).row == b.lines.len() - 1 && leads_to(b, cmd, opts).col == if b.cursor.exclusive
            && b.lines.last().len() > 0 {
            b.lines.last().len() - 1
        } else {
            b.lines.last().len() as int
        } && forall|q: Pos|
            earlier(b.cursor.pos, q) ==> !#[trigger] begins_word(b.lines, q, word)),
{
    reveal(cover);
    reveal(word_motion);
    reveal_with_fuel(word_steps, 2);
    let p = b.cursor.pos;
    let s = forward_cells(b.lines, p);
    lemma_tells_on(b.lines, p.row as int, p.col as int);
    lemma_next_start(b.lines, s, p, word);
    assert(b.lines.last().len() <= usize::MAX);
}

/// A motion on to the end of a word leads to the nearest place behind the
/// cursor at which a word ends. The last cluster of the text counts as the end
/// of the text, which is where the motion leads when there is no end before it.
pub proof fn law_on_to_the_end_of_a_word(b: BufV, cmd: EditCmd, word: Word, opts: Opts)
    requires
        wf(b),
        indexable(b.lines),
        on_text(b.lines, b.cursor.pos),
        cmd.motion == Some(Cmd(1usize, Motion::WordMotion(To::End, word, Direction::Forward))),
    ensures
        cmd_cover(b, cmd, opts) matches Some(MotionKind::Char { start, inclusive, .. }) && start
            == b.cursor.pos && inclusive,
        nearest_end_behind(b.lines, b.cursor.pos, word, leads_to(b, cmd, opts)) || (leads_to(
            b,
            cmd,
            opts,
        ).row == b.lines.len() - 1 && leads_to(b, cmd, opts).col == if b.cursor.exclusive
            && b.lines.last().len() > 0 {
            b.lines.last().len() - 1
        } else {
            b.lines.last().len() as int
        } && forall|q: Pos| #[trigger]
            ends_word(b.lines, q, word) && earlier(b.cursor.pos, q) ==> q.row == b.lines.len() - 1
                && q.col == b.lines.last().len() - 1),
{
    reveal(cover);
    reveal(word_motion);
    reveal_with_fuel(word_steps, 2);
    let p = b.cursor.pos;
    let s = forward_cells(b.lines, p);
    lemma_tells_on(b.lines, p.row as int, p.col as int);
    lemma_next_end(b.lines, s, p, word);
    assert(b.lines.last().len() <= usize::MAX);
}

/// The cells from a cluster on begin with those of its row, and white space
/// follows.
pub proof fn lemma_row_on(ls: LinesV, row: int, col: int)
    requires
        0 <= row < ls.len(),
        indexable(ls),
        0 <= col < ls[row].len(),
    ensures
        ({
            let s = cells_from(ls, row, col);
            let n = ls[row].len() - col;
            &&& s.len() >= n
            &&& forall|j: int|
                0 <= j < n ==> (#[trigger] s[j]).0.row == row && s[j].0.col == col + j && s[j].1
                    == class_in(ls, row, col + j)
            &&& s.len() > n ==> s[n].1 == CharClass::Whitespace
        }),
{
    assert(ls[row].len() <= usize::MAX);
    let s = cells_from(ls, row, col);
    let a = row_cells(ls, row, col);
    let g = gap_behind(ls, row);
    let t = cells_from(ls, row + 1, 0);
    assert(s == a + g + t);
    assert(row + 1 >= ls.len() ==> t.len() == 0);
}

/// The cells from a cluster back begin with those of its row, and white space
/// follows.
proof fn lemma_row_back(ls: LinesV, row: int, col: int)
    requires
        0 <= row < ls.len(),
        indexable(ls),
        0 <= col < ls[row].len(),
    ensures
        ({
            let s = cells_back(ls, row, col);
            &&& s.len() >= col + 1
            &&& forall|j: int|
                0 <= j <= col ==> (#[trigger] s[j]).0.row == row && s[j].0.col == col - j && s[j].1
                    == class_in(ls, row, col - j)
            &&& s.len() > col + 1 ==> s[col + 1].1 == CharClass::Whitespace
        }),
{
    assert(ls[row].len() <= usize::MAX);
    let s = cells_back(ls, row, col);
    let a = row_cells_back(ls, row, col);
    let g = gap_before(ls, row);
    assert(a.len() == col + 1);
}

/// The columns of a row from `a` up to before `z` are the whole of a word: they
/// go together, and nothing beside them goes with them.
pub open spec fn is_whole_word(ls: LinesV, row: int, a: int, z: int, word: Word) -> bool {
    &&& 0 <= a < z <= ls[row].len()
    &&& forall|c: int|
        a <= c < z ==> together(word, #[trigger] class_in(ls, row, c), class_in(ls, row, a))
    &&& a > 0 ==> !together(word, class_in(ls, row, a - 1), class_in(ls, row, a))
    &&& z < ls[row].len() ==> !together(word, class_in(ls, row, z), class_in(ls, row, a))
}

/// On a word, the word as a text object is the whole of it. Around it means with
/// the white space up to the next word of the line.
pub proof fn law_word_object_is_the_whole_word(b: BufV, cmd: EditCmd, n: usize, word: Word, bound: Bound, a: int, z: int, opts: Opts)
    requires
        wf(b),
        indexable(b.lines),
        cmd.motion == Some(Cmd(n, Motion::TextObj(TextObj::Word(word, bound)))),
        is_whole_word(b.lines, b.cursor.pos.row as int, a, z, word),
        a <= b.cursor.pos.col < z,
    ensures
        ({
            let row = b.cursor.pos.row;
            let r = cmd_cover(b, cmd, opts);
            &&& bound == Bound::Inside ==> r == Some(
                MotionKind::Char {
                    start: Pos { row, col: a as usize },
                    end: Pos { row, col: (z - 1) as usize },
                    inclusive: true,
                },
            )
            &&& bound == Bound::Around ==> forall|m: int|
                z <= m < b.lines[row as int].len() && #[trigger] class_in(b.lines, row as int, m)
                    != CharClass::Whitespace && (forall|c: int|
                    z <= c < m ==> #[trigger] class_in(b.lines, row as int, c)
                        == CharClass::Whitespace) ==> r == Some(
                    MotionKind::Char {
                        start: Pos { row, col: a as usize },
                        end: Pos { row, col: (m - 1) as usize },
                        inclusive: true,
                    },
                )
        }),
{
    reveal(cover);
    reveal(word_object);
    let ls = b.lines;
    let p = b.cursor.pos;
    let row = p.row as int;
    let col = p.col as int;
    assert(ls[row].len() <= usize::MAX);
    lemma_row_on(ls, row, col);
    lemma_row_back(ls, row, col);
    let fwd = forward_cells(ls, p);
    let bwd = backward_cells(ls, p);
    assert(bwd == cells_back(ls, row, col));
    let class = fwd[0].1;
    assert(class == class_in(ls, row, col));
    assert(together(word, class_in(ls, row, col), class_in(ls, row, a)));
    assert(fwd[0].0 == p);
    let stop = match word {
        Word::Big => Want::Space,
        Word::Normal => Want::Not(class),
    };
    let i = seek(bwd, stop, 0);
    let k = seek(fwd, stop, 0);
    lemma_seek(bwd, stop, 0);
    lemma_seek(fwd, stop, 0);
    if i < col - a + 1 {
        assert(bwd[i].1 == class_in(ls, row, col - i));
        assert(together(word, class_in(ls, row, col - i), class_in(ls, row, a)));
    }
    if i > col - a + 1 {
        assert(!wanted(stop, bwd[col - a + 1]));
        if a > 0 {
            assert(bwd[col - a + 1].1 == class_in(ls, row, a - 1));
        }
    }
    assert(i == col - a + 1);
    if k < z - col {
        assert(fwd[k].1 == class_in(ls, row, col + k));
        assert(together(word, class_in(ls, row, col + k), class_in(ls, row, a)));
    }
    if k > z - col {
        assert(!wanted(stop, fwd[z - col]));
        if z < ls[row].len() {
            assert(fwd[z - col].1 == class_in(ls, row, z));
        }
    }
    assert(k == z - col);
    assert(bwd[i - 1].0.col == a);
    assert(fwd[k - 1].0.col == z - 1);
    lemma_seek(fwd, Want::NoSpace, k);
    let e = seek(fwd, Want::NoSpace, k);
    if bound == Bound::Around {
        let r = cmd_cover(b, cmd, opts);
        assert forall|m: int|
            z <= m < ls[row].len() && #[trigger] class_in(ls, row, m) != CharClass::Whitespace && (
            forall|c: int|
                z <= c < m ==> #[trigger] class_in(ls, row, c)
                    == CharClass::Whitespace) implies r == Some(
            MotionKind::Char {
                start: Pos { row: p.row, col: a as usize },
                end: Pos { row: p.row, col: (m - 1) as usize },
                inclusive: true,
            },
        ) by {
            assert(fwd[m - col].1 == class_in(ls, row, m));
            if e < m - col {
                assert(fwd[e].1 == class_in(ls, row, col + e));
                assert(class_in(ls, row, col + e) == CharClass::Whitespace);
            }
            if e > m - col {
                assert(!wanted(Want::NoSpace, fwd[m - col]));
            }
            assert(fwd[e - 1].0.col == m - 1);
        }
    }
}

proof fn lemma_next_start_on_text(ls: LinesV, at: Pos, to: To, word: Word, dir: Direction, inclusive: bool)
    requires
        indexable(ls),
        ls.len() > 0,
        on_text(ls, at),
    ensures
        ({
            let p = word_step(ls, to, word, dir, false, (at, inclusive)).0;
            on_text(ls, p) || (p == end_of_all() && dir == Direction::Forward)
        }),
{
    lemma_tells_back(ls, at.row as int, at.col as int);
    lemma_tells_on(ls, at.row as int, at.col as int);
    let f = forward_cells(ls, at);
    let s = backward_cells(ls, at);
    assert(s == cells_back(ls, at.row as int, at.col as int));
    match (to, dir) {
        (To::Start, Direction::Forward) => lemma_next_start(ls, f, at, word),
        (To::End, Direction::Forward) => lemma_next_end(ls, f, at, word),
        (To::Start, Direction::Backward) => lemma_prev_start(ls, s, at, word),
        (To::End, Direction::Backward) => {
            if s.len() > 1 {
                lemma_seek(s, Want::NoSpace, 1);
                lemma_seek(s, Want::Space, 1);
                lemma_seek(s, Want::Not(s[1].1), 1);
                let k = match word {
                    Word::Big => seek(s, Want::Space, 1),
                    Word::Normal => seek(s, Want::Not(s[1].1), 1),
                };
                if k < s.len() {
                    lemma_seek(s, Want::NoSpace, k + 1);
                    assert(cell_back(ls, s, k));
                    let j = seek(s, Want::NoSpace, k + 1);
                    if j < s.len() {
                        assert(cell_back(ls, s, j));
                    }
                }
                let j = seek(s, Want::NoSpace, 1);
                if j < s.len() {
                    assert(cell_back(ls, s, j));
                }
            }
        },
    }
}

/// From the end of the text a motion on stays there.
proof fn lemma_stays_at_end(ls: LinesV, to: To, word: Word, exclusive: bool, inclusive: bool)
    requires
        indexable(ls),
        ls.len() > 0,
    ensures
        word_step(ls, to, word, Direction::Forward, false, (end_of_all(), inclusive)).0
            == end_of_all(),
        word_step(
            ls,
            to,
            word,
            Direction::Forward,
            false,
            (clamped(ls, end_of_all(), exclusive), inclusive),
        ).0 == end_of_all(),
{
    let row = ls.len() - 1;
    let len = ls[row].len() as int;
    assert(ls[row].len() <= usize::MAX);
    let p = clamped(ls, end_of_all(), exclusive);
    assert(p.row == row);
    let s = forward_cells(ls, p);
    assert(cells_from(ls, row + 1, 0).len() == 0);
    assert(forward_cells(ls, end_of_all()).len() == 0) by {
        if end_of_all().row < ls.len() {
            assert(end_of_all().row == row);
            assert(row_cells(ls, row, end_of_all().col as int).len() <= 1);
        }
    }
    assert(s.len() <= 1);
    lemma_seek(s, Want::NoSpace, 0);
    if s.len() == 1 {
        lemma_seek(s, Want::NoSpace, 1);
        lemma_seek(s, Want::Space, 0);
        lemma_seek(s, Want::Break(s[0].1), 1);
        if len > 0 {
            assert(s[0].1 == class_in(ls, row, len - 1));
        }
    }
}

proof fn lemma_steps(ls: LinesV, to: To, word: Word, dir: Direction, at: (Pos, bool), n: int, m: int, i: int)
    requires
        indexable(ls),
        ls.len() > 0,
        on_text(ls, at.0),
        0 <= i,
    ensures
        word_steps(ls, to, word, dir, false, at, n, i) == word_steps(
            ls,
            to,
            word,
            dir,
            false,
            at,
            m,
            i,
        ),
        ({
            let p = word_steps(ls, to, word, dir, false, at, n, i).0;
            on_text(ls, p) || (p == end_of_all() && dir == Direction::Forward)
        }),
    decreases i,
{
    if i > 0 {
        lemma_steps(ls, to, word, dir, at, n, m, i - 1);
        let w = word_steps(ls, to, word, dir, false, at, n, i - 1);
        if on_text(ls, w.0) {
            lemma_next_start_on_text(ls, w.0, to, word, dir, w.1);
        } else {
            lemma_stays_at_end(ls, to, word, false, w.1);
        }
    }
}

proof fn lemma_leads_by_steps(b: BufV, cmd: EditCmd, n: usize, to: To, word: Word, dir: Direction, opts: Opts)
    requires
        cmd.verb is None,
        cmd.motion == Some(Cmd(n, Motion::WordMotion(to, word, dir))),
    ensures
        leads_to(b, cmd, opts) == clamped(
            b.lines,
            word_steps(b.lines, to, word, dir, false, (b.cursor.pos, true), n as int, n as int).0,
            b.cursor.exclusive,
        ),
{
    reveal(cover);
    reveal(word_motion);
}

proof fn lemma_single_step(ls: LinesV, to: To, word: Word, dir: Direction, at: (Pos, bool))
    ensures
        word_steps(ls, to, word, dir, false, at, 1, 1) == word_step(ls, to, word, dir, false, at),
{
    reveal_with_fuel(word_steps, 2);
}

/// Whether the range takes its end does not decide where a step leads.
proof fn lemma_step_place(ls: LinesV, to: To, word: Word, dir: Direction, p: Pos, x: bool, y: bool)
    ensures
        word_step(ls, to, word, dir, false, (p, x)).0 == word_step(
            ls,
            to,
            word,
            dir,
            false,
            (p, y),
        ).0,
{
}

/// A motion over one word more leads where a motion over one word leads from
/// the place that the motion over the others leads to.
pub proof fn law_word_motions_add_up(b: BufV, fewer: EditCmd, more: EditCmd, one: EditCmd, n: usize, to: To, word: Word, dir: Direction, opts: Opts)
    requires
        wf(b),
        indexable(b.lines),
        on_text(b.lines, b.cursor.pos),
        n < usize::MAX,
        fewer.verb is None,
        more.verb is None,
        one.verb is None,
        fewer.motion == Some(Cmd(n, Motion::WordMotion(to, word, dir))),
        more.motion == Some(Cmd((n + 1) as usize, Motion::WordMotion(to, word, dir))),
        one.motion == Some(Cmd(1usize, Motion::WordMotion(to, word, dir))),
    ensures
        leads_to(b, more, opts) == leads_to(
            BufV { cursor: Cursor { pos: leads_to(b, fewer, opts), ..b.cursor }, ..b },
            one,
            opts,
        ),
{
    let ls = b.lines;
    let at = (b.cursor.pos, true);
    let x = b.cursor.exclusive;
    lemma_leads_by_steps(b, fewer, n, to, word, dir, opts);
    lemma_leads_by_steps(b, more, (n + 1) as usize, to, word, dir, opts);
    lemma_steps(ls, to, word, dir, at, n as int, n + 1, n as int);
    let w = word_steps(ls, to, word, dir, false, at, n as int, n as int);
    let next = word_step(ls, to, word, dir, false, w);
    assert(word_steps(ls, to, word, dir, false, at, n + 1, n + 1) == next);
    let p = clamped(ls, w.0, x);
    let c = BufV { cursor: Cursor { pos: p, ..b.cursor }, ..b };
    lemma_leads_by_steps(c, one, 1, to, word, dir, opts);
    lemma_single_step(ls, to, word, dir, (p, true));
    lemma_step_place(ls, to, word, dir, w.0, w.1, true);
    assert(ls.last().len() <= usize::MAX);
    if on_text(ls, w.0) {
        assert(p == w.0);
    } else {
        lemma_stays_at_end(ls, to, word, x, true);
    }
}

/// The nearest place before another at which a word ends.
pub open spec fn nearest_end_before(ls: LinesV, from: Pos, word: Word, p: Pos) -> bool {
    &&& ends_word(ls, p, word)
    &&& earlier(p, from)
    &&& forall|q: Pos| #[trigger] ends_word(ls, q, word) && earlier(q, from) ==> !earlier(p, q)
}

proof fn lemma_prev_end(ls: LinesV, s: Seq<Cell>, from: Pos, word: Word)
    requires
        tells_back(ls, s, from),
        s.len() <= 1 || s[1].1 == CharClass::Whitespace || together(word, s[1].1, s[0].1),
    ensures
        match prev_end(s, word) {
            Some(p) => nearest_end_before(ls, from, word, p),
            None => forall|q: Pos| earlier(q, from) ==> !#[trigger] ends_word(ls, q, word),
        },
{
    // The cells before `k` hold no end, and `t` is the next one behind that is
    // not white space.
    let n = s.len() as int;
    if n > 1 {
        let ws = s[1].1 == CharClass::Whitespace;
        let stop = match word {
            Word::Big => Want::Space,
            Word::Normal => Want::Not(s[1].1),
        };
        lemma_seek(s, stop, 1);
        lemma_seek(s, Want::NoSpace, 1);
        let k = if ws {
            1
        } else {
            seek(s, stop, 1)
        };
        if k < n {
            lemma_seek(s, Want::NoSpace, k + 1);
        }
        let t = if k >= n {
            n
        } else if ws {
            seek(s, Want::NoSpace, 1)
        } else if s[k].1 != CharClass::Whitespace {
            k
        } else {
            seek(s, Want::NoSpace, k + 1)
        };
        assert forall|q: Pos| #[trigger] ends_word(ls, q, word) && earlier(q, from) implies t < n
            && !earlier(s[t].0, q) by {
            let c = class_in(ls, q.row as int, q.col as int);
            assert(lists(s, q, c));
            let i = choose|i: int| 0 <= i < s.len() && #[trigger] s[i] == (q, c);
            assert(i > 0);
            assert(cell_back(ls, s, i));
            if i < k {
                assert(!wanted(stop, s[i]));
                if i > 1 {
                    assert(!wanted(stop, s[i - 1]));
                }
                assert(together(word, s[i].1, s[i - 1].1));
            } else if i < t {
                if ws || i > k {
                    assert(!wanted(Want::NoSpace, s[i]));
                }
            }
            assert(t <= i);
            if t < i {
                assert(cell_back(ls, s, t));
                assert(earlier(s[i].0, s[t].0));
            }
        }
        if t < n {
            assert(cell_back(ls, s, t));
            assert(is_true(ls, s[t]));
            assert(ends_word(ls, s[t].0, word)) by {
                if s[t].0.col + 1 < ls[s[t].0.row as int].len() {
                    assert(s[t - 1].1 == class_in(ls, s[t].0.row as int, s[t].0.col + 1));
                    if ws {
                        if t - 1 > 0 {
                            assert(!wanted(Want::NoSpace, s[t - 1]));
                        }
                    } else if t > k {
                        if t - 1 > k {
                            assert(!wanted(Want::NoSpace, s[t - 1]));
                        }
                    } else {
                        assert(wanted(stop, s[t]));
                        assert(t > 1);
                        assert(!wanted(stop, s[t - 1]));
                    }
                }
            }
        }
    } else {
        assert forall|q: Pos| earlier(q, from) implies !#[trigger] ends_word(ls, q, word) by {
            if ends_word(ls, q, word) {
                let c = class_in(ls, q.row as int, q.col as int);
                assert(lists(s, q, c));
                let i = choose|i: int| 0 <= i < s.len() && #[trigger] s[i] == (q, c);
            }
        }
    }
}

/// A motion back to the end of a word leads to the nearest place before the
/// cursor at which a word ends, and to the start of the text where there is
/// none. The cursor's cluster goes together with the one before it, or no word
/// ends there.
pub proof fn law_back_to_the_end_of_a_word(b: BufV, cmd: EditCmd, word: Word, opts: Opts)
    requires
        wf(b),
        indexable(b.lines),
        on_cluster(b.lines, b.cursor.pos),
        cmd.motion == Some(Cmd(1usize, Motion::WordMotion(To::End, word, Direction::Backward))),
        ({
            let p = b.cursor.pos;
            let row = p.row as int;
            ||| p.col == 0
            ||| class_in(b.lines, row, p.col - 1) == CharClass::Whitespace
            ||| together(
                word,
                class_in(b.lines, row, p.col - 1),
                class_in(b.lines, row, p.col as int),
            )
        }),
    ensures
        cmd_cover(b, cmd, opts) matches Some(MotionKind::Char { start, inclusive, .. }) && start
            == b.cursor.pos && inclusive,
        nearest_end_before(b.lines, b.cursor.pos, word, leads_to(b, cmd, opts)) || (leads_to(
            b,
            cmd,
            opts,
        ) == (Pos { row: 0, col: 0 }) && forall|q: Pos|
            earlier(q, b.cursor.pos) ==> !#[trigger] ends_word(b.lines, q, word)),
{
    reveal(cover);
    reveal(word_motion);
    reveal_with_fuel(word_steps, 2);
    let p = b.cursor.pos;
    let s = backward_cells(b.lines, p);
    lemma_tells_back(b.lines, p.row as int, p.col as int);
    lemma_row_back(b.lines, p.row as int, p.col as int);
    assert(s == cells_back(b.lines, p.row as int, p.col as int));
    lemma_prev_end(b.lines, s, p, word);
}

/// Changing on from within a word leaves the white space behind it: the change
/// takes the word to its last cluster.
pub proof fn law_change_spares_white_space(b: BufV, cmd: EditCmd, a: int, z: int, opts: Opts)
    requires
        wf(b),
        indexable(b.lines),
        cmd.verb matches Some(Cmd(_, Verb::Change)),
        cmd.motion == Some(
            Cmd(1usize, Motion::WordMotion(To::Start, Word::Normal, Direction::Forward)),
        ),
        is_whole_word(b.lines, b.cursor.pos.row as int, a, z, Word::Normal),
        a <= b.cursor.pos.col < z,
    ensures
        ({
            let row = b.cursor.pos.row;
            let l = b.lines[row as int];
            let r = cmd_cover(b, cmd, opts);
            &&& (z < l.len() && class_in(b.lines, row as int, z) == CharClass::Whitespace) || (z
                == l.len() && row + 1 < b.lines.len()) ==> r == Some(
                MotionKind::Char {
                    start: b.cursor.pos,
                    end: Pos { row, col: (z - 1) as usize },
                    inclusive: true,
                },
            )
            &&& z < l.len() && class_in(b.lines, row as int, z) != CharClass::Whitespace ==> r
                == Some(
                MotionKind::Char {
                    start: b.cursor.pos,
                    end: Pos { row, col: z as usize },
                    inclusive: false,
                },
            )
        }),
{
    reveal(cover);
    reveal(word_motion);
    reveal_with_fuel(word_steps, 2);
    let ls = b.lines;
    let p = b.cursor.pos;
    let row = p.row as int;
    let col = p.col as int;
    assert(ls[row].len() <= usize::MAX);
    lemma_row_on(ls, row, col);
    let s = forward_cells(ls, p);
    let class = s[0].1;
    assert(together(Word::Normal, class_in(ls, row, col), class_in(ls, row, a)));
    lemma_seek(s, Want::Break(class), 1);
    let k = seek(s, Want::Break(class), 1);
    if k < z - col {
        assert(s[k].1 == class_in(ls, row, col + k));
        assert(together(Word::Normal, class_in(ls, row, col + k), class_in(ls, row, a)));
    }
    if z < ls[row].len() || row + 1 < ls.len() {
        assert(s.len() > z - col) by {
            if z == ls[row].len() {
                lemma_gap(ls, row, col);
            }
        }
        if k > z - col {
            assert(!wanted(Want::Break(class), s[z - col]));
            if z < ls[row].len() {
                assert(s[z - col].1 == class_in(ls, row, z));
            }
        }
        assert(k == z - col);
        assert(s[k - 1].0.col == z - 1);
    }
}

proof fn lemma_gap(ls: LinesV, row: int, col: int)
    requires
        0 <= row,
        row + 1 < ls.len(),
        0 <= col < ls[row].len(),
    ensures
        cells_from(ls, row, col).len() > ls[row].len() - col,
{
    assert(gap_behind(ls, row).len() == 1);
    assert(row_cells(ls, row, col).len() == ls[row].len() - col);
}

} // verus!
