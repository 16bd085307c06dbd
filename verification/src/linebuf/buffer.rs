//! The line buffer: its state, and where its cursor may be.

use std::collections::VecDeque;
use vstd::prelude::*;
use vstd::string::StringSliceAdditionalSpecFns;
use crate::editcmd::{EditCmd, Motion};
use crate::linebuf::char_class::is_ws;
use crate::linebuf::edit::{Edit, EditV, IndentCtx};
use crate::linebuf::grapheme::Grapheme;
use crate::linebuf::hint::{hint_text, Hint, HintV};
use crate::linebuf::killring::{KillRing, KillRingV};
use crate::linebuf::line::{Line, LineV};
use crate::linebuf::lines::{
    attached, blank, cluster_count, lemma_cluster_count_nonneg, lines_of, or_blank, text_of, Lines,
    LinesV,
};
use crate::linebuf::pos::{cut_col, cut_row, end_of_all, last_col, shifted, Cursor, Pos};
use crate::linebuf::select::SelectMode;
use crate::seqs::{group_views, min_of, sat, views};
use crate::shell::Opts;

verus! {

broadcast use group_views;

/// Holds and edits the command in progress.
///
/// The text is a grid: lines of grapheme clusters. A line feed is no cluster
/// but the border between two lines, and columns count clusters.
pub struct LineBuf {
    pub(crate) lines: Lines,
    pub(crate) hint: Option<Hint>,
    pub(crate) cursor: Cursor,
    pub(crate) select_mode: Option<SelectMode>,
    pub(crate) last_selection: Option<(SelectMode, Pos)>,
    pub(crate) last_substitute: Option<EditCmd>,
    pub(crate) last_global: Option<EditCmd>,
    pub(crate) last_search: Option<Motion>,
    pub(crate) pending_search: Option<String>,
    pub(crate) insert_mode_start_pos: Option<Pos>,
    pub(crate) saved_col: Option<usize>,
    pub(crate) indent_ctx: IndentCtx,
    pub(crate) scroll_offset: usize,
    pub(crate) undo_stack: Vec<Edit>,
    pub(crate) redo_stack: Vec<Edit>,
    pub(crate) merging_undos: bool,
    pub(crate) kill_ring: KillRing,
    pub(crate) concat_points: VecDeque<Pos>,
    pub(crate) indent_cache: Option<Vec<(usize, usize)>>,
    pub(crate) parse_status: bool,
    pub(crate) notices: Vec<String>,
}

/// The state of a line buffer.
#[verifier::ext_equal]
pub struct BufV {
    pub lines: LinesV,
    pub hint: Option<HintV>,
    pub cursor: Cursor,
    pub select_mode: Option<SelectMode>,
    pub last_selection: Option<(SelectMode, Pos)>,
    pub last_substitute: Option<EditCmd>,
    pub last_global: Option<EditCmd>,
    pub last_search: Option<Motion>,
    pub pending_search: Option<Seq<char>>,
    pub insert_mode_start_pos: Option<Pos>,
    pub saved_col: Option<usize>,
    pub scroll_offset: usize,
    pub undo_stack: Seq<EditV>,
    pub redo_stack: Seq<EditV>,
    pub merging_undos: bool,
    pub kill_ring: KillRingV,
    pub concat_points: Seq<Pos>,
    pub indent_cache: Option<Seq<(usize, usize)>>,
    pub parse_status: bool,
    pub notices: Seq<Seq<char>>,
}

/// The view of an optional value.
pub open spec fn opt_view<T: View>(o: Option<T>) -> Option<T::V> {
    match o {
        Some(x) => Some(x@),
        None => None,
    }
}

impl View for LineBuf {
    type V = BufV;

    open(crate) spec fn view(&self) -> BufV {
        BufV {
            lines: self.lines@,
            hint: opt_view(self.hint),
            cursor: self.cursor,
            select_mode: self.select_mode,
            last_selection: self.last_selection,
            last_substitute: self.last_substitute,
            last_global: self.last_global,
            last_search: self.last_search,
            pending_search: opt_view(self.pending_search),
            insert_mode_start_pos: self.insert_mode_start_pos,
            saved_col: self.saved_col,
            scroll_offset: self.scroll_offset,
            undo_stack: views(self.undo_stack@),
            redo_stack: views(self.redo_stack@),
            merging_undos: self.merging_undos,
            kill_ring: self.kill_ring@,
            concat_points: self.concat_points@,
            indent_cache: opt_view(self.indent_cache),
            parse_status: self.parse_status,
            notices: views(self.notices@),
        }
    }
}

/// There is a line, and the cursor stands in one.
pub open spec fn wf(b: BufV) -> bool {
    b.lines.len() > 0 && b.cursor.pos.row < b.lines.len()
}

/// The state of a new buffer.
pub open spec fn fresh() -> BufV {
    BufV {
        lines: seq![blank()],
        hint: None,
        cursor: Cursor { pos: Pos { row: 0, col: 0 }, exclusive: false },
        select_mode: None,
        last_selection: None,
        last_substitute: None,
        last_global: None,
        last_search: None,
        pending_search: None,
        insert_mode_start_pos: None,
        saved_col: None,
        scroll_offset: 0,
        undo_stack: Seq::empty(),
        redo_stack: Seq::empty(),
        merging_undos: false,
        kill_ring: KillRingV {
            kills: Seq::empty(),
            merging: false,
            selected: None,
            kill_cycle_span: None,
        },
        concat_points: Seq::empty(),
        indent_cache: None,
        parse_status: true,
        notices: Seq::empty(),
    }
}

/// The buffer with other lines.
pub open spec fn with_lines(b: BufV, lines: LinesV) -> BufV {
    BufV { lines, ..b }
}

/// The buffer with the cursor at `pos`.
pub open spec fn with_cursor(b: BufV, pos: Pos) -> BufV {
    BufV { cursor: Cursor { pos, ..b.cursor }, ..b }
}

/// The line in row `row`; the last one where there is no such row.
pub open spec fn line_at(ls: LinesV, row: usize) -> LineV {
    ls[cut_row(row, ls.len() as int) as int]
}

/// `pos` cut to a place of the buffer.
pub open spec fn clamped(ls: LinesV, pos: Pos, exclusive: bool) -> Pos {
    let row = cut_row(pos.row, ls.len() as int);
    Pos { row, col: cut_col(pos.col, line_at(ls, row).len() as int, exclusive) }
}

/// The buffer with the cursor moved to `pos`, or as near as it may come.
pub open spec fn moved(b: BufV, pos: Pos) -> BufV {
    with_cursor(b, clamped(b.lines, pos, b.cursor.exclusive))
}

/// No text at all.
pub open spec fn no_text(ls: LinesV) -> bool {
    ls.len() == 0 || (ls.len() == 1 && cluster_count(ls) == 0)
}

/// The lines of the hint, where there is one.
pub open spec fn hinted(b: BufV) -> LinesV {
    match b.hint {
        Some(h) => hint_text(h),
        None => Seq::empty(),
    }
}

/// How many lines are shown at once.
pub open spec fn viewport(b: BufV, opts: Opts) -> int {
    let room = if opts.viewport_rows <= 100 {
        opts.viewport_rows as int
    } else {
        100
    };
    let total = attached(b.lines, hinted(b)).len() as int;
    if room <= total {
        room
    } else {
        total
    }
}

/// The first line shown: moved no further than the cursor needs to keep its
/// margin, and not past the point where the last lines fill the viewport.
pub open spec fn scrolled(b: BufV, opts: Opts) -> usize {
    let row = b.cursor.pos.row as int;
    let off = opts.scroll_offset as int;
    let height = viewport(b, opts);
    let up = if row < b.scroll_offset + off {
        if row >= off {
            row - off
        } else {
            0
        }
    } else {
        b.scroll_offset as int
    };
    let down = if row + off >= up + height {
        row + off + 1 - height
    } else {
        up
    };
    let most = if b.lines.len() >= height {
        b.lines.len() - height
    } else {
        0
    };
    sat(if down <= most {
        down
    } else {
        most
    })
}

/// The buffer with at least one line, the cursor in it, and the viewport
/// round the cursor.
pub open spec fn fixed(b: BufV, opts: Opts) -> BufV {
    let c = moved(with_lines(b, or_blank(b.lines)), b.cursor.pos);
    BufV { scroll_offset: scrolled(c, opts), ..c }
}

/// The place one cluster before the cursor in its row; the cursor itself in
/// the first column.
pub open spec fn place_before(b: BufV) -> Pos {
    shifted(b.cursor.pos, 0, -1)
}

/// The cluster at `pos`.
pub open spec fn cluster_at(ls: LinesV, pos: Pos) -> Option<Seq<char>> {
    if pos.row < ls.len() && pos.col < ls[pos.row as int].len() {
        Some(ls[pos.row as int][pos.col as int])
    } else {
        None
    }
}

pub proof fn lemma_no_text(ls: LinesV)
    requires
        ls.len() == 1,
    ensures
        cluster_count(ls) == ls[0].len(),
{
    assert(ls.drop_last() =~= LinesV::empty());
    assert(cluster_count(LinesV::empty()) == 0);
}

impl Default for LineBuf {
    fn default() -> (b: LineBuf)
        ensures
            b@ == fresh(),
            wf(b@),
    {
        let b = LineBuf {
            lines: Lines::default(),
            hint: None,
            cursor: Cursor::default(),
            select_mode: None,
            last_selection: None,
            last_substitute: None,
            last_global: None,
            last_search: None,
            pending_search: None,
            insert_mode_start_pos: None,
            saved_col: None,
            indent_ctx: IndentCtx::new(),
            scroll_offset: 0,
            undo_stack: Vec::new(),
            redo_stack: Vec::new(),
            merging_undos: false,
            kill_ring: KillRing::new(),
            concat_points: VecDeque::new(),
            indent_cache: None,
            parse_status: true,
            notices: Vec::new(),
        };
        assert(b@ =~= fresh());
        b
    }
}

impl LineBuf {
    pub fn new() -> (b: LineBuf)
        ensures
            b@ == fresh(),
            wf(b@),
    {
        LineBuf::default()
    }

    pub fn cursor(&self) -> (p: Pos)
        ensures
            p == self@.cursor.pos,
    {
        self.cursor.pos
    }

    pub fn lines(&self) -> (l: &Lines)
        ensures
            l@ == self@.lines,
    {
        &self.lines
    }

    pub fn scroll_offset(&self) -> (n: usize)
        ensures
            n == self@.scroll_offset,
    {
        self.scroll_offset
    }

    pub fn row(&self) -> (n: usize)
        ensures
            n == self@.cursor.pos.row,
    {
        self.cursor.pos.row
    }

    pub fn col(&self) -> (n: usize)
        ensures
            n == self@.cursor.pos.col,
    {
        self.cursor.pos.col
    }

    pub fn row_col(&self) -> (r: (usize, usize))
        ensures
            r == (self@.cursor.pos.row, self@.cursor.pos.col),
    {
        (self.cursor.pos.row, self.cursor.pos.col)
    }

    /// The row, or the last one where there is no such row.
    pub(crate) fn clamp_to_row(&self, row: usize) -> (r: usize)
        requires
            self@.lines.len() > 0,
        ensures
            r == cut_row(row, self@.lines.len() as int),
            r < self@.lines.len(),
    {
        let last = self.lines.len() - 1;
        if row > last {
            last
        } else {
            row
        }
    }

    /// The line in row `row`, or the last one where there is no such row.
    pub fn line(&self, row: usize) -> (l: &Line)
        requires
            self@.lines.len() > 0,
        ensures
            l@ == line_at(self@.lines, row),
    {
        let row = self.clamp_to_row(row);
        self.lines.at(row)
    }

    /// The line the cursor is in.
    pub fn cur_line(&self) -> (l: &Line)
        requires
            self@.lines.len() > 0,
        ensures
            l@ == line_at(self@.lines, self@.cursor.pos.row),
    {
        self.line(self.cursor.pos.row)
    }

    /// Puts another line in place of the one in row `row`.
    pub(crate) fn replace_line(&mut self, row: usize, line: Line)
        requires
            old(self)@.lines.len() > 0,
        ensures
            final(self)@ == with_lines(
                old(self)@,
                old(self)@.lines.update(cut_row(row, old(self)@.lines.len() as int) as int, line@),
            ),
    {
        let row = self.clamp_to_row(row);
        self.lines.replace_at(row, line);
        assert(self@ =~= with_lines(old(self)@, old(self)@.lines.update(row as int, line@)));
    }

    /// The line in row `row`, where there is one.
    pub fn get_row(&self, row: usize) -> (l: Option<&Line>)
        ensures
            l is Some <==> row < self@.lines.len(),
            l is Some ==> l->0@ == self@.lines[row as int],
    {
        self.lines.get(row)
    }

    pub fn count_graphemes(&self) -> (n: usize)
        ensures
            n == sat(cluster_count(self@.lines)),
    {
        self.lines.count_graphemes()
    }

    pub fn is_empty(&self) -> (r: bool)
        ensures
            r == no_text(self@.lines),
    {
        proof {
            lemma_cluster_count_nonneg(self@.lines);
            if self@.lines.len() == 1 {
                lemma_no_text(self@.lines);
            }
        }
        self.lines.len() == 0 || (self.lines.len() == 1 && self.lines.at(0).is_empty())
    }

    /// The text of the buffer.
    pub fn joined(&self) -> (s: String)
        ensures
            s@ == text_of(self@.lines),
    {
        self.lines.join()
    }

    /// The text of the buffer.
    pub fn to_string(&self) -> (s: String)
        ensures
            s@ == text_of(self@.lines),
    {
        self.lines.join()
    }

    /// `pos` cut to a place of the buffer.
    pub(crate) fn clamp_place(&self, pos: Pos, exclusive: bool) -> (p: Pos)
        requires
            self@.lines.len() > 0,
        ensures
            p == clamped(self@.lines, pos, exclusive),
            p.row < self@.lines.len(),
            p.col <= self@.lines[p.row as int].len(),
    {
        let mut p = pos;
        p.clamp_row(self.lines.0.as_slice());
        let row = p.row;
        p.clamp_col(self.lines.0[row].0.as_slice(), exclusive);
        p
    }

    /// `pos` cut to a place of the buffer, behind the last cluster of a line
    /// at most.
    pub fn clamp_pos(&self, pos: Pos) -> (p: Pos)
        requires
            self@.lines.len() > 0,
        ensures
            p == clamped(self@.lines, pos, false),
    {
        self.clamp_place(pos, false)
    }

    /// Moves the cursor to `pos`, or as near as it may come.
    pub fn set_cursor(&mut self, pos: Pos)
        requires
            old(self)@.lines.len() > 0,
        ensures
            final(self)@ == moved(old(self)@, pos),
            wf(final(self)@),
    {
        let p = self.clamp_place(pos, self.cursor.exclusive);
        self.cursor.pos = p;
        assert(self@ =~= moved(old(self)@, pos));
    }

    /// Moves the cursor to row `row`, to the column kept for vertical moves
    /// where there is one.
    pub fn set_row(&mut self, row: usize)
        requires
            old(self)@.lines.len() > 0,
        ensures
            final(self)@ == row_moved(old(self)@, row),
            wf(final(self)@),
    {
        let col = match self.saved_col {
            Some(c) => c,
            None => self.cursor.pos.col,
        };
        self.set_cursor(Pos { row, col });
    }

    /// The lines of the hint, where there is one.
    pub fn hint_lines(&self) -> (l: Lines)
        ensures
            l@ == hinted(self@),
    {
        match &self.hint {
            Some(h) => h.lines().clone(),
            None => Lines::none(),
        }
    }

    /// How many lines are shown at once.
    pub fn get_viewport_height(&self, opts: &Opts) -> (n: usize)
        ensures
            n == viewport(self@, *opts),
    {
        let mut all = self.lines.clone();
        let mut hint = self.hint_lines();
        all.attach_lines(&mut hint);
        min_of(min_of(opts.viewport_rows, 100), all.len())
    }

    /// Scrolls just so far that the cursor keeps its margin.
    pub fn update_scroll_offset(&mut self, opts: &Opts)
        ensures
            final(self)@ == (BufV { scroll_offset: scrolled(old(self)@, *opts), ..old(self)@ }),
    {
        let height = self.get_viewport_height(opts);
        let row = self.cursor.pos.row;
        let off = opts.scroll_offset;
        let mut scroll: u128 = self.scroll_offset as u128;
        if (row as u128) < scroll + off as u128 {
            scroll = row.saturating_sub(off) as u128;
        }
        if row as u128 + off as u128 >= scroll + height as u128 {
            scroll = row as u128 + off as u128 + 1 - height as u128;
        }
        let most = self.lines.len().saturating_sub(height);
        self.scroll_offset =
        if scroll <= most as u128 {
            scroll as usize
        } else {
            most
        };
        assert(self@ =~= (BufV { scroll_offset: scrolled(old(self)@, *opts), ..old(self)@ }));
    }

    /// Gives the buffer a line where it has none, brings the cursor into it,
    /// and scrolls to it.
    pub fn fix_cursor(&mut self, opts: &Opts)
        ensures
            final(self)@ == fixed(old(self)@, *opts),
            wf(final(self)@),
    {
        self.lines.push_empty();
        assert(self@ =~= with_lines(old(self)@, or_blank(old(self)@.lines)));
        self.set_cursor(self.cursor.pos);
        self.update_scroll_offset(opts);
    }

    pub fn move_cursor_to_end(&mut self)
        requires
            old(self)@.lines.len() > 0,
        ensures
            final(self)@ == moved(old(self)@, end_of_all()),
            wf(final(self)@),
    {
        self.set_cursor(Pos::end());
    }

    /// Says whether the cursor stays on clusters.
    pub fn set_cursor_clamp(&mut self, exclusive: bool)
        ensures
            final(self)@ == (BufV {
                cursor: Cursor { exclusive, ..old(self)@.cursor },
                ..old(self)@
            }),
    {
        self.cursor.exclusive = exclusive;
        assert(self@ =~= (BufV {
            cursor: Cursor { exclusive, ..old(self)@.cursor },
            ..old(self)@
        }));
    }

    pub fn clear_hint(&mut self)
        ensures
            final(self)@ == (BufV { hint: None, ..old(self)@ }),
    {
        self.hint = None;
        assert(self@ =~= (BufV { hint: None, ..old(self)@ }));
    }

    /// Forgets where texts were put together.
    pub fn clear_concats(&mut self)
        ensures
            final(self)@ == (BufV { concat_points: Seq::empty(), ..old(self)@ }),
    {
        self.concat_points.clear();
        assert(self@ =~= (BufV { concat_points: Seq::empty(), ..old(self)@ }));
    }

    /// Empties the buffer.
    pub fn clear_buffer(&mut self, opts: &Opts)
        ensures
            final(self)@ == fixed(
                BufV { lines: seq![blank()], concat_points: Seq::empty(), ..old(self)@ },
                *opts,
            ),
            wf(final(self)@),
    {
        self.lines = Lines::default();
        self.clear_concats();
        assert(self@ =~= (BufV {
            lines: seq![blank()],
            concat_points: Seq::empty(),
            ..old(self)@
        }));
        self.fix_cursor(opts);
    }

    /// Puts a text in place of the buffer's.
    pub fn set_buffer(&mut self, s: &str, opts: &Opts)
        ensures
            final(self)@ == fixed(
                BufV { lines: lines_of(s@), concat_points: Seq::empty(), ..old(self)@ },
                *opts,
            ),
            text_of(final(self)@.lines) == s@,
            wf(final(self)@),
    {
        self.lines = Lines::to_lines(s);
        self.clear_concats();
        assert(self@ =~= (BufV {
            lines: lines_of(s@),
            concat_points: Seq::empty(),
            ..old(self)@
        }));
        self.fix_cursor(opts);
    }

    /// A buffer that starts out with a text, the cursor in its first row.
    pub fn with_initial(self, s: &str, cursor_pos: usize, opts: &Opts) -> (b: LineBuf)
        ensures
            b@ == with_cursor(
                fixed(
                    BufV { lines: lines_of(s@), concat_points: Seq::empty(), ..self@ },
                    *opts,
                ),
                Pos {
                    row: 0,
                    col: if cursor_pos <= s.spec_bytes().len() as usize {
                        cursor_pos
                    } else {
                        s.spec_bytes().len() as usize
                    },
                },
            ),
            wf(b@),
    {
        let mut b = self;
        b.set_buffer(s, opts);
        let ghost set = b@;
        let col = min_of(cursor_pos, s.len());
        b.cursor.pos = Pos { row: 0, col };
        assert(b@ =~= with_cursor(set, Pos { row: 0, col }));
        b
    }

    /// Takes the text out of the buffer.
    pub fn take_buf(&mut self) -> (s: String)
        ensures
            s@ == text_of(old(self)@.lines),
            final(self)@ == with_cursor(
                with_lines(old(self)@, seq![blank()]),
                Pos { row: 0, col: 0 },
            ),
            wf(final(self)@),
    {
        let s = self.joined();
        self.lines = Lines::default();
        self.cursor.pos = Pos { row: 0, col: 0 };
        assert(self@ =~= with_cursor(with_lines(old(self)@, seq![blank()]), Pos { row: 0, col: 0 }));
        s
    }

    /// The cluster at `pos`.
    pub fn gr_at(&self, pos: Pos) -> (g: Option<&Grapheme>)
        ensures
            g is Some <==> cluster_at(self@.lines, pos) is Some,
            g is Some ==> Some(g->0@) == cluster_at(self@.lines, pos),
    {
        match self.lines.get(pos.row) {
            Some(l) => l.get(pos.col),
            None => None,
        }
    }

    /// A copy of the cluster at `pos`.
    pub fn get(&self, pos: Pos) -> (g: Option<Grapheme>)
        ensures
            opt_view(g) == cluster_at(self@.lines, pos),
    {
        match self.gr_at(pos) {
            Some(g) => Some(g.clone()),
            None => None,
        }
    }

    /// The cluster before the cursor; in the first column, the one under it.
    pub fn grapheme_before_cursor(&self) -> (g: Option<Grapheme>)
        ensures
            opt_view(g) == cluster_at(self@.lines, place_before(self@)),
    {
        self.get(self.cursor.pos.col_sub(1))
    }

    /// The cluster behind the one under the cursor.
    pub fn grapheme_after_cursor(&self) -> (g: Option<Grapheme>)
        ensures
            opt_view(g) == cluster_at(self@.lines, shifted(self@.cursor.pos, 0, 1)),
    {
        self.get(self.cursor.pos.col_add(1))
    }

    /// Whether white space is under the cursor.
    pub fn cursor_on_ws(&self) -> (r: bool)
        requires
            self@.lines.len() > 0,
        ensures
            r == ({
                let l = line_at(self@.lines, self@.cursor.pos.row);
                self@.cursor.pos.col < l.len() && is_ws(l[self@.cursor.pos.col as int])
            }),
    {
        match self.cur_line().get(self.cursor.pos.col) {
            Some(g) => g.is_ws(),
            None => false,
        }
    }

    /// The last place the cursor may take.
    pub fn end_pos(&self) -> (p: Pos)
        requires
            self@.lines.len() > 0,
        ensures
            p == clamped(self@.lines, end_of_all(), self@.cursor.exclusive),
    {
        self.clamp_place(Pos::end(), self.cursor.exclusive)
    }

    /// Whether the cursor stands at the end of the buffer.
    pub fn cursor_at_max(&self) -> (r: bool)
        requires
            self@.lines.len() > 0,
        ensures
            r == (self@.cursor.pos.row == self@.lines.len() - 1 && self@.cursor.pos.col >= last_col(
                self@.lines.last().len() as int,
                self@.cursor.exclusive,
            )),
    {
        let last = self.lines.len() - 1;
        let len = self.lines.at(last).len();
        let max = if self.cursor.exclusive {
            len.saturating_sub(1)
        } else {
            len
        };
        self.cursor.pos.row == last && self.cursor.pos.col >= max
    }

    /// How far the cursor can go: the length of a single line, else the number
    /// of clusters.
    pub fn cursor_max(&self) -> (n: usize)
        ensures
            n == if self@.lines.len() == 1 {
                self@.lines[0].len() as int
            } else {
                sat(cluster_count(self@.lines)) as int
            },
    {
        if self.lines.len() == 1 {
            self.lines.at(0).len()
        } else {
            self.count_graphemes()
        }
    }

    /// Whether the cursor is in the last line, of the hint too where there is
    /// one.
    pub fn on_last_line(&self) -> (r: bool)
        ensures
            r == (self@.cursor.pos.row == (if self@.lines.len() > 0 {
                self@.lines.len() - 1
            } else {
                0
            }) && hinted(self@).len() <= 1),
    {
        let last = self.lines.len().saturating_sub(1);
        let short = match &self.hint {
            Some(h) => h.lines().len() <= 1,
            None => true,
        };
        self.cursor.pos.row == last && short
    }

    /// Whether nothing but white space lies before the cursor in its line.
    pub fn cursor_in_leading_ws(&self) -> (r: bool)
        requires
            self@.lines.len() > 0,
        ensures
            r == in_leading_ws(self@),
    {
        let line = self.line(self.cursor.pos.row);
        let col = self.cursor.pos.col;
        if col > line.len() {
            return true;
        }
        let mut i: usize = 0;
        while i < col
            invariant
                i <= col <= line@.len(),
                col == self@.cursor.pos.col,
                line@ == line_at(self@.lines, self@.cursor.pos.row),
                forall|j: int| 0 <= j < i ==> is_ws(#[trigger] line@[j]),
            decreases col - i,
        {
            if !line.at(i).is_ws() {
                assert(!is_ws(line@[i as int]));
                return false;
            }
            i += 1;
        }
        true
    }

    /// Whether a backslash stands right before the cursor.
    pub fn cursor_is_escaped(&self) -> (r: bool)
        requires
            self@.lines.len() > 0,
        ensures
            r == ({
                let l = line_at(self@.lines, self@.cursor.pos.row);
                0 < self@.cursor.pos.col <= l.len() && l[self@.cursor.pos.col - 1] == seq!['\\']
            }),
    {
        let line = self.cur_line();
        let col = self.cursor.pos.col;
        if col == 0 || col > line.len() {
            return false;
        }
        line.at(col - 1).is_char('\\')
    }

    pub fn mark_insert_mode_start_pos(&mut self)
        ensures
            final(self)@ == (BufV {
                insert_mode_start_pos: Some(old(self)@.cursor.pos),
                ..old(self)@
            }),
    {
        self.insert_mode_start_pos = Some(self.cursor.pos);
        assert(self@ =~= (BufV {
            insert_mode_start_pos: Some(old(self)@.cursor.pos),
            ..old(self)@
        }));
    }

    pub fn clear_insert_mode_start_pos(&mut self)
        ensures
            final(self)@ == (BufV { insert_mode_start_pos: None, ..old(self)@ }),
    {
        self.insert_mode_start_pos = None;
        assert(self@ =~= (BufV { insert_mode_start_pos: None, ..old(self)@ }));
    }

    pub fn clear_pending_search(&mut self)
        ensures
            final(self)@ == (BufV { pending_search: None, ..old(self)@ }),
    {
        self.pending_search = None;
        assert(self@ =~= (BufV { pending_search: None, ..old(self)@ }));
    }

    /// Takes over the pattern of a search being typed; an empty one clears it.
    pub fn update_pending_search(&mut self, new: Option<String>)
        ensures
            final(self)@ == (BufV {
                pending_search: search_after(opt_view(new), old(self)@.pending_search),
                ..old(self)@
            }),
    {
        let ghost want = search_after(opt_view(new), old(self)@.pending_search);
        match new {
            Some(p) => {
                if p.as_str().is_empty() {
                    self.pending_search = None;
                } else {
                    self.pending_search = Some(p);
                }
            },
            None => {},
        }
        assert(self@ =~= (BufV { pending_search: want, ..old(self)@ }));
    }
}

/// The pattern being searched for, once `new` was typed.
pub open spec fn search_after(new: Option<Seq<char>>, was: Option<Seq<char>>) -> Option<Seq<char>> {
    match new {
        Some(p) => if p.len() > 0 {
            Some(p)
        } else {
            None
        },
        None => was,
    }
}

/// The buffer with the cursor moved to a row, to the column kept for vertical
/// moves where there is one.
pub open spec fn row_moved(b: BufV, row: usize) -> BufV {
    moved(
        b,
        Pos {
            row,
            col: match b.saved_col {
                Some(c) => c,
                None => b.cursor.pos.col,
            },
        },
    )
}

/// Nothing but white space lies before the cursor in its line.
pub open spec fn in_leading_ws(b: BufV) -> bool {
    let l = line_at(b.lines, b.cursor.pos.row);
    b.cursor.pos.col > l.len() || forall|j: int|
        0 <= j < b.cursor.pos.col ==> is_ws(#[trigger] l[j])
}

/// Fixing the cursor leaves a place of the buffer, and doing it again changes
/// nothing.
pub proof fn law_fixed_cursor_is_a_place(b: BufV, opts: Opts)
    ensures
        wf(fixed(b, opts)),
        fixed(b, opts).cursor.pos.col <= last_col(
            fixed(b, opts).lines[fixed(b, opts).cursor.pos.row as int].len() as int,
            b.cursor.exclusive,
        ),
        fixed(fixed(b, opts), opts).lines == fixed(b, opts).lines,
        fixed(fixed(b, opts), opts).cursor == fixed(b, opts).cursor,
{
}

} // verus!
