//! What is drawn, and where the prompt goes when it grows and shrinks.

use vstd::prelude::*;
use crate::layout::{
    calc_str_width, expand_tabs, layout_of, place_after, push_motion, row_motion, shown_width,
    untabbed, Layout, Ruler,
};
use crate::linebuf::buffer::BufV;
use crate::linebuf::hint::hint_text;
use crate::linebuf::lines::{rows_of, split_rows, text_of};
use crate::linebuf::number::{count_text, digits_of};
use crate::linebuf::places::{flat_of, text_to};
use crate::linebuf::pos::Pos;
use crate::linebuf::report::{count_lines, line_count};
use crate::linebuf::select::anchor_of;
use crate::readline::mode::ModeReport;
use crate::readline::session::{shed_wf, ShedLine, ShedV};
use crate::seqs::{group_views, min_of, sat, views};
use crate::text::{chars_of, clusters, split_clusters, str_columns, string_of, text_columns};

verus! {

broadcast use group_views;

/// How the rows of the prompt move.
#[derive(Clone, Copy, Debug, PartialEq, Eq, Structural)]
pub enum RowShift {
    Same,
    /// Insert so many rows above, and go down as many.
    Down(u16),
    /// Scroll by so many rows, and go up so many.
    Up { scroll: u16, rows: u16 },
}

/// A number of rows, cut to what a terminal can have.
pub open spec fn short(n: int) -> u16 {
    if n < 0 {
        0
    } else if n > u16::MAX {
        u16::MAX
    } else {
        n as u16
    }
}

/// The prompt keeps its last row where it is: it moves down when it needs
/// fewer rows, and up when it needs more. `blanks` rows above it are free.
pub open spec fn row_shift(old_rows: int, new_rows: int, blanks: u16) -> RowShift {
    if new_rows < old_rows {
        RowShift::Down(short(old_rows - new_rows))
    } else if new_rows > old_rows {
        let rows = short(new_rows - old_rows);
        RowShift::Up {
            scroll: if rows > blanks {
                (rows - blanks) as u16
            } else {
                0
            },
            rows,
        }
    } else {
        RowShift::Same
    }
}

/// The free rows above the prompt once it has moved.
pub open spec fn blanks_after(old_rows: int, new_rows: int, blanks: u16) -> u16 {
    if new_rows < old_rows {
        short(blanks + short(old_rows - new_rows))
    } else {
        short(blanks - short(new_rows - old_rows))
    }
}

/// What is drawn at the right border.
#[derive(Debug)]
pub enum RightText {
    Nothing,
    /// The keys typed so far, in the first row.
    Typed(String),
    /// The right prompt, in the last row, with where it ends.
    Prompt(String, Pos),
}

/// A text drawn in a column some rows away, the cursor put back behind it.
pub open spec fn drawn_aside(rows: usize, dir: char, col: usize, text: Seq<char>) -> Seq<char> {
    seq!['\u{1b}', '7'] + row_motion(rows, dir) + seq!['\u{1b}', '['] + digits_of(
        col as int,
        10,
    ) + seq!['G'] + text + seq!['\u{1b}', '8']
}

fn draw_aside(rows: usize, dir: char, col: usize, text: &str) -> (s: String)
    ensures
        s@ == drawn_aside(rows, dir, col, text@),
{
    let mut s = String::new();
    s.push('\u{1b}');
    s.push('7');
    assert(s@ =~= seq!['\u{1b}', '7']);
    push_motion(&mut s, rows, dir);
    let ghost a = s@;
    s.push('\u{1b}');
    s.push('[');
    assert(s@ =~= a + seq!['\u{1b}', '[']);
    let num = count_text(col);
    s.append(num.as_str());
    let ghost b = s@;
    s.push('G');
    assert(s@ =~= b + seq!['G']);
    s.append(text);
    let ghost c = s@;
    s.push('\u{1b}');
    s.push('8');
    assert(s@ =~= c + seq!['\u{1b}', '8']);
    s
}

/// The keys typed so far are drawn.
pub open spec fn draws_seq(
    seq: Option<Seq<char>>,
    psr: Option<Seq<char>>,
    l: Layout,
    row0_used: usize,
    t_cols: usize,
    input: bool,
) -> bool {
    seq matches Some(s) && s.len() > 0 && !(psr is Some && l.end.row == 0) && row0_used + 1 < sat(
        t_cols - text_columns(s),
    ) && !input
}

/// The right prompt is drawn.
pub open spec fn draws_psr(psr: Option<Seq<char>>, l: Layout, t_cols: usize) -> bool {
    psr matches Some(p) && l.end.col + 1 < sat(t_cols - text_columns(p))
}

/// What is drawn at the right border: the keys typed so far where they fit,
/// else the right prompt where it fits.
pub open spec fn right_shown(
    seq: Option<Seq<char>>,
    psr: Option<Seq<char>>,
    l: Layout,
    row0_used: usize,
    t_cols: usize,
    tab: usize,
    input: bool,
    r: RightText,
) -> bool {
    if draws_seq(seq, psr, l, row0_used, t_cols, input) {
        let s = seq.unwrap();
        r matches RightText::Typed(t) && t@ == drawn_aside(
            l.cursor.row,
            'A',
            sat(t_cols - shown_width(s)),
            s,
        )
    } else if draws_psr(psr, l, t_cols) {
        let p = psr.unwrap();
        let col = sat(t_cols - shown_width(p));
        r matches RightText::Prompt(t, end) && t@ == drawn_aside(
            sat(l.end.row - l.cursor.row),
            'B',
            col,
            p,
        ) && end == place_after(
            p,
            Pos { row: l.end.row, col },
            Ruler { width: t_cols, margin: 0, tab, raw: false },
        )
    } else {
        r is Nothing
    }
}

/// What is drawn at the right border.
pub fn right_text(
    seq: Option<&str>,
    psr: Option<&str>,
    layout: &Layout,
    row0_used: usize,
    t_cols: usize,
    tab_width: usize,
    input: bool,
) -> (r: RightText)
    requires
        tab_width > 0,
    ensures
        right_shown(
            crate::readline::scroll::opt_str(seq),
            crate::readline::scroll::opt_str(psr),
            *layout,
            row0_used,
            t_cols,
            tab_width,
            input,
            r,
        ),
{
    if let Some(s) = seq {
        let one_line = psr.is_some() && layout.end.row == 0;
        let room = t_cols.saturating_sub(str_columns(s));
        if !s.is_empty() && !one_line && row0_used < room && room - row0_used > 1 && !input {
            let col = t_cols.saturating_sub(calc_str_width(s));
            return RightText::Typed(draw_aside(layout.cursor.row, 'A', col, s));
        }
    }
    if let Some(p) = psr {
        let room = t_cols.saturating_sub(str_columns(p));
        if layout.end.col < room && room - layout.end.col > 1 {
            let col = t_cols.saturating_sub(calc_str_width(p));
            let down = layout.end.row.saturating_sub(layout.cursor.row);
            let end = Layout::calc_pos(
                t_cols,
                p,
                Pos { row: layout.end.row, col },
                0,
                false,
                tab_width,
            );
            return RightText::Prompt(draw_aside(down, 'B', col, p), end);
        }
    }
    RightText::Nothing
}

/// What stands before the line of a mode with an editor of its own.
pub open spec fn prefix_of(r: ModeReport) -> Seq<char> {
    match r {
        ModeReport::Ex => ": "@,
        ModeReport::RevSearch => "?"@,
        ModeReport::Search => "/"@,
        _ => Seq::empty(),
    }
}

/// The first clusters of a text.
pub open spec fn first_clusters(s: Seq<char>, n: usize) -> Seq<char> {
    let gs = clusters(s);
    gs.take(if n <= gs.len() {
        n as int
    } else {
        gs.len() as int
    }).flatten()
}

/// The column of the cursor in the line of a mode with an editor of its own.
pub open spec fn sub_col(r: ModeReport, seq: Seq<char>, offset: usize) -> usize {
    sat(text_columns(prefix_of(r)) + text_columns(first_clusters(seq, offset)))
}

/// What draws the line of a mode with an editor of its own, below the text.
pub open spec fn sub_text(r: ModeReport, seq: Seq<char>, l: Layout, offset: usize) -> Seq<char> {
    row_motion(sat(l.end.row - l.cursor.row), 'B') + "\u{1b}[1G\n"@ + prefix_of(r) + seq + seq![
        '\u{1b}',
        '[',
    ] + digits_of(sat(sub_col(r, seq, offset) + 1) as int, 10) + seq!['G']
}

fn take_clusters(s: &str, n: usize) -> (r: String)
    ensures
        r@ == first_clusters(s@, n),
{
    let gs = split_clusters(s);
    let ghost all = clusters(s@);
    let m = min_of(n, gs.len());
    let mut out = String::new();
    let mut i: usize = 0;
    assert(all.take(0) =~= Seq::<Seq<char>>::empty());
    assert(all.take(0).flatten() =~= Seq::<char>::empty());
    while i < m
        invariant
            i <= m <= gs@.len(),
            views(gs@) == all,
            out@ == all.take(i as int).flatten(),
        decreases m - i,
    {
        assert(all.take(i + 1).drop_last() =~= all.take(i as int));
        assert(gs@[i as int]@ == views(gs@)[i as int]);
        proof {
            crate::layout::lemma_flatten_last(all.take(i + 1));
        }
        out.append(gs[i].as_str());
        i += 1;
    }
    out
}

/// What draws the line of a mode with an editor of its own, and the layout with
/// the cursor in it.
pub fn sub_prompt(report: ModeReport, seq: &str, layout: &Layout, offset: usize) -> (r: (
    String,
    Layout,
))
    ensures
        r.0@ == sub_text(report, seq@, *layout, offset),
        r.1 == ({
            let row = sat(layout.end.row + 1);
            Layout {
                end: Pos { row, ..layout.end },
                cursor: Pos { row, col: sub_col(report, seq@, offset) },
                ..*layout
            }
        }),
{
    let prefix = match report {
        ModeReport::Ex => ": ",
        ModeReport::RevSearch => "?",
        ModeReport::Search => "/",
        _ => "",
    };
    proof {
        reveal_strlit("");
        assert(prefix@ =~= prefix_of(report));
    }
    let head = take_clusters(seq, offset);
    let col = str_columns(prefix).saturating_add(str_columns(head.as_str()));
    let mut s = String::new();
    push_motion(&mut s, layout.end.row.saturating_sub(layout.cursor.row), 'B');
    assert(s@ =~= row_motion(sat(layout.end.row - layout.cursor.row), 'B'));
    s.append("\u{1b}[1G\n");
    s.append(prefix);
    s.append(seq);
    let ghost a = s@;
    s.push('\u{1b}');
    s.push('[');
    assert(s@ =~= a + seq!['\u{1b}', '[']);
    let num = count_text(col.saturating_add(1));
    s.append(num.as_str());
    let ghost b = s@;
    s.push('G');
    assert(s@ =~= b + seq!['G']);
    let row = layout.end.row.saturating_add(1);
    let l = Layout {
        prompt_end: layout.prompt_end,
        cursor: Pos { row, col },
        end: Pos { row, col: layout.end.col },
        psr_end: layout.psr_end,
        t_cols: layout.t_cols,
    };
    (s, l)
}

/// What moves the cursor to the last row of the text, for what is drawn below
/// it, and the layout then.
pub fn below_text(layout: &Layout, overlays: bool) -> (r: (String, Layout))
    ensures
        ({
            let down = sat(layout.end.row - layout.cursor.row);
            if overlays {
                &&& r.0@ == row_motion(down, 'B')
                &&& r.1 == (Layout {
                    cursor: Pos { row: (layout.cursor.row + down) as usize, ..layout.cursor },
                    ..*layout
                })
            } else {
                r.0@ == Seq::<char>::empty() && r.1 == *layout
            }
        }),
{
    let mut s = String::new();
    let mut l = *layout;
    if overlays {
        let down = layout.end.row.saturating_sub(layout.cursor.row);
        push_motion(&mut s, down, 'B');
        assert(s@ =~= row_motion(down, 'B'));
        if down > 0 {
            l.cursor.row = layout.end.row;
        }
    }
    (s, l)
}

/// How many columns of the row above are taken, for what is drawn below.
pub fn preceding_width(layout: &Layout, t_cols: usize) -> (n: usize)
    ensures
        n == if layout.psr_end is Some {
            t_cols as int
        } else if layout.end.col >= layout.cursor.col {
            sat(layout.end.col + 1) as int
        } else {
            sat(layout.cursor.col + 1) as int
        },
{
    if layout.psr_end.is_some() {
        t_cols
    } else if layout.end.col >= layout.cursor.col {
        layout.end.col.saturating_add(1)
    } else {
        layout.cursor.col.saturating_add(1)
    }
}

/// A row without the carriage return at its end.
pub open spec fn bare_row(s: Seq<char>) -> Seq<char> {
    if s.len() > 0 && s.last() == '\r' {
        s.drop_last()
    } else {
        s
    }
}

/// The first line of a text.
pub open spec fn first_line(s: Seq<char>) -> Seq<char> {
    if rows_of(s).len() > 1 {
        bare_row(rows_of(s)[0])
    } else {
        rows_of(s)[0]
    }
}

/// The first line of a text with several; any other text as it is.
pub fn one_line(s: &str) -> (r: String)
    ensures
        r@ == if line_count(s@) > 1 {
            first_line(s@)
        } else {
            s@
        },
{
    let n = count_lines(s);
    if n > 1 {
        cut_first(s)
    } else {
        String::from_str(s)
    }
}

/// The first line of a text.
fn cut_first(s: &str) -> (r: String)
    ensures
        r@ == first_line(s@),
{
    proof {
        crate::linebuf::lines::lemma_rows_nonempty(s@);
    }
    let rows = split_rows(s);
    assert(rows@[0]@ == views(rows@)[0]);
    let several = rows.len() > 1;
    let mut row: Vec<char> = rows[0].clone();
    assert(row@ =~= rows@[0]@);
    if several && row.len() > 0 && row[row.len() - 1] == '\r' {
        row.pop();
    }
    assert(row@ =~= first_line(s@));
    string_of(row.as_slice())
}

/// What is shown of a status message after so many milliseconds: its first
/// line for five seconds, and how long it has still to be shown.
pub fn status_content(msg: &str, elapsed_ms: u64) -> (r: Option<(String, u64)>)
    ensures
        match r {
            Some((s, left)) => elapsed_ms < 5000 && s@ == first_line(msg@) && left == 5000
                - elapsed_ms,
            None => elapsed_ms >= 5000,
        },
{
    if elapsed_ms < 5000 {
        Some((cut_first(msg), 5000 - elapsed_ms))
    } else {
        None
    }
}

/// A text on one line: line feeds written out.
pub open spec fn on_one_line(s: Seq<char>) -> Seq<char>
    decreases s.len(),
{
    if s.len() == 0 {
        Seq::empty()
    } else if s.last() == '\n' {
        on_one_line(s.drop_last()) + seq!['\\', 'n']
    } else {
        on_one_line(s.drop_last()).push(s.last())
    }
}

fn write_out(s: &str) -> (r: String)
    ensures
        r@ == on_one_line(s@),
{
    let chars = chars_of(s);
    let mut out = String::new();
    let mut i: usize = 0;
    assert(chars@.take(0) =~= Seq::<char>::empty());
    while i < chars.len()
        invariant
            i <= chars@.len(),
            out@ == on_one_line(chars@.take(i as int)),
        decreases chars@.len() - i,
    {
        assert(chars@.take(i + 1).drop_last() =~= chars@.take(i as int));
        let ghost was = out@;
        if chars[i] == '\n' {
            out.push('\\');
            out.push('n');
            assert(out@ =~= was + seq!['\\', 'n']);
        } else {
            out.push(chars[i]);
        }
        i += 1;
    }
    assert(chars@.take(chars@.len() as int) =~= chars@);
    out
}

/// The text of the hint.
pub open spec fn joined_hint(b: BufV) -> Option<Seq<char>> {
    match b.hint {
        Some(h) => Some(text_of(hint_text(h))),
        None => None,
    }
}

/// What others are told of the line being typed.
#[derive(Debug)]
pub struct LineData {
    pub buffer: String,
    pub cursor: usize,
    pub anchor: Option<usize>,
    pub hint: Option<String>,
    pub mode: ModeReport,
}

impl ShedLine {
    /// What others are told of the line being typed.
    pub fn get_line_data(&self) -> (d: LineData)
        requires
            shed_wf(self@),
        ensures
            d.buffer@ == on_one_line(text_of(self@.editor.lines)),
            d.cursor == sat(flat_of(self@.editor.lines, self@.editor.cursor.pos)),
            d.anchor == match self@.editor.select_mode {
                Some(m) => Some(sat(flat_of(self@.editor.lines, anchor_of(m)))),
                None => None,
            },
            match d.hint {
                Some(h) => joined_hint(self@.editor) matches Some(t) && h@ == on_one_line(t),
                None => joined_hint(self@.editor) is None,
            },
            d.mode == self@.mode.report,
    {
        let text = self.editor.joined();
        let hint = match self.editor.try_join_hint() {
            Some(h) => Some(write_out(h.as_str())),
            None => None,
        };
        LineData {
            buffer: write_out(text.as_str()),
            cursor: self.editor.cursor_to_flat(),
            anchor: self.editor.anchor_to_flat(),
            hint,
            mode: self.mode.report,
        }
    }

    /// Where a prompt and the line behind it come to stand, the line as it is
    /// drawn: with blanks in place of its tabs.
    pub fn get_layout(&self, prompt: &str, line: &str, cols: usize, tab_width: usize) -> (l: Layout)
        requires
            shed_wf(self@),
            tab_width > 0,
        ensures
            l == layout_of(
                cols,
                prompt@,
                untabbed(
                    clusters(text_to(self@.editor, self@.editor.scroll_offset as int)),
                    tab_width,
                ),
                untabbed(clusters(line@), tab_width),
                tab_width,
            ),
    {
        let to_cursor = match self.editor.window_slice_to_cursor() {
            Some(s) => s,
            None => String::new(),
        };
        let to_cursor = expand_tabs(to_cursor.as_str(), 0, tab_width);
        let to_end = expand_tabs(line, 0, tab_width);
        Layout::from_parts(cols, prompt, to_cursor.as_str(), to_end.as_str(), tab_width)
    }

    /// Whether the mode has a line of its own below the text.
    pub fn has_sub_editor(&self) -> (r: bool)
        ensures
            r == (self@.mode.report == ModeReport::Ex || self@.mode.report == ModeReport::RevSearch
                || self@.mode.report == ModeReport::Search),
    {
        match self.mode.report {
            ModeReport::Ex => true,
            ModeReport::RevSearch => true,
            ModeReport::Search => true,
            _ => false,
        }
    }

    /// How the rows of the prompt move, once what was drawn is cleared:
    /// `new` is the layout to come, `overlay` the rows drawn below it,
    /// `system_rows` those of messages above. Without the status line they
    /// stay.
    pub fn shift_rows(&mut self, new: &Layout, overlay: u16, system_rows: usize, statline: bool) -> (r:
        RowShift)
        ensures
            ({
                let v = old(self)@;
                let sub = if v.mode.report == ModeReport::Ex || v.mode.report
                    == ModeReport::RevSearch || v.mode.report == ModeReport::Search {
                    1int
                } else {
                    0
                };
                let was = v.old_layout.unwrap().end.row + v.overlay_displacement;
                let will = new.end.row + overlay + system_rows + sub;
                if v.old_layout is None {
                    r == RowShift::Same && final(self)@ == v
                } else if !statline {
                    r == RowShift::Same && final(self)@ == (ShedV { overlay_displacement: 0, ..v })
                } else {
                    &&& r == row_shift(was, will, v.blank_rows_above)
                    &&& final(self)@ == (ShedV {
                        overlay_displacement: 0,
                        blank_rows_above: blanks_after(was, will, v.blank_rows_above),
                        ..v
                    })
                }
            }),
    {
        let old_row = match &self.old_layout {
            Some(l) => l.end.row,
            None => {
                return RowShift::Same;
            },
        };
        let was: u128 = old_row as u128 + self.overlay_displacement as u128;
        self.overlay_displacement = 0;
        if !statline {
            return RowShift::Same;
        }
        let sub: u128 = if self.has_sub_editor() {
            1
        } else {
            0
        };
        let will: u128 = new.end.row as u128 + overlay as u128 + system_rows as u128 + sub;
        let blanks = self.blank_rows_above;
        if will < was {
            let n = shorten(was - will);
            self.blank_rows_above = blanks.saturating_add(n);
            RowShift::Down(n)
        } else if will > was {
            let n = shorten(will - was);
            self.blank_rows_above = blanks.saturating_sub(n);
            RowShift::Up { scroll: n.saturating_sub(blanks), rows: n }
        } else {
            RowShift::Same
        }
    }

    /// Takes the status line away; gives the last row of the scroll region from
    /// then on, which leaves a row for messages.
    pub fn drop_statline(&mut self, total_rows: u16) -> (bottom: u16)
        ensures
            final(self)@ == (ShedV { statline: None, ..old(self)@ }),
            bottom == if total_rows >= 2 {
                total_rows - 1
            } else {
                1
            },
    {
        self.statline = None;
        if total_rows >= 2 {
            total_rows - 1
        } else {
            1
        }
    }

    /// Whether the cursor of the terminal has to be brought back from below the
    /// scroll region. Where the prompt stood is not known then.
    pub fn rescue_cursor(&mut self, bottom: u16, cursor_row: Option<u16>) -> (r: bool)
        ensures
            r == (cursor_row matches Some(n) && n > bottom),
            final(self)@ == if r {
                ShedV { old_layout: None, ..old(self)@ }
            } else {
                old(self)@
            },
    {
        let r = match cursor_row {
            Some(n) => n > bottom,
            None => false,
        };
        if r {
            self.old_layout = None;
        }
        r
    }

    /// Everything is drawn: `layout` is where it stands, with `overlay_rows`
    /// below.
    pub fn print_line(&mut self, layout: Layout, overlay_rows: usize)
        ensures
            final(self)@ == (ShedV {
                overlay_displacement: short(overlay_rows as int),
                old_layout: Some(layout),
                needs_redraw: false,
                ..old(self)@
            }),
    {
        self.overlay_displacement = shorten(overlay_rows as u128);
        self.old_layout = Some(layout);
        self.needs_redraw = false;
    }
}

fn shorten(n: u128) -> (r: u16)
    ensures
        r == short(n as int),
{
    if n > 65535 {
        65535
    } else {
        n as u16
    }
}

/// However the prompt grows and shrinks, its last row stays: rows it no longer
/// needs become free above it, and rows it needs come first from those that
/// are free, then from scrolling.
pub proof fn law_rows_are_kept(old_rows: int, new_rows: int, blanks: u16)
    requires
        0 <= old_rows,
        0 <= new_rows,
        blanks + old_rows <= u16::MAX,
        new_rows <= u16::MAX,
    ensures
        match row_shift(old_rows, new_rows, blanks) {
            RowShift::Same => new_rows == old_rows && blanks_after(old_rows, new_rows, blanks)
                == blanks,
            RowShift::Down(n) => old_rows == new_rows + n && blanks_after(
                old_rows,
                new_rows,
                blanks,
            ) == blanks + n,
            RowShift::Up { scroll, rows } => new_rows == old_rows + rows && blanks + scroll
                == rows + blanks_after(old_rows, new_rows, blanks),
        },
{
}

} // verus!
