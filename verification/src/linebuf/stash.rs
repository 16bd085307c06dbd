//! The stash: buffers put aside. What is asked of it, and what its replies
//! make of the buffer.

use vstd::prelude::*;
use crate::editcmd::{StashArgs, StashListArg};
use crate::linebuf::address::row_span;
use crate::linebuf::buffer::{fixed, moved, no_text, opt_view, wf, with_cursor, with_lines, BufV, LineBuf};
use crate::linebuf::change::{equalized, put_at};
use crate::linebuf::excmd::{own, parse_count, read_count, read_place};
use crate::linebuf::lines::{blank, lines_of, text_of, Lines};
use crate::linebuf::number::{count_text, digits_of};
use crate::linebuf::pos::{shifted, Pos};
use crate::seqs::{group_views, sat, views};
use crate::shell::{env_ok, Answer, Ask, Env, Opts};
use crate::text::{chars_of, trim_text, trimmed};

verus! {

broadcast use group_views;

/// What is asked of the stash.
#[derive(Debug)]
pub enum StashAsk {
    Nothing,
    /// Put a buffer aside, under a name or on the stack.
    Push { name: Option<String>, buffer: String, row: usize, col: usize },
    /// Take an entry off the stack.
    Pop(usize),
    /// Look an entry up by its name or its place in the stack.
    Get(String),
    /// List the entries.
    List { named_only: bool, stack_only: bool },
}

#[verifier::ext_equal]
pub enum StashAskV {
    Nothing,
    Push { name: Option<Seq<char>>, buffer: Seq<char>, row: usize, col: usize },
    Pop(usize),
    Get(Seq<char>),
    List { named_only: bool, stack_only: bool },
}

impl View for StashAsk {
    type V = StashAskV;

    open spec fn view(&self) -> StashAskV {
        match self {
            StashAsk::Nothing => StashAskV::Nothing,
            StashAsk::Push { name, buffer, row, col } => StashAskV::Push {
                name: opt_view(*name),
                buffer: buffer@,
                row: *row,
                col: *col,
            },
            StashAsk::Pop(i) => StashAskV::Pop(*i),
            StashAsk::Get(s) => StashAskV::Get(s@),
            StashAsk::List { named_only, stack_only } => StashAskV::List {
                named_only: *named_only,
                stack_only: *stack_only,
            },
        }
    }
}

/// A buffer put aside.
#[derive(Debug)]
pub struct StashEntry {
    pub name: Option<String>,
    pub buffer: String,
    pub cursor_pos: String,
}

/// What the stash replies.
#[derive(Debug)]
pub enum StashReply {
    Failed(String),
    Stored,
    Entry(Option<StashEntry>),
    Listed(String),
}

/// What the user is told.
#[derive(Debug)]
pub enum Notice {
    BufferEmpty,
    Popped,
    NothingToPop,
    NoEntryAt(usize),
    PopFailed(String),
    BadCursor(String),
    Dropped,
    NothingToDrop,
    Applied(String),
    StashEmpty,
    NoEntryNamed(String),
    SwappedWith(String),
    SwappedStack,
    NoNamedEntries,
    StackEmpty,
    NoEntries,
}

#[verifier::ext_equal]
pub enum NoticeV {
    BufferEmpty,
    Popped,
    NothingToPop,
    NoEntryAt(usize),
    PopFailed(Seq<char>),
    BadCursor(Seq<char>),
    Dropped,
    NothingToDrop,
    Applied(Seq<char>),
    StashEmpty,
    NoEntryNamed(Seq<char>),
    SwappedWith(Seq<char>),
    SwappedStack,
    NoNamedEntries,
    StackEmpty,
    NoEntries,
}

impl View for Notice {
    type V = NoticeV;

    open spec fn view(&self) -> NoticeV {
        match self {
            Notice::BufferEmpty => NoticeV::BufferEmpty,
            Notice::Popped => NoticeV::Popped,
            Notice::NothingToPop => NoticeV::NothingToPop,
            Notice::NoEntryAt(i) => NoticeV::NoEntryAt(*i),
            Notice::PopFailed(s) => NoticeV::PopFailed(s@),
            Notice::BadCursor(s) => NoticeV::BadCursor(s@),
            Notice::Dropped => NoticeV::Dropped,
            Notice::NothingToDrop => NoticeV::NothingToDrop,
            Notice::Applied(s) => NoticeV::Applied(s@),
            Notice::StashEmpty => NoticeV::StashEmpty,
            Notice::NoEntryNamed(s) => NoticeV::NoEntryNamed(s@),
            Notice::SwappedWith(s) => NoticeV::SwappedWith(s@),
            Notice::SwappedStack => NoticeV::SwappedStack,
            Notice::NoNamedEntries => NoticeV::NoNamedEntries,
            Notice::StackEmpty => NoticeV::StackEmpty,
            Notice::NoEntries => NoticeV::NoEntries,
        }
    }
}

/// The words of a notice.
pub open spec fn notice_text(n: NoticeV) -> Seq<char> {
    match n {
        NoticeV::BufferEmpty => "Buffer is empty, nothing to stash"@,
        NoticeV::Popped => "stash: Popped stash entry"@,
        NoticeV::NothingToPop => "stash: Stash is empty, nothing to pop"@,
        NoticeV::NoEntryAt(i) => "stash: No stash entry at index '"@ + digits_of(i as int, 10)
            + "'"@,
        NoticeV::PopFailed(s) => "stash: Failed to pop stash entry: "@ + s,
        NoticeV::BadCursor(s) => "Failed to parse cursor position from stash: "@ + s,
        NoticeV::Dropped => "stash: Dropped stash entry"@,
        NoticeV::NothingToDrop => "stash: Stash is empty, nothing to drop"@,
        NoticeV::Applied(s) => "stash: Applied stash entry '"@ + s + "'"@,
        NoticeV::StashEmpty => "stash: Stash is empty"@,
        NoticeV::NoEntryNamed(s) => "stash: No stash entry named '"@ + s + "'"@,
        NoticeV::SwappedWith(s) => "stash: Swapped with '"@ + s + "'"@,
        NoticeV::SwappedStack => "stash: Swapped with stack entry"@,
        NoticeV::NoNamedEntries => "stash: No named stash entries"@,
        NoticeV::StackEmpty => "stash: Stack is empty"@,
        NoticeV::NoEntries => "stash: No stash entries"@,
    }
}

fn wrap(before: &str, mid: &str, after: &str) -> (s: String)
    ensures
        s@ == before@ + mid@ + after@,
{
    let mut s = String::from_str(before);
    s.append(mid);
    s.append(after);
    s
}

impl Notice {
    /// The words of the notice.
    pub fn text(&self) -> (s: String)
        ensures
            s@ == notice_text(self@),
    {
        match self {
            Notice::BufferEmpty => own("Buffer is empty, nothing to stash"),
            Notice::Popped => own("stash: Popped stash entry"),
            Notice::NothingToPop => own("stash: Stash is empty, nothing to pop"),
            Notice::NoEntryAt(i) => wrap(
                "stash: No stash entry at index '",
                count_text(*i).as_str(),
                "'",
            ),
            Notice::PopFailed(e) => {
                let mut s = String::from_str("stash: Failed to pop stash entry: ");
                s.append(e.as_str());
                s
            },
            Notice::BadCursor(e) => {
                let mut s = String::from_str("Failed to parse cursor position from stash: ");
                s.append(e.as_str());
                s
            },
            Notice::Dropped => own("stash: Dropped stash entry"),
            Notice::NothingToDrop => own("stash: Stash is empty, nothing to drop"),
            Notice::Applied(n) => wrap("stash: Applied stash entry '", n.as_str(), "'"),
            Notice::StashEmpty => own("stash: Stash is empty"),
            Notice::NoEntryNamed(n) => wrap("stash: No stash entry named '", n.as_str(), "'"),
            Notice::SwappedWith(n) => wrap("stash: Swapped with '", n.as_str(), "'"),
            Notice::SwappedStack => own("stash: Swapped with stack entry"),
            Notice::NoNamedEntries => own("stash: No named stash entries"),
            Notice::StackEmpty => own("stash: Stack is empty"),
            Notice::NoEntries => own("stash: No stash entries"),
        }
    }
}

/// The place in the stack an argument gives; `or` where it gives none.
pub open spec fn index_or(arg: Option<String>, or: usize) -> usize {
    match arg {
        Some(a) => match read_count(a@) {
            Some(i) => i,
            None => or,
        },
        None => or,
    }
}

/// The top of the stack.
pub open spec fn top(stack_len: usize) -> usize {
    if stack_len == 0 {
        0
    } else {
        (stack_len - 1) as usize
    }
}

/// The entry an argument names; the top of the stack where there is none.
pub open spec fn name_or_top(arg: Option<String>, stack_len: usize) -> Seq<char> {
    match arg {
        Some(a) => a@,
        None => digits_of(top(stack_len) as int, 10),
    }
}

/// What is asked of the stash first.
pub open spec fn first_ask(b: BufV, args: StashArgs, stack_len: usize) -> StashAskV {
    match args {
        StashArgs::Push(name) => if no_text(b.lines) {
            StashAskV::Nothing
        } else {
            StashAskV::Push {
                name: match name {
                    Some(n) => if trimmed(n@).len() > 0 {
                        Some(n@)
                    } else {
                        None
                    },
                    None => None,
                },
                buffer: text_of(b.lines),
                row: b.cursor.pos.row,
                col: b.cursor.pos.col,
            }
        },
        StashArgs::Pop(arg) => StashAskV::Pop(index_or(arg, top(stack_len))),
        StashArgs::Drop(arg) => StashAskV::Pop(index_or(arg, 0)),
        StashArgs::Apply(arg) => StashAskV::Get(name_or_top(arg, stack_len)),
        StashArgs::Insert(arg) => StashAskV::Get(name_or_top(arg, stack_len)),
        StashArgs::Swap(arg) => StashAskV::Get(name_or_top(arg, stack_len)),
        StashArgs::List(arg) => StashAskV::List {
            named_only: arg == Some(StashListArg::Named),
            stack_only: arg == Some(StashListArg::Stack),
        },
    }
}

/// What is told of an entry that is not there.
pub open spec fn missing(name: Seq<char>, stack_len: usize) -> NoticeV {
    match read_count(name) {
        Some(i) => if stack_len == 0 {
            NoticeV::StashEmpty
        } else {
            NoticeV::NoEntryAt(i)
        },
        None => NoticeV::NoEntryNamed(name),
    }
}

/// The buffer with a text that was put aside, the cursor where it was.
pub open spec fn restored(b: BufV, text: Seq<char>, cursor: Seq<char>, opts: Opts) -> BufV {
    let c = fixed(
        BufV { lines: lines_of(text), concat_points: Seq::empty(), ..b },
        opts,
    );
    moved(
        c,
        match read_place(c.lines, cursor) {
            Some(p) => p,
            None => Pos { row: 0, col: 0 },
        },
    )
}

/// The buffer put aside and emptied.
pub open spec fn put_aside(b: BufV, opts: Opts) -> BufV {
    let c = fixed(
        BufV { lines: seq![blank()], concat_points: Seq::empty(), ..b },
        opts,
    );
    moved(BufV { hint: None, ..c }, Pos { row: 0, col: 0 })
}

/// The buffer with a text that was put aside put in at the cursor, and the
/// cursor moved on by where it was in that text.
pub open spec fn inserted<S: Fn(&str, Ask) -> Answer>(b: BufV, text: Seq<char>, cursor: Seq<char>, env: Env<S>) -> BufV {
    let new = lines_of(text);
    let c = with_lines(b, put_at(b.lines, b.cursor.pos, new));
    let off = match read_place(c.lines, cursor) {
        Some(p) => p,
        None => Pos { row: 0, col: 0 },
    };
    let d = fixed(
        with_cursor(c, shifted(b.cursor.pos, off.row as int, off.col as int)),
        env.opts,
    );
    if env.opts.auto_indent {
        let rows = row_span(b.cursor.pos.row, sat(b.cursor.pos.row + new.len() - 1));
        equalized(d, rows, rows.len() as int, env.shell)
    } else {
        d
    }
}

/// What the notice of a cursor that names no place says.
pub open spec fn cursor_notice(ls: crate::linebuf::lines::LinesV, cursor: Seq<char>) -> Option<NoticeV> {
    match read_place(ls, cursor) {
        Some(_) => None,
        None => Some(NoticeV::BadCursor(crate::linebuf::excmd::bad_place(cursor))),
    }
}

impl LineBuf {
    /// What to ask the stash for first, and what to tell the user where there
    /// is nothing to ask.
    pub fn stash_ask(&self, args: &StashArgs, stack_len: usize) -> (r: (StashAsk, Option<Notice>))
        ensures
            r.0@ == first_ask(self@, *args, stack_len),
            opt_view(r.1) == if r.0@ is Nothing {
                Some(NoticeV::BufferEmpty)
            } else {
                None
            },
    {
        match args {
            StashArgs::Push(name) => {
                if self.is_empty() {
                    return (StashAsk::Nothing, Some(Notice::BufferEmpty));
                }
                let name = match name {
                    Some(n) => {
                        let bare = trim_text(n.as_str());
                        if bare.as_str().is_empty() {
                            None
                        } else {
                            Some(n.clone())
                        }
                    },
                    None => None,
                };
                (
                    StashAsk::Push {
                        name,
                        buffer: self.joined(),
                        row: self.cursor.pos.row,
                        col: self.cursor.pos.col,
                    },
                    None,
                )
            },
            StashArgs::Pop(arg) => (
                StashAsk::Pop(arg_index(arg, stack_len.saturating_sub(1))),
                None,
            ),
            StashArgs::Drop(arg) => (StashAsk::Pop(arg_index(arg, 0)), None),
            StashArgs::Apply(arg) => (StashAsk::Get(arg_name(arg, stack_len)), None),
            StashArgs::Insert(arg) => (StashAsk::Get(arg_name(arg, stack_len)), None),
            StashArgs::Swap(arg) => (StashAsk::Get(arg_name(arg, stack_len)), None),
            StashArgs::List(arg) => {
                let (named_only, stack_only) = match arg {
                    Some(StashListArg::Named) => (true, false),
                    Some(StashListArg::Stack) => (false, true),
                    None => (false, false),
                };
                (StashAsk::List { named_only, stack_only }, None)
            },
        }
    }

    /// Puts a text that was put aside in place of the buffer's.
    fn restore(&mut self, entry: &StashEntry, opts: &Opts) -> (n: Option<Notice>)
        ensures
            final(self)@ == restored(old(self)@, entry.buffer@, entry.cursor_pos@, *opts),
            text_of(final(self)@.lines) == entry.buffer@,
            opt_view(n) == cursor_notice(final(self)@.lines, entry.cursor_pos@),
            wf(final(self)@),
    {
        self.set_buffer(entry.buffer.as_str(), opts);
        let (p, n) = match self.parse_pos(entry.cursor_pos.as_str()) {
            Ok(p) => (p, None),
            Err(e) => (Pos { row: 0, col: 0 }, Some(Notice::BadCursor(e.msg))),
        };
        self.set_cursor(p);
        n
    }

    /// The buffer was put aside: empties it.
    pub fn stash_pushed(&mut self, opts: &Opts)
        ensures
            final(self)@ == put_aside(old(self)@, *opts),
            wf(final(self)@),
    {
        self.clear_buffer(opts);
        self.clear_hint();
        self.set_cursor(Pos { row: 0, col: 0 });
    }

    /// An entry was taken off the stack, or was not there.
    pub fn stash_popped(
        &mut self,
        idx: usize,
        stack_len: usize,
        reply: &StashReply,
        opts: &Opts,
    ) -> (v: Vec<Notice>)
        requires
            wf(old(self)@),
        ensures
            match *reply {
                StashReply::Entry(Some(e)) => {
                    &&& final(self)@ == restored(old(self)@, e.buffer@, e.cursor_pos@, *opts)
                    &&& text_of(final(self)@.lines) == e.buffer@
                    &&& views(v@) == with_notice(
                        seq![NoticeV::Popped],
                        cursor_notice(final(self)@.lines, e.cursor_pos@),
                    )
                },
                StashReply::Failed(msg) => {
                    &&& final(self)@ == old(self)@
                    &&& views(v@) == seq![NoticeV::PopFailed(msg@)]
                },
                _ => {
                    &&& final(self)@ == old(self)@
                    &&& views(v@) == seq![
                        if stack_len == 0 {
                            NoticeV::NothingToPop
                        } else {
                            NoticeV::NoEntryAt(idx)
                        },
                    ]
                },
            },
            wf(final(self)@),
    {
        let mut v: Vec<Notice> = Vec::new();
        match reply {
            StashReply::Entry(Some(e)) => {
                v.push(Notice::Popped);
                assert(views(v@) =~= seq![NoticeV::Popped]);
                let n = self.restore(e, opts);
                add_notice(&mut v, n);
            },
            StashReply::Failed(msg) => {
                v.push(Notice::PopFailed(msg.clone()));
                assert(views(v@) =~= seq![NoticeV::PopFailed(msg@)]);
            },
            _ => {
                if stack_len == 0 {
                    v.push(Notice::NothingToPop);
                    assert(views(v@) =~= seq![NoticeV::NothingToPop]);
                } else {
                    v.push(Notice::NoEntryAt(idx));
                    assert(views(v@) =~= seq![NoticeV::NoEntryAt(idx)]);
                }
            },
        }
        v
    }

    /// An entry was looked up to replace the buffer.
    pub fn stash_applied(
        &mut self,
        name: &str,
        stack_len: usize,
        entry: Option<&StashEntry>,
        opts: &Opts,
    ) -> (v: Vec<Notice>)
        requires
            wf(old(self)@),
        ensures
            match entry {
                Some(e) => {
                    &&& final(self)@ == restored(old(self)@, e.buffer@, e.cursor_pos@, *opts)
                    &&& text_of(final(self)@.lines) == e.buffer@
                    &&& views(v@) == with_notice(
                        match e.name {
                            Some(n) => seq![NoticeV::Applied(n@)],
                            None => Seq::empty(),
                        },
                        cursor_notice(final(self)@.lines, e.cursor_pos@),
                    )
                },
                None => {
                    &&& final(self)@ == old(self)@
                    &&& views(v@) == seq![missing(name@, stack_len)]
                },
            },
            wf(final(self)@),
    {
        let mut v: Vec<Notice> = Vec::new();
        assert(views(v@) =~= Seq::<NoticeV>::empty());
        match entry {
            Some(e) => {
                if let Some(n) = &e.name {
                    v.push(Notice::Applied(n.clone()));
                    assert(views(v@) =~= seq![NoticeV::Applied(n@)]);
                }
                let n = self.restore(e, opts);
                add_notice(&mut v, n);
            },
            None => {
                v.push(missing_entry(name, stack_len));
                assert(views(v@) =~= seq![missing(name@, stack_len)]);
            },
        }
        v
    }

    /// An entry was looked up to be put in at the cursor.
    pub fn stash_inserted<S: Fn(&str, Ask) -> Answer>(
        &mut self,
        name: &str,
        stack_len: usize,
        entry: Option<&StashEntry>,
        env: &Env<S>,
    ) -> (v: Vec<Notice>)
        requires
            wf(old(self)@),
            env_ok(*env),
        ensures
            match entry {
                Some(e) => {
                    &&& final(self)@ == inserted(old(self)@, e.buffer@, e.cursor_pos@, *env)
                    &&& views(v@) == with_notice(
                        Seq::empty(),
                        cursor_notice(
                            put_at(
                                old(self)@.lines,
                                old(self)@.cursor.pos,
                                lines_of(e.buffer@),
                            ),
                            e.cursor_pos@,
                        ),
                    )
                },
                None => {
                    &&& final(self)@ == old(self)@
                    &&& views(v@) == seq![missing(name@, stack_len)]
                },
            },
            wf(final(self)@),
    {
        let mut v: Vec<Notice> = Vec::new();
        assert(views(v@) =~= Seq::<NoticeV>::empty());
        let e = match entry {
            Some(e) => e,
            None => {
                v.push(missing_entry(name, stack_len));
                assert(views(v@) =~= seq![missing(name@, stack_len)]);
                return v;
            },
        };
        let lines = Lines::to_lines(e.buffer.as_str());
        let count = lines.len();
        let at = self.cursor.pos;
        self.insert_lines_at(at, lines);
        let (off, n) = match self.parse_pos(e.cursor_pos.as_str()) {
            Ok(p) => (p, None),
            Err(err) => (Pos { row: 0, col: 0 }, Some(Notice::BadCursor(err.msg))),
        };
        add_notice(&mut v, n);
        let ghost c = self@;
        self.cursor.pos = at.plus(off);
        assert(self@ =~= with_cursor(c, shifted(at, off.row as int, off.col as int)));
        self.fix_cursor(&env.opts);
        if env.opts.auto_indent {
            let s = at.row;
            let last = s.saturating_add(count - 1);
            let mut rows: Vec<usize> = Vec::new();
            let mut row: usize = s;
            while row < last
                invariant
                    s <= row <= last,
                    rows@ == row_span(s, last).take(row - s),
                decreases last - row,
            {
                rows.push(row);
                row += 1;
                assert(rows@ =~= row_span(s, last).take(row - s));
            }
            rows.push(row);
            assert(rows@ =~= row_span(s, last));
            self.equalize_rows(rows.as_slice(), env);
        }
        v
    }

    /// An entry was looked up to be swapped with the buffer: what to ask the
    /// stash for before [`LineBuf::stash_swapped`]. A named entry is written
    /// over; one on the stack is taken off, and the buffer put on top.
    pub fn stash_swap_asks(
        &self,
        ident: &str,
        stack_len: usize,
        entry: Option<&StashEntry>,
    ) -> (r: (Vec<StashAsk>, Option<Notice>))
        ensures
            views(r.0@) == swap_asks(self@, ident@, stack_len, entry),
            opt_view(r.1) == match entry {
                Some(_) => None,
                None => Some(missing(ident@, stack_len)),
            },
    {
        let mut v: Vec<StashAsk> = Vec::new();
        assert(views(v@) =~= Seq::<StashAskV>::empty());
        let e = match entry {
            Some(e) => e,
            None => {
                return (v, Some(missing_entry(ident, stack_len)));
            },
        };
        match &e.name {
            Some(n) => {
                v.push(
                    StashAsk::Push {
                        name: Some(n.clone()),
                        buffer: self.joined(),
                        row: self.cursor.pos.row,
                        col: self.cursor.pos.col,
                    },
                );
            },
            None => {
                let chars = chars_of(ident);
                let idx = match parse_count(chars.as_slice()) {
                    Some(i) => i,
                    None => stack_len.saturating_sub(1),
                };
                v.push(StashAsk::Pop(idx));
                v.push(
                    StashAsk::Push {
                        name: None,
                        buffer: self.joined(),
                        row: self.cursor.pos.row,
                        col: self.cursor.pos.col,
                    },
                );
            },
        }
        assert(views(v@) =~= swap_asks(self@, ident@, stack_len, entry));
        (v, None)
    }

    /// The buffer was written to the stash: takes the entry's text over.
    pub fn stash_swapped(&mut self, entry: &StashEntry, opts: &Opts) -> (v: Vec<Notice>)
        requires
            wf(old(self)@),
        ensures
            final(self)@ == restored(old(self)@, entry.buffer@, entry.cursor_pos@, *opts),
            text_of(final(self)@.lines) == entry.buffer@,
            views(v@) == with_notice(
                Seq::empty(),
                cursor_notice(final(self)@.lines, entry.cursor_pos@),
            ).push(
                match entry.name {
                    Some(n) => NoticeV::SwappedWith(n@),
                    None => NoticeV::SwappedStack,
                },
            ),
            wf(final(self)@),
    {
        let mut v: Vec<Notice> = Vec::new();
        assert(views(v@) =~= Seq::<NoticeV>::empty());
        let n = self.restore(entry, opts);
        add_notice(&mut v, n);
        match &entry.name {
            Some(n) => v.push(Notice::SwappedWith(n.clone())),
            None => v.push(Notice::SwappedStack),
        }
        v
    }
}

/// The notices with another one, where there is one.
pub open spec fn with_notice(v: Seq<NoticeV>, n: Option<NoticeV>) -> Seq<NoticeV> {
    match n {
        Some(n) => v.push(n),
        None => v,
    }
}

/// What a swap asks of the stash once the entry was found.
pub open spec fn swap_asks(b: BufV, ident: Seq<char>, stack_len: usize, entry: Option<&StashEntry>) -> Seq<StashAskV> {
    match entry {
        None => Seq::empty(),
        Some(e) => {
            let push = StashAskV::Push {
                name: opt_view(e.name),
                buffer: text_of(b.lines),
                row: b.cursor.pos.row,
                col: b.cursor.pos.col,
            };
            if e.name is Some {
                seq![push]
            } else {
                seq![
                    StashAskV::Pop(
                        match read_count(ident) {
                            Some(i) => i,
                            None => top(stack_len),
                        },
                    ),
                    push,
                ]
            }
        },
    }
}

/// What is told of an entry that was to be dropped.
pub fn stash_dropped(idx: usize, stack_len: usize, reply: &StashReply) -> (n: Notice)
    ensures
        n@ == match *reply {
            StashReply::Entry(Some(_)) => NoticeV::Dropped,
            _ => if stack_len == 0 {
                NoticeV::NothingToDrop
            } else {
                NoticeV::NoEntryAt(idx)
            },
        },
{
    match reply {
        StashReply::Entry(Some(_)) => Notice::Dropped,
        _ => if stack_len == 0 {
            Notice::NothingToDrop
        } else {
            Notice::NoEntryAt(idx)
        },
    }
}

/// What is told of a listing that holds nothing.
pub fn stash_listed(arg: &Option<StashListArg>, output: &str) -> (n: Option<Notice>)
    ensures
        opt_view(n) == if trimmed(output@).len() > 0 {
            None
        } else {
            Some(
                match *arg {
                    Some(StashListArg::Named) => NoticeV::NoNamedEntries,
                    Some(StashListArg::Stack) => NoticeV::StackEmpty,
                    None => NoticeV::NoEntries,
                },
            )
        },
{
    let bare = trim_text(output);
    if !bare.as_str().is_empty() {
        return None;
    }
    match arg {
        Some(StashListArg::Named) => Some(Notice::NoNamedEntries),
        Some(StashListArg::Stack) => Some(Notice::StackEmpty),
        None => Some(Notice::NoEntries),
    }
}

fn add_notice(v: &mut Vec<Notice>, n: Option<Notice>)
    ensures
        views(final(v)@) == with_notice(views(old(v)@), opt_view(n)),
{
    match n {
        Some(n) => v.push(n),
        None => {},
    }
}

fn missing_entry(name: &str, stack_len: usize) -> (n: Notice)
    ensures
        n@ == missing(name@, stack_len),
{
    let chars = chars_of(name);
    match parse_count(chars.as_slice()) {
        Some(i) => if stack_len == 0 {
            Notice::StashEmpty
        } else {
            Notice::NoEntryAt(i)
        },
        None => Notice::NoEntryNamed(own(name)),
    }
}

fn arg_index(arg: &Option<String>, or: usize) -> (i: usize)
    ensures
        i == index_or(*arg, or),
{
    match arg {
        Some(a) => {
            let chars = chars_of(a.as_str());
            match parse_count(chars.as_slice()) {
                Some(i) => i,
                None => or,
            }
        },
        None => or,
    }
}

fn arg_name(arg: &Option<String>, stack_len: usize) -> (s: String)
    ensures
        s@ == name_or_top(*arg, stack_len),
{
    match arg {
        Some(a) => a.clone(),
        None => count_text(stack_len.saturating_sub(1)),
    }
}

} // verus!
