//! The status line and the prompt: texts the shell expands, kept until they
//! go stale.

use vstd::prelude::*;
use crate::layout::{blanks, calc_str_width, ellipsized, push_blanks, shown_width, truncate_with_ellipsis};
use crate::linebuf::buffer::opt_view;
use crate::seqs::min_of;

verus! {

/// What expanding a text comes to: the new text, unless it failed, and the exit
/// status of the shell behind it.
#[derive(Debug)]
pub struct Expanded {
    pub text: Option<String>,
    pub status: i32,
}

/// Whatever is asked, and whatever its exit status, the shell expands it or
/// fails.
pub open spec fn always_answers<E: Fn(&str, i32) -> Expanded>(expand: E) -> bool {
    forall|s: &str, n: i32| #[trigger] call_requires(expand, (s, n))
}

/// With the exit status `before` the shell may answer `out` for `raw`, and
/// have the exit status `after` then.
pub open spec fn may_expand<E: Fn(&str, i32) -> Expanded>(
    expand: E,
    raw: Seq<char>,
    before: i32,
    out: Option<Seq<char>>,
    after: i32,
) -> bool {
    exists|s: &str, o: Expanded|
        s@ == raw && #[trigger] call_ensures(expand, (s, before), o) && opt_view(o.text) == out
            && o.status == after
}

/// `text` is what `raw` expands to, or `raw` itself where that fails.
pub open spec fn may_show<E: Fn(&str, i32) -> Expanded>(
    expand: E,
    raw: Seq<char>,
    before: i32,
    text: Seq<char>,
    after: i32,
) -> bool {
    may_expand(expand, raw, before, Some(text), after) || (may_expand(
        expand,
        raw,
        before,
        None,
        after,
    ) && text == raw)
}

fn ask<E: Fn(&str, i32) -> Expanded>(expand: &E, raw: &str, status: &mut i32) -> (o: Option<String>)
    requires
        always_answers(*expand),
    ensures
        may_expand(*expand, raw@, *old(status), opt_view(o), *final(status)),
{
    let o = expand(raw, *status);
    assert(call_ensures(*expand, (raw, *status), o));
    *status = o.status;
    o.text
}

fn show<E: Fn(&str, i32) -> Expanded>(expand: &E, raw: &str, status: &mut i32) -> (t: String)
    requires
        always_answers(*expand),
    ensures
        may_show(*expand, raw@, *old(status), t@, *final(status)),
{
    match ask(expand, raw, status) {
        Some(t) => t,
        None => String::from_str(raw),
    }
}

/// The texts of the status line, not yet expanded.
#[derive(Debug)]
pub struct StatOpts {
    pub left_string: String,
    pub middle_string: String,
    pub right_string: String,
}

/// The line at the bottom of the screen.
#[derive(Debug)]
pub struct StatusLine {
    pub left: String,
    pub middle: String,
    pub right: String,
    pub dirty: bool,
}

/// The status line shows the texts of `opts`, expanded one behind the other.
pub open spec fn shows<E: Fn(&str, i32) -> Expanded>(
    line: StatusLine,
    opts: StatOpts,
    expand: E,
    status: i32,
) -> bool {
    &&& exists|a: i32, b: i32, c: i32|
        {
            &&& #[trigger] may_show(expand, opts.left_string@, status, line.left@, a)
            &&& #[trigger] may_show(expand, opts.middle_string@, a, line.middle@, b)
            &&& #[trigger] may_show(expand, opts.right_string@, b, line.right@, c)
        }
    &&& !line.dirty
}

/// The line after it was asked for its parts.
pub open spec fn renewed<E: Fn(&str, i32) -> Expanded>(
    was: StatusLine,
    line: StatusLine,
    opts: StatOpts,
    expand: E,
    status: i32,
) -> bool {
    if was.dirty {
        shows(line, opts, expand, status)
    } else {
        line == was
    }
}

/// The columns that the left, the middle and the right part get, and those
/// left over. The right part goes first, then the middle.
pub open spec fn allotted(lw: int, mw: int, rw: int, width: int) -> (int, int, int, int) {
    let r = if rw <= width { rw } else { width };
    let m = if mw <= width - r { mw } else { width - r };
    let l = if lw <= width - r - m { lw } else { width - r - m };
    (l, m, r, width - r - m - l)
}

/// A part in the columns that it gets.
pub open spec fn fitted(s: Seq<char>, room: int) -> Seq<char> {
    if room < shown_width(s) {
        ellipsized(s, room as usize)
    } else {
        s
    }
}

/// The three parts over the whole width, what is left over shared out between
/// them.
pub open spec fn rendered(left: Seq<char>, middle: Seq<char>, right: Seq<char>, width: usize) -> Seq<char> {
    let (l, m, _, over) = allotted(
        shown_width(left) as int,
        shown_width(middle) as int,
        shown_width(right) as int,
        width as int,
    );
    fitted(left, l) + blanks(over / 2) + fitted(middle, m) + blanks(over - over / 2) + right
}

impl StatusLine {
    /// The status line, expanded. The exit status of the shell stays what it
    /// was.
    pub fn new<E: Fn(&str, i32) -> Expanded>(opts: &StatOpts, expand: &E, status: &mut i32) -> (s:
        StatusLine)
        requires
            always_answers(*expand),
        ensures
            shows(s, *opts, *expand, *old(status)),
            *final(status) == *old(status),
    {
        let saved: i32 = *status;
        let left = show(expand, opts.left_string.as_str(), status);
        let ghost a = *status;
        let middle = show(expand, opts.middle_string.as_str(), status);
        let ghost b = *status;
        let right = show(expand, opts.right_string.as_str(), status);
        let ghost c = *status;
        *status = saved;
        let line = StatusLine { left, middle, right, dirty: false };
        assert(may_show(*expand, opts.left_string@, saved, line.left@, a));
        assert(may_show(*expand, opts.middle_string@, a, line.middle@, b));
        assert(may_show(*expand, opts.right_string@, b, line.right@, c));
        line
    }

    /// The three parts, expanded anew where they are stale.
    pub fn parts<E: Fn(&str, i32) -> Expanded>(
        &mut self,
        opts: &StatOpts,
        expand: &E,
        status: &mut i32,
    ) -> (r: (&str, &str, &str))
        requires
            always_answers(*expand),
        ensures
            renewed(*old(self), *final(self), *opts, *expand, *old(status)),
            *final(status) == *old(status),
            r.0@ == final(self).left@,
            r.1@ == final(self).middle@,
            r.2@ == final(self).right@,
    {
        if self.dirty {
            self.refresh_now(opts, expand, status);
        }
        (self.left.as_str(), self.middle.as_str(), self.right.as_str())
    }

    /// The line in `term_width` columns.
    pub fn render<E: Fn(&str, i32) -> Expanded>(
        &mut self,
        term_width: usize,
        opts: &StatOpts,
        expand: &E,
        status: &mut i32,
    ) -> (s: String)
        requires
            always_answers(*expand),
        ensures
            renewed(*old(self), *final(self), *opts, *expand, *old(status)),
            *final(status) == *old(status),
            s@ == rendered(
                final(self).left@,
                final(self).middle@,
                final(self).right@,
                term_width,
            ),
    {
        if self.dirty {
            self.refresh_now(opts, expand, status);
        }
        let lw = calc_str_width(self.left.as_str());
        let mw = calc_str_width(self.middle.as_str());
        let rw = calc_str_width(self.right.as_str());
        let right_w = min_of(rw, term_width);
        let after_right: usize = term_width - right_w;
        let middle_w = min_of(mw, after_right);
        let after_middle: usize = after_right - middle_w;
        let left_w = min_of(lw, after_middle);
        let leftover: usize = after_middle - left_w;
        let mut s = if left_w < lw {
            truncate_with_ellipsis(self.left.as_str(), left_w)
        } else {
            self.left.clone()
        };
        push_blanks(&mut s, leftover / 2);
        if middle_w < mw {
            let m = truncate_with_ellipsis(self.middle.as_str(), middle_w);
            s.append(m.as_str());
        } else {
            s.append(self.middle.as_str());
        }
        push_blanks(&mut s, leftover - leftover / 2);
        s.append(self.right.as_str());
        s
    }

    /// The parts have gone stale.
    pub fn refresh(&mut self)
        ensures
            *final(self) == (StatusLine { dirty: true, ..*old(self) }),
    {
        self.dirty = true;
    }

    pub fn refresh_now<E: Fn(&str, i32) -> Expanded>(
        &mut self,
        opts: &StatOpts,
        expand: &E,
        status: &mut i32,
    )
        requires
            always_answers(*expand),
        ensures
            shows(*final(self), *opts, *expand, *old(status)),
            *final(status) == *old(status),
    {
        *self = StatusLine::new(opts, expand, status);
    }
}

/// The columns of the status line are shared out to the last: no part gets
/// more than it needs, and the parts with the blanks between them fill the
/// width.
pub proof fn law_status_line_fills_row(lw: int, mw: int, rw: int, width: int)
    requires
        0 <= lw,
        0 <= mw,
        0 <= rw,
        0 <= width,
    ensures
        ({
            let (l, m, r, over) = allotted(lw, mw, rw, width);
            &&& 0 <= l <= lw
            &&& 0 <= m <= mw
            &&& 0 <= r <= rw
            &&& 0 <= over
            &&& l + m + r + over == width
            &&& r < rw ==> m == 0
            &&& m < mw ==> l == 0
        }),
{
}

/// The prompt where none is set.
pub open spec fn default_prompt() -> Seq<char> {
    "\\e[0m\\n\\e[1;0m\\u\\e[1;36m@\\e[1;31m\\h\\n\\e[1;36m\\W\\e[1;32m/\\n\\e[1;32m\\$\\e[0m "@
}

/// The prompt where none is set.
pub fn default_ps1() -> (s: &'static str)
    ensures
        s@ == default_prompt(),
{
    "\\e[0m\\n\\e[1;0m\\u\\e[1;36m@\\e[1;31m\\h\\n\\e[1;36m\\W\\e[1;32m/\\n\\e[1;32m\\$\\e[0m "
}

/// The variables the prompt is made from, where they are set.
#[derive(Debug)]
pub struct PromptVars {
    pub ps1: Option<String>,
    pub psr: Option<String>,
}

/// The prompt on the left, and the one on the right.
#[derive(Debug)]
pub struct Prompt {
    pub ps1_expanded: String,
    pub psr_expanded: Option<String>,
    pub dirty: bool,
    /// The prompt was made from its variable.
    pub from_var: bool,
}

/// The prompt is the default one.
pub open spec fn is_default_prompt<E: Fn(&str, i32) -> Expanded>(
    p: Prompt,
    expand: E,
    before: i32,
    after: i32,
) -> bool {
    may_show(expand, default_prompt(), before, p.ps1_expanded@, after) && p.psr_expanded is None
        && !p.dirty && !p.from_var
}

/// The right prompt is the expanded variable, where it is set and expands.
pub open spec fn right_prompt<E: Fn(&str, i32) -> Expanded>(
    psr: Option<String>,
    shown: Option<String>,
    expand: E,
    before: i32,
) -> bool {
    match psr {
        None => shown is None,
        Some(raw) => exists|after: i32| #[trigger]
            may_expand(expand, raw@, before, opt_view(shown), after),
    }
}

/// The prompt is made from the variables; the default one where the left
/// prompt is not set or does not expand. The exit status of the shell stays
/// what it was, unless it is the default one.
pub open spec fn prompts<E: Fn(&str, i32) -> Expanded>(
    p: Prompt,
    vars: PromptVars,
    expand: E,
    before: i32,
    after: i32,
) -> bool {
    match vars.ps1 {
        None => is_default_prompt(p, expand, before, after),
        Some(raw) => {
            ||| exists|mid: i32| #[trigger]
                may_expand(expand, raw@, before, None, mid) && is_default_prompt(
                    p,
                    expand,
                    mid,
                    after,
                )
            ||| exists|mid: i32| #[trigger]
                may_expand(expand, raw@, before, Some(p.ps1_expanded@), mid) && right_prompt(
                    vars.psr,
                    p.psr_expanded,
                    expand,
                    mid,
                ) && !p.dirty && p.from_var && after == before
        },
    }
}

/// The prompt is made anew, whatever exit status that leaves.
pub open spec fn remade<E: Fn(&str, i32) -> Expanded>(
    p: Prompt,
    vars: PromptVars,
    expand: E,
    status: i32,
) -> bool {
    exists|after: i32| #[trigger] prompts(p, vars, expand, status, after)
}

impl Prompt {
    /// The prompt where none is set.
    pub fn fallback<E: Fn(&str, i32) -> Expanded>(expand: &E, status: &mut i32) -> (p: Prompt)
        requires
            always_answers(*expand),
        ensures
            is_default_prompt(p, *expand, *old(status), *final(status)),
    {
        Prompt {
            ps1_expanded: show(expand, default_ps1(), status),
            psr_expanded: None,
            dirty: false,
            from_var: false,
        }
    }

    pub fn new<E: Fn(&str, i32) -> Expanded>(vars: &PromptVars, expand: &E, status: &mut i32) -> (p:
        Prompt)
        requires
            always_answers(*expand),
        ensures
            prompts(p, *vars, *expand, *old(status), *final(status)),
    {
        let raw = match &vars.ps1 {
            Some(raw) => raw,
            None => {
                return Prompt::fallback(expand, status);
            },
        };
        let saved: i32 = *status;
        let ps1_expanded = match ask(expand, raw.as_str(), status) {
            Some(t) => t,
            None => {
                assert(may_expand(*expand, raw@, saved, None, *status));
                return Prompt::fallback(expand, status);
            },
        };
        let ghost mid = *status;
        let psr_expanded = match &vars.psr {
            Some(r) => ask(expand, r.as_str(), status),
            None => None,
        };
        assert(right_prompt(vars.psr, psr_expanded, *expand, mid));
        *status = saved;
        let p = Prompt { ps1_expanded, psr_expanded, dirty: false, from_var: true };
        assert(may_expand(*expand, raw@, saved, Some(p.ps1_expanded@), mid));
        p
    }

    /// The prompt on the left, expanded anew where it is stale. The exit
    /// status of the shell stays what it was.
    pub fn get_ps1<E: Fn(&str, i32) -> Expanded>(
        &mut self,
        vars: &PromptVars,
        expand: &E,
        status: &mut i32,
    ) -> (s: &str)
        requires
            always_answers(*expand),
        ensures
            if old(self).dirty {
                remade(*final(self), *vars, *expand, *old(status))
            } else {
                *final(self) == *old(self)
            },
            !final(self).dirty,
            *final(status) == *old(status),
            s@ == final(self).ps1_expanded@,
    {
        if self.dirty {
            self.refresh_now(vars, expand, status);
        }
        self.ps1_expanded.as_str()
    }

    /// Makes the prompt anew. The exit status of the shell stays what it was.
    pub fn refresh_now<E: Fn(&str, i32) -> Expanded>(
        &mut self,
        vars: &PromptVars,
        expand: &E,
        status: &mut i32,
    )
        requires
            always_answers(*expand),
        ensures
            remade(*final(self), *vars, *expand, *old(status)),
            !final(self).dirty,
            *final(status) == *old(status),
    {
        let saved: i32 = *status;
        *self = Prompt::new(vars, expand, status);
        assert(prompts(*self, *vars, *expand, *old(status), *status));
        *status = saved;
    }

    /// The prompt has gone stale.
    pub fn refresh(&mut self)
        ensures
            *final(self) == (Prompt { dirty: true, ..*old(self) }),
    {
        self.dirty = true;
    }
}

/// Where all three parts fit, each is shown whole, the right one at the end, and
/// the columns left over lie on both sides of the middle one, as evenly as they
/// can.
pub proof fn law_parts_that_fit_are_shown_whole(left: Seq<char>, middle: Seq<char>, right: Seq<char>, width: usize)
    requires
        shown_width(left) + shown_width(middle) + shown_width(right) <= width,
    ensures
        ({
            let over = width - shown_width(left) - shown_width(middle) - shown_width(right);
            exists|a: int, b: int|
                0 <= a <= b <= a + 1 && a + b == over && rendered(left, middle, right, width) == left
                    + #[trigger] blanks(a) + middle + #[trigger] blanks(b) + right
        }),
{
    let over = width - shown_width(left) - shown_width(middle) - shown_width(right);
    let a = over / 2;
    let b = over - over / 2;
    assert(rendered(left, middle, right, width) == left + blanks(a) + middle + blanks(b) + right);
}

} // verus!
