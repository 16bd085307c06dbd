//! What the user is told of patterns that are none.

use vstd::prelude::*;
use crate::editcmd::{range_motion, AddressRange, ExNdRule, ExNode, LineAddr, Motion};
use crate::linebuf::address::{addressed, constrained, whole_or};
use crate::linebuf::buffer::{wf, BufV, LineBuf};
use crate::patterns::{compile, flaw};
use crate::seqs::{group_views, views};

verus! {

broadcast use group_views;

/// What there is to say of a text that is to be a pattern.
pub open spec fn flaws(text: Seq<char>) -> Seq<Seq<char>> {
    match flaw(text) {
        Some(msg) => seq![msg],
        None => Seq::empty(),
    }
}

/// What there is to say of the pattern of an address.
pub open spec fn addr_flaws(a: LineAddr) -> Seq<Seq<char>> {
    match a {
        LineAddr::Pattern(re) => flaws(re@),
        LineAddr::PatternRev(re) => flaws(re@),
        _ => Seq::empty(),
    }
}

/// What there is to say of two addresses that make a range: the second is not
/// looked at where the first stands for no line.
pub open spec fn pair_flaws(b: BufV, s: LineAddr, e: LineAddr) -> Seq<Seq<char>> {
    addr_flaws(s) + if addressed(b, s) is Some {
        addr_flaws(e)
    } else {
        Seq::empty()
    }
}

/// What there is to say of the addresses of a motion.
pub open spec fn line_flaws(b: BufV, m: Motion) -> Seq<Seq<char>> {
    match m {
        Motion::Line(a) => addr_flaws(a),
        Motion::LineRange(s, e) => pair_flaws(b, s, e),
        _ => Seq::empty(),
    }
}

/// What there is to say of the patterns of a motion. A repeated search is the
/// search that is kept.
pub open spec fn motion_flaws(b: BufV, m: Motion) -> Seq<Seq<char>> {
    match m {
        Motion::Search(pat, _) => flaws(pat@),
        Motion::RepeatSearch => match b.last_search {
            Some(Motion::Search(pat, _)) => flaws(pat@),
            _ => Seq::empty(),
        },
        Motion::RepeatSearchRev => match b.last_search {
            Some(Motion::Search(pat, _)) => flaws(pat@),
            _ => Seq::empty(),
        },
        _ => line_flaws(b, m),
    }
}

/// What there is to say of the patterns of an address range.
pub open spec fn range_flaws(addr: Option<AddressRange>) -> Seq<Seq<char>> {
    match addr {
        None => Seq::empty(),
        Some(AddressRange::Single(a)) => addr_flaws(a),
        Some(AddressRange::Range(s, e)) => addr_flaws(s) + addr_flaws(e),
    }
}

/// What there is to say of a pattern that lines within a constraint are held
/// against: it is not looked at where the constraint names no lines.
pub open spec fn matching_flaws(b: BufV, constraint: Motion, re: Seq<char>) -> Seq<Seq<char>> {
    line_flaws(b, constraint) + if constrained(b, constraint) is Some {
        flaws(re)
    } else {
        Seq::empty()
    }
}

/// What there is to say of the patterns that pick an ex command's rows.
pub open spec fn node_flaws(b: BufV, node: ExNode) -> Seq<Seq<char>>
    decreases node,
{
    match node.kind {
        ExNdRule::Global { pat, nested } => matching_flaws(
            b,
            range_motion(whole_or(node.address)),
            pat@,
        ) + if nested.kind is Global {
            node_flaws(b, *nested)
        } else {
            Seq::empty()
        },
        _ => range_flaws(node.address),
    }
}

/// The buffer with something more to tell the user.
pub open spec fn noted(b: BufV, msgs: Seq<Seq<char>>) -> BufV {
    BufV { notices: b.notices + msgs, ..b }
}

/// What there is to say of a text that is to be a pattern.
pub fn pattern_notices(text: &str) -> (v: Vec<String>)
    ensures
        views(v@) == flaws(text@),
{
    let mut v: Vec<String> = Vec::new();
    match compile(text) {
        Ok(_) => {},
        Err(msg) => v.push(msg),
    }
    assert(views(v@) =~= flaws(text@));
    v
}

/// What there is to say of the pattern of an address.
pub fn addr_notices(a: &LineAddr) -> (v: Vec<String>)
    ensures
        views(v@) == addr_flaws(*a),
{
    match a {
        LineAddr::Pattern(re) => pattern_notices(re.as_str()),
        LineAddr::PatternRev(re) => pattern_notices(re.as_str()),
        _ => Vec::new(),
    }
}

/// What there is to say of the patterns of an address range.
pub fn range_notices(addr: Option<&AddressRange>) -> (v: Vec<String>)
    ensures
        views(v@) == range_flaws(
            match addr {
                Some(a) => Some(*a),
                None => None,
            },
        ),
{
    match addr {
        None => Vec::new(),
        Some(AddressRange::Single(a)) => addr_notices(a),
        Some(AddressRange::Range(s, e)) => {
            let mut v = addr_notices(s);
            let mut w = addr_notices(e);
            v.append(&mut w);
            v
        },
    }
}

impl LineBuf {
    /// What there is to say of the addresses of a motion.
    fn line_notices(&self, m: &Motion) -> (v: Vec<String>)
        requires
            wf(self@),
        ensures
            views(v@) == line_flaws(self@, *m),
    {
        match m {
            Motion::Line(a) => addr_notices(a),
            Motion::LineRange(s, e) => {
                let mut v = addr_notices(s);
                if self.row_of(s).is_some() {
                    let mut w = addr_notices(e);
                    v.append(&mut w);
                }
                assert(views(v@) =~= pair_flaws(self@, *s, *e));
                v
            },
            _ => Vec::new(),
        }
    }

    /// What there is to say of the patterns of a motion.
    pub fn motion_notices(&self, m: &Motion) -> (v: Vec<String>)
        requires
            wf(self@),
        ensures
            views(v@) == motion_flaws(self@, *m),
    {
        match m {
            Motion::Search(pat, _) => pattern_notices(pat.as_str()),
            Motion::RepeatSearch => {
                match &self.last_search {
                    Some(Motion::Search(pat, _)) => pattern_notices(pat.as_str()),
                    _ => Vec::new(),
                }
            },
            Motion::RepeatSearchRev => {
                match &self.last_search {
                    Some(Motion::Search(pat, _)) => pattern_notices(pat.as_str()),
                    _ => Vec::new(),
                }
            },
            _ => self.line_notices(m),
        }
    }

    /// What there is to say of a pattern that lines are held against.
    pub fn matching_notices(&self, constraint: &Motion, re: &str) -> (v: Vec<String>)
        requires
            wf(self@),
        ensures
            views(v@) == matching_flaws(self@, *constraint, re@),
    {
        let mut v = self.line_notices(constraint);
        if self.constraint_rows(constraint).is_some() {
            let mut w = pattern_notices(re);
            v.append(&mut w);
        }
        assert(views(v@) =~= matching_flaws(self@, *constraint, re@));
        v
    }

    /// What there is to say of a substitution: of its addresses, then of its
    /// pattern.
    pub(crate) fn subst_notices(&self, addr: Option<&AddressRange>, pat: &str) -> (v: Vec<String>)
        ensures
            views(v@) == range_flaws(
                match addr {
                    Some(a) => Some(*a),
                    None => None,
                },
            ) + flaws(pat@),
    {
        let mut v = range_notices(addr);
        let mut w = pattern_notices(pat);
        v.append(&mut w);
        v
    }

    /// What there is to say of the patterns that pick an ex command's rows.
    pub fn node_notices(&self, node: &ExNode) -> (v: Vec<String>)
        requires
            wf(self@),
        ensures
            views(v@) == node_flaws(self@, *node),
        decreases node,
    {
        match &node.kind {
            ExNdRule::Global { pat, nested } => {
                let range = match &node.address {
                    Some(a) => a.clone(),
                    None => AddressRange::all_lines(),
                };
                let constraint = range.as_motion();
                let mut v = self.matching_notices(&constraint, pat.as_str());
                if let ExNdRule::Global { .. } = &nested.kind {
                    let mut w = self.node_notices(&**nested);
                    v.append(&mut w);
                }
                assert(views(v@) =~= node_flaws(self@, *node));
                v
            },
            _ => match &node.address {
                Some(a) => range_notices(Some(a)),
                None => range_notices(None),
            },
        }
    }

    /// Keeps what the user is to be told.
    pub(crate) fn note(&mut self, msgs: Vec<String>)
        ensures
            final(self)@ == noted(old(self)@, views(msgs@)),
    {
        let mut more = msgs;
        self.notices.append(&mut more);
        assert(self@ =~= noted(old(self)@, views(msgs@)));
    }

    /// Takes what the user is to be told.
    pub fn take_notices(&mut self) -> (v: Vec<String>)
        ensures
            views(v@) == old(self)@.notices,
            final(self)@ == (BufV { notices: Seq::empty(), ..old(self)@ }),
    {
        let mut v: Vec<String> = Vec::new();
        std::mem::swap(&mut self.notices, &mut v);
        assert(self@ =~= (BufV { notices: Seq::empty(), ..old(self)@ }));
        v
    }
}

} // verus!
