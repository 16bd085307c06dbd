//! The kill ring.

use std::collections::VecDeque;
use vstd::prelude::*;
use crate::linebuf::lines::{Lines, LinesV};
use crate::linebuf::pos::Pos;
use crate::seqs::{group_views, views};

verus! {

broadcast use group_views;

/// How many kills are kept.
pub const MAX_KILL_RING: usize = 60;

/// Texts that were killed, the latest one last.
#[derive(Debug)]
pub struct KillRing {
    pub kills: VecDeque<Lines>,
    /// The last command was a kill, so the next one continues it.
    pub merging: bool,
    /// The kill that was put last.
    pub selected: Option<usize>,
    /// Where it was put.
    pub kill_cycle_span: Option<(Pos, Pos)>,
}

#[verifier::ext_equal]
pub struct KillRingV {
    pub kills: Seq<LinesV>,
    pub merging: bool,
    pub selected: Option<usize>,
    pub kill_cycle_span: Option<(Pos, Pos)>,
}

impl View for KillRing {
    type V = KillRingV;

    open spec fn view(&self) -> KillRingV {
        KillRingV {
            kills: views(self.kills@),
            merging: self.merging,
            selected: self.selected,
            kill_cycle_span: self.kill_cycle_span,
        }
    }
}

/// Nothing, or one blank line.
pub open spec fn is_nothing(ls: LinesV) -> bool {
    ls.len() == 0 || (ls.len() == 1 && ls[0].len() == 0)
}

/// The ring with a kill behind the others; the first one goes where there is
/// no room left.
pub open spec fn with_kill(kills: Seq<LinesV>, kill: LinesV) -> Seq<LinesV> {
    if is_nothing(kill) {
        kills
    } else if kills.len() + 1 > MAX_KILL_RING {
        kills.push(kill).skip(1)
    } else {
        kills.push(kill)
    }
}

/// The ring with a kill before the others; the last one goes where there is
/// no room left.
pub open spec fn with_front_kill(kills: Seq<LinesV>, kill: LinesV) -> Seq<LinesV> {
    if is_nothing(kill) {
        kills
    } else if kills.len() + 1 > MAX_KILL_RING {
        (seq![kill] + kills).drop_last()
    } else {
        seq![kill] + kills
    }
}

/// The kill before the selected one, going round from the first to the last.
pub open spec fn next_kill(r: KillRingV) -> usize {
    let from = match r.selected {
        Some(i) => if i == 0 {
            r.kills.len() as int
        } else {
            i as int
        },
        None => r.kills.len() as int,
    };
    if from == 0 {
        0
    } else {
        (from - 1) as usize
    }
}

impl KillRing {
    pub fn new() -> (r: KillRing)
        ensures
            r@ == (KillRingV {
                kills: Seq::empty(),
                merging: false,
                selected: None,
                kill_cycle_span: None,
            }),
    {
        let r = KillRing {
            kills: VecDeque::new(),
            merging: false,
            selected: None,
            kill_cycle_span: None,
        };
        assert(views(r.kills@) =~= Seq::empty());
        r
    }

    pub fn push_back(&mut self, kill: Lines)
        ensures
            final(self)@ == (KillRingV { kills: with_kill(old(self)@.kills, kill@), ..old(self)@ }),
    {
        if kill.is_empty() || (kill.len() == 1 && kill.at(0).is_empty()) {
            return;
        }
        self.kills.push_back(kill);
        let ghost pushed = self.kills@;
        if self.kills.len() > MAX_KILL_RING {
            let _ = self.kills.pop_front();
            assert(views(self.kills@) =~= views(pushed).skip(1));
        }
        assert(self@ =~= (KillRingV { kills: with_kill(old(self)@.kills, kill@), ..old(self)@ }));
    }

    pub fn push_front(&mut self, kill: Lines)
        ensures
            final(self)@ == (KillRingV {
                kills: with_front_kill(old(self)@.kills, kill@),
                ..old(self)@
            }),
    {
        if kill.is_empty() || (kill.len() == 1 && kill.at(0).is_empty()) {
            return;
        }
        self.kills.push_front(kill);
        let ghost pushed = self.kills@;
        assert(views(pushed) =~= seq![kill@] + old(self)@.kills);
        if self.kills.len() > MAX_KILL_RING {
            let _ = self.kills.pop_back();
            assert(views(self.kills@) =~= views(pushed).drop_last());
        }
        assert(self@ =~= (KillRingV {
            kills: with_front_kill(old(self)@.kills, kill@),
            ..old(self)@
        }));
    }

    pub fn pop_back(&mut self) -> (kill: Option<Lines>)
        ensures
            old(self)@.kills.len() == 0 ==> kill is None && final(self)@ == old(self)@,
            old(self)@.kills.len() > 0 ==> kill is Some && kill->0@ == old(self)@.kills.last()
                && final(self)@ == (KillRingV {
                kills: old(self)@.kills.drop_last(),
                ..old(self)@
            }),
    {
        let kill = self.kills.pop_back();
        assert(old(self)@.kills.len() > 0 ==> views(self.kills@) =~= old(self)@.kills.drop_last());
        assert(old(self)@.kills.len() == 0 ==> views(self.kills@) =~= old(self)@.kills);
        kill
    }

    pub fn pop_front(&mut self) -> (kill: Option<Lines>)
        ensures
            old(self)@.kills.len() == 0 ==> kill is None && final(self)@ == old(self)@,
            old(self)@.kills.len() > 0 ==> kill is Some && kill->0@ == old(self)@.kills.first()
                && final(self)@ == (KillRingV { kills: old(self)@.kills.skip(1), ..old(self)@ }),
    {
        let kill = self.kills.pop_front();
        assert(old(self)@.kills.len() > 0 ==> views(self.kills@) =~= old(self)@.kills.skip(1));
        assert(old(self)@.kills.len() == 0 ==> views(self.kills@) =~= old(self)@.kills);
        kill
    }

    pub fn len(&self) -> (n: usize)
        ensures
            n == self@.kills.len(),
    {
        self.kills.len()
    }

    pub fn is_empty(&self) -> (r: bool)
        ensures
            r == (self@.kills.len() == 0),
    {
        self.kills.len() == 0
    }

    /// Selects the kill before the selected one, going round.
    pub fn next_idx(&mut self) -> (idx: usize)
        ensures
            idx == next_kill(old(self)@),
            final(self)@ == (KillRingV { selected: Some(idx), ..old(self)@ }),
    {
        let from = match self.selected {
            Some(0) => self.kills.len(),
            None => self.kills.len(),
            Some(i) => i,
        };
        let idx = from.saturating_sub(1);
        self.selected = Some(idx);
        idx
    }

    /// Selects the next kill and returns it.
    pub fn next(&mut self) -> (kill: Option<Lines>)
        ensures
            final(self)@ == (KillRingV { selected: Some(next_kill(old(self)@)), ..old(self)@ }),
            kill is Some <==> next_kill(old(self)@) < old(self)@.kills.len(),
            kill is Some ==> kill->0@ == old(self)@.kills[next_kill(old(self)@) as int],
    {
        let idx = self.next_idx();
        if idx < self.kills.len() {
            Some(self.kills[idx].clone())
        } else {
            None
        }
    }

    /// Forgets which kill was put last.
    pub fn reset(&mut self)
        ensures
            final(self)@ == (KillRingV { selected: None, kill_cycle_span: None, ..old(self)@ }),
    {
        self.selected = None;
        self.kill_cycle_span = None;
    }
}

/// A ring that holds no more than it may keeps to that, whatever is killed.
pub proof fn law_ring_stays_bounded(kills: Seq<LinesV>, kill: LinesV)
    requires
        kills.len() <= MAX_KILL_RING,
    ensures
        with_kill(kills, kill).len() <= MAX_KILL_RING,
        with_front_kill(kills, kill).len() <= MAX_KILL_RING,
{
}

/// The latest kill is the first one put back.
pub proof fn law_latest_kill_comes_first(r: KillRingV, kill: LinesV)
    requires
        !is_nothing(kill),
        r.selected is None,
        r.kills.len() <= MAX_KILL_RING,
    ensures
        ({
            let after = KillRingV { kills: with_kill(r.kills, kill), ..r };
            after.kills[next_kill(after) as int] == kill
        }),
{
}

} // verus!
