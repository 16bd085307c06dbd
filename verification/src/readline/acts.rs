//! What the prompt leaves to be done outside.

use vstd::prelude::*;
use crate::seqs::{group_views, views};

verus! {

broadcast use group_views;

/// What is told to be the mode.
#[derive(Clone, Copy, Debug, PartialEq, Eq, Structural)]
pub enum ShownMode {
    Current,
    Complete,
    Search,
}

/// A thing to do outside, or an event to tell of.
#[derive(Debug)]
pub enum Act {
    Bell,
    StatusMsg(String),
    OnHistorySelect(String),
    OnHistoryClose,
    /// With all entries, those that match, and the text that is searched for.
    OnHistoryOpen { entries: Vec<String>, matches: Vec<String>, search: String },
    OnCompletionSelect(String),
    OnCompletionCancel,
    /// With the candidates, and the word that is completed.
    OnCompletionStart { matches: Vec<String>, token: String },
    ClearFinder,
    StopSearch,
    ClearCompleter,
    /// Leave the history entry for the typed text.
    ResetToPending,
    /// Tell the history what is typed.
    UpdatePending,
    /// Tell the history what is typed, and offer its hint.
    UpdateHint,
    ShowMode(ShownMode),
    /// What the history was searched for no longer fits.
    MarkMaskStale,
}

#[verifier::ext_equal]
pub enum ActV {
    Bell,
    StatusMsg(Seq<char>),
    OnHistorySelect(Seq<char>),
    OnHistoryClose,
    OnHistoryOpen { entries: Seq<Seq<char>>, matches: Seq<Seq<char>>, search: Seq<char> },
    OnCompletionSelect(Seq<char>),
    OnCompletionCancel,
    OnCompletionStart { matches: Seq<Seq<char>>, token: Seq<char> },
    ClearFinder,
    StopSearch,
    ClearCompleter,
    ResetToPending,
    UpdatePending,
    UpdateHint,
    ShowMode(ShownMode),
    MarkMaskStale,
}

impl View for Act {
    type V = ActV;

    open spec fn view(&self) -> ActV {
        match self {
            Act::Bell => ActV::Bell,
            Act::StatusMsg(s) => ActV::StatusMsg(s@),
            Act::OnHistorySelect(s) => ActV::OnHistorySelect(s@),
            Act::OnHistoryClose => ActV::OnHistoryClose,
            Act::OnHistoryOpen { entries, matches, search } => ActV::OnHistoryOpen {
                entries: views(entries@),
                matches: views(matches@),
                search: search@,
            },
            Act::OnCompletionSelect(s) => ActV::OnCompletionSelect(s@),
            Act::OnCompletionCancel => ActV::OnCompletionCancel,
            Act::OnCompletionStart { matches, token } => ActV::OnCompletionStart {
                matches: views(matches@),
                token: token@,
            },
            Act::ClearFinder => ActV::ClearFinder,
            Act::StopSearch => ActV::StopSearch,
            Act::ClearCompleter => ActV::ClearCompleter,
            Act::ResetToPending => ActV::ResetToPending,
            Act::UpdatePending => ActV::UpdatePending,
            Act::UpdateHint => ActV::UpdateHint,
            Act::ShowMode(m) => ActV::ShowMode(*m),
            Act::MarkMaskStale => ActV::MarkMaskStale,
        }
    }
}

/// One thing to do, where a condition holds.
pub open spec fn act_if(b: bool, a: ActV) -> Seq<ActV> {
    if b {
        seq![a]
    } else {
        Seq::empty()
    }
}

/// A copy of some texts.
pub fn copy_texts(v: &Vec<String>) -> (r: Vec<String>)
    ensures
        views(r@) == views(v@),
{
    let mut r: Vec<String> = Vec::new();
    let mut i: usize = 0;
    while i < v.len()
        invariant
            i <= v@.len(),
            views(r@) == views(v@).take(i as int),
        decreases v@.len() - i,
    {
        r.push(v[i].clone());
        i += 1;
        assert(views(r@) =~= views(v@).take(i as int));
    }
    assert(views(r@) =~= views(v@));
    r
}

} // verus!
