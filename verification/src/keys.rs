//! Key events as the editor reads them.

use vstd::prelude::*;
use crate::seqs::views;

verus! {

/// Which key was pressed.
#[derive(Clone, Copy, Debug, PartialEq, Eq, Structural)]
pub enum KeyCode {
    Char(char),
    Enter,
    Tab,
    BackTab,
    Esc,
    Backspace,
    Delete,
    Insert,
    Home,
    End,
    PageUp,
    PageDown,
    Up,
    Down,
    Left,
    Right,
    F(u8),
    Null,
}

/// The modifier keys held down.
#[derive(Clone, Copy, Debug, PartialEq, Eq, Structural)]
pub struct ModKeys {
    pub ctrl: bool,
    pub alt: bool,
    pub shift: bool,
}

impl ModKeys {
    pub fn empty() -> (m: ModKeys)
        ensures
            m == no_mods(),
    {
        ModKeys { ctrl: false, alt: false, shift: false }
    }
}

pub open spec fn no_mods() -> ModKeys {
    ModKeys { ctrl: false, alt: false, shift: false }
}

/// A key press. `seq` is how key maps and macros write it, where they have a
/// notation for it.
#[derive(Debug)]
pub struct KeyEvent {
    pub code: KeyCode,
    pub mods: ModKeys,
    pub seq: Option<String>,
}

/// A key press, its notation as text.
#[verifier::ext_equal]
pub struct KeyEventV {
    pub code: KeyCode,
    pub mods: ModKeys,
    pub seq: Option<Seq<char>>,
}

impl View for KeyEvent {
    type V = KeyEventV;

    open spec fn view(&self) -> KeyEventV {
        KeyEventV {
            code: self.code,
            mods: self.mods,
            seq: match self.seq {
                Some(s) => Some(s@),
                None => None,
            },
        }
    }
}

impl Clone for KeyEvent {
    fn clone(&self) -> (k: KeyEvent)
        ensures
            k == *self,
    {
        let seq = match &self.seq {
            Some(s) => Some(s.clone()),
            None => None,
        };
        KeyEvent { code: self.code, mods: self.mods, seq }
    }
}

/// The notation of a run of keys; keys without one leave no trace.
pub open spec fn notation(keys: Seq<KeyEventV>) -> Seq<char>
    decreases keys.len(),
{
    if keys.len() == 0 {
        Seq::empty()
    } else {
        notation(keys.drop_last()) + match keys.last().seq {
            Some(s) => s,
            None => Seq::empty(),
        }
    }
}

/// The notation of a run of keys.
pub fn render_keys(keys: &[KeyEvent]) -> (s: String)
    ensures
        s@ == notation(views(keys@)),
{
    let mut s = String::new();
    let mut i: usize = 0;
    let ghost all = views(keys@);
    assert(all.take(0) =~= Seq::<KeyEventV>::empty());
    while i < keys.len()
        invariant
            i <= keys@.len(),
            all == views(keys@),
            s@ == notation(all.take(i as int)),
        decreases keys@.len() - i,
    {
        assert(all.take(i + 1).drop_last() =~= all.take(i as int));
        assert(all[i as int] == keys@[i as int]@);
        match &keys[i].seq {
            Some(t) => s.append(t.as_str()),
            None => {
                assert(s@ + Seq::<char>::empty() =~= s@);
            },
        }
        i += 1;
    }
    assert(all.take(keys@.len() as int) =~= all);
    s
}

} // verus!
