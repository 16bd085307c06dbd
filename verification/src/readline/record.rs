//! Recording of macros.

use vstd::prelude::*;
use crate::keys::{KeyEvent, KeyEventV};
use crate::register::{shown_name, stored, RegV, RegisterContent, RegisterName, Registers};
use crate::seqs::{group_views, views};
use crate::shell::{settled, Answer, Ask};

verus! {

broadcast use group_views;

#[derive(Debug)]
pub enum MacroRecord {
    Idle,
    Recording(RegisterName, Vec<KeyEvent>),
}

/// What is being recorded: for which register, and the keys so far.
pub open spec fn recording(m: MacroRecord) -> Option<(RegisterName, Seq<KeyEventV>)> {
    match m {
        MacroRecord::Idle => None,
        MacroRecord::Recording(reg, keys) => Some((reg, views(keys@))),
    }
}

impl View for MacroRecord {
    type V = Option<(RegisterName, Seq<KeyEventV>)>;

    open spec fn view(&self) -> Option<(RegisterName, Seq<KeyEventV>)> {
        recording(*self)
    }
}

impl Default for MacroRecord {
    fn default() -> (m: MacroRecord)
        ensures
            m@ is None,
    {
        MacroRecord::Idle
    }
}

/// The recording with another key.
pub open spec fn fed(
    r: Option<(RegisterName, Seq<KeyEventV>)>,
    key: KeyEventV,
) -> Option<(RegisterName, Seq<KeyEventV>)> {
    match r {
        Some((reg, keys)) => Some((reg, keys.push(key))),
        None => None,
    }
}

/// What is shown of a recording.
pub open spec fn status_of(r: Option<(RegisterName, Seq<KeyEventV>)>) -> Option<Seq<char>> {
    match r {
        Some((reg, _)) => match shown_name(reg) {
            Some(c) => Some("recording "@.push(c)),
            None => None,
        },
        None => None,
    }
}

impl MacroRecord {
    pub fn is_recording(&self) -> (r: bool)
        ensures
            r == self@ is Some,
    {
        match self {
            MacroRecord::Recording(_, _) => true,
            MacroRecord::Idle => false,
        }
    }

    pub fn feed_key_event(&mut self, event: KeyEvent)
        ensures
            final(self)@ == fed(old(self)@, event@),
    {
        if let MacroRecord::Recording(_, keys) = self {
            keys.push(event);
        }
    }

    /// Ends the recording, and keeps the keys in the register.
    pub fn commit_recording<S: Fn(&str, Ask) -> Answer>(&mut self, regs: &mut Registers, shell: &S) -> (r:
        Option<RegisterName>)
        requires
            settled(*shell),
        ensures
            final(self)@ is None,
            match old(self)@ {
                Some((reg, keys)) => {
                    &&& r == Some(reg)
                    &&& final(regs)@ == stored(
                        old(regs)@,
                        reg.letter(),
                        reg.appends(),
                        RegV::Macro(keys),
                        *shell,
                    )
                },
                None => r is None && final(regs)@ == old(regs)@,
            },
    {
        let mut taken = MacroRecord::Idle;
        std::mem::swap(self, &mut taken);
        match taken {
            MacroRecord::Recording(reg, keys) => {
                reg.write_to_register(regs, RegisterContent::Macro(keys), shell);
                Some(reg)
            },
            MacroRecord::Idle => None,
        }
    }

    pub fn start_recording(&mut self, reg: RegisterName)
        ensures
            final(self)@ == Some((reg, Seq::<KeyEventV>::empty())),
    {
        *self = MacroRecord::Recording(reg, Vec::new());
    }

    /// What is shown while recording.
    pub fn status(&self) -> (s: Option<String>)
        ensures
            match s {
                Some(t) => status_of(self@) == Some(t@),
                None => status_of(self@) is None,
            },
    {
        match self {
            MacroRecord::Recording(reg, _) => match reg.display() {
                Some(c) => {
                    let mut s = String::from_str("recording ");
                    s.push(c);
                    Some(s)
                },
                None => None,
            },
            MacroRecord::Idle => None,
        }
    }
}

} // verus!
