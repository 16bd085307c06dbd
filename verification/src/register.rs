//! Registers.

use vstd::prelude::*;
use crate::keys::{notation, render_keys, KeyEvent, KeyEventV};
use crate::linebuf::line::Line;
use crate::linebuf::lines::{text_of, Lines, LinesV};
use crate::linebuf::pos::MotionKind;
use crate::seqs::{group_views, views};
use crate::shell::{answer, consult, settled, Answer, Ask};
use crate::text::{
    ascii_lower, ascii_upper, clusters, is_lower, is_upper, lower_of, to_lower, to_upper, upper_of,
};

verus! {

broadcast use group_views;

/// Whether Unicode counts a character beyond ASCII as an upper-case letter.
pub uninterp spec fn is_wide_capital(c: char) -> bool;

/// `char::is_uppercase`: the capital letters of ASCII are upper case, its other
/// characters are not; beyond it the tables of Unicode decide, for each
/// character the same way every time.
pub assume_specification[ char::is_uppercase ](c: char) -> (r: bool)
    ensures
        r == if (c as u32) < 128 {
            is_upper(c)
        } else {
            is_wide_capital(c)
        },
;

/// Whether a character is an upper-case letter.
pub open spec fn is_capital(c: char) -> bool {
    if (c as u32) < 128 {
        is_upper(c)
    } else {
        is_wide_capital(c)
    }
}

/// The name of a register; an upper-case name appends to it.
#[derive(Clone, Copy, Debug, PartialEq, Eq, Structural)]
pub struct RegisterName {
    pub(crate) name: Option<char>,
    pub(crate) append: bool,
}

/// The register a command names with a character, or the default one.
pub closed spec fn reg_name(name: Option<char>) -> RegisterName {
    match name {
        Some(c) => RegisterName { name: Some(lower_of(c)), append: is_capital(c) },
        None => RegisterName { name: None, append: false },
    }
}

impl Default for RegisterName {
    fn default() -> (r: RegisterName)
        ensures
            r == reg_name(None),
    {
        RegisterName { name: None, append: false }
    }
}

impl RegisterName {
    /// The name without regard to case.
    pub closed spec fn letter(self) -> Option<char> {
        self.name
    }

    /// Whether text goes behind what the register holds.
    pub closed spec fn appends(self) -> bool {
        self.append
    }

    pub fn new(name: Option<char>) -> (r: RegisterName)
        ensures
            r == reg_name(name),
            r.letter() == match name {
                Some(c) => Some(lower_of(c)),
                None => None,
            },
            r.appends() == (name matches Some(c) && is_capital(c)),
            shown_name(r) == name,
    {
        proof {
            law_name_is_shown_as_given(name);
        }
        match name {
            Some(c) => RegisterName { name: Some(to_lower(c)), append: c.is_uppercase() },
            None => RegisterName { name: None, append: false },
        }
    }

    pub fn name(self) -> (n: Option<char>)
        ensures
            n == self.letter(),
    {
        self.name
    }

    /// The name as it was given.
    pub fn display(self) -> (n: Option<char>)
        ensures
            n == shown_name(self),
    {
        match self.name {
            Some(c) => if self.append {
                Some(to_upper(c))
            } else {
                Some(c)
            },
            None => None,
        }
    }

    pub fn is_none(self) -> (r: bool)
        ensures
            r == self.letter() is None,
    {
        self.name.is_none()
    }

    /// Puts a text or a macro into the register, behind what it holds where
    /// the name asks for that.
    pub fn write_to_register<S: Fn(&str, Ask) -> Answer>(
        self,
        regs: &mut Registers,
        buf: RegisterContent,
        shell: &S,
    )
        requires
            settled(*shell),
        ensures
            final(regs)@ == stored(old(regs)@, self.letter(), self.appends(), buf@, *shell),
    {
        match regs.get_reg_mut(self.name) {
            Some(slot) => {
                if self.append {
                    slot.append(buf, shell);
                } else {
                    slot.write(buf);
                }
            },
            None => {},
        }
        assert(regs@ =~= stored(old(regs)@, self.letter(), self.appends(), buf@, *shell));
    }

    /// A copy of what the register holds; none where the name is no
    /// register's.
    pub fn read_from_register(self, regs: &Registers) -> (r: Option<RegisterContent>)
        ensures
            opt_content(r) == held_by(regs@, self.letter()),
    {
        match regs.get_reg(self.name) {
            Some(reg) => Some(reg.content().clone()),
            None => None,
        }
    }
}

/// The register's name as it is shown: a capital where it appends.
pub open spec fn shown_name(reg: RegisterName) -> Option<char> {
    match reg.letter() {
        Some(c) => Some(
            if reg.appends() {
                upper_of(c)
            } else {
                c
            },
        ),
        None => None,
    }
}

/// A register's name is shown as it was given.
pub proof fn law_name_is_shown_as_given(name: Option<char>)
    ensures
        shown_name(reg_name(name)) == name,
{
    if let Some(c) = name {
        if is_upper(c) {
            let n = (c as u8) + 32;
            let low = n as u8 as char;
            assert(low as int == n);
            assert(lower_of(c) == low);
            assert(is_lower(low));
            let back = ((low as u8) - 32) as u8 as char;
            assert(back as int == c as int);
        } else if is_lower(c) {
            assert(!is_capital(c));
        }
    }
}

/// What a register holds.
#[derive(Debug)]
pub enum RegisterContent {
    Span(Vec<Line>),
    Line(Vec<Line>),
    Block(Vec<Line>),
    Macro(Vec<KeyEvent>),
    Empty,
}

#[verifier::ext_equal]
pub enum RegV {
    Span(LinesV),
    Line(LinesV),
    Block(LinesV),
    Macro(Seq<KeyEventV>),
    Empty,
}

impl View for RegisterContent {
    type V = RegV;

    open spec fn view(&self) -> RegV {
        match self {
            RegisterContent::Span(l) => RegV::Span(views(l@)),
            RegisterContent::Line(l) => RegV::Line(views(l@)),
            RegisterContent::Block(l) => RegV::Block(views(l@)),
            RegisterContent::Macro(k) => RegV::Macro(views(k@)),
            RegisterContent::Empty => RegV::Empty,
        }
    }
}

pub open spec fn opt_content(r: Option<RegisterContent>) -> Option<RegV> {
    match r {
        Some(c) => Some(c@),
        None => None,
    }
}

/// The lines of a text.
pub open spec fn reg_lines(r: RegV) -> Option<LinesV> {
    match r {
        RegV::Span(l) => Some(l),
        RegV::Line(l) => Some(l),
        RegV::Block(l) => Some(l),
        _ => None,
    }
}

/// A text of the same kind with other lines.
pub open spec fn reg_with_lines(r: RegV, lines: LinesV) -> RegV {
    match r {
        RegV::Span(_) => RegV::Span(lines),
        RegV::Line(_) => RegV::Line(lines),
        RegV::Block(_) => RegV::Block(lines),
        _ => r,
    }
}

/// What a register holds once `new` was put behind. A text behind a macro is
/// read as keys, a macro behind a text is written out in a line of its own.
pub open spec fn appended<S: Fn(&str, Ask) -> Answer>(r: RegV, new: RegV, shell: S) -> RegV {
    if new is Empty {
        r
    } else if r is Empty {
        new
    } else {
        match (r, new) {
            (RegV::Macro(a), RegV::Macro(b)) => RegV::Macro(a + b),
            (RegV::Macro(a), _) => RegV::Macro(
                a + answer(shell, text_of(reg_lines(new)->0), Ask::Keys).keys,
            ),
            (_, RegV::Macro(b)) => reg_with_lines(
                r,
                reg_lines(r)->0.push(clusters(notation(b))),
            ),
            _ => reg_with_lines(r, reg_lines(r)->0 + reg_lines(new)->0),
        }
    }
}

/// The kind of text that a motion leaves in a register.
pub open spec fn content_of(lines: LinesV, m: MotionKind) -> RegV {
    match m {
        MotionKind::Char { .. } => RegV::Span(lines),
        MotionKind::Line { .. } => RegV::Line(lines),
        MotionKind::Block { .. } => RegV::Block(lines),
    }
}

impl Default for RegisterContent {
    fn default() -> (r: RegisterContent)
        ensures
            r@ == RegV::Empty,
    {
        RegisterContent::Empty
    }
}

impl Clone for RegisterContent {
    fn clone(&self) -> (r: RegisterContent)
        ensures
            r@ == self@,
    {
        match self {
            RegisterContent::Span(l) => {
                let v = l.clone();
                assert(views(v@) =~= views(l@));
                RegisterContent::Span(v)
            },
            RegisterContent::Line(l) => {
                let v = l.clone();
                assert(views(v@) =~= views(l@));
                RegisterContent::Line(v)
            },
            RegisterContent::Block(l) => {
                let v = l.clone();
                assert(views(v@) =~= views(l@));
                RegisterContent::Block(v)
            },
            RegisterContent::Macro(k) => {
                let v = k.clone();
                assert(views(v@) =~= views(k@));
                RegisterContent::Macro(v)
            },
            RegisterContent::Empty => RegisterContent::Empty,
        }
    }
}

impl RegisterContent {
    /// The keys that the content plays: a macro's own, or those a text
    /// spells; none where there is nothing.
    pub fn into_keys<S: Fn(&str, Ask) -> Answer>(self, shell: &S) -> (r: Option<Vec<KeyEvent>>)
        requires
            settled(*shell),
        ensures
            match r {
                Some(k) => crate::readline::keys::macro_keys(Some(self@), *shell) == Some(views(k@)),
                None => self@ is Empty,
            },
    {
        match self {
            RegisterContent::Empty => None,
            RegisterContent::Span(l) => Some(keys_of(&l, shell)),
            RegisterContent::Line(l) => Some(keys_of(&l, shell)),
            RegisterContent::Block(l) => Some(keys_of(&l, shell)),
            RegisterContent::Macro(keys) => Some(keys),
        }
    }

    pub fn from_extracted(content: Lines, motion: &MotionKind) -> (r: RegisterContent)
        ensures
            r@ == content_of(content@, *motion),
    {
        match motion {
            MotionKind::Char { .. } => RegisterContent::Span(content.into_vec()),
            MotionKind::Line { .. } => RegisterContent::Line(content.into_vec()),
            MotionKind::Block { .. } => RegisterContent::Block(content.into_vec()),
        }
    }

    /// What the register holds, as a text.
    pub fn to_string(&self) -> (s: String)
        ensures
            s@ == match self@ {
                RegV::Macro(k) => notation(k),
                RegV::Empty => Seq::empty(),
                _ => text_of(reg_lines(self@)->0),
            },
    {
        match self {
            RegisterContent::Span(l) => text_of_lines(l),
            RegisterContent::Line(l) => text_of_lines(l),
            RegisterContent::Block(l) => text_of_lines(l),
            RegisterContent::Macro(k) => render_keys(k.as_slice()),
            RegisterContent::Empty => String::new(),
        }
    }
}

fn text_of_lines(l: &Vec<Line>) -> (s: String)
    ensures
        s@ == text_of(views(l@)),
{
    let v = l.clone();
    assert(views(v@) =~= views(l@));
    Lines(v).join()
}

/// A register.
#[derive(Debug)]
pub struct Register {
    content: RegisterContent,
}

impl View for Register {
    type V = RegV;

    closed spec fn view(&self) -> RegV {
        self.content@
    }
}

impl Default for Register {
    fn default() -> (r: Register)
        ensures
            r@ == RegV::Empty,
    {
        Register { content: RegisterContent::Empty }
    }
}

impl Clone for Register {
    fn clone(&self) -> (r: Register)
        ensures
            r@ == self@,
    {
        Register { content: self.content.clone() }
    }
}

/// The keys a text spells.
fn keys_of<S: Fn(&str, Ask) -> Answer>(lines: &Vec<Line>, shell: &S) -> (v: Vec<KeyEvent>)
    requires
        settled(*shell),
    ensures
        views(v@) == answer(*shell, text_of(views(lines@)), Ask::Keys).keys,
{
    let text = text_of_lines(lines);
    let ans = consult(shell, text.as_str(), Ask::Keys);
    ans.keys
}

/// Puts one kind of content behind lines.
fn extend_lines(a: &mut Vec<Line>, buf: RegisterContent)
    requires
        buf@ !is Empty,
    ensures
        views(final(a)@) == match buf@ {
            RegV::Macro(k) => views(old(a)@).push(clusters(notation(k))),
            _ => views(old(a)@) + reg_lines(buf@)->0,
        },
{
    match buf {
        RegisterContent::Span(b) => {
            let mut b = b;
            a.append(&mut b);
        },
        RegisterContent::Line(b) => {
            let mut b = b;
            a.append(&mut b);
        },
        RegisterContent::Block(b) => {
            let mut b = b;
            a.append(&mut b);
        },
        RegisterContent::Macro(k) => {
            let text = render_keys(k.as_slice());
            let mut line = Line::default();
            line.push_str(text.as_str());
            assert(line@ =~= clusters(notation(views(k@))));
            a.push(line);
        },
        RegisterContent::Empty => {},
    }
}

/// Puts one kind of content behind keys.
fn extend_keys<S: Fn(&str, Ask) -> Answer>(
    a: &mut Vec<KeyEvent>,
    buf: RegisterContent,
    shell: &S,
)
    requires
        settled(*shell),
        buf@ !is Empty,
    ensures
        views(final(a)@) == match buf@ {
            RegV::Macro(k) => views(old(a)@) + k,
            _ => views(old(a)@) + answer(*shell, text_of(reg_lines(buf@)->0), Ask::Keys).keys,
        },
{
    match buf {
        RegisterContent::Span(b) => {
            let mut k = keys_of(&b, shell);
            a.append(&mut k);
        },
        RegisterContent::Line(b) => {
            let mut k = keys_of(&b, shell);
            a.append(&mut k);
        },
        RegisterContent::Block(b) => {
            let mut k = keys_of(&b, shell);
            a.append(&mut k);
        },
        RegisterContent::Macro(k) => {
            let mut k = k;
            a.append(&mut k);
        },
        RegisterContent::Empty => {},
    }
}

impl Register {
    pub fn content(&self) -> (c: &RegisterContent)
        ensures
            c@ == self@,
    {
        &self.content
    }

    pub fn write(&mut self, buf: RegisterContent)
        ensures
            final(self)@ == buf@,
    {
        self.content = buf;
    }

    /// Puts a text or a macro behind what the register holds.
    pub fn append<S: Fn(&str, Ask) -> Answer>(&mut self, buf: RegisterContent, shell: &S)
        requires
            settled(*shell),
        ensures
            final(self)@ == appended(old(self)@, buf@, *shell),
    {
        if let RegisterContent::Empty = buf {
            return;
        }
        match &mut self.content {
            RegisterContent::Empty => {
                self.content = buf;
            },
            RegisterContent::Span(a) => extend_lines(a, buf),
            RegisterContent::Line(a) => extend_lines(a, buf),
            RegisterContent::Block(a) => extend_lines(a, buf),
            RegisterContent::Macro(a) => extend_keys(a, buf, shell),
        }
    }
}

/// The registers: one for each letter, and the default one.
#[derive(Debug)]
pub struct Registers {
    slots: Vec<Register>,
}

impl View for Registers {
    type V = Seq<RegV>;

    closed spec fn view(&self) -> Seq<RegV> {
        views(self.slots@)
    }
}

/// The place of a register: letters without regard to case, then the default
/// one. Other characters name none.
pub open spec fn slot(name: Option<char>) -> Option<int> {
    match name {
        None => Some(26),
        Some(c) => if c == '"' {
            Some(26)
        } else if is_lower(c) {
            Some(c as int - 'a' as int)
        } else if is_upper(c) {
            Some(c as int - 'A' as int)
        } else {
            None
        },
    }
}

/// What the register of a name holds.
pub open spec fn held_by(regs: Seq<RegV>, name: Option<char>) -> Option<RegV> {
    match slot(name) {
        Some(i) => if i < regs.len() {
            Some(regs[i])
        } else {
            None
        },
        None => None,
    }
}

/// The registers once something was put into one of them.
pub open spec fn stored<S: Fn(&str, Ask) -> Answer>(
    regs: Seq<RegV>,
    name: Option<char>,
    append: bool,
    new: RegV,
    shell: S,
) -> Seq<RegV> {
    match held_by(regs, name) {
        Some(was) => regs.update(
            slot(name)->0,
            if append {
                appended(was, new, shell)
            } else {
                new
            },
        ),
        None => regs,
    }
}

fn slot_of(name: Option<char>) -> (r: Option<usize>)
    ensures
        r is Some <==> slot(name) is Some,
        r is Some ==> r->0 == slot(name)->0,
        r is Some ==> r->0 <= 26,
{
    match name {
        None => Some(26),
        Some(c) => if c == '"' {
            Some(26)
        } else if ascii_lower(c) {
            Some((c as u8 - 97) as usize)
        } else if ascii_upper(c) {
            Some((c as u8 - 65) as usize)
        } else {
            None
        },
    }
}

impl Registers {
    /// Empty registers.
    pub fn new() -> (r: Registers)
        ensures
            r@ == Seq::new(27, |i: int| RegV::Empty),
    {
        let mut slots: Vec<Register> = Vec::new();
        let mut i: usize = 0;
        while i < 27
            invariant
                i <= 27,
                slots@.len() == i,
                forall|j: int| 0 <= j < i ==> (#[trigger] slots@[j])@ == RegV::Empty,
            decreases 27 - i,
        {
            slots.push(Register::default());
            i += 1;
        }
        let r = Registers { slots };
        assert(r@ =~= Seq::new(27, |i: int| RegV::Empty));
        r
    }

    /// The register of a name.
    pub fn get_reg(&self, name: Option<char>) -> (r: Option<&Register>)
        ensures
            r is Some <==> held_by(self@, name) is Some,
            r is Some ==> Some(r->0@) == held_by(self@, name),
    {
        match slot_of(name) {
            Some(i) => if i < self.slots.len() {
                Some(&self.slots[i])
            } else {
                None
            },
            None => None,
        }
    }
}

impl Registers {
    /// The register of a name, to be changed.
    pub fn get_reg_mut(&mut self, name: Option<char>) -> (r: Option<&mut Register>)
        ensures
            match r {
                Some(reg) => {
                    &&& held_by(old(self)@, name) == Some(reg@)
                    &&& final(self)@ == old(self)@.update(slot(name).unwrap(), final(reg)@)
                },
                None => held_by(old(self)@, name) is None && final(self)@ == old(self)@,
            },
    {
        match slot_of(name) {
            Some(i) => if i < self.slots.len() {
                Some(&mut self.slots[i])
            } else {
                None
            },
            None => None,
        }
    }
}

impl Clone for Registers {
    fn clone(&self) -> (r: Registers)
        ensures
            r@ == self@,
    {
        let slots = self.slots.clone();
        assert(views(slots@) =~= views(self.slots@));
        Registers { slots }
    }
}

pub open spec fn opt_regs(r: Option<Registers>) -> Option<Seq<RegV>> {
    match r {
        Some(r) => Some(r@),
        None => None,
    }
}

/// Keeps a copy of the registers.
pub fn save_registers(regs: &Registers, saved: &mut Option<Registers>)
    ensures
        opt_regs(*final(saved)) == Some(regs@),
{
    *saved = Some(regs.clone());
}

/// Puts the copy kept back, where there is one.
pub fn restore_registers(regs: &mut Registers, saved: &mut Option<Registers>)
    ensures
        opt_regs(*final(saved)) is None,
        final(regs)@ == match *old(saved) {
            Some(r) => r@,
            None => old(regs)@,
        },
{
    match saved.take() {
        Some(r) => {
            *regs = r;
        },
        None => {},
    }
}

/// What was written under a name is what is read under it, and other registers
/// keep what they hold.
pub proof fn law_register_reads_back<S: Fn(&str, Ask) -> Answer>(
    regs: Seq<RegV>,
    name: Option<char>,
    other: Option<char>,
    new: RegV,
    shell: S,
)
    requires
        regs.len() == 27,
        slot(name) is Some,
    ensures
        held_by(stored(regs, name, false, new, shell), name) == Some(new),
        slot(other) != slot(name) ==> held_by(stored(regs, name, false, new, shell), other)
            == held_by(regs, other),
{
}

/// Appending to an empty register writes it.
pub proof fn law_append_to_empty_writes<S: Fn(&str, Ask) -> Answer>(
    regs: Seq<RegV>,
    name: Option<char>,
    new: RegV,
    shell: S,
)
    requires
        regs.len() == 27,
        held_by(regs, name) == Some(RegV::Empty),
    ensures
        stored(regs, name, true, new, shell) == stored(regs, name, false, new, shell),
{
}

/// A name in capitals shows as it was given, and names the same register.
pub proof fn law_capital_names_same_register(c: char)
    requires
        is_lower(c),
    ensures
        slot(Some(upper_of(c))) == slot(Some(c)),
        lower_of(upper_of(c)) == c,
{
    let u: u8 = ((c as u8) - 32) as u8;
    assert(u as char as u8 == u);
}

/// Every letter has a register of its own, whatever its case, and what has no
/// name another; other characters name none.
pub proof fn law_letters_name_registers_of_their_own(a: char, b: char)
    ensures
        'a' <= a <= 'z' && 'a' <= b <= 'z' && a != b ==> slot(Some(a)) != slot(Some(b)),
        'a' <= a <= 'z' ==> (slot(Some(a)) matches Some(i) && 0 <= i < 26),
        'a' <= a <= 'z' && 'A' <= b <= 'Z' && a as int - b as int == 32 ==> slot(Some(a)) == slot(
            Some(b),
        ),
        'a' <= a <= 'z' ==> slot(Some(a)) != slot(None),
        slot(Some('"')) == slot(None),
        slot(None) is Some,
        !('a' <= a <= 'z') && !('A' <= a <= 'Z') && a != '"' ==> slot(Some(a)) is None,
{
}

/// What is appended comes behind what the register holds: lines behind lines,
/// keys behind keys. The kind stays that of what was there.
pub proof fn law_appended_comes_behind<S: Fn(&str, Ask) -> Answer>(
    regs: Seq<RegV>,
    name: Option<char>,
    old_lines: LinesV,
    new_lines: LinesV,
    shell: S,
)
    requires
        regs.len() == 27,
    ensures
        held_by(regs, name) == Some(RegV::Line(old_lines)) ==> held_by(
            stored(regs, name, true, RegV::Line(new_lines), shell),
            name,
        ) == Some(RegV::Line(old_lines + new_lines)),
        held_by(regs, name) == Some(RegV::Line(old_lines)) ==> held_by(
            stored(regs, name, true, RegV::Span(new_lines), shell),
            name,
        ) == Some(RegV::Line(old_lines + new_lines)),
        held_by(regs, name) == Some(RegV::Span(old_lines)) ==> held_by(
            stored(regs, name, true, RegV::Span(new_lines), shell),
            name,
        ) == Some(RegV::Span(old_lines + new_lines)),
        held_by(regs, name) == Some(RegV::Span(old_lines)) ==> held_by(
            stored(regs, name, true, RegV::Line(new_lines), shell),
            name,
        ) == Some(RegV::Span(old_lines + new_lines)),
{
}

/// Keys recorded behind keys are played behind them.
pub proof fn law_appended_keys_come_behind<S: Fn(&str, Ask) -> Answer>(
    regs: Seq<RegV>,
    name: Option<char>,
    first: Seq<KeyEventV>,
    then: Seq<KeyEventV>,
    shell: S,
)
    requires
        regs.len() == 27,
        held_by(regs, name) == Some(RegV::Macro(first)),
    ensures
        held_by(stored(regs, name, true, RegV::Macro(then), shell), name) == Some(
            RegV::Macro(first + then),
        ),
{
}

} // verus!
