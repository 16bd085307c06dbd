//! What the editor asks of the shell around it: how deep a text is nested,
//! which alias a command word stands for, and how a text reads as keys.

use vstd::prelude::*;
use crate::keys::{KeyEvent, KeyEventV};
use crate::seqs::views;

verus! {

/// A question about a text.
#[derive(Clone, Copy, Debug, PartialEq, Eq, Structural)]
pub enum Ask {
    /// How many blocks are open at its end, and whether it fails to parse.
    /// Unless `strict`, quotes and substitutions may be left open.
    Depth { strict: bool },
    /// Which alias its last command word stands for.
    LastCommand,
    /// What it reads with the aliases of all its commands put in.
    AllCommands,
    /// The keys it spells.
    Keys,
    /// Whether it is a keyword that ends a block, or begins its next part.
    Closes,
    /// The command in the history that it stands for behind an exclamation
    /// mark.
    HistoryToken,
    /// The last command in the history, whatever the text.
    HistoryLast,
}

/// A command word that stands for something else.
#[derive(Debug)]
pub struct AliasUse {
    /// What stands in the text from the command word on.
    pub from_word: String,
    /// The command word.
    pub word: String,
    /// What the word stands for.
    pub alias: String,
    /// The text with the word replaced.
    pub expanded: String,
}

/// An answer; only the part that was asked for counts.
#[derive(Debug)]
pub struct Answer {
    pub depth: usize,
    pub failed: bool,
    pub alias: Option<AliasUse>,
    pub keys: Vec<KeyEvent>,
    pub closes: bool,
    pub command: Option<String>,
}

/// An alias use, its parts as texts.
#[verifier::ext_equal]
pub struct AliasUseV {
    pub from_word: Seq<char>,
    pub word: Seq<char>,
    pub alias: Seq<char>,
    pub expanded: Seq<char>,
}

impl View for AliasUse {
    type V = AliasUseV;

    open spec fn view(&self) -> AliasUseV {
        AliasUseV {
            from_word: self.from_word@,
            word: self.word@,
            alias: self.alias@,
            expanded: self.expanded@,
        }
    }
}

/// What an answer says.
#[verifier::ext_equal]
pub struct AnswerV {
    pub depth: usize,
    pub failed: bool,
    pub alias: Option<AliasUseV>,
    pub keys: Seq<KeyEventV>,
    pub closes: bool,
    pub command: Option<Seq<char>>,
}

impl View for Answer {
    type V = AnswerV;

    open spec fn view(&self) -> AnswerV {
        AnswerV {
            depth: self.depth,
            failed: self.failed,
            alias: match self.alias {
                Some(u) => Some(u@),
                None => None,
            },
            keys: views(self.keys@),
            closes: self.closes,
            command: match self.command {
                Some(c) => Some(c@),
                None => None,
            },
        }
    }
}

/// The shell answers every question, and what it says to a question is always
/// the same.
pub open spec fn settled<S: Fn(&str, Ask) -> Answer>(shell: S) -> bool {
    &&& forall|s: &str, a: Ask| #[trigger] call_requires(shell, (s, a))
    &&& forall|s: &str, t: &str, a: Ask, x: Answer, y: Answer|
        s@ == t@ && #[trigger] call_ensures(shell, (s, a), x) && #[trigger] call_ensures(
            shell,
            (t, a),
            y,
        ) ==> x@ == y@
}

/// The shell may say `x`.
pub open spec fn may_answer<S: Fn(&str, Ask) -> Answer>(
    shell: S,
    text: Seq<char>,
    ask: Ask,
    x: AnswerV,
) -> bool {
    exists|s: &str, r: Answer|
        s@ == text && r@ == x && #[trigger] call_ensures(shell, (s, ask), r)
}

/// What the shell says.
pub open spec fn answer<S: Fn(&str, Ask) -> Answer>(shell: S, text: Seq<char>, ask: Ask) -> AnswerV {
    choose|x: AnswerV| #[trigger] may_answer(shell, text, ask, x)
}

/// Puts a question to the shell.
pub fn consult<S: Fn(&str, Ask) -> Answer>(shell: &S, text: &str, ask: Ask) -> (r: Answer)
    requires
        settled(*shell),
    ensures
        r@ == answer(*shell, text@, ask),
{
    let r = shell(text, ask);
    assert(may_answer(*shell, text@, ask, r@));
    r
}

/// The settings of the editor.
#[derive(Clone, Copy, Debug, PartialEq, Eq, Structural)]
pub struct Opts {
    /// The columns between two tab stops, at least one; and the blanks that a
    /// tab of the text is drawn as.
    pub tab_width: usize,
    /// The lines kept visible above and below the cursor.
    pub scroll_offset: usize,
    /// The lines the viewport may take.
    pub viewport_rows: usize,
    pub auto_suggest: bool,
    pub auto_indent: bool,
    pub expand_aliases: bool,
}

/// The settings, and the shell to ask.
pub struct Env<S> {
    pub opts: Opts,
    pub shell: S,
}

pub open spec fn env_ok<S: Fn(&str, Ask) -> Answer>(env: Env<S>) -> bool {
    settled(env.shell) && env.opts.tab_width > 0
}

} // verus!
