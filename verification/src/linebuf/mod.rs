//! The line buffer and everything that edits it.

pub mod address;
pub mod buffer;
pub mod case_laws;
pub mod change;
pub mod char_class;
pub mod edit;
pub mod edit_laws;
pub mod effect;
pub mod excmd;
pub mod excmd_laws;
pub mod grapheme;
pub mod hint;
pub mod hint_ops;
pub mod history;
pub mod history_laws;
pub mod killring;
pub mod laws;
pub mod line;
pub mod lines;
pub mod marks;
pub mod motion;
pub mod motion_laws;
pub mod notices;
pub mod number;
pub mod object_laws;
pub mod places;
pub mod pos;
pub mod recase;
pub mod report;
pub mod scan;
pub mod select;
pub mod stash;
pub mod typing_laws;
pub mod undo;
pub mod undo_laws;
pub mod verb;
pub mod verb_laws;
pub mod verb_ops;
pub mod view_laws;
pub mod word_laws;
pub mod words;
