//! The editing core of an interactive shell prompt: a buffer of lines of
//! grapheme clusters, the motions, verbs and ex commands that act on it, and
//! the decisions a prompt makes around it.

pub mod editcmd;
pub mod error;
pub mod keys;
pub mod layout;
pub mod linebuf;
pub mod patterns;
pub mod readline;
pub mod register;
pub mod seqs;
pub mod shell;
pub mod signal;
pub mod statusline;
pub mod text;
