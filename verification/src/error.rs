//! Errors.

use vstd::prelude::*;

verus! {

#[derive(Clone, Copy, Debug, PartialEq, Eq, Structural)]
pub enum ShErrKind {
    ParseErr,
    SyntaxErr,
    Interrupt,
    /// The shell is to end with this code.
    CleanExit(i32),
}

/// What went wrong.
#[derive(Debug)]
pub struct ShErr {
    pub kind: ShErrKind,
    pub msg: String,
}

pub type ShResult<T> = Result<T, ShErr>;

} // verus!
