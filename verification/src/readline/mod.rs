//! The prompt around the line buffer: which keys lead to which commands, and
//! what becomes of the prompt when they have run.

pub mod acts;
pub mod complete;
pub mod draw;
pub mod exec;
pub mod keys;
pub mod mode;
pub mod record;
pub mod scroll;
pub mod session;
pub mod simple;
pub mod worker;
