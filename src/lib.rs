//! A driver for a debugger's machine interface: a parser for the lines that
//! the debugger prints, queries over the values those lines carry, and the
//! state machine that runs a debugging session, with its command history.

use vstd::prelude::*;

pub mod control;
pub mod decode;
pub mod history;
pub mod mi;
pub mod mi_parse;
pub mod mi_types;
pub mod query;

verus! {

} // verus!
