//! Errors raised by scripts through `error()`, caught by `pcall`/`xpcall`.
use vstd::prelude::*;

verus! {

/// An error value carrying its message and the stack level it was raised at.
#[derive(Debug, Clone, PartialEq)]
pub struct LuaError {
    pub message: String,
    /// Stack level for error reporting
    pub level: usize,
}

impl LuaError {
    /// An error at level 0.
    pub fn new(message: String) -> (e: Self)
        ensures
            e.message@ == message@,
            e.level == 0,
    {
        LuaError { message, level: 0 }
    }

    /// An error at the given level.
    pub fn with_level(message: String, level: usize) -> (e: Self)
        ensures
            e.message@ == message@,
            e.level == level,
    {
        LuaError { message, level }
    }

    /// The text of the error: its message.
    pub fn to_string(&self) -> (s: String)
        ensures
            s@ == self.message@,
    {
        self.message.clone()
    }
}

} // verus!
