//! Argument checks shared by the Lua standard library functions.
use vstd::prelude::*;
use crate::error_types::{LuaError, LuaResult};

verus! {

/// Checks that a call of `name` got between `min` and `max` arguments
/// (`None`: no upper bound): fails with the expected and given counts,
/// the lower bound where there are too few, the upper where too many.
pub fn require_args<T>(name: &str, args: &[T], min: usize, max: Option<usize>) -> (r: LuaResult<()>)
    ensures
        match r {
            Ok(_) => min <= args@.len() && (max matches Some(m) ==> args@.len() <= m),
            Err(e) => (e matches LuaError::ArgumentCountError { function, expected, got }
                && function@ == name@ && got == args@.len() && if args@.len() < min {
                expected == min
            } else {
                (max matches Some(m) && args@.len() > m && expected == m)
            }),
        },
{
    if args.len() < min {
        return Err(LuaError::arg_count(name, min, args.len()));
    }
    match max {
        Some(max_args) => {
            if args.len() > max_args {
                return Err(LuaError::arg_count(name, max_args, args.len()));
            }
        },
        None => {},
    }
    Ok(())
}

} // verus!
