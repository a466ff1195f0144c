//! The parts of the Lua standard library functions that decide on counts
//! and positions: argument checks, and the byte range `string.sub` takes.
use vstd::prelude::*;

pub mod validation;

verus! {

/// The first byte `string.sub` takes from a string of `len` bytes, for the
/// Lua start position `start`: from the end where negative, 1-based
/// otherwise, held within the string.
pub open spec fn sub_first(len: int, start: int) -> int {
    if start < 0 {
        if len + start > 0 {
            len + start
        } else {
            0
        }
    } else {
        let t = if start - 1 < len {
            start - 1
        } else {
            len
        };
        if t > 0 {
            t
        } else {
            0
        }
    }
}

/// The end bound `string.sub` computes for the Lua end position `end`,
/// before it is held within the start and the string: from the end where
/// negative (an end before the string's start counts as past its end),
/// otherwise `end` held within the string.
pub open spec fn sub_last(len: int, end: int) -> int {
    if end < 0 {
        if len + end >= 0 {
            len + end
        } else {
            usize::MAX as int
        }
    } else if end < len {
        end
    } else {
        len
    }
}

/// Positions inside the string count from 1: a start `1 <= start <= len`
/// takes from byte `start - 1`, and with `start <= end <= len` the range
/// stops after byte `end - 1`; so `string.sub(s, i, j)` is the `i`th to the
/// `j`th byte, and `string.sub(s, #s, #s)` the last one.
pub proof fn lemma_sub_positions(len: int, start: int, end: int)
    requires
        1 <= start <= len,
    ensures
        sub_first(len, start) == start - 1,
        start <= end <= len ==> sub_last(len, end) == end && end >= start - 1,
{
}

/// The byte range `first..stop` of a string of `len` bytes that
/// `string.sub(s, start, end)` returns: `first` is `sub_first`, and `stop`
/// is `sub_last` raised to `first` and held within the string.
pub fn string_sub_bounds(len: usize, start: i32, end: i32) -> (r: (usize, usize))
    requires
        len <= i32::MAX,
    ensures
        r.0 == sub_first(len as int, start as int),
        r.1 == ({
            let j = sub_last(len as int, end as int);
            let k = if j < r.0 {
                r.0 as int
            } else {
                j
            };
            if k < len {
                k
            } else {
                len as int
            }
        }),
        r.0 <= r.1 <= len,
        1 <= start <= len ==> r.0 == start - 1,
        1 <= start <= end <= len ==> r.1 == end,
{
    proof {
        if 1 <= start <= len {
            lemma_sub_positions(len as int, start as int, end as int);
        }
    }
    let l = len as i32;
    let i: usize = if start < 0 {
        let t = l + start;
        if t > 0 {
            t as usize
        } else {
            0
        }
    } else {
        let t = if start - 1 < l {
            start - 1
        } else {
            l
        };
        if t > 0 {
            t as usize
        } else {
            0
        }
    };
    let j: usize = if end < 0 {
        let t = l + end;
        if t >= 0 {
            t as usize
        } else {
            usize::MAX
        }
    } else if end < l {
        end as usize
    } else {
        len
    };
    let k = if j < i {
        i
    } else {
        j
    };
    let stop = if k < len {
        k
    } else {
        len
    };
    (i, stop)
}

} // verus!
