//! Where `require` looks for a Lua module: the file name a module name
//! stands for, relative to each search path.
use vstd::prelude::*;
use crate::text::{chars_of, push_char};

verus! {

/// A module name with its dots read as path separators.
pub open spec fn dots_to_slashes(name: Seq<char>) -> Seq<char> {
    name.map_values(|c: char| if c == '.' { '/' } else { c })
}

/// The file of a module: `config.server` is `config/server.lua`.
pub fn module_file_name(module_name: &str) -> (r: String)
    ensures
        r@ == dots_to_slashes(module_name@) + ".lua"@,
{
    let v = chars_of(module_name);
    let mut r = String::new();
    let mut i: usize = 0;
    while i < v.len()
        invariant
            0 <= i <= v@.len(),
            v@ == module_name@,
            r@ == dots_to_slashes(v@.take(i as int)),
        decreases v@.len() - i,
    {
        let c = if v[i] == '.' {
            '/'
        } else {
            v[i]
        };
        push_char(&mut r, c);
        assert(dots_to_slashes(v@.take(i + 1)) =~= dots_to_slashes(v@.take(i as int)).push(c));
        i = i + 1;
    }
    assert(v@.take(v@.len() as int) =~= v@);
    r.append(".lua");
    r
}

} // verus!
