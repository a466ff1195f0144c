//! Variables from outer scopes that a closure captures, and the free
//! variables of a function. The captured values hold any type.
use vstd::prelude::*;
use std::collections::HashMap;

verus! {

/// Represents a variable from an outer scope that is captured by a closure
#[derive(Debug, Clone, PartialEq)]
pub struct Upvalue<T> {
    /// Name of the captured variable
    pub name: String,
    /// Scope depth where the variable is defined
    pub scope_depth: usize,
    /// Current value of the upvalue
    pub value: T,
}

impl<T> Upvalue<T> {
    pub fn new(name: String, scope_depth: usize, value: T) -> (u: Self)
        ensures
            u == (Upvalue { name, scope_depth, value }),
    {
        Upvalue { name, scope_depth, value }
    }
}

/// The index of the first upvalue named `name` at or after `i`.
pub open spec fn upvalue_index<T>(ups: Seq<Upvalue<T>>, name: Seq<char>, i: int) -> Option<int>
    decreases ups.len() - i,
{
    if i < 0 || i >= ups.len() {
        None
    } else if ups[i].name@ == name {
        Some(i)
    } else {
        upvalue_index(ups, name, i + 1)
    }
}

/// The names of `ups` mapped to their values, a later upvalue of a name
/// replacing an earlier one.
pub open spec fn locals_of<T>(ups: Seq<Upvalue<T>>) -> Map<String, T>
    decreases ups.len(),
{
    if ups.len() == 0 {
        Map::empty()
    } else {
        locals_of(ups.drop_last()).insert(ups.last().name, ups.last().value)
    }
}

/// Closure state - captures the upvalues when a function is created
#[derive(Debug, Clone)]
pub struct ClosureState<T> {
    /// Captured upvalues with their values at closure creation time
    pub upvalues: Vec<Upvalue<T>>,
}

impl<T> ClosureState<T> {
    pub fn new() -> (c: Self)
        ensures
            c.upvalues@ == Seq::<Upvalue<T>>::empty(),
    {
        ClosureState { upvalues: Vec::new() }
    }

    pub fn add_upvalue(&mut self, upvalue: Upvalue<T>)
        ensures
            final(self).upvalues@ == old(self).upvalues@.push(upvalue),
    {
        self.upvalues.push(upvalue);
    }

    /// The first upvalue named `name`, if any.
    fn find(&self, key: &String) -> (r: Option<usize>)
        ensures
            match r {
                Some(i) => upvalue_index(self.upvalues@, key@, 0) == Some(i as int) && i
                    < self.upvalues@.len(),
                None => upvalue_index(self.upvalues@, key@, 0) is None,
            },
    {
        let mut i: usize = 0;
        while i < self.upvalues.len()
            invariant
                0 <= i <= self.upvalues@.len(),
                upvalue_index(self.upvalues@, key@, 0) == upvalue_index(
                    self.upvalues@,
                    key@,
                    i as int,
                ),
            decreases self.upvalues@.len() - i,
        {
            if self.upvalues[i].name == *key {
                return Some(i);
            }
            i = i + 1;
        }
        None
    }

    /// The first upvalue named `name`, if any.
    pub fn get_upvalue(&self, name: &str) -> (r: Option<&Upvalue<T>>)
        ensures
            match upvalue_index(self.upvalues@, name@, 0) {
                Some(i) => r == Some(&self.upvalues@[i]),
                None => r is None,
            },
    {
        match self.find(&name.to_owned()) {
            Some(i) => Some(&self.upvalues[i]),
            None => None,
        }
    }

    /// Gives the first upvalue named `name`, if any, the value `value`.
    pub fn update_upvalue(&mut self, name: &str, value: T)
        ensures
            match upvalue_index(old(self).upvalues@, name@, 0) {
                Some(i) => final(self).upvalues@ == old(self).upvalues@.update(
                    i,
                    Upvalue { value, ..old(self).upvalues@[i] },
                ),
                None => final(self).upvalues@ == old(self).upvalues@,
            },
    {
        match self.find(&name.to_owned()) {
            Some(i) => {
                let old_up = self.upvalues.remove(i);
                let up = Upvalue { name: old_up.name, scope_depth: old_up.scope_depth, value };
                self.upvalues.insert(i, up);
                assert(self.upvalues@ =~= old(self).upvalues@.update(
                    i as int,
                    Upvalue { value, ..old(self).upvalues@[i as int] },
                ));
            },
            None => {},
        }
    }

    /// The upvalues as a map of names to copies of their values, a later
    /// upvalue of a name replacing an earlier one. What the map holds is
    /// known where `String` keys follow the model of hash maps.
    pub fn to_locals(&self) -> (r: HashMap<String, T>)
        where T: Clone,
        ensures
            vstd::std_specs::hash::obeys_key_model::<String>() ==> r@.dom() == locals_of(
                self.upvalues@,
            ).dom() && forall|k: String| #[trigger]
                r@.contains_key(k) ==> cloned::<T>(locals_of(self.upvalues@)[k], r@[k]),
    {
        broadcast use vstd::std_specs::hash::axiom_random_state_builds_valid_hashers;

        let mut r: HashMap<String, T> = HashMap::new();
        let mut i: usize = 0;
        while i < self.upvalues.len()
            invariant
                0 <= i <= self.upvalues@.len(),
                vstd::std_specs::hash::obeys_key_model::<String>() ==> r@.dom() == locals_of(
                    self.upvalues@.take(i as int),
                ).dom() && forall|k: String| #[trigger]
                    r@.contains_key(k) ==> cloned::<T>(
                        locals_of(self.upvalues@.take(i as int))[k],
                        r@[k],
                    ),
            decreases self.upvalues@.len() - i,
        {
            let u = &self.upvalues[i];
            let name = u.name.clone();
            let value = u.value.clone();
            r.insert(name, value);
            proof {
                assert(self.upvalues@.take(i + 1).drop_last() =~= self.upvalues@.take(i as int));
            }
            i = i + 1;
        }
        assert(self.upvalues@.take(self.upvalues@.len() as int) =~= self.upvalues@);
        r
    }
}

impl<T> Default for ClosureState<T> {
    fn default() -> (c: Self)
        ensures
            c.upvalues@ == Seq::<Upvalue<T>>::empty(),
    {
        Self::new()
    }
}

/// The free variables of a function with the parameters `params`. The body
/// is not analysed, so none are reported.
pub fn find_free_variables(params: &[String]) -> (free: Vec<String>)
    ensures
        free@ == Seq::<String>::empty(),
{
    Vec::new()
}

} // verus!
