//! Lua coroutines: their states and the moves between them, and the
//! registry that numbers them. The values they pass hold any type.
use vstd::prelude::*;
use std::collections::HashMap;
use crate::lua_parser_types::Statement;

verus! {

/// State of a coroutine.
#[derive(Debug, Clone, Copy, PartialEq, Eq, Structural)]
pub enum CoroutineStatus {
    /// Coroutine has been created but never resumed
    Suspended,
    /// Coroutine is currently running
    Running,
    /// Coroutine has finished execution
    Dead,
}

impl CoroutineStatus {
    /// The name of the state, as Lua's `coroutine.status` reports it.
    pub open spec fn spec_name(self) -> Seq<char> {
        match self {
            CoroutineStatus::Suspended => "suspended"@,
            CoroutineStatus::Running => "running"@,
            CoroutineStatus::Dead => "dead"@,
        }
    }

    /// The name of the state, as Lua's `coroutine.status` reports it.
    pub fn to_string(&self) -> (s: String)
        ensures
            s@ == self.spec_name(),
    {
        let name = match self {
            CoroutineStatus::Suspended => "suspended",
            CoroutineStatus::Running => "running",
            CoroutineStatus::Dead => "dead",
        };
        name.to_owned()
    }
}


/// What resuming a coroutine in state `status` gives: the state it moves
/// to, or the message of the refusal.
pub open spec fn resume_outcome(status: CoroutineStatus) -> Result<CoroutineStatus, Seq<char>> {
    match status {
        CoroutineStatus::Suspended => Ok(CoroutineStatus::Running),
        CoroutineStatus::Dead => Err("cannot resume dead coroutine"@),
        CoroutineStatus::Running => Err("cannot resume running coroutine"@),
    }
}

/// A Lua coroutine that can be suspended and resumed
#[derive(Debug, Clone)]
pub struct Coroutine<V> {
    /// Unique identifier for this coroutine
    pub id: usize,
    /// Current status
    pub status: CoroutineStatus,
    /// Saved program counter (instruction index)
    pub pc: usize,
    /// Parameters for the function
    pub params: Vec<String>,
    /// Function body to execute
    pub body: Vec<Statement>,
    /// Local variables at current suspension point
    pub locals: HashMap<String, V>,
    /// Values from the last yield or arguments to resume
    pub yield_values: Vec<V>,
    /// Execution stack at suspension point
    pub stack: Vec<V>,
}

impl<V> Coroutine<V> {
    /// Whether this is a coroutine just made: suspended at the start, with
    /// no locals, values or stack.
    pub open spec fn is_fresh(&self, id: usize, params: Seq<String>, body: Seq<Statement>) -> bool {
        &&& self.id == id
        &&& self.status == CoroutineStatus::Suspended
        &&& self.pc == 0
        &&& self.params@ == params
        &&& self.body@ == body
        &&& self.locals@ == Map::<String, V>::empty()
        &&& self.yield_values@ == Seq::<V>::empty()
        &&& self.stack@ == Seq::<V>::empty()
    }

    /// Create a new coroutine with a function body
    pub fn new(id: usize, params: Vec<String>, body: Vec<Statement>) -> (c: Self)
        ensures
            c.is_fresh(id, params@, body@),
    {
        Coroutine {
            id,
            status: CoroutineStatus::Suspended,
            pc: 0,
            params,
            body,
            locals: HashMap::new(),
            yield_values: Vec::new(),
            stack: Vec::new(),
        }
    }

    /// Resumes a suspended coroutine with the arguments `args`, which become
    /// its values, and sets it running; a dead or running coroutine is
    /// refused, with the reason, and left as it was.
    pub fn resume(&mut self, args: Vec<V>) -> (r: Result<(), String>)
        ensures
            match resume_outcome(old(self).status) {
                Ok(next) => r is Ok && final(self).status == next && final(self).yield_values@
                    == args@ && final(self).id == old(self).id && final(self).pc == old(self).pc
                    && final(self).params == old(self).params && final(self).body
                    == old(self).body && final(self).locals == old(self).locals
                    && final(self).stack == old(self).stack,
                Err(m) => r matches Err(e) && e@ == m && *final(self) == *old(self),
            },
    {
        if self.status == CoroutineStatus::Dead {
            return Err("cannot resume dead coroutine".to_owned());
        }
        if self.status == CoroutineStatus::Suspended {
            self.yield_values = args;
            self.status = CoroutineStatus::Running;
            Ok(())
        } else {
            Err("cannot resume running coroutine".to_owned())
        }
    }

    /// Suspend the coroutine at the current point
    pub fn yield_values(&mut self, values: Vec<V>)
        ensures
            *final(self) == (Coroutine {
                status: CoroutineStatus::Suspended,
                yield_values: values,
                ..*old(self)
            }),
    {
        self.status = CoroutineStatus::Suspended;
        self.yield_values = values;
    }

    /// Mark the coroutine as finished, keeping the values it returned; a
    /// copy of them is returned.
    pub fn finish(&mut self, return_values: Vec<V>) -> (r: Vec<V>)
        where V: Clone,
        ensures
            *final(self) == (Coroutine {
                status: CoroutineStatus::Dead,
                yield_values: return_values,
                ..*old(self)
            }),
            r@.len() == return_values@.len(),
            forall|i: int| 0 <= i < r@.len() ==> cloned::<V>(return_values@[i], #[trigger] r@[i]),
    {
        self.status = CoroutineStatus::Dead;
        self.yield_values = return_values;
        self.yield_values.clone()
    }

    /// Check if coroutine can be resumed
    pub fn is_resumable(&self) -> (b: bool)
        ensures
            b == (self.status == CoroutineStatus::Suspended),
    {
        self.status == CoroutineStatus::Suspended
    }
}

/// A suspended coroutine can be resumed; a finished one never can, and
/// resuming it leaves it finished; a running one cannot be resumed again.
pub proof fn lemma_resume_states()
    ensures
        resume_outcome(CoroutineStatus::Suspended) == Ok::<CoroutineStatus, Seq<char>>(
            CoroutineStatus::Running,
        ),
        resume_outcome(CoroutineStatus::Dead) is Err,
        resume_outcome(CoroutineStatus::Running) is Err,
{
}

/// Registry to manage all active coroutines: each by its id, the next id
/// to assign, and the one running, if any.
#[derive(Debug, Clone)]
pub struct CoroutineRegistry<V> {
    coroutines: HashMap<usize, Coroutine<V>>,
    next_id: usize,
    active_id: Option<usize>,
}

impl<V> CoroutineRegistry<V> {
    /// The coroutines by id.
    pub closed spec fn spec_coroutines(&self) -> Map<usize, Coroutine<V>> {
        self.coroutines@
    }

    /// The id the next coroutine made gets.
    pub closed spec fn spec_next_id(&self) -> usize {
        self.next_id
    }

    /// The active coroutine's id.
    pub closed spec fn spec_active(&self) -> Option<usize> {
        self.active_id
    }

    /// Every id in use is at least 1 and below the next id to assign.
    pub closed spec fn wf(&self) -> bool {
        &&& 1 <= self.next_id
        &&& forall|id: usize| #[trigger] self.coroutines@.contains_key(id) ==> 1 <= id < self.next_id
    }

    pub fn new() -> (r: Self)
        ensures
            r.wf(),
            r.spec_coroutines() == Map::<usize, Coroutine<V>>::empty(),
            r.spec_next_id() == 1,
            r.spec_active() is None,
    {
        CoroutineRegistry { coroutines: HashMap::new(), next_id: 1, active_id: None }
    }

    /// Create a new coroutine and return its ID: the next id, one not in
    /// use; the next id after it is one more.
    pub fn create(&mut self, params: Vec<String>, body: Vec<Statement>) -> (id: usize)
        requires
            old(self).wf(),
            old(self).spec_next_id() < usize::MAX,
        ensures
            final(self).wf(),
            id == old(self).spec_next_id(),
            !old(self).spec_coroutines().contains_key(id),
            final(self).spec_next_id() == id + 1,
            final(self).spec_coroutines().dom() == old(self).spec_coroutines().dom().insert(id),
            forall|k: usize| #[trigger]
                old(self).spec_coroutines().contains_key(k) ==> final(self).spec_coroutines()[k]
                    == old(self).spec_coroutines()[k],
            final(self).spec_coroutines()[id].is_fresh(id, params@, body@),
            final(self).spec_active() == old(self).spec_active(),
    {
        broadcast use vstd::std_specs::hash::group_hash_axioms;

        let id = self.next_id;
        self.next_id = self.next_id + 1;
        let co = Coroutine::new(id, params, body);
        self.coroutines.insert(id, co);
        assert(self.coroutines@.dom() =~= old(self).coroutines@.dom().insert(id));
        id
    }

    /// Get a mutable reference to a coroutine by ID
    pub fn get_mut(&mut self, id: usize) -> (r: Option<&mut Coroutine<V>>)
        ensures
            match r {
                Some(c) => old(self).spec_coroutines().contains_key(id) && *c
                    == old(self).spec_coroutines()[id] && final(self).spec_coroutines()
                    == old(self).spec_coroutines().insert(id, *final(c)) && final(self).spec_next_id()
                    == old(self).spec_next_id() && final(self).spec_active()
                    == old(self).spec_active(),
                None => !old(self).spec_coroutines().contains_key(id) && final(self).spec_coroutines()
                    == old(self).spec_coroutines() && final(self).spec_next_id()
                    == old(self).spec_next_id() && final(self).spec_active()
                    == old(self).spec_active(),
            },
            old(self).wf() ==> final(self).wf(),
    {
        broadcast use vstd::std_specs::hash::group_hash_axioms;

        match self.coroutines.entry(id) {
            std::collections::hash_map::Entry::Occupied(o) => Some(o.into_mut()),
            std::collections::hash_map::Entry::Vacant(_) => None,
        }
    }

    /// Get a coroutine by ID
    pub fn get(&self, id: usize) -> (r: Option<&Coroutine<V>>)
        ensures
            match r {
                Some(c) => self.spec_coroutines().contains_key(id) && *c
                    == self.spec_coroutines()[id],
                None => !self.spec_coroutines().contains_key(id),
            },
    {
        broadcast use vstd::std_specs::hash::group_hash_axioms;

        self.coroutines.get(&id)
    }

    /// Set the currently active coroutine
    pub fn set_active(&mut self, id: usize)
        ensures
            final(self).spec_active() == Some(id),
            final(self).spec_coroutines() == old(self).spec_coroutines(),
            final(self).spec_next_id() == old(self).spec_next_id(),
            old(self).wf() ==> final(self).wf(),
    {
        self.active_id = Some(id);
    }

    /// Get the active coroutine ID
    pub fn get_active(&self) -> (r: Option<usize>)
        ensures
            r == self.spec_active(),
    {
        self.active_id
    }

    /// Clear active coroutine
    pub fn clear_active(&mut self)
        ensures
            final(self).spec_active() is None,
            final(self).spec_coroutines() == old(self).spec_coroutines(),
            final(self).spec_next_id() == old(self).spec_next_id(),
            old(self).wf() ==> final(self).wf(),
    {
        self.active_id = None;
    }
}

impl<V> Default for CoroutineRegistry<V> {
    fn default() -> (r: Self)
        ensures
            r.wf(),
            r.spec_coroutines() == Map::<usize, Coroutine<V>>::empty(),
            r.spec_next_id() == 1,
            r.spec_active() is None,
    {
        Self::new()
    }
}

} // verus!
