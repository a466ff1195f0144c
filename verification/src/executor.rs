//! State of the Lua statement executor.
use vstd::prelude::*;
use crate::environment::{define_in, find_binding, frame_of, Frame};

verus! {

/// Executes the statements of Lua blocks, keeping the labels it has seen.
pub struct Executor {
    labels: Vec<(String, usize)>,
}

impl Executor {
    /// The labels seen so far, in the order first seen, with their
    /// statement positions.
    pub closed spec fn spec_labels(&self) -> Frame<usize> {
        frame_of(self.labels@)
    }

    /// An executor that has seen no label.
    pub fn new() -> (e: Self)
        ensures
            e.spec_labels() == Seq::<(Seq<char>, usize)>::empty(),
    {
        let e = Executor { labels: Vec::new() };
        assert(e.spec_labels() =~= Seq::<(Seq<char>, usize)>::empty());
        e
    }

    /// Records that the label `name` has been seen; its position is not
    /// tracked and is recorded as 0.
    pub fn mark_label(&mut self, name: String)
        ensures
            final(self).spec_labels() == define_in(old(self).spec_labels(), name@, 0),
    {
        let ghost before = self.spec_labels();
        let ghost n = name@;
        match find_binding(&self.labels, &name) {
            Some(i) => {
                self.labels.set(i, (name, 0));
                assert(self.spec_labels() =~= before.update(i as int, (n, 0usize)));
            },
            None => {
                self.labels.push((name, 0));
                assert(self.spec_labels() =~= before.push((n, 0usize)));
            },
        }
    }
}

} // verus!
