//! Nested variable scopes for the evaluators: each scope holds its bindings
//! in the order they were made, inside the scopes around it (for Lua, the
//! outermost scope holds the globals). The scopes hold values of any type;
//! names are looked up from the innermost scope out.
use vstd::prelude::*;

verus! {

/// The bindings of one scope: names with their values.
pub type Frame<T> = Seq<(Seq<char>, T)>;

/// The index of the first binding of `name` at or after `i` in `frame`.
pub open spec fn index_from<T>(frame: Frame<T>, name: Seq<char>, i: int) -> Option<int>
    decreases frame.len() - i,
{
    if i < 0 || i >= frame.len() {
        None
    } else if frame[i].0 == name {
        Some(i)
    } else {
        index_from(frame, name, i + 1)
    }
}

/// The index of the first binding of `name` in `frame`.
pub open spec fn find_in<T>(frame: Frame<T>, name: Seq<char>) -> Option<int> {
    index_from(frame, name, 0)
}

/// The value of `name` in the innermost of `frames` (the last) that binds
/// it.
pub open spec fn lookup_in<T>(frames: Seq<Frame<T>>, name: Seq<char>) -> Option<T>
    decreases frames.len(),
{
    if frames.len() == 0 {
        None
    } else {
        match find_in(frames.last(), name) {
            Some(i) => Some(frames.last()[i].1),
            None => lookup_in(frames.drop_last(), name),
        }
    }
}

/// `frame` with `name` bound to `value`: its first binding of `name` takes
/// the value, or a new binding comes last.
pub open spec fn define_in<T>(frame: Frame<T>, name: Seq<char>, value: T) -> Frame<T> {
    match find_in(frame, name) {
        Some(i) => frame.update(i, (name, value)),
        None => frame.push((name, value)),
    }
}

/// `frame` with the entries `es` defined in order, as by `define_in`.
pub open spec fn define_all_in<T>(frame: Frame<T>, es: Seq<(Seq<char>, T)>) -> Frame<T>
    decreases es.len(),
{
    if es.len() == 0 {
        frame
    } else {
        define_in(define_all_in(frame, es.drop_last()), es.last().0, es.last().1)
    }
}

/// The value of the last of the entries `es` named `name`, if any.
pub open spec fn last_binding<T>(es: Seq<(Seq<char>, T)>, name: Seq<char>) -> Option<T>
    decreases es.len(),
{
    if es.len() == 0 {
        None
    } else if es.last().0 == name {
        Some(es.last().1)
    } else {
        last_binding(es.drop_last(), name)
    }
}

/// `frames` with the binding of `name` in the innermost frame that binds it
/// taking `value`, or `None` where no frame binds it.
pub open spec fn set_in<T>(frames: Seq<Frame<T>>, name: Seq<char>, value: T) -> Option<
    Seq<Frame<T>>,
>
    decreases frames.len(),
{
    if frames.len() == 0 {
        None
    } else {
        match find_in(frames.last(), name) {
            Some(i) => Some(frames.update(frames.len() - 1, frames.last().update(i, (name, value)))),
            None => match set_in(frames.drop_last(), name, value) {
                Some(rest) => Some(rest.push(frames.last())),
                None => None,
            },
        }
    }
}

/// The bindings of a frame as names and values.
pub open spec fn frame_of<T>(bindings: Seq<(String, T)>) -> Frame<T> {
    bindings.map_values(|b: (String, T)| (b.0@, b.1))
}

/// Scopes of variable bindings: the current one inside the outer ones.
#[derive(Debug, Clone)]
pub struct Environment<T> {
    outer: Vec<Vec<(String, T)>>,
    current: Vec<(String, T)>,
}

impl<T> View for Environment<T> {
    type V = Seq<Frame<T>>;

    /// The frames, outermost first and the current one last.
    closed spec fn view(&self) -> Seq<Frame<T>> {
        self.outer@.map_values(|f: Vec<(String, T)>| frame_of(f@)).push(frame_of(self.current@))
    }
}

/// A binding found from `k` is a binding of `name` at or after `k`.
proof fn lemma_index_found<T>(frame: Frame<T>, name: Seq<char>, k: int)
    ensures
        index_from(frame, name, k) matches Some(i) ==> k <= i < frame.len() && frame[i].0 == name,
    decreases frame.len() - k,
{
    if 0 <= k < frame.len() && frame[k].0 != name {
        lemma_index_found(frame, name, k + 1);
    }
}

/// Frames with the same names in the same places find the same bindings.
proof fn lemma_same_names<T>(a: Frame<T>, b: Frame<T>, name: Seq<char>, k: int)
    requires
        a.len() == b.len(),
        forall|j: int| 0 <= j < a.len() ==> a[j].0 == b[j].0,
    ensures
        index_from(a, name, k) == index_from(b, name, k),
    decreases a.len() - k,
{
    if 0 <= k < a.len() {
        lemma_same_names(a, b, name, k + 1);
    }
}

/// A binding added last is found only where no earlier one is.
proof fn lemma_push_index<T>(a: Frame<T>, x: (Seq<char>, T), name: Seq<char>, k: int)
    requires
        0 <= k <= a.len(),
    ensures
        index_from(a.push(x), name, k) == match index_from(a, name, k) {
            Some(i) => Some(i),
            None => if x.0 == name {
                Some(a.len() as int)
            } else {
                None
            },
        },
    decreases a.len() - k,
{
    if k < a.len() {
        assert(a.push(x)[k] == a[k]);
        lemma_push_index(a, x, name, k + 1);
    } else {
        assert(a.push(x)[k] == x);
        assert(index_from(a.push(x), name, k + 1) is None);
    }
}

/// In `define_in(frame, name, value)`, `name` is found with `value`, and
/// every other name is found as it was in `frame`.
proof fn lemma_define_in<T>(frame: Frame<T>, name: Seq<char>, value: T, other: Seq<char>)
    ensures
        find_in(define_in(frame, name, value), name) matches Some(i) && define_in(
            frame,
            name,
            value,
        )[i].1 == value,
        other != name ==> match find_in(frame, other) {
            Some(j) => find_in(define_in(frame, name, value), other) == Some(j) && define_in(
                frame,
                name,
                value,
            )[j].1 == frame[j].1,
            None => find_in(define_in(frame, name, value), other) is None,
        },
{
    let d = define_in(frame, name, value);
    lemma_index_found(frame, name, 0);
    lemma_index_found(frame, other, 0);
    match find_in(frame, name) {
        Some(i) => {
            lemma_same_names(d, frame, name, 0);
            lemma_same_names(d, frame, other, 0);
        },
        None => {
            lemma_push_index(frame, (name, value), name, 0);
            lemma_push_index(frame, (name, value), other, 0);
        },
    }
}

/// After `define`, looking `name` up gives the value defined, and looking
/// up any other name gives what it gave before.
pub proof fn lemma_define_then_lookup<T>(
    frames: Seq<Frame<T>>,
    name: Seq<char>,
    value: T,
    other: Seq<char>,
)
    requires
        frames.len() >= 1,
    ensures
        lookup_in(frames.update(frames.len() - 1, define_in(frames.last(), name, value)), name)
            == Some(value),
        other != name ==> lookup_in(
            frames.update(frames.len() - 1, define_in(frames.last(), name, value)),
            other,
        ) == lookup_in(frames, other),
{
    let d = frames.update(frames.len() - 1, define_in(frames.last(), name, value));
    lemma_define_in(frames.last(), name, value, other);
    assert(d.last() == define_in(frames.last(), name, value));
    assert(d.drop_last() =~= frames.drop_last());
}

/// After the entries `es` are defined in the current scope, looking up a
/// name gives the value of its last entry, and a name with no entry is
/// looked up as before.
pub proof fn lemma_define_all_lookup<T>(frames: Seq<Frame<T>>, es: Seq<(Seq<char>, T)>, name: Seq<char>)
    requires
        frames.len() >= 1,
    ensures
        lookup_in(frames.update(frames.len() - 1, define_all_in(frames.last(), es)), name)
            == match last_binding(es, name) {
            Some(v) => Some(v),
            None => lookup_in(frames, name),
        },
    decreases es.len(),
{
    if es.len() == 0 {
        assert(frames.update(frames.len() - 1, frames.last()) =~= frames);
    } else {
        let l = frames.len() - 1;
        lemma_define_all_lookup(frames, es.drop_last(), name);
        let f1 = frames.update(l, define_all_in(frames.last(), es.drop_last()));
        lemma_define_then_lookup(f1, es.last().0, es.last().1, name);
        assert(f1.last() == define_all_in(frames.last(), es.drop_last()));
        assert(f1.update(l, define_in(f1.last(), es.last().0, es.last().1)) =~= frames.update(
            l,
            define_all_in(frames.last(), es),
        ));
    }
}

/// Every name among the entries `es` has a last entry.
pub proof fn lemma_last_binding_some<T>(es: Seq<(Seq<char>, T)>, i: int)
    requires
        0 <= i < es.len(),
    ensures
        last_binding(es, es[i].0) is Some,
    decreases es.len(),
{
    if es.last().0 != es[i].0 {
        assert(i < es.len() - 1);
        assert(es.drop_last()[i] == es[i]);
        lemma_last_binding_some(es.drop_last(), i);
    }
}

/// `set` succeeds exactly where looking the name up finds a value; after
/// it, looking the name up gives the value set, and looking up any other
/// name gives what it gave before.
pub proof fn lemma_set_then_lookup<T>(
    frames: Seq<Frame<T>>,
    name: Seq<char>,
    value: T,
    other: Seq<char>,
)
    ensures
        set_in(frames, name, value) is Some <==> lookup_in(frames, name) is Some,
        set_in(frames, name, value) matches Some(f) ==> lookup_in(f, name) == Some(value) && (
        other != name ==> lookup_in(f, other) == lookup_in(frames, other)),
    decreases frames.len(),
{
    if frames.len() > 0 {
        let last = frames.last();
        lemma_index_found(last, name, 0);
        lemma_index_found(last, other, 0);
        match find_in(last, name) {
            Some(i) => {
                let f = frames.update(frames.len() - 1, last.update(i, (name, value)));
                assert(define_in(last, name, value) == last.update(i, (name, value)));
                lemma_define_then_lookup(frames, name, value, other);
            },
            None => {
                lemma_set_then_lookup(frames.drop_last(), name, value, other);
                match set_in(frames.drop_last(), name, value) {
                    Some(rest) => {
                        let f = rest.push(last);
                        assert(f.last() == last);
                        assert(f.drop_last() =~= rest);
                    },
                    None => {},
                }
            },
        }
    }
}

/// An empty scope inside the others changes no lookup.
pub proof fn lemma_child_lookup<T>(frames: Seq<Frame<T>>, name: Seq<char>)
    ensures
        lookup_in(frames.push(Seq::<(Seq<char>, T)>::empty()), name) == lookup_in(frames, name),
{
    let c = frames.push(Seq::<(Seq<char>, T)>::empty());
    assert(c.drop_last() =~= frames);
    assert(find_in(c.last(), name) is None);
}

/// Leaving a scope just entered gives back the scopes as they were.
pub proof fn lemma_pop_undoes_child<T>(frames: Seq<Frame<T>>)
    requires
        frames.len() >= 1,
    ensures
        frames.push(Seq::<(Seq<char>, T)>::empty()).len() > 1,
        frames.push(Seq::<(Seq<char>, T)>::empty()).drop_last() == frames,
{
    assert(frames.push(Seq::<(Seq<char>, T)>::empty()).drop_last() =~= frames);
}

/// Where the first binding of `name` in `frame` is, scanning from `i`.
proof fn lemma_index_step<T>(frame: Frame<T>, name: Seq<char>, i: int)
    requires
        0 <= i < frame.len(),
        frame[i].0 != name,
    ensures
        index_from(frame, name, i) == index_from(frame, name, i + 1),
{
}

/// The index of the first binding of `key` in `bindings`, by a scan.
pub(crate) fn find_binding<T>(bindings: &Vec<(String, T)>, key: &String) -> (r: Option<usize>)
    ensures
        match r {
            Some(i) => find_in(frame_of(bindings@), key@) == Some(i as int) && i < bindings@.len(),
            None => find_in(frame_of(bindings@), key@) is None,
        },
{
    let ghost f = frame_of(bindings@);
    let mut i: usize = 0;
    while i < bindings.len()
        invariant
            0 <= i <= bindings@.len(),
            f == frame_of(bindings@),
            find_in(f, key@) == index_from(f, key@, i as int),
        decreases bindings@.len() - i,
    {
        if bindings[i].0 == *key {
            return Some(i);
        }
        proof {
            lemma_index_step(f, key@, i as int);
        }
        i = i + 1;
    }
    None
}

impl<T> Environment<T> {
    /// An environment of one empty scope.
    pub fn new() -> (e: Self)
        ensures
            e@ == seq![Seq::<(Seq<char>, T)>::empty()],
    {
        let e = Environment { outer: Vec::new(), current: Vec::new() };
        assert(frame_of(e.current@) =~= Seq::<(Seq<char>, T)>::empty());
        assert(e@ =~= seq![Seq::<(Seq<char>, T)>::empty()]);
        e
    }

    /// An empty scope inside this one.
    pub fn child(self) -> (e: Self)
        ensures
            e@ == self@.push(Seq::<(Seq<char>, T)>::empty()),
    {
        let Environment { mut outer, current } = self;
        let ghost before = outer@;
        outer.push(current);
        let e = Environment { outer, current: Vec::new() };
        assert(frame_of(e.current@) =~= Seq::<(Seq<char>, T)>::empty());
        assert(e.outer@.map_values(|f: Vec<(String, T)>| frame_of(f@)) =~= before.map_values(
            |f: Vec<(String, T)>| frame_of(f@),
        ).push(frame_of(current@)));
        assert(e@ =~= self@.push(Seq::<(Seq<char>, T)>::empty()));
        e
    }

    /// Binds `name` to `value` in the current scope, replacing its binding
    /// there if it has one.
    pub fn define(&mut self, name: String, value: T)
        ensures
            final(self)@ == old(self)@.update(
                old(self)@.len() - 1,
                define_in(old(self)@.last(), name@, value),
            ),
    {
        let ghost frame0 = frame_of(self.current@);
        let ghost nv = value;
        let ghost nn = name@;
        match find_binding(&self.current, &name) {
            Some(i) => {
                self.current.set(i, (name, value));
                proof {
                    assert(frame_of(self.current@) =~= frame0.update(i as int, (nn, nv)));
                }
            },
            None => {
                self.current.push((name, value));
                proof {
                    assert(frame_of(self.current@) =~= frame0.push((nn, nv)));
                }
            },
        }
        assert(self@ =~= old(self)@.update(
            old(self)@.len() - 1,
            define_in(old(self)@.last(), nn, nv),
        ));
    }

    /// The value of `name` in the innermost scope that binds it.
    pub fn lookup(&self, name: &str) -> (r: Option<&T>)
        ensures
            match r {
                Some(v) => lookup_in(self@, name@) == Some(*v),
                None => lookup_in(self@, name@) is None,
            },
    {
        let key = name.to_owned();
        let ghost frames = self@;
        let n = self.outer.len();
        assert(frames.last() == frame_of(self.current@));
        assert(frames.drop_last() =~= self.outer@.map_values(|f: Vec<(String, T)>| frame_of(f@)));
        match find_binding(&self.current, &key) {
            Some(i) => {
                return Some(&self.current[i].1);
            },
            None => {},
        }
        assert(frames.take(n as int) =~= frames.drop_last());
        let mut j: usize = n;
        while j > 0
            invariant
                0 <= j <= n,
                n == self.outer@.len(),
                key@ == name@,
                frames == self@,
                frames.drop_last() == self.outer@.map_values(|f: Vec<(String, T)>| frame_of(f@)),
                lookup_in(frames, name@) == lookup_in(frames.take(j as int), name@),
            decreases j,
        {
            let ghost prefix = frames.take(j as int);
            assert(prefix.last() == frame_of(self.outer@[j - 1]@));
            match find_binding(&self.outer[j - 1], &key) {
                Some(i) => {
                    return Some(&self.outer[j - 1][i].1);
                },
                None => {},
            }
            assert(prefix.drop_last() =~= frames.take(j - 1));
            j = j - 1;
        }
        None
    }

    /// Gives `key` the value `value` in the innermost scope that binds it,
    /// and tells whether one did; where none does, the environment stays as
    /// it was.
    fn assign(&mut self, key: String, value: T) -> (r: bool)
        ensures
            match set_in(old(self)@, key@, value) {
                Some(f) => r && final(self)@ == f,
                None => !r && final(self)@ == old(self)@,
            },
    {
        let ghost name = key@;
        let ghost frames = self@;
        let ghost nv = value;
        let n = self.outer.len();
        assert(frames.last() == frame_of(self.current@));
        assert(frames.drop_last() =~= self.outer@.map_values(|f: Vec<(String, T)>| frame_of(f@)));
        match find_binding(&self.current, &key) {
            Some(i) => {
                let ghost frame0 = frame_of(self.current@);
                self.current.set(i, (key, value));
                proof {
                    assert(frame_of(self.current@) =~= frame0.update(i as int, (name, nv)));
                    assert(self@ =~= frames.update(frames.len() - 1, frame0.update(i as int, (name, nv))));
                }
                return true;
            },
            None => {},
        }
        proof {
            assert(frames.take(n as int) =~= frames.drop_last());
            match set_in(frames.drop_last(), name, nv) {
                Some(g) => {
                    assert(g.push(frames.last()) =~= g + frames.skip(n as int));
                },
                None => {},
            }
        }
        let mut j: usize = n;
        while j > 0
            invariant
                0 <= j <= n,
                n == self.outer@.len(),
                key@ == name,
                frames == self@,
                frames == old(self)@,
                nv == value,
                frames.drop_last() == self.outer@.map_values(|f: Vec<(String, T)>| frame_of(f@)),
                set_in(frames, name, nv) == match set_in(frames.take(j as int), name, nv) {
                    Some(f) => Some(f + frames.skip(j as int)),
                    None => None,
                },
            decreases j,
        {
            let ghost prefix = frames.take(j as int);
            assert(prefix.last() == frame_of(self.outer@[j - 1]@));
            match find_binding(&self.outer[j - 1], &key) {
                Some(i) => {
                    let ghost frame_j = frame_of(self.outer@[j - 1]@);
                    let mut f = self.outer.remove(j - 1);
                    f.set(i, (key, value));
                    self.outer.insert(j - 1, f);
                    proof {
                        assert(frame_of(f@) =~= frame_j.update(i as int, (name, nv)));
                        assert(self@ =~= prefix.update(j - 1, frame_j.update(i as int, (name, nv)))
                            + frames.skip(j as int));
                    }
                    return true;
                },
                None => {},
            }
            proof {
                assert(prefix.drop_last() =~= frames.take(j - 1));
                match set_in(frames.take(j - 1), name, nv) {
                    Some(g) => {
                        assert(g.push(prefix.last()) + frames.skip(j as int) =~= g + frames.skip(
                            j - 1,
                        ));
                    },
                    None => {},
                }
            }
            j = j - 1;
        }
        assert(frames.take(0) =~= Seq::<Frame<T>>::empty());
        false
    }

    /// Gives `name` the value `value` in the innermost scope that binds it;
    /// fails with `Unbound variable: <name>` where none does, leaving the
    /// environment as it was.
    pub fn set(&mut self, name: &str, value: T) -> (r: Result<(), String>)
        ensures
            match set_in(old(self)@, name@, value) {
                Some(f) => r is Ok && final(self)@ == f,
                None => r matches Err(m) && m@ == "Unbound variable: "@ + name@ && final(self)@
                    == old(self)@,
            },
    {
        if self.assign(name.to_owned(), value) {
            Ok(())
        } else {
            let mut m = String::new();
            m.append("Unbound variable: ");
            m.append(name);
            Err(m)
        }
    }

    /// `set` as the Lua interpreter words its failure: `Undefined variable:
    /// <name>`.
    pub fn update(&mut self, name: &str, value: T) -> (r: Result<(), String>)
        ensures
            match set_in(old(self)@, name@, value) {
                Some(f) => r is Ok && final(self)@ == f,
                None => r matches Err(m) && m@ == "Undefined variable: "@ + name@ && final(self)@
                    == old(self)@,
            },
    {
        if self.assign(name.to_owned(), value) {
            Ok(())
        } else {
            let mut m = String::new();
            m.append("Undefined variable: ");
            m.append(name);
            Err(m)
        }
    }

    /// Leaves the current scope for the one around it; the outermost scope
    /// stays.
    pub fn pop_scope(&mut self)
        ensures
            final(self)@ == if old(self)@.len() > 1 {
                old(self)@.drop_last()
            } else {
                old(self)@
            },
    {
        match self.outer.pop() {
            Some(f) => {
                self.current = f;
                assert(self@ =~= old(self)@.drop_last());
            },
            None => {},
        }
    }

    /// The number of scopes inside the outermost one.
    pub fn scope_depth(&self) -> (n: usize)
        ensures
            n == self@.len() - 1,
    {
        self.outer.len()
    }

    /// The bindings of scope `i`, counted from the outermost (0) to the
    /// current one (`scope_depth()`).
    pub fn frame_bindings(&self, i: usize) -> (r: &Vec<(String, T)>)
        requires
            i < self@.len(),
        ensures
            frame_of(r@) == self@[i as int],
    {
        if i < self.outer.len() {
            &self.outer[i]
        } else {
            &self.current
        }
    }
}


/// Defines the entries in order in the current scope of `env`, as
/// `define` would one by one: each name ends bound to its last entry.
pub fn define_all<T>(env: &mut Environment<T>, entries: Vec<(String, T)>)
    ensures
        final(env)@ == old(env)@.update(
            old(env)@.len() - 1,
            define_all_in(old(env)@.last(), frame_of(entries@)),
        ),
{
    let ghost all = frame_of(entries@);
    let ghost start = env@;
    let mut rest = entries;
    let ghost mut k: int = 0;
    assert(all.take(0) =~= Seq::<(Seq<char>, T)>::empty());
    assert(start.update(start.len() - 1, start.last()) =~= start);
    while rest.len() > 0
        invariant
            start == old(env)@,
            start.len() >= 1,
            0 <= k <= all.len(),
            frame_of(rest@) == all.skip(k),
            env@ == start.update(start.len() - 1, define_all_in(start.last(), all.take(k))),
        decreases rest@.len(),
    {
        let ghost rest0 = rest@;
        assert(frame_of(rest0).len() == rest0.len());
        assert(k < all.len());
        let (name, value) = rest.remove(0);
        proof {
            assert(all.skip(k)[0] == (name@, value));
            assert(all.take(k + 1).drop_last() =~= all.take(k));
            assert(all.take(k + 1).last() == (name@, value));
        }
        let ghost before = env@;
        env.define(name, value);
        proof {
            assert(before.last() == define_all_in(start.last(), all.take(k)));
            assert(env@ =~= start.update(start.len() - 1, define_all_in(start.last(), all.take(k + 1))));
            assert(rest@ =~= rest0.skip(1));
            assert forall|j: int| 0 <= j < rest@.len() implies #[trigger] frame_of(rest@)[j]
                == all.skip(k + 1)[j] by {
                assert(frame_of(rest0)[j + 1] == all.skip(k)[j + 1]);
            }
            assert(frame_of(rest@) =~= all.skip(k + 1));
            k = k + 1;
        }
    }
    assert(all.take(k) =~= all);
}

} // verus!
