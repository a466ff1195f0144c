//! The built-in procedures of the Scheme evaluator: their names and
//! arities. The evaluator makes their values and binds them.
use vstd::prelude::*;
use crate::environment::{
    Environment, define_all, find_in, frame_of, last_binding, lemma_define_all_lookup,
    lemma_last_binding_some, lookup_in,
};

verus! {

/// The procedures of a root environment, in order: the arithmetic and
/// comparison operators, the list operations, `display` and `newline`.
pub open spec fn core_table() -> Seq<(Seq<char>, Option<usize>)> {
    seq![
        ("+"@, None),
        ("-"@, None),
        ("*"@, None),
        ("/"@, None),
        ("="@, Some(2)),
        ("<"@, Some(2)),
        (">"@, Some(2)),
        ("<="@, Some(2)),
        (">="@, Some(2)),
        ("number?"@, Some(1)),
        ("symbol?"@, Some(1)),
        ("pair?"@, Some(1)),
        ("null?"@, Some(1)),
        ("car"@, Some(1)),
        ("cdr"@, Some(1)),
        ("cons"@, Some(2)),
        ("list"@, None),
        ("length"@, Some(1)),
        ("list?"@, Some(1)),
        ("append"@, None),
        ("atom?"@, Some(1)),
        ("display"@, None),
        ("newline"@, Some(0)),
    ]
}

/// The name of entry `i` of `core_table`.
pub open spec fn core_name(i: int) -> Seq<char> {
    core_table()[i].0
}

/// The arity of entry `i` of `core_table` (`None`: any number of
/// arguments).
pub open spec fn core_arity(i: int) -> Option<usize> {
    core_table()[i].1
}

/// The procedures of the standard library, which a new environment binds,
/// in order: the core procedures, then the math and the string procedures.
pub open spec fn stdlib_table() -> Seq<(Seq<char>, Option<usize>)> {
    seq![
        ("+"@, None),
        ("-"@, None),
        ("*"@, None),
        ("/"@, None),
        ("="@, Some(2)),
        ("<"@, Some(2)),
        (">"@, Some(2)),
        ("<="@, Some(2)),
        (">="@, Some(2)),
        ("number?"@, Some(1)),
        ("symbol?"@, Some(1)),
        ("pair?"@, Some(1)),
        ("null?"@, Some(1)),
        ("car"@, Some(1)),
        ("cdr"@, Some(1)),
        ("cons"@, Some(2)),
        ("list"@, None),
        ("length"@, Some(1)),
        ("list?"@, Some(1)),
        ("append"@, None),
        ("atom?"@, Some(1)),
        ("display"@, None),
        ("newline"@, Some(0)),
        ("abs"@, Some(1)),
        ("floor"@, Some(1)),
        ("ceiling"@, Some(1)),
        ("round"@, Some(1)),
        ("truncate"@, Some(1)),
        ("sqrt"@, Some(1)),
        ("sin"@, Some(1)),
        ("cos"@, Some(1)),
        ("tan"@, Some(1)),
        ("log"@, Some(1)),
        ("exp"@, Some(1)),
        ("min"@, None),
        ("max"@, None),
        ("string?"@, Some(1)),
        ("string-length"@, Some(1)),
        ("substring"@, Some(3)),
        ("string-upcase"@, Some(1)),
        ("string-downcase"@, Some(1)),
        ("string-append"@, None),
        ("string->number"@, Some(1)),
        ("number->string"@, Some(1)),
    ]
}

/// The name of entry `i` of `stdlib_table`.
pub open spec fn stdlib_name(i: int) -> Seq<char> {
    stdlib_table()[i].0
}

/// The arity of entry `i` of `stdlib_table` (`None`: any number of
/// arguments).
pub open spec fn stdlib_arity(i: int) -> Option<usize> {
    stdlib_table()[i].1
}

/// A table entry: a name and an arity.
fn entry(name: &str, arity: Option<usize>) -> (r: (String, Option<usize>))
    ensures
        r.0@ == name@,
        r.1 == arity,
{
    (name.to_owned(), arity)
}

/// The names and arities of the procedures of a root environment.
pub fn core_builtins() -> (v: Vec<(String, Option<usize>)>)
    ensures
        v@.len() == 23,
        forall|i: int| #![trigger v@[i]] 0 <= i < 23 ==> v@[i].0@ == core_name(i) && v@[i].1 == core_arity(i),
{
    let mut v: Vec<(String, Option<usize>)> = Vec::new();
    v.push(entry("+", None));
    v.push(entry("-", None));
    v.push(entry("*", None));
    v.push(entry("/", None));
    v.push(entry("=", Some(2)));
    v.push(entry("<", Some(2)));
    v.push(entry(">", Some(2)));
    v.push(entry("<=", Some(2)));
    v.push(entry(">=", Some(2)));
    v.push(entry("number?", Some(1)));
    v.push(entry("symbol?", Some(1)));
    v.push(entry("pair?", Some(1)));
    v.push(entry("null?", Some(1)));
    v.push(entry("car", Some(1)));
    v.push(entry("cdr", Some(1)));
    v.push(entry("cons", Some(2)));
    v.push(entry("list", None));
    v.push(entry("length", Some(1)));
    v.push(entry("list?", Some(1)));
    v.push(entry("append", None));
    v.push(entry("atom?", Some(1)));
    v.push(entry("display", None));
    v.push(entry("newline", Some(0)));
    assert(v@.map_values(|e: (String, Option<usize>)| (e.0@, e.1)) =~= core_table());
    assert forall|i: int| 0 <= i < 23 implies #[trigger] v@[i].0@ == core_name(i) && v@[i].1 == core_arity(i) by {
        assert(v@.map_values(|e: (String, Option<usize>)| (e.0@, e.1))[i] == core_table()[i]);
    }
    v
}

/// The names and arities of the standard library procedures.
pub fn stdlib_builtins() -> (v: Vec<(String, Option<usize>)>)
    ensures
        v@.len() == 44,
        forall|i: int| #![trigger v@[i]] 0 <= i < 44 ==> v@[i].0@ == stdlib_name(i) && v@[i].1 == stdlib_arity(i),
{
    let mut v: Vec<(String, Option<usize>)> = Vec::new();
    v.push(entry("+", None));
    v.push(entry("-", None));
    v.push(entry("*", None));
    v.push(entry("/", None));
    v.push(entry("=", Some(2)));
    v.push(entry("<", Some(2)));
    v.push(entry(">", Some(2)));
    v.push(entry("<=", Some(2)));
    v.push(entry(">=", Some(2)));
    v.push(entry("number?", Some(1)));
    v.push(entry("symbol?", Some(1)));
    v.push(entry("pair?", Some(1)));
    v.push(entry("null?", Some(1)));
    v.push(entry("car", Some(1)));
    v.push(entry("cdr", Some(1)));
    v.push(entry("cons", Some(2)));
    v.push(entry("list", None));
    v.push(entry("length", Some(1)));
    v.push(entry("list?", Some(1)));
    v.push(entry("append", None));
    v.push(entry("atom?", Some(1)));
    v.push(entry("display", None));
    v.push(entry("newline", Some(0)));
    v.push(entry("abs", Some(1)));
    v.push(entry("floor", Some(1)));
    v.push(entry("ceiling", Some(1)));
    v.push(entry("round", Some(1)));
    v.push(entry("truncate", Some(1)));
    v.push(entry("sqrt", Some(1)));
    v.push(entry("sin", Some(1)));
    v.push(entry("cos", Some(1)));
    v.push(entry("tan", Some(1)));
    v.push(entry("log", Some(1)));
    v.push(entry("exp", Some(1)));
    v.push(entry("min", None));
    v.push(entry("max", None));
    v.push(entry("string?", Some(1)));
    v.push(entry("string-length", Some(1)));
    v.push(entry("substring", Some(3)));
    v.push(entry("string-upcase", Some(1)));
    v.push(entry("string-downcase", Some(1)));
    v.push(entry("string-append", None));
    v.push(entry("string->number", Some(1)));
    v.push(entry("number->string", Some(1)));
    assert(v@.map_values(|e: (String, Option<usize>)| (e.0@, e.1)) =~= stdlib_table());
    assert forall|i: int| 0 <= i < 44 implies #[trigger] v@[i].0@ == stdlib_name(i) && v@[i].1 == stdlib_arity(i) by {
        assert(v@.map_values(|e: (String, Option<usize>)| (e.0@, e.1))[i] == stdlib_table()[i]);
    }
    v
}


/// The core procedures are the first of the standard library's, with the
/// same arities.
pub proof fn lemma_core_in_stdlib()
    ensures
        core_table() == stdlib_table().take(23),
{
    assert(core_table() =~= stdlib_table().take(23));
}

/// A new environment of the procedures' arities: each name of the standard
/// library (the core procedures among them) is bound, to the arity of its
/// last entry in the table, and no other name is.
pub fn root_environment() -> (e: Environment<Option<usize>>)
    ensures
        e@.len() == 1,
        forall|n: Seq<char>| #[trigger] lookup_in(e@, n) == last_binding(stdlib_table(), n),
        forall|i: int| 0 <= i < 44 ==> lookup_in(e@, #[trigger] stdlib_name(i)) is Some,
        forall|i: int| 0 <= i < 23 ==> lookup_in(e@, #[trigger] core_name(i)) is Some,
{
    let mut e: Environment<Option<usize>> = Environment::new();
    let entries = stdlib_builtins();
    proof {
        assert(frame_of(entries@) =~= stdlib_table()) by {
            assert forall|i: int| 0 <= i < 44 implies #[trigger] frame_of(entries@)[i]
                == stdlib_table()[i] by {
                assert(entries@[i].0@ == stdlib_name(i) && entries@[i].1 == stdlib_arity(i));
            }
        }
    }
    let ghost start = e@;
    define_all(&mut e, entries);
    proof {
        let empty = Seq::<(Seq<char>, Option<usize>)>::empty();
        assert(start == seq![empty]);
        assert forall|n: Seq<char>| #[trigger] lookup_in(e@, n) == last_binding(stdlib_table(), n) by {
            lemma_define_all_lookup(start, stdlib_table(), n);
            assert(start.drop_last() =~= Seq::<Seq<(Seq<char>, Option<usize>)>>::empty());
            assert(start.last() == empty);
            assert(find_in(empty, n) is None);
            assert(lookup_in(start.drop_last(), n) is None);
            assert(lookup_in(start, n) is None);
            assert(start.update(0, start.last()) =~= start);
        }
        assert forall|i: int| 0 <= i < 44 implies lookup_in(e@, #[trigger] stdlib_name(i)) is Some by {
            lemma_last_binding_some(stdlib_table(), i);
            assert(lookup_in(e@, stdlib_name(i)) == last_binding(stdlib_table(), stdlib_name(i)));
        }
        lemma_core_in_stdlib();
        assert forall|i: int| 0 <= i < 23 implies lookup_in(e@, #[trigger] core_name(i)) is Some by {
            assert(core_name(i) == stdlib_name(i));
            lemma_last_binding_some(stdlib_table(), i);
            assert(lookup_in(e@, stdlib_name(i)) == last_binding(stdlib_table(), stdlib_name(i)));
        }
    }
    e
}

} // verus!
