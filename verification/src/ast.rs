//! Scheme syntax trees, stored in an arena: a node refers to its children by
//! their ids in the arena. Numerals are kept as atoms here, with their text.
use vstd::prelude::*;
use crate::text::push_char;

verus! {

/// The position of a node in its arena.
pub type NodeId = usize;

/// The nodes of the syntax trees of a Scheme text.
#[derive(Debug)]
pub struct Arena {
    nodes: Vec<SExpr>,
}

/// A node of a Scheme syntax tree.
#[derive(Debug, Clone, PartialEq)]
pub enum SExpr {
    Atom(String),
    String(String),
    Bool(bool),
    Char(char),
    List(Vec<NodeId>),
    Quote(NodeId),
    QuasiQuote(NodeId),
    Unquote(NodeId),
    UnquoteSplicing(NodeId),
    Vector(Vec<NodeId>),
}

/// A Scheme syntax tree as a mathematical value.
pub enum Tree {
    Atom(Seq<char>),
    Str(Seq<char>),
    Bool(bool),
    Char(char),
    List(Seq<Tree>),
    Quote(Box<Tree>),
    QuasiQuote(Box<Tree>),
    Unquote(Box<Tree>),
    UnquoteSplicing(Box<Tree>),
    Vector(Seq<Tree>),
}

/// The placeholder tree for a reference that does not point to an earlier
/// node.
pub open spec fn dangling() -> Tree {
    Tree::List(Seq::empty())
}

/// The tree rooted at node `id` of `nodes`: children are read only where
/// they come before their parent.
pub open spec fn tree_of(nodes: Seq<SExpr>, id: int) -> Tree
    decreases id, 1int, 0int,
{
    if !(0 <= id < nodes.len()) {
        dangling()
    } else {
        match nodes[id] {
            SExpr::Atom(s) => Tree::Atom(s@),
            SExpr::String(s) => Tree::Str(s@),
            SExpr::Bool(b) => Tree::Bool(b),
            SExpr::Char(c) => Tree::Char(c),
            SExpr::List(ids) => Tree::List(trees_of(nodes, ids@, id)),
            SExpr::Vector(ids) => Tree::Vector(trees_of(nodes, ids@, id)),
            SExpr::Quote(c) => Tree::Quote(Box::new(child_of(nodes, c as int, id))),
            SExpr::QuasiQuote(c) => Tree::QuasiQuote(Box::new(child_of(nodes, c as int, id))),
            SExpr::Unquote(c) => Tree::Unquote(Box::new(child_of(nodes, c as int, id))),
            SExpr::UnquoteSplicing(c) => Tree::UnquoteSplicing(Box::new(child_of(nodes, c as int, id))),
        }
    }
}

/// The tree of the child `c` of node `parent`.
pub open spec fn child_of(nodes: Seq<SExpr>, c: int, parent: int) -> Tree
    decreases parent, 0int, 0int,
{
    if 0 <= c < parent {
        tree_of(nodes, c)
    } else {
        dangling()
    }
}

/// The trees of the children `ids` of node `parent`.
pub open spec fn trees_of(nodes: Seq<SExpr>, ids: Seq<NodeId>, parent: int) -> Seq<Tree>
    decreases parent, 0int, ids.len(),
{
    if ids.len() == 0 {
        Seq::empty()
    } else {
        trees_of(nodes, ids.drop_last(), parent).push(child_of(nodes, ids.last() as int, parent))
    }
}

/// Adding nodes to an arena leaves the trees of its nodes as they were.
pub proof fn lemma_tree_of_extend(nodes: Seq<SExpr>, more: Seq<SExpr>, id: int)
    requires
        0 <= id < nodes.len(),
    ensures
        tree_of(nodes + more, id) == tree_of(nodes, id),
    decreases id, 1int, 0int,
{
    let all = nodes + more;
    assert(all[id] == nodes[id]);
    match nodes[id] {
        SExpr::List(ids) => {
            lemma_trees_of_extend(nodes, more, ids@, id);
        },
        SExpr::Vector(ids) => {
            lemma_trees_of_extend(nodes, more, ids@, id);
        },
        SExpr::Quote(c) => {
            lemma_child_of_extend(nodes, more, c as int, id);
        },
        SExpr::QuasiQuote(c) => {
            lemma_child_of_extend(nodes, more, c as int, id);
        },
        SExpr::Unquote(c) => {
            lemma_child_of_extend(nodes, more, c as int, id);
        },
        SExpr::UnquoteSplicing(c) => {
            lemma_child_of_extend(nodes, more, c as int, id);
        },
        _ => {},
    }
}

/// `lemma_tree_of_extend` for a child.
pub proof fn lemma_child_of_extend(nodes: Seq<SExpr>, more: Seq<SExpr>, c: int, parent: int)
    requires
        0 <= parent < nodes.len(),
    ensures
        child_of(nodes + more, c, parent) == child_of(nodes, c, parent),
    decreases parent, 0int, 0int,
{
    if 0 <= c < parent {
        lemma_tree_of_extend(nodes, more, c);
    }
}

/// `lemma_tree_of_extend` for a list of children.
pub proof fn lemma_trees_of_extend(nodes: Seq<SExpr>, more: Seq<SExpr>, ids: Seq<NodeId>, parent: int)
    requires
        0 <= parent < nodes.len(),
    ensures
        trees_of(nodes + more, ids, parent) == trees_of(nodes, ids, parent),
    decreases parent, 0int, ids.len(),
{
    if ids.len() > 0 {
        lemma_trees_of_extend(nodes, more, ids.drop_last(), parent);
        lemma_child_of_extend(nodes, more, ids.last() as int, parent);
    }
}

/// Whether node `e` names node `c` among its children.
pub open spec fn refers_to(e: SExpr, c: int) -> bool {
    match e {
        SExpr::List(ids) => exists|k: int| 0 <= k < ids@.len() && ids@[k] == c,
        SExpr::Vector(ids) => exists|k: int| 0 <= k < ids@.len() && ids@[k] == c,
        SExpr::Quote(x) => x == c,
        SExpr::QuasiQuote(x) => x == c,
        SExpr::Unquote(x) => x == c,
        SExpr::UnquoteSplicing(x) => x == c,
        _ => false,
    }
}

/// `rank` falls strictly from each node that `reach` marks to each of its
/// children in the arena, which `reach` marks too, and stays below the
/// number of nodes.
pub open spec fn ranked(nodes: Seq<SExpr>, reach: spec_fn(int) -> bool, rank: spec_fn(int) -> nat) -> bool {
    &&& forall|i: int, c: int|
        0 <= i < nodes.len() && reach(i) && #[trigger] refers_to(nodes[i], c) && 0 <= c
            < nodes.len() ==> reach(c) && rank(c) < rank(i)
    &&& forall|i: int| 0 <= i < nodes.len() && #[trigger] reach(i) ==> rank(i) < nodes.len()
}

/// Following child references from `e` through `nodes` never comes back to
/// a node already passed: the nodes reached can be ranked so that each
/// child ranks below its parent.
pub open spec fn no_cycle_from(nodes: Seq<SExpr>, e: SExpr) -> bool {
    exists|reach: spec_fn(int) -> bool, rank: spec_fn(int) -> nat|
        #[trigger] ranked(nodes, reach, rank) && forall|c: int|
            #[trigger] refers_to(e, c) && 0 <= c < nodes.len() ==> reach(c)
}

/// Every child reference in `nodes` names an earlier node, as in the
/// arenas that the parser builds.
pub open spec fn children_first(nodes: Seq<SExpr>) -> bool {
    forall|i: int, c: int| 0 <= i < nodes.len() && #[trigger] refers_to(nodes[i], c) ==> c < i
}

/// In an arena whose children come before their parents, no chain of child
/// references loops, from whatever node it starts.
pub proof fn lemma_children_first_no_cycle(nodes: Seq<SExpr>, e: SExpr)
    requires
        children_first(nodes),
    ensures
        no_cycle_from(nodes, e),
{
    let reach = |i: int| true;
    let rank = |i: int|
        if 0 <= i {
            i as nat
        } else {
            0nat
        };
    assert(ranked(nodes, reach, rank));
    assert(forall|c: int| #[trigger] refers_to(e, c) && 0 <= c < nodes.len() ==> reach(c));
}

/// Adding a node whose children are already in the arena keeps the
/// children before their parents.
pub proof fn lemma_children_first_push(nodes: Seq<SExpr>, e: SExpr)
    requires
        children_first(nodes),
        forall|c: int| #[trigger] refers_to(e, c) ==> c < nodes.len(),
    ensures
        children_first(nodes.push(e)),
{
    let all = nodes.push(e);
    assert forall|i: int, c: int| 0 <= i < all.len() && #[trigger] refers_to(all[i], c) implies c
        < i by {
        if i < nodes.len() {
            assert(all[i] == nodes[i]);
        }
    }
}

/// The text of node `e`, its children read from `nodes` down to `fuel`
/// levels: lists as `(a b c)`, vectors as `#(a b c)`, strings in double
/// quotes, booleans as `#t`/`#f`, characters as `#\c`, quotations with their
/// prefix, and `#<invalid>` for an id with no node.
pub open spec fn show_expr(nodes: Seq<SExpr>, e: SExpr, fuel: nat) -> Seq<char>
    decreases fuel, 1int, 0int,
{
    match e {
        SExpr::Atom(s) => s@,
        SExpr::String(s) => "\""@ + s@ + "\""@,
        SExpr::Bool(b) => if b {
            "#t"@
        } else {
            "#f"@
        },
        SExpr::Char(c) => "#\\"@.push(c),
        SExpr::List(ids) => "("@ + show_items(nodes, ids@, fuel) + ")"@,
        SExpr::Vector(ids) => "#("@ + show_items(nodes, ids@, fuel) + ")"@,
        SExpr::Quote(c) => "'"@ + show_child(nodes, c as int, fuel),
        SExpr::QuasiQuote(c) => "`"@ + show_child(nodes, c as int, fuel),
        SExpr::Unquote(c) => ","@ + show_child(nodes, c as int, fuel),
        SExpr::UnquoteSplicing(c) => ",@"@ + show_child(nodes, c as int, fuel),
    }
}

/// The texts of the children `ids`, separated by single spaces.
pub open spec fn show_items(nodes: Seq<SExpr>, ids: Seq<NodeId>, fuel: nat) -> Seq<char>
    decreases fuel, 0int, ids.len(),
{
    if ids.len() == 0 {
        Seq::empty()
    } else if ids.len() == 1 {
        show_child(nodes, ids[0] as int, fuel)
    } else {
        show_items(nodes, ids.drop_last(), fuel) + " "@ + show_child(
            nodes,
            ids.last() as int,
            fuel,
        )
    }
}

/// The text of the child with id `c`.
pub open spec fn show_child(nodes: Seq<SExpr>, c: int, fuel: nat) -> Seq<char>
    decreases fuel, 0int, 0nat,
{
    if 0 <= c < nodes.len() {
        if fuel == 0 {
            Seq::empty()
        } else {
            show_expr(nodes, nodes[c], (fuel - 1) as nat)
        }
    } else {
        "#<invalid>"@
    }
}

/// The text of a node on its own, children not followed: lists, vectors
/// and quotations show as placeholders.
pub open spec fn show_alone(e: SExpr) -> Seq<char> {
    match e {
        SExpr::List(_) => "#<node-list>"@,
        SExpr::Vector(_) => "#<node-vector>"@,
        SExpr::Quote(_) => "#<node-ref>"@,
        SExpr::QuasiQuote(_) => "#<node-ref>"@,
        SExpr::Unquote(_) => "#<node-ref>"@,
        SExpr::UnquoteSplicing(_) => "#<node-ref>"@,
        _ => show_expr(Seq::empty(), e, 0),
    }
}

/// The text of a syntax tree, written as `show_expr` writes its node.
pub open spec fn show_tree(t: Tree) -> Seq<char>
    decreases t,
{
    match t {
        Tree::Atom(s) => s,
        Tree::Str(s) => "\""@ + s + "\""@,
        Tree::Bool(b) => if b {
            "#t"@
        } else {
            "#f"@
        },
        Tree::Char(c) => "#\\"@.push(c),
        Tree::List(ts) => "("@ + show_trees(ts) + ")"@,
        Tree::Vector(ts) => "#("@ + show_trees(ts) + ")"@,
        Tree::Quote(b) => "'"@ + show_tree(*b),
        Tree::QuasiQuote(b) => "`"@ + show_tree(*b),
        Tree::Unquote(b) => ","@ + show_tree(*b),
        Tree::UnquoteSplicing(b) => ",@"@ + show_tree(*b),
    }
}

/// The texts of the trees `ts`, separated by single spaces.
pub open spec fn show_trees(ts: Seq<Tree>) -> Seq<char>
    decreases ts,
{
    if ts.len() == 0 {
        Seq::empty()
    } else if ts.len() == 1 {
        show_tree(ts[0])
    } else {
        show_trees(ts.drop_last()) + " "@ + show_tree(ts.last())
    }
}

/// In an arena whose children come before their parents, the text of node
/// `id` read down `fuel >= id` levels is the text of its tree.
proof fn lemma_show_expr_tree(nodes: Seq<SExpr>, id: int, fuel: nat)
    requires
        children_first(nodes),
        0 <= id < nodes.len(),
        fuel >= id,
    ensures
        show_expr(nodes, nodes[id], fuel) == show_tree(tree_of(nodes, id)),
    decreases id, 1int, 0int,
{
    match nodes[id] {
        SExpr::List(ids) => {
            assert forall|k: int| 0 <= k < ids@.len() implies #[trigger] ids@[k] < id by {
                assert(refers_to(nodes[id], ids@[k] as int));
            }
            lemma_show_items_trees(nodes, ids@, id, fuel);
        },
        SExpr::Vector(ids) => {
            assert forall|k: int| 0 <= k < ids@.len() implies #[trigger] ids@[k] < id by {
                assert(refers_to(nodes[id], ids@[k] as int));
            }
            lemma_show_items_trees(nodes, ids@, id, fuel);
        },
        SExpr::Quote(c) => {
            assert(refers_to(nodes[id], c as int));
            lemma_show_expr_tree(nodes, c as int, (fuel - 1) as nat);
        },
        SExpr::QuasiQuote(c) => {
            assert(refers_to(nodes[id], c as int));
            lemma_show_expr_tree(nodes, c as int, (fuel - 1) as nat);
        },
        SExpr::Unquote(c) => {
            assert(refers_to(nodes[id], c as int));
            lemma_show_expr_tree(nodes, c as int, (fuel - 1) as nat);
        },
        SExpr::UnquoteSplicing(c) => {
            assert(refers_to(nodes[id], c as int));
            lemma_show_expr_tree(nodes, c as int, (fuel - 1) as nat);
        },
        _ => {},
    }
}

/// `lemma_show_expr_tree` for the children `ids` of node `parent`.
proof fn lemma_show_items_trees(nodes: Seq<SExpr>, ids: Seq<NodeId>, parent: int, fuel: nat)
    requires
        children_first(nodes),
        0 <= parent < nodes.len(),
        fuel >= parent,
        forall|k: int| 0 <= k < ids.len() ==> #[trigger] ids[k] < parent,
    ensures
        trees_of(nodes, ids, parent).len() == ids.len(),
        show_items(nodes, ids, fuel) == show_trees(trees_of(nodes, ids, parent)),
    decreases parent, 0int, ids.len(),
{
    if ids.len() > 0 {
        let n = ids.len() - 1;
        let last = ids[n];
        assert(last < parent);
        assert(ids.drop_last().len() == n);
        assert forall|k: int| 0 <= k < ids.drop_last().len() implies #[trigger] ids.drop_last()[k]
            < parent by {
            assert(ids.drop_last()[k] == ids[k]);
        }
        lemma_show_items_trees(nodes, ids.drop_last(), parent, fuel);
        lemma_show_expr_tree(nodes, last as int, (fuel - 1) as nat);
        let front = trees_of(nodes, ids.drop_last(), parent);
        let all = trees_of(nodes, ids, parent);
        let x = tree_of(nodes, last as int);
        assert(ids.last() == last);
        assert(child_of(nodes, last as int, parent) == x);
        assert(all == front.push(x));
        assert(all.drop_last() =~= front);
        assert(all.last() == x);
        assert(show_child(nodes, last as int, fuel) == show_tree(x));
        if ids.len() == 1 {
            assert(front.len() == 0);
            assert(all[0] == x);
            assert(ids[0] == last);
        }
    }
}

/// Whatever a node of an arena whose children come before their parents
/// holds, `display_with_arena` accepts it, and the text it gives for the
/// node `id` is the text of the tree `tree_of` reads there: the tree that
/// the parser promises for the ids it returns.
pub proof fn lemma_display_shows_tree(nodes: Seq<SExpr>, id: int)
    requires
        children_first(nodes),
        0 <= id < nodes.len(),
    ensures
        no_cycle_from(nodes, nodes[id]),
        show_expr(nodes, nodes[id], nodes.len() as nat) == show_tree(tree_of(nodes, id)),
{
    lemma_children_first_no_cycle(nodes, nodes[id]);
    lemma_show_expr_tree(nodes, id, nodes.len() as nat);
}

/// Appends the text of a node with no children.
fn push_leaf(e: &SExpr, out: &mut String)
    requires
        !(e is List || e is Vector || e is Quote || e is QuasiQuote || e is Unquote
            || e is UnquoteSplicing),
    ensures
        final(out)@ == old(out)@ + show_expr(Seq::empty(), *e, 0),
{
    let ghost before = out@;
    match e {
        SExpr::Atom(s) => out.append(s.as_str()),
        SExpr::String(s) => {
            out.append("\"");
            out.append(s.as_str());
            out.append("\"");
            assert(out@ =~= before + ("\""@ + s@ + "\""@));
        },
        SExpr::Bool(b) => {
            if *b {
                out.append("#t");
            } else {
                out.append("#f");
            }
        },
        SExpr::Char(c) => {
            out.append("#\\");
            push_char(out, *c);
            assert(out@ =~= before + "#\\"@.push(*c));
        },
        _ => {},
    }
}

/// Appends the text of node `e`, its children followed down `fuel` levels.
fn push_expr(
    arena: &Arena,
    e: &SExpr,
    out: &mut String,
    Ghost(reach): Ghost<spec_fn(int) -> bool>,
    Ghost(rank): Ghost<spec_fn(int) -> nat>,
    Ghost(fuel): Ghost<nat>,
)
    requires
        ranked(arena@, reach, rank),
        forall|c: int|
            #[trigger] refers_to(*e, c) && 0 <= c < arena@.len() ==> reach(c) && rank(c) < fuel,
    ensures
        final(out)@ == old(out)@ + show_expr(arena@, *e, fuel),
    decreases fuel, 2int,
{
    let ghost before = out@;
    match e {
        SExpr::List(ids) => {
            out.append("(");
            assert forall|k: int|
                0 <= k < ids@.len() && #[trigger] ids@[k] < arena@.len() implies reach(
                ids@[k] as int,
            ) && rank(ids@[k] as int) < fuel by {
                assert(refers_to(*e, ids@[k] as int));
            }
            push_items(arena, ids, out, Ghost(reach), Ghost(rank), Ghost(fuel));
            out.append(")");
            assert(out@ =~= before + ("("@ + show_items(arena@, ids@, fuel) + ")"@));
        },
        SExpr::Vector(ids) => {
            out.append("#(");
            assert forall|k: int|
                0 <= k < ids@.len() && #[trigger] ids@[k] < arena@.len() implies reach(
                ids@[k] as int,
            ) && rank(ids@[k] as int) < fuel by {
                assert(refers_to(*e, ids@[k] as int));
            }
            push_items(arena, ids, out, Ghost(reach), Ghost(rank), Ghost(fuel));
            out.append(")");
            assert(out@ =~= before + ("#("@ + show_items(arena@, ids@, fuel) + ")"@));
        },
        SExpr::Quote(c) => {
            out.append("'");
            assert(refers_to(*e, *c as int));
            push_child(arena, *c, out, Ghost(reach), Ghost(rank), Ghost(fuel));
            assert(out@ =~= before + ("'"@ + show_child(arena@, *c as int, fuel)));
        },
        SExpr::QuasiQuote(c) => {
            out.append("`");
            assert(refers_to(*e, *c as int));
            push_child(arena, *c, out, Ghost(reach), Ghost(rank), Ghost(fuel));
            assert(out@ =~= before + ("`"@ + show_child(arena@, *c as int, fuel)));
        },
        SExpr::Unquote(c) => {
            out.append(",");
            assert(refers_to(*e, *c as int));
            push_child(arena, *c, out, Ghost(reach), Ghost(rank), Ghost(fuel));
            assert(out@ =~= before + (","@ + show_child(arena@, *c as int, fuel)));
        },
        SExpr::UnquoteSplicing(c) => {
            out.append(",@");
            assert(refers_to(*e, *c as int));
            push_child(arena, *c, out, Ghost(reach), Ghost(rank), Ghost(fuel));
            assert(out@ =~= before + (",@"@ + show_child(arena@, *c as int, fuel)));
        },
        _ => push_leaf(e, out),
    }
}

/// Appends the texts of the children `ids`, separated by single spaces.
fn push_items(
    arena: &Arena,
    ids: &Vec<NodeId>,
    out: &mut String,
    Ghost(reach): Ghost<spec_fn(int) -> bool>,
    Ghost(rank): Ghost<spec_fn(int) -> nat>,
    Ghost(fuel): Ghost<nat>,
)
    requires
        ranked(arena@, reach, rank),
        forall|k: int|
            0 <= k < ids@.len() && #[trigger] ids@[k] < arena@.len() ==> reach(ids@[k] as int)
                && rank(ids@[k] as int) < fuel,
    ensures
        final(out)@ == old(out)@ + show_items(arena@, ids@, fuel),
    decreases fuel, 1int,
{
    let ghost before = out@;
    let mut i: usize = 0;
    while i < ids.len()
        invariant
            0 <= i <= ids@.len(),
            ranked(arena@, reach, rank),
            forall|k: int|
                0 <= k < ids@.len() && #[trigger] ids@[k] < arena@.len() ==> reach(ids@[k] as int)
                    && rank(ids@[k] as int) < fuel,
            out@ == before + show_items(arena@, ids@.take(i as int), fuel),
        decreases ids@.len() - i,
    {
        let ghost mid = out@;
        if i > 0 {
            out.append(" ");
        }
        let ghost spaced = out@;
        assert(ids@[i as int] < arena@.len() ==> reach(ids@[i as int] as int));
        push_child(arena, ids[i], out, Ghost(reach), Ghost(rank), Ghost(fuel));
        proof {
            let next = ids@.take(i + 1);
            if i > 0 {
                assert(next.drop_last() =~= ids@.take(i as int));
                assert(out@ =~= before + (show_items(arena@, ids@.take(i as int), fuel) + " "@
                    + show_child(arena@, ids@[i as int] as int, fuel)));
            } else {
                assert(out@ =~= before + show_child(arena@, ids@[0] as int, fuel));
            }
        }
        i = i + 1;
    }
    assert(ids@.take(ids@.len() as int) =~= ids@);
}

/// Appends the text of the child with id `c`.
fn push_child(
    arena: &Arena,
    c: NodeId,
    out: &mut String,
    Ghost(reach): Ghost<spec_fn(int) -> bool>,
    Ghost(rank): Ghost<spec_fn(int) -> nat>,
    Ghost(fuel): Ghost<nat>,
)
    requires
        ranked(arena@, reach, rank),
        c < arena@.len() ==> reach(c as int) && rank(c as int) < fuel,
    ensures
        final(out)@ == old(out)@ + show_child(arena@, c as int, fuel),
    decreases fuel, 0int,
{
    if c < arena.nodes.len() {
        let e = &arena.nodes[c];
        proof {
            assert forall|d: int| #[trigger]
                refers_to(*e, d) && 0 <= d < arena@.len() implies reach(d) && rank(d) < fuel
                - 1 by {
                assert(refers_to(arena@[c as int], d));
            }
        }
        push_expr(arena, e, out, Ghost(reach), Ghost(rank), Ghost((fuel - 1) as nat));
    } else {
        out.append("#<invalid>");
    }
}

impl SExpr {
    /// The text of this node with its children read from `arena`: lists as
    /// `(a b c)`, vectors as `#(a b c)`, strings in double quotes, booleans
    /// as `#t`/`#f`, characters as `#\c`, quotations with their prefix, and
    /// `#<invalid>` for an id with no node.
    pub fn display_with_arena(&self, arena: &Arena) -> (r: String)
        requires
            no_cycle_from(arena@, *self),
        ensures
            r@ == show_expr(arena@, *self, arena@.len() as nat),
    {
        let ghost pick = choose|reach: spec_fn(int) -> bool, rank: spec_fn(int) -> nat|
            #[trigger] ranked(arena@, reach, rank) && forall|c: int|
                #[trigger] refers_to(*self, c) && 0 <= c < arena@.len() ==> reach(c);
        let mut out = String::new();
        push_expr(arena, self, &mut out, Ghost(pick.0), Ghost(pick.1), Ghost(arena@.len() as nat));
        out
    }

    /// The text of this node on its own: lists, vectors and quotations show
    /// as placeholders, their children not followed.
    pub fn to_string(&self) -> (r: String)
        ensures
            r@ == show_alone(*self),
    {
        let mut out = String::new();
        match self {
            SExpr::List(_) => out.append("#<node-list>"),
            SExpr::Vector(_) => out.append("#<node-vector>"),
            SExpr::Quote(_) => out.append("#<node-ref>"),
            SExpr::QuasiQuote(_) => out.append("#<node-ref>"),
            SExpr::Unquote(_) => out.append("#<node-ref>"),
            SExpr::UnquoteSplicing(_) => out.append("#<node-ref>"),
            _ => push_leaf(self, &mut out),
        }
        out
    }
}

impl View for Arena {
    type V = Seq<SExpr>;

    /// The nodes, by id.
    closed spec fn view(&self) -> Seq<SExpr> {
        self.nodes@
    }
}

impl Arena {
    /// An empty arena.
    pub fn new() -> (a: Self)
        ensures
            a@ == Seq::<SExpr>::empty(),
    {
        Arena { nodes: Vec::new() }
    }

    /// Adds a node; its id is the number of nodes before it.
    pub fn allocate(&mut self, expr: SExpr) -> (id: NodeId)
        ensures
            id == old(self)@.len(),
            final(self)@ == old(self)@.push(expr),
    {
        let id = self.nodes.len();
        self.nodes.push(expr);
        id
    }

    /// The node with the given id, if there is one.
    pub fn get(&self, id: NodeId) -> (r: Option<&SExpr>)
        ensures
            match r {
                Some(e) => id < self@.len() && *e == self@[id as int],
                None => id >= self@.len(),
            },
    {
        if id < self.nodes.len() {
            Some(&self.nodes[id])
        } else {
            None
        }
    }

    /// The node with the given id, to change in place, if there is one.
    pub fn get_mut(&mut self, id: NodeId) -> (r: Option<&mut SExpr>)
        ensures
            match r {
                Some(e) => id < old(self)@.len() && *e == old(self)@[id as int] && final(self)@
                    == old(self)@.update(id as int, *final(e)),
                None => id >= old(self)@.len() && final(self)@ == old(self)@,
            },
    {
        if id < self.nodes.len() {
            Some(&mut self.nodes[id])
        } else {
            None
        }
    }
}

impl Default for Arena {
    fn default() -> (a: Self)
        ensures
            a@ == Seq::<SExpr>::empty(),
    {
        Self::new()
    }
}

} // verus!
