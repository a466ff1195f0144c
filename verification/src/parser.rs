//! S-expression parser for Scheme: turns the tokens of a text into syntax
//! trees of nested S-expressions, stored in an arena.
use vstd::prelude::*;
use crate::ast::{
    Arena, NodeId, SExpr, Tree, child_of, children_first, lemma_children_first_push,
    lemma_tree_of_extend, refers_to, tree_of, trees_of,
};
use crate::text::{chars_eq_str, chars_occur_at, chars_of, occurs_at, push_char, string_from_chars};
use crate::tokenizer::{Token, TokenType, count_newlines, is_space, tokenize_string};
use vstd::string::StringSliceAdditionalSpecFns;

verus! {

/// The outcome of a parsing rule: the position after what it read and the
/// tree, or the message and line of the failure.
pub type SRes<A> = Result<(int, A), (Seq<char>, int)>;

/// The line of the token at `p`, or 0 past the end.
pub open spec fn line_at(ts: Seq<Token>, p: int) -> int {
    if 0 <= p < ts.len() {
        ts[p].line as int
    } else {
        0
    }
}

/// The kind of the token at `p`, if any.
pub open spec fn kind_at(ts: Seq<Token>, p: int) -> Option<TokenType> {
    if 0 <= p < ts.len() {
        Some(ts[p].token_type)
    } else {
        None
    }
}

/// The character a `#\` constant names: `space`, `newline`, `tab`,
/// `return`, or a single ASCII character.
pub open spec fn char_name(part: Seq<char>) -> Option<char> {
    if part == "space"@ {
        Some(' ')
    } else if part == "newline"@ {
        Some('\n')
    } else if part == "tab"@ {
        Some('\t')
    } else if part == "return"@ {
        Some('\r')
    } else if part.len() == 1 && (part[0] as u32) < 0x80 {
        Some(part[0])
    } else {
        None
    }
}

/// The named characters (names longer than one character) are whitespace
/// the tokenizer skips, distinct names name distinct characters, and the
/// character named `newline` is exactly the one the tokenizer counts lines
/// by; a one-character ASCII name names itself.
pub proof fn lemma_char_names(a: Seq<char>, b: Seq<char>)
    ensures
        a.len() > 1 && char_name(a) is Some ==> is_space(char_name(a)->0 as u8) && (count_newlines(
            seq![char_name(a)->0 as u8],
            1,
        ) == 1 <==> a == "newline"@),
        a.len() > 1 && b.len() > 1 && char_name(a) is Some && char_name(a) == char_name(b) ==> a
            == b,
        a.len() == 1 && (a[0] as u32) < 0x80 ==> char_name(a) == Some(a[0]),
{
    reveal_strlit("space");
    reveal_strlit("newline");
    reveal_strlit("tab");
    reveal_strlit("return");
    if a.len() > 1 && char_name(a) is Some {
        let c = char_name(a)->0;
        assert(seq![c as u8][0] == c as u8);
        assert(count_newlines(seq![c as u8], 0) == 0);
    }
}

/// The tree of a `#` constant (`#t`, `#f`, `#\c`), or the message of the
/// failure.
pub open spec fn spec_sharp(lit: Seq<char>) -> Result<Tree, Seq<char>> {
    if lit == "#t"@ {
        Ok(Tree::Bool(true))
    } else if lit == "#f"@ {
        Ok(Tree::Bool(false))
    } else if occurs_at(lit, 0, "#\\"@) {
        match char_name(lit.skip(2)) {
            Some(c) => Ok(Tree::Char(c)),
            None => Err("Unknown character literal: "@ + lit.skip(2)),
        }
    } else {
        Err("Unknown sharp constant: "@ + lit)
    }
}

/// An expression at `p`.
pub open spec fn spec_expr(ts: Seq<Token>, p: int) -> SRes<Tree>
    decreases ts.len() - p, 0int,
{
    match kind_at(ts, p) {
        None => Err(("Unexpected token"@, line_at(ts, p))),
        Some(k) => {
            let q = p + 1;
            match k {
                TokenType::LParen => spec_list(ts, q, Seq::empty()),
                TokenType::DQuote => spec_string(ts, q, Seq::empty(), true),
                TokenType::Quote => match spec_expr(ts, q) {
                    Ok((r, x)) => Ok((r, Tree::Quote(Box::new(x)))),
                    Err(e) => Err(e),
                },
                TokenType::BQuote => match spec_expr(ts, q) {
                    Ok((r, x)) => Ok((r, Tree::QuasiQuote(Box::new(x)))),
                    Err(e) => Err(e),
                },
                TokenType::Comma => match spec_expr(ts, q) {
                    Ok((r, x)) => Ok((r, Tree::Unquote(Box::new(x)))),
                    Err(e) => Err(e),
                },
                TokenType::AtMark => match spec_expr(ts, q) {
                    Ok((r, x)) => Ok((r, Tree::UnquoteSplicing(Box::new(x)))),
                    Err(e) => Err(e),
                },
                TokenType::Vec => spec_vector(ts, q, Seq::empty()),
                TokenType::Atom => Ok((q, Tree::Atom(ts[p].literal@))),
                TokenType::SharpConst => match spec_sharp(ts[p].literal@) {
                    Ok(x) => Ok((q, x)),
                    Err(m) => Err((m, line_at(ts, q))),
                },
                TokenType::Eof => Err(("Unexpected EOF"@, line_at(ts, q))),
                _ => Err(("Unexpected token"@, line_at(ts, q))),
            }
        },
    }
}

/// The rest of a list from `p`, after the items `items`: more items, up to
/// `)`, or one item after a dot and then `)`.
pub open spec fn spec_list(ts: Seq<Token>, p: int, items: Seq<Tree>) -> SRes<Tree>
    decreases ts.len() - p, 1int,
{
    match kind_at(ts, p) {
        Some(TokenType::RParen) => Ok((p + 1, Tree::List(items))),
        Some(TokenType::Dot) => {
            if items.len() == 0 {
                Err(("Unexpected dot"@, line_at(ts, p)))
            } else {
                match spec_expr(ts, p + 1) {
                    Err(e) => Err(e),
                    Ok((r, x)) => {
                        if kind_at(ts, r) == Some(TokenType::RParen) {
                            Ok((r + 1, Tree::List(items.push(x))))
                        } else {
                            Err(("Expected ) after dot notation"@, line_at(ts, r)))
                        }
                    },
                }
            }
        },
        _ => match spec_expr(ts, p) {
            Err(e) => Err(e),
            Ok((r, x)) => {
                if p < r <= ts.len() {
                    spec_list(ts, r, items.push(x))
                } else {
                    Ok((r, Tree::List(items)))
                }
            },
        },
    }
}

/// The rest of a vector from `p`, after the items `items`, up to `)`.
pub open spec fn spec_vector(ts: Seq<Token>, p: int, items: Seq<Tree>) -> SRes<Tree>
    decreases ts.len() - p, 1int,
{
    match kind_at(ts, p) {
        Some(TokenType::RParen) => Ok((p + 1, Tree::Vector(items))),
        _ => match spec_expr(ts, p) {
            Err(e) => Err(e),
            Ok((r, x)) => {
                if p < r <= ts.len() {
                    spec_vector(ts, r, items.push(x))
                } else {
                    Ok((r, Tree::Vector(items)))
                }
            },
        },
    }
}

/// The rest of a string from `p`, after the text `content`: the texts of
/// the tokens up to the closing `"`, joined by single spaces.
pub open spec fn spec_string(ts: Seq<Token>, p: int, content: Seq<char>, first: bool) -> SRes<Tree>
    decreases ts.len() - p, 1int,
{
    match kind_at(ts, p) {
        Some(TokenType::DQuote) => Ok((p + 1, Tree::Str(content))),
        Some(_) => spec_string(
            ts,
            p + 1,
            (if first {
                content
            } else {
                content.push(' ')
            }) + ts[p].literal@,
            false,
        ),
        None => Err(("Unterminated string"@, line_at(ts, p))),
    }
}

/// The expressions from `p` to the end (or to an `Eof` token), after the
/// trees `acc`.
pub open spec fn spec_parse_from(ts: Seq<Token>, p: int, acc: Seq<Tree>) -> Result<Seq<Tree>, (Seq<char>, int)>
    decreases ts.len() - p,
{
    match kind_at(ts, p) {
        None => Ok(acc),
        Some(TokenType::Eof) => Ok(acc),
        Some(_) => match spec_expr(ts, p) {
            Err(e) => Err(e),
            Ok((r, x)) => {
                if p < r <= ts.len() {
                    spec_parse_from(ts, r, acc.push(x))
                } else {
                    Ok(acc.push(x))
                }
            },
        },
    }
}

/// Whether `after` holds the nodes of `before` and possibly more.
pub open spec fn extends(before: Seq<SExpr>, after: Seq<SExpr>) -> bool {
    before.len() <= after.len() && after.take(before.len() as int) == before
}

/// The nodes `ids` of `nodes` are the trees `trees`.
pub open spec fn trees_at(nodes: Seq<SExpr>, ids: Seq<NodeId>, trees: Seq<Tree>) -> bool {
    &&& ids.len() == trees.len()
    &&& forall|k: int|
        #![trigger ids[k]]
        0 <= k < ids.len() ==> ids[k] < nodes.len() && tree_of(nodes, ids[k] as int) == trees[k]
}

/// A parse failure: its message and the line of the token where it was
/// found (0 past the end).
#[derive(Debug)]
pub struct ParseError {
    pub message: String,
    pub line: usize,
}

impl ParseError {
    /// `Parse error at line <line>: <message>`.
    pub fn to_string(&self) -> (s: String)
        ensures
            s@ == "Parse error at line "@ + crate::text::decimal(self.line as nat) + ": "@
                + self.message@,
    {
        let mut s = String::new();
        s.append("Parse error at line ");
        crate::text::push_decimal(&mut s, self.line);
        s.append(": ");
        s.append(self.message.as_str());
        s
    }
}

proof fn lemma_extends_trans(a: Seq<SExpr>, b: Seq<SExpr>, c: Seq<SExpr>)
    requires
        extends(a, b),
        extends(b, c),
    ensures
        extends(a, c),
{
    assert(c.take(a.len() as int) =~= b.take(a.len() as int));
}

/// Trees of nodes stay as the arena grows.
proof fn lemma_trees_at_extend(a: Seq<SExpr>, b: Seq<SExpr>, ids: Seq<NodeId>, trees: Seq<Tree>)
    requires
        extends(a, b),
        trees_at(a, ids, trees),
    ensures
        trees_at(b, ids, trees),
{
    assert(b == a + b.skip(a.len() as int)) by {
        assert(b =~= b.take(a.len() as int) + b.skip(a.len() as int));
    }
    assert forall|k: int| 0 <= k < ids.len() implies ids[k] < b.len() && #[trigger] tree_of(
        b,
        ids[k] as int,
    ) == trees[k] by {
        assert(tree_of(a, ids[k] as int) == trees[k]);
        lemma_tree_of_extend(a, b.skip(a.len() as int), ids[k] as int);
    }
}

/// The tree of a node stays as the arena grows.
proof fn lemma_tree_at_extend(a: Seq<SExpr>, b: Seq<SExpr>, id: int)
    requires
        extends(a, b),
        0 <= id < a.len(),
    ensures
        tree_of(b, id) == tree_of(a, id),
{
    assert(b =~= a + b.skip(a.len() as int)) by {
        assert(b =~= b.take(a.len() as int) + b.skip(a.len() as int));
    }
    lemma_tree_of_extend(a, b.skip(a.len() as int), id);
}

/// The children trees of a node whose children all come before it.
proof fn lemma_trees_of_children(nodes: Seq<SExpr>, ids: Seq<NodeId>, parent: int, trees: Seq<Tree>)
    requires
        trees_at(nodes, ids, trees),
        forall|k: int| 0 <= k < ids.len() ==> ids[k] < parent,
    ensures
        trees_of(nodes, ids, parent) == trees,
    decreases ids.len(),
{
    if ids.len() > 0 {
        let n = (ids.len() - 1) as int;
        assert(trees_at(nodes, ids.drop_last(), trees.drop_last())) by {
            assert forall|k: int| 0 <= k < ids.drop_last().len() implies ids.drop_last()[k]
                < nodes.len() && #[trigger] tree_of(nodes, ids.drop_last()[k] as int)
                == trees.drop_last()[k] by {
                assert(ids.drop_last()[k] == ids[k]);
                assert(tree_of(nodes, ids[k] as int) == trees[k]);
            }
        }
        lemma_trees_of_children(nodes, ids.drop_last(), parent, trees.drop_last());
        assert(tree_of(nodes, ids[n] as int) == trees[n]);
        assert(child_of(nodes, ids.last() as int, parent) == trees.last());
        assert(trees =~= trees.drop_last().push(trees.last()));
    } else {
        assert(trees =~= Seq::<Tree>::empty());
    }
}

/// The node of a `#` constant (`#t`, `#f`, `#\c`), or the message of the
/// failure.
fn sharp_value(literal: &str) -> (r: Result<SExpr, String>)
    ensures
        match spec_sharp(literal@) {
            Ok(Tree::Bool(b)) => r == Ok::<SExpr, String>(SExpr::Bool(b)),
            Ok(Tree::Char(c)) => r == Ok::<SExpr, String>(SExpr::Char(c)),
            Ok(_) => false,
            Err(m) => r matches Err(s) && s@ == m,
        },
{
    let v = chars_of(literal);
    let n = v.len();
    proof {
        assert(v@.subrange(0, n as int) =~= literal@);
    }
    if chars_eq_str(&v, 0, n, "#t") {
        return Ok(SExpr::Bool(true));
    }
    if chars_eq_str(&v, 0, n, "#f") {
        return Ok(SExpr::Bool(false));
    }
    if chars_occur_at(&v, 0, "#\\") {
        proof {
            reveal_strlit("#\\");
            assert(v@.skip(2) =~= v@.subrange(2, n as int));
        }
        if chars_eq_str(&v, 2, n, "space") {
            return Ok(SExpr::Char(' '));
        } else if chars_eq_str(&v, 2, n, "newline") {
            return Ok(SExpr::Char('\n'));
        } else if chars_eq_str(&v, 2, n, "tab") {
            return Ok(SExpr::Char('\t'));
        } else if chars_eq_str(&v, 2, n, "return") {
            return Ok(SExpr::Char('\r'));
        } else if n == 3 && (v[2] as u32) < 0x80 {
            return Ok(SExpr::Char(v[2]));
        }
        let mut message = String::new();
        message.append("Unknown character literal: ");
        let part = string_from_chars(&v, 2, n);
        message.append(part.as_str());
        return Err(message);
    }
    let mut message = String::new();
    message.append("Unknown sharp constant: ");
    message.append(literal);
    Err(message)
}

/// Reads the tokens of a Scheme text into syntax trees.
pub struct Parser {
    tokens: Vec<Token>,
    pos: usize,
    arena: Arena,
}

impl Parser {
    /// The tokens read.
    pub closed spec fn spec_tokens(&self) -> Seq<Token> {
        self.tokens@
    }

    /// The position of the next token to read.
    pub closed spec fn spec_pos(&self) -> int {
        self.pos as int
    }

    /// The nodes built so far.
    pub closed spec fn spec_nodes(&self) -> Seq<SExpr> {
        self.arena@
    }

    /// A parser at the start of `tokens`, with an empty arena.
    pub fn new(tokens: Vec<Token>) -> (p: Self)
        ensures
            p.spec_tokens() == tokens@,
            p.spec_pos() == 0,
            p.spec_nodes() == Seq::<SExpr>::empty(),
    {
        Parser { tokens, pos: 0, arena: Arena::new() }
    }

    /// The next token, if any.
    fn peek(&self) -> (r: Option<&Token>)
        ensures
            match r {
                Some(t) => self.pos < self.tokens@.len() && *t == self.tokens@[self.pos as int],
                None => self.pos >= self.tokens@.len(),
            },
    {
        if self.pos < self.tokens.len() {
            Some(&self.tokens[self.pos])
        } else {
            None
        }
    }

    /// Reads the next token, if any.
    fn consume(&mut self) -> (r: Option<Token>)
        ensures
            final(self).tokens@ == old(self).tokens@,
            final(self).arena@ == old(self).arena@,
            match r {
                Some(t) => old(self).pos < old(self).tokens@.len() && t == old(self).tokens@[old(
                    self,
                ).pos as int] && final(self).pos == old(self).pos + 1,
                None => old(self).pos >= old(self).tokens@.len() && final(self).pos == old(
                    self,
                ).pos,
            },
    {
        if self.pos < self.tokens.len() {
            let token = self.tokens[self.pos].clone();
            self.pos = self.pos + 1;
            Some(token)
        } else {
            None
        }
    }

    /// The line of the next token, or 0 at the end.
    fn current_line(&self) -> (l: usize)
        ensures
            l == line_at(self.tokens@, self.pos as int),
    {
        match self.peek() {
            Some(t) => t.line,
            None => 0,
        }
    }

    /// The failure `message` at the next token.
    fn error(&self, message: &str) -> (e: ParseError)
        ensures
            e.message@ == message@,
            e.line == line_at(self.tokens@, self.pos as int),
    {
        ParseError { message: message.to_owned(), line: self.current_line() }
    }

    /// A string whose opening quote was read.
    fn parse_string(&mut self) -> (r: Result<NodeId, ParseError>)
        requires
            old(self).pos <= old(self).tokens@.len(),
        ensures
            final(self).tokens@ == old(self).tokens@,
            extends(old(self).arena@, final(self).arena@),
            children_first(old(self).arena@) ==> children_first(final(self).arena@),
            r is Ok ==> old(self).pos <= final(self).pos,
            final(self).pos <= final(self).tokens@.len(),
            match spec_string(old(self).tokens@, old(self).pos as int, Seq::empty(), true) {
                Ok((q, tree)) => r matches Ok(id) && final(self).pos == q && old(self).arena@.len()
                    <= id < final(self).arena@.len() && tree_of(final(self).arena@, id as int)
                    == tree,
                Err((m, l)) => r matches Err(e) && e.message@ == m && e.line == l,
            },
    {
        let ghost ts = self.tokens@;
        let ghost p0 = self.pos as int;
        let ghost a0 = self.arena@;
        let mut content = String::new();
        let mut first = true;
        loop
            invariant
                self.tokens@ == ts,
                ts == old(self).tokens@,
                p0 == old(self).pos,
                a0 == old(self).arena@,
                self.arena@ == a0,
                p0 <= self.pos <= ts.len(),
                spec_string(ts, p0, Seq::empty(), true) == spec_string(
                    ts,
                    self.pos as int,
                    content@,
                    first,
                ),
            decreases ts.len() - self.pos,
        {
            match self.peek() {
                Some(t) => {
                    if t.token_type == TokenType::DQuote {
                        self.consume();
                        let id = self.arena.allocate(SExpr::String(content));
                        proof {
                            assert(self.arena@ =~= a0.push(SExpr::String(content)));
                            assert(self.arena@.take(a0.len() as int) =~= a0);
                            if children_first(a0) {
                                lemma_children_first_push(a0, SExpr::String(content));
                            }
                        }
                        return Ok(id);
                    }
                    let ghost before = content@;
                    if !first {
                        push_char(&mut content, ' ');
                    }
                    content.append(t.literal.as_str());
                    proof {
                        if first {
                            assert(content@ == before + t.literal@);
                        } else {
                            assert(content@ =~= before.push(' ') + t.literal@);
                        }
                    }
                    self.consume();
                    first = false;
                },
                None => {
                    proof {
                        assert(self.arena@.take(a0.len() as int) =~= a0);
                    }
                    return Err(self.error("Unterminated string"));
                },
            }
        }
    }

    /// Adds the node `expr` whose children are the nodes `ids`, all earlier
    /// than it.
    fn add_node(&mut self, expr: SExpr) -> (id: NodeId)
        requires
            forall|c: int| #[trigger] refers_to(expr, c) ==> c < old(self).arena@.len(),
        ensures
            final(self).tokens@ == old(self).tokens@,
            final(self).pos == old(self).pos,
            final(self).arena@ == old(self).arena@.push(expr),
            extends(old(self).arena@, final(self).arena@),
            children_first(old(self).arena@) ==> children_first(final(self).arena@),
            id == old(self).arena@.len(),
    {
        let id = self.arena.allocate(expr);
        proof {
            assert(self.arena@.take(old(self).arena@.len() as int) =~= old(self).arena@);
            if children_first(old(self).arena@) {
                lemma_children_first_push(old(self).arena@, expr);
            }
        }
        id
    }

    /// A list whose opening parenthesis was read.
    fn parse_list(&mut self) -> (r: Result<NodeId, ParseError>)
        requires
            old(self).pos <= old(self).tokens@.len(),
        ensures
            final(self).tokens@ == old(self).tokens@,
            extends(old(self).arena@, final(self).arena@),
            children_first(old(self).arena@) ==> children_first(final(self).arena@),
            r is Ok ==> old(self).pos <= final(self).pos,
            final(self).pos <= final(self).tokens@.len(),
            match spec_list(old(self).tokens@, old(self).pos as int, Seq::empty()) {
                Ok((q, tree)) => r matches Ok(id) && final(self).pos == q && old(self).arena@.len()
                    <= id < final(self).arena@.len() && tree_of(final(self).arena@, id as int)
                    == tree,
                Err((m, l)) => r matches Err(e) && e.message@ == m && e.line == l,
            },
        decreases old(self).tokens@.len() - old(self).pos, 1int,
    {
        let ghost ts = self.tokens@;
        let ghost p0 = self.pos as int;
        let ghost a0 = self.arena@;
        let mut items: Vec<NodeId> = Vec::new();
        let ghost mut trees: Seq<Tree> = Seq::empty();
        proof {
            assert(self.arena@.take(a0.len() as int) =~= a0);
        }
        loop
            invariant
                self.tokens@ == ts,
                ts == old(self).tokens@,
                p0 == old(self).pos,
                a0 == old(self).arena@,
                p0 <= self.pos <= ts.len(),
                extends(a0, self.arena@),
                children_first(a0) ==> children_first(self.arena@),
                trees_at(self.arena@, items@, trees),
                spec_list(ts, p0, Seq::empty()) == spec_list(ts, self.pos as int, trees),
            decreases ts.len() - self.pos,
        {
            let kind = match self.peek() {
                Some(t) => Some(t.token_type),
                None => None,
            };
            if kind == Some(TokenType::RParen) {
                self.consume();
                let ghost nodes = self.arena@;
                proof {
                    assert forall|c: int| #[trigger] refers_to(SExpr::List(items), c) implies c
                        < self.arena@.len() by {
                        let k = choose|k: int| 0 <= k < items@.len() && items@[k] == c;
                        assert(items@[k] < self.arena@.len());
                    }
                }
                let id = self.add_node(SExpr::List(items));
                proof {
                    lemma_trees_at_extend(nodes, self.arena@, items@, trees);
                    lemma_trees_of_children(self.arena@, items@, id as int, trees);
                    lemma_extends_trans(a0, nodes, self.arena@);
                }
                return Ok(id);
            } else if kind == Some(TokenType::Dot) {
                if items.len() == 0 {
                    return Err(self.error("Unexpected dot"));
                }
                self.consume();
                let ghost nodes = self.arena@;
                let cdr_id = match self.parse_expr() {
                    Ok(id) => id,
                    Err(e) => {
                        proof {
                            lemma_extends_trans(a0, nodes, self.arena@);
                        }
                        return Err(e);
                    },
                };
                proof {
                    lemma_trees_at_extend(nodes, self.arena@, items@, trees);
                    lemma_extends_trans(a0, nodes, self.arena@);
                }
                let ghost x = tree_of(self.arena@, cdr_id as int);
                items.push(cdr_id);
                proof {
                    assert(trees_at(self.arena@, items@, trees.push(x)));
                }
                let next = match self.peek() {
                    Some(t) => Some(t.token_type),
                    None => None,
                };
                if next == Some(TokenType::RParen) {
                    self.consume();
                    let ghost nodes2 = self.arena@;
                    proof {
                    assert forall|c: int| #[trigger] refers_to(SExpr::List(items), c) implies c
                        < self.arena@.len() by {
                        let k = choose|k: int| 0 <= k < items@.len() && items@[k] == c;
                        assert(items@[k] < self.arena@.len());
                    }
                }
                let id = self.add_node(SExpr::List(items));
                    proof {
                        lemma_trees_at_extend(nodes2, self.arena@, items@, trees.push(x));
                        lemma_trees_of_children(self.arena@, items@, id as int, trees.push(x));
                        lemma_extends_trans(a0, nodes2, self.arena@);
                    }
                    return Ok(id);
                }
                return Err(self.error("Expected ) after dot notation"));
            } else {
                let ghost nodes = self.arena@;
                let node_id = match self.parse_expr() {
                    Ok(id) => id,
                    Err(e) => {
                        proof {
                            lemma_extends_trans(a0, nodes, self.arena@);
                        }
                        return Err(e);
                    },
                };
                proof {
                    lemma_trees_at_extend(nodes, self.arena@, items@, trees);
                    lemma_extends_trans(a0, nodes, self.arena@);
                }
                let ghost x = tree_of(self.arena@, node_id as int);
                items.push(node_id);
                proof {
                    assert(trees_at(self.arena@, items@, trees.push(x)));
                    trees = trees.push(x);
                }
            }
        }
    }

    /// A vector whose `#(` was read.
    fn parse_vector(&mut self) -> (r: Result<NodeId, ParseError>)
        requires
            old(self).pos <= old(self).tokens@.len(),
        ensures
            final(self).tokens@ == old(self).tokens@,
            extends(old(self).arena@, final(self).arena@),
            children_first(old(self).arena@) ==> children_first(final(self).arena@),
            r is Ok ==> old(self).pos <= final(self).pos,
            final(self).pos <= final(self).tokens@.len(),
            match spec_vector(old(self).tokens@, old(self).pos as int, Seq::empty()) {
                Ok((q, tree)) => r matches Ok(id) && final(self).pos == q && old(self).arena@.len()
                    <= id < final(self).arena@.len() && tree_of(final(self).arena@, id as int)
                    == tree,
                Err((m, l)) => r matches Err(e) && e.message@ == m && e.line == l,
            },
        decreases old(self).tokens@.len() - old(self).pos, 1int,
    {
        let ghost ts = self.tokens@;
        let ghost p0 = self.pos as int;
        let ghost a0 = self.arena@;
        let mut items: Vec<NodeId> = Vec::new();
        let ghost mut trees: Seq<Tree> = Seq::empty();
        proof {
            assert(self.arena@.take(a0.len() as int) =~= a0);
        }
        loop
            invariant
                self.tokens@ == ts,
                ts == old(self).tokens@,
                p0 == old(self).pos,
                a0 == old(self).arena@,
                p0 <= self.pos <= ts.len(),
                extends(a0, self.arena@),
                children_first(a0) ==> children_first(self.arena@),
                trees_at(self.arena@, items@, trees),
                spec_vector(ts, p0, Seq::empty()) == spec_vector(ts, self.pos as int, trees),
            decreases ts.len() - self.pos,
        {
            let kind = match self.peek() {
                Some(t) => Some(t.token_type),
                None => None,
            };
            if kind == Some(TokenType::RParen) {
                self.consume();
                let ghost nodes = self.arena@;
                proof {
                    assert forall|c: int| #[trigger] refers_to(SExpr::Vector(items), c) implies c
                        < self.arena@.len() by {
                        let k = choose|k: int| 0 <= k < items@.len() && items@[k] == c;
                        assert(items@[k] < self.arena@.len());
                    }
                }
                let id = self.add_node(SExpr::Vector(items));
                proof {
                    lemma_trees_at_extend(nodes, self.arena@, items@, trees);
                    lemma_trees_of_children(self.arena@, items@, id as int, trees);
                    lemma_extends_trans(a0, nodes, self.arena@);
                }
                return Ok(id);
            }
            let ghost nodes = self.arena@;
            let node_id = match self.parse_expr() {
                Ok(id) => id,
                Err(e) => {
                    proof {
                        lemma_extends_trans(a0, nodes, self.arena@);
                    }
                    return Err(e);
                },
            };
            proof {
                lemma_trees_at_extend(nodes, self.arena@, items@, trees);
                lemma_extends_trans(a0, nodes, self.arena@);
            }
            let ghost x = tree_of(self.arena@, node_id as int);
            items.push(node_id);
            proof {
                assert(trees_at(self.arena@, items@, trees.push(x)));
                trees = trees.push(x);
            }
        }
    }

    /// The node of a `#` constant.
    fn parse_sharp_const(&mut self, literal: &str) -> (r: Result<NodeId, ParseError>)
        ensures
            final(self).tokens@ == old(self).tokens@,
            final(self).pos == old(self).pos,
            extends(old(self).arena@, final(self).arena@),
            children_first(old(self).arena@) ==> children_first(final(self).arena@),
            match spec_sharp(literal@) {
                Ok(tree) => r matches Ok(id) && old(self).arena@.len() == id && id
                    < final(self).arena@.len() && tree_of(final(self).arena@, id as int) == tree,
                Err(m) => r matches Err(e) && e.message@ == m && e.line == line_at(
                    old(self).tokens@,
                    old(self).pos as int,
                ),
            },
    {
        proof {
            assert(self.arena@.take(self.arena@.len() as int) =~= self.arena@);
        }
        match sharp_value(literal) {
            Ok(expr) => {
                let id = self.add_node(expr);
                Ok(id)
            },
            Err(message) => Err(self.error(message.as_str())),
        }
    }

    /// The node of an atom.
    fn parse_atom(&mut self, literal: &str) -> (r: Result<NodeId, ParseError>)
        ensures
            final(self).tokens@ == old(self).tokens@,
            final(self).pos == old(self).pos,
            extends(old(self).arena@, final(self).arena@),
            children_first(old(self).arena@) ==> children_first(final(self).arena@),
            r matches Ok(id) && old(self).arena@.len() == id && id < final(self).arena@.len()
                && tree_of(final(self).arena@, id as int) == Tree::Atom(literal@),
    {
        let id = self.add_node(SExpr::Atom(literal.to_owned()));
        Ok(id)
    }

    /// Wraps the node `child` in a quotation of kind `kind`.
    fn quote_node(&mut self, kind: TokenType, child: NodeId) -> (id: NodeId)
        requires
            child < old(self).arena@.len(),
            kind == TokenType::Quote || kind == TokenType::BQuote || kind == TokenType::Comma
                || kind == TokenType::AtMark,
        ensures
            final(self).tokens@ == old(self).tokens@,
            final(self).pos == old(self).pos,
            extends(old(self).arena@, final(self).arena@),
            children_first(old(self).arena@) ==> children_first(final(self).arena@),
            id == old(self).arena@.len(),
            id < final(self).arena@.len(),
            ({
                let t = Box::new(tree_of(old(self).arena@, child as int));
                tree_of(final(self).arena@, id as int) == (if kind == TokenType::Quote {
                    Tree::Quote(t)
                } else if kind == TokenType::BQuote {
                    Tree::QuasiQuote(t)
                } else if kind == TokenType::Comma {
                    Tree::Unquote(t)
                } else {
                    Tree::UnquoteSplicing(t)
                })
            }),
    {
        let expr = match kind {
            TokenType::Quote => SExpr::Quote(child),
            TokenType::BQuote => SExpr::QuasiQuote(child),
            TokenType::Comma => SExpr::Unquote(child),
            _ => SExpr::UnquoteSplicing(child),
        };
        let ghost nodes = self.arena@;
        let id = self.add_node(expr);
        proof {
            lemma_tree_at_extend(nodes, self.arena@, child as int);
        }
        id
    }

    /// One expression.
    fn parse_expr(&mut self) -> (r: Result<NodeId, ParseError>)
        requires
            old(self).pos <= old(self).tokens@.len(),
        ensures
            final(self).tokens@ == old(self).tokens@,
            extends(old(self).arena@, final(self).arena@),
            children_first(old(self).arena@) ==> children_first(final(self).arena@),
            final(self).pos <= final(self).tokens@.len(),
            match spec_expr(old(self).tokens@, old(self).pos as int) {
                Ok((q, tree)) => r matches Ok(id) && final(self).pos == q && old(self).arena@.len()
                    <= id < final(self).arena@.len() && tree_of(final(self).arena@, id as int)
                    == tree,
                Err((m, l)) => r matches Err(e) && e.message@ == m && e.line == l,
            },
            r is Ok ==> old(self).pos < final(self).pos,
        decreases old(self).tokens@.len() - old(self).pos, 0int,
    {
        let ghost a0 = self.arena@;
        proof {
            assert(self.arena@.take(a0.len() as int) =~= a0);
        }
        match self.consume() {
            Some(token) => match token.token_type {
                TokenType::LParen => self.parse_list(),
                TokenType::DQuote => self.parse_string(),
                TokenType::Quote | TokenType::BQuote | TokenType::Comma | TokenType::AtMark => {
                    let child = match self.parse_expr() {
                        Ok(id) => id,
                        Err(e) => {
                            return Err(e);
                        },
                    };
                    let ghost nodes = self.arena@;
                    let id = self.quote_node(token.token_type, child);
                    proof {
                        lemma_extends_trans(a0, nodes, self.arena@);
                    }
                    Ok(id)
                },
                TokenType::Vec => self.parse_vector(),
                TokenType::Atom => self.parse_atom(token.literal.as_str()),
                TokenType::SharpConst => self.parse_sharp_const(token.literal.as_str()),
                TokenType::Eof => Err(self.error("Unexpected EOF")),
                _ => Err(self.error("Unexpected token")),
            },
            None => Err(self.error("Unexpected token")),
        }
    }

    /// All expressions up to the end of the tokens or an `Eof` token, with
    /// the arena that holds them.
    pub fn parse(self) -> (r: Result<(Arena, Vec<NodeId>), ParseError>)
        requires
            self.spec_pos() <= self.spec_tokens().len(),
        ensures
            match spec_parse_from(self.spec_tokens(), self.spec_pos(), Seq::empty()) {
                Ok(trees) => r matches Ok((arena, ids)) && trees_at(arena@, ids@, trees),
                Err((m, l)) => r matches Err(e) && e.message@ == m && e.line == l,
            },
            children_first(self.spec_nodes()) ==> (r matches Ok((arena, _)) ==> children_first(
                arena@,
            )),
    {
        let ghost ts = self.tokens@;
        let ghost p0 = self.pos as int;
        let mut this = self;
        let mut node_ids: Vec<NodeId> = Vec::new();
        let ghost mut trees: Seq<Tree> = Seq::empty();
        loop
            invariant
                this.tokens@ == ts,
                ts == self.spec_tokens(),
                p0 == self.spec_pos(),
                this.pos <= ts.len(),
                trees_at(this.arena@, node_ids@, trees),
                children_first(self.spec_nodes()) ==> children_first(this.arena@),
                spec_parse_from(ts, p0, Seq::empty()) == spec_parse_from(ts, this.pos as int, trees),
            decreases ts.len() - this.pos,
        {
            let kind = match this.peek() {
                Some(t) => Some(t.token_type),
                None => None,
            };
            if kind == None || kind == Some(TokenType::Eof) {
                return Ok((this.arena, node_ids));
            }
            let ghost nodes = this.arena@;
            let id = match this.parse_expr() {
                Ok(id) => id,
                Err(e) => {
                    return Err(e);
                },
            };
            proof {
                lemma_trees_at_extend(nodes, this.arena@, node_ids@, trees);
            }
            let ghost x = tree_of(this.arena@, id as int);
            node_ids.push(id);
            proof {
                assert(trees_at(this.arena@, node_ids@, trees.push(x)));
                trees = trees.push(x);
            }
        }
    }
}

/// Parses a Scheme text into its syntax trees.
pub fn parse(input: &str) -> (r: Result<(Arena, Vec<NodeId>), ParseError>)
    requires
        input.spec_bytes().len() <= isize::MAX,
    ensures
        exists|ts: Seq<Token>|
            crate::tokenizer::tokens_are(
                ts,
                input.spec_bytes(),
                crate::tokenizer::spec_tokens(input.spec_bytes(), 0),
            ) && match spec_parse_from(ts, 0, Seq::empty()) {
                Ok(trees) => r matches Ok((arena, ids)) && trees_at(arena@, ids@, trees),
                Err((m, l)) => r matches Err(e) && e.message@ == m && e.line == l,
            },
        r matches Ok((arena, _)) ==> children_first(arena@),
{
    let tokens = tokenize_string(input);
    let ghost ts = tokens@;
    let parser = Parser::new(tokens);
    parser.parse()
}

} // verus!
