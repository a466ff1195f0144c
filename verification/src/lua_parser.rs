//! Lua front end: the lexer (`tokenize`) and the recursive-descent parser
//! (`parse`) that turns the token sequence into a syntax tree.
//!
//! chunk ::= block
//! block ::= {stat} [retstat]
//! retstat ::= return [explist] [';']
pub mod expression;
pub mod grammar;
pub mod helpers;
pub mod location;
pub mod precedence;
pub mod statement;

pub use crate::lua_parser_types::{
    BinaryOp, Block, Expression, Field, FieldKey, FunctionBody, ReturnStatement, Statement, Token,
    UnaryOp,
};
pub use expression::{
    parse_args, parse_expression, parse_expression_list, parse_funcbody, parse_function_def,
    parse_identifier, parse_number_literal, parse_prefix_exp, parse_string_literal,
    parse_table_constructor,
};
pub use helpers::{process_escape_sequences, tokenize_single};
pub use precedence::{parse_binary_op, parse_expr, token_to_binop, Precedence};
pub use statement::{parse_block, parse_return_statement, parse_statement};

use vstd::prelude::*;
use crate::lua_parser_types::{
    SpecBlock, SpecExpression, SpecField, SpecFunctionBody, SpecStatement, SpecToken,
    block_view, expr_view, exprs_view, field_view, fields_view, funcbody_view, stmt_view,
    strings_view,
};
use grammar::{ErrorKind, PRes, at, spec_chunk};
use crate::text::{
    chars_of, chars_occur_at, char_is_whitespace, debug_str, occurs_at,
    str_debug, string_from_chars, unicode_white_space,
};
use helpers::{find_char, find_char_from, lemma_find_char, lemma_single_token_advances, spec_single_token};

verus! {

/// A view into a sequence of tokens: the input of the parsing functions,
/// and the rest of it that they hand back.
#[derive(Debug, Clone, Copy)]
pub struct TokenSlice<'a>(pub &'a [Token]);

impl<'a> From<&'a [Token]> for TokenSlice<'a> {
    fn from(slice: &'a [Token]) -> (r: Self) {
        TokenSlice(slice)
    }
}

impl<'a> vstd::std_specs::convert::FromSpecImpl<&'a [Token]> for TokenSlice<'a> {
    open spec fn obeys_from_spec() -> bool {
        true
    }

    open spec fn from_spec(slice: &'a [Token]) -> TokenSlice<'a> {
        TokenSlice(slice)
    }
}

/// A parse failure: the input from the token where it occurred, and why.
#[derive(Debug, Clone, Copy)]
pub struct ParseError<'a> {
    pub input: TokenSlice<'a>,
    pub code: ErrorKind,
}

/// The outcome of a parsing function: the rest of the input and what was
/// parsed, or the failure.
pub type IResult<'a, O> = Result<(TokenSlice<'a>, O), ParseError<'a>>;

/// The outcome of parsing from a position: the position after what was
/// parsed and the syntax, or the position and kind of the failure.
pub type PResult<T> = Result<(usize, T), (usize, ErrorKind)>;

/// Positions in an outcome of parsing from `p` in `n` tokens: success ends
/// at or after `p` (after it, when `strict`), and no position is past the
/// end.
pub open spec fn advances<T>(r: PResult<T>, p: int, n: int, strict: bool) -> bool {
    match r {
        Ok((q, _)) => p <= q <= n && (strict ==> p < q),
        Err((q, _)) => q <= n,
    }
}

/// The outcome `r` is the grammar's outcome `s` for an expression.
pub open spec fn expr_result(r: PResult<Expression>, s: PRes<SpecExpression>) -> bool {
    match s {
        Ok((q, e)) => r matches Ok((rq, x)) && rq == q && expr_view(x) == e,
        Err((q, k)) => r matches Err((rq, rk)) && rq == q && rk == k,
    }
}

/// The outcome `r` is the grammar's outcome `s` for a list of expressions.
pub open spec fn exprs_result(r: PResult<Vec<Expression>>, s: PRes<Seq<SpecExpression>>) -> bool {
    match s {
        Ok((q, e)) => r matches Ok((rq, x)) && rq == q && exprs_view(x@) == e,
        Err((q, k)) => r matches Err((rq, rk)) && rq == q && rk == k,
    }
}

/// The outcome `r` is the grammar's outcome `s` for a table field.
pub open spec fn field_result(r: PResult<Field>, s: PRes<SpecField>) -> bool {
    match s {
        Ok((q, e)) => r matches Ok((rq, x)) && rq == q && field_view(x) == e,
        Err((q, k)) => r matches Err((rq, rk)) && rq == q && rk == k,
    }
}

/// The outcome `r` is the grammar's outcome `s` for a list of fields.
pub open spec fn fields_result(r: PResult<Vec<Field>>, s: PRes<Seq<SpecField>>) -> bool {
    match s {
        Ok((q, e)) => r matches Ok((rq, x)) && rq == q && fields_view(x@) == e,
        Err((q, k)) => r matches Err((rq, rk)) && rq == q && rk == k,
    }
}

/// The outcome `r` is the grammar's outcome `s` for a function body.
pub open spec fn funcbody_result(r: PResult<FunctionBody>, s: PRes<SpecFunctionBody>) -> bool {
    match s {
        Ok((q, e)) => r matches Ok((rq, x)) && rq == q && funcbody_view(x) == e,
        Err((q, k)) => r matches Err((rq, rk)) && rq == q && rk == k,
    }
}

/// The outcome `r` is the grammar's outcome `s` for a list of names.
pub open spec fn names_result(r: PResult<Vec<String>>, s: PRes<Seq<Seq<char>>>) -> bool {
    match s {
        Ok((q, e)) => r matches Ok((rq, x)) && rq == q && strings_view(x@) == e,
        Err((q, k)) => r matches Err((rq, rk)) && rq == q && rk == k,
    }
}

/// The outcome `r` is the grammar's outcome `s` for a parameter list.
pub open spec fn parlist_result(r: PResult<(Vec<String>, bool)>, s: PRes<(Seq<Seq<char>>, bool)>) -> bool {
    match s {
        Ok((q, e)) => r matches Ok((rq, x)) && rq == q && strings_view(x.0@) == e.0 && x.1 == e.1,
        Err((q, k)) => r matches Err((rq, rk)) && rq == q && rk == k,
    }
}

/// The outcome `r` is the grammar's outcome `s` for a name.
pub open spec fn name_result(r: PResult<String>, s: PRes<Seq<char>>) -> bool {
    match s {
        Ok((q, e)) => r matches Ok((rq, x)) && rq == q && x@ == e,
        Err((q, k)) => r matches Err((rq, rk)) && rq == q && rk == k,
    }
}

/// The outcome `r` is the grammar's outcome `s` for a statement.
pub open spec fn stmt_result(r: PResult<Statement>, s: PRes<SpecStatement>) -> bool {
    match s {
        Ok((q, e)) => r matches Ok((rq, x)) && rq == q && stmt_view(x) == e,
        Err((q, k)) => r matches Err((rq, rk)) && rq == q && rk == k,
    }
}

/// The outcome `r` is the grammar's outcome `s` for a block.
pub open spec fn block_result(r: PResult<Block>, s: PRes<SpecBlock>) -> bool {
    match s {
        Ok((q, e)) => r matches Ok((rq, x)) && rq == q && block_view(x) == e,
        Err((q, k)) => r matches Err((rq, rk)) && rq == q && rk == k,
    }
}

/// The outcome `r` is the grammar's outcome `s` for an `elseif` part.
pub open spec fn elseif_result(r: PResult<(Expression, Block)>, s: PRes<(SpecExpression, SpecBlock)>) -> bool {
    match s {
        Ok((q, e)) => r matches Ok((rq, x)) && rq == q && expr_view(x.0) == e.0 && block_view(x.1) == e.1,
        Err((q, k)) => r matches Err((rq, rk)) && rq == q && rk == k,
    }
}

/// Whether two tokens are the same token (kind and text).
pub fn token_eq(a: &Token, b: &Token) -> (r: bool)
    ensures
        r == (a@ == b@),
{
    match a {
        Token::Identifier(x) => match b {
            Token::Identifier(y) => *x == *y,
            _ => false,
        },
        Token::Number(x) => match b {
            Token::Number(y) => *x == *y,
            _ => false,
        },
        Token::StringLit(x) => match b {
            Token::StringLit(y) => *x == *y,
            _ => false,
        },
        Token::And => matches!(b, Token::And),
        Token::Break => matches!(b, Token::Break),
        Token::Do => matches!(b, Token::Do),
        Token::Else => matches!(b, Token::Else),
        Token::Elseif => matches!(b, Token::Elseif),
        Token::End => matches!(b, Token::End),
        Token::False => matches!(b, Token::False),
        Token::For => matches!(b, Token::For),
        Token::Function => matches!(b, Token::Function),
        Token::Goto => matches!(b, Token::Goto),
        Token::If => matches!(b, Token::If),
        Token::In => matches!(b, Token::In),
        Token::Local => matches!(b, Token::Local),
        Token::Nil => matches!(b, Token::Nil),
        Token::Not => matches!(b, Token::Not),
        Token::Or => matches!(b, Token::Or),
        Token::Repeat => matches!(b, Token::Repeat),
        Token::Return => matches!(b, Token::Return),
        Token::Then => matches!(b, Token::Then),
        Token::True => matches!(b, Token::True),
        Token::Until => matches!(b, Token::Until),
        Token::While => matches!(b, Token::While),
        Token::Semicolon => matches!(b, Token::Semicolon),
        Token::Equals => matches!(b, Token::Equals),
        Token::Comma => matches!(b, Token::Comma),
        Token::Dot => matches!(b, Token::Dot),
        Token::Colon => matches!(b, Token::Colon),
        Token::DoubleColon => matches!(b, Token::DoubleColon),
        Token::LParen => matches!(b, Token::LParen),
        Token::RParen => matches!(b, Token::RParen),
        Token::LBracket => matches!(b, Token::LBracket),
        Token::RBracket => matches!(b, Token::RBracket),
        Token::LBrace => matches!(b, Token::LBrace),
        Token::RBrace => matches!(b, Token::RBrace),
        Token::Plus => matches!(b, Token::Plus),
        Token::Minus => matches!(b, Token::Minus),
        Token::Star => matches!(b, Token::Star),
        Token::Slash => matches!(b, Token::Slash),
        Token::DoubleSlash => matches!(b, Token::DoubleSlash),
        Token::Caret => matches!(b, Token::Caret),
        Token::Percent => matches!(b, Token::Percent),
        Token::Ampersand => matches!(b, Token::Ampersand),
        Token::Tilde => matches!(b, Token::Tilde),
        Token::Pipe => matches!(b, Token::Pipe),
        Token::RShift => matches!(b, Token::RShift),
        Token::LShift => matches!(b, Token::LShift),
        Token::Concat => matches!(b, Token::Concat),
        Token::Lt => matches!(b, Token::Lt),
        Token::Lte => matches!(b, Token::Lte),
        Token::Gt => matches!(b, Token::Gt),
        Token::Gte => matches!(b, Token::Gte),
        Token::Eq => matches!(b, Token::Eq),
        Token::Neq => matches!(b, Token::Neq),
        Token::Hash => matches!(b, Token::Hash),
        Token::Varargs => matches!(b, Token::Varargs),
    }
}

/// `out` is the grammar's outcome `s` on the tokens of `t`: a position
/// becomes the rest of the input from it, and the syntax built is `s`'s
/// under the view `v`.
pub open spec fn slice_result<'a, T, A>(
    t: TokenSlice<'a>,
    out: IResult<'a, T>,
    s: PRes<A>,
    v: spec_fn(T) -> A,
) -> bool {
    match s {
        Ok((q, a)) => out matches Ok((rest, x)) && rest.0@ == t.0@.skip(q) && v(x) == a,
        Err((q, k)) => out matches Err(e) && e.input.0@ == t.0@.skip(q) && e.code == k,
    }
}

/// Turns positions in the tokens of `t` into the rest of `t` from them.
pub fn from_position<'a, T>(t: TokenSlice<'a>, r: PResult<T>) -> (out: IResult<'a, T>)
    requires
        advances(r, 0, t.0@.len() as int, false),
    ensures
        match r {
            Ok((q, x)) => out matches Ok((rest, y)) && rest.0@ == t.0@.skip(q as int) && y == x,
            Err((q, k)) => out matches Err(e) && e.input.0@ == t.0@.skip(q as int) && e.code == k,
        },
{
    match r {
        Ok((q, x)) => {
            let (_, rest) = t.0.split_at(q);
            Ok((TokenSlice(rest), x))
        },
        Err((q, k)) => {
            let (_, rest) = t.0.split_at(q);
            Err(ParseError { input: TokenSlice(rest), code: k })
        },
    }
}

/// Whether the token at `p` is `k` (false past the end).
pub fn at_token(t: &[Token], p: usize, k: Token) -> (b: bool)
    ensures
        b == at(tokens_view(t@), p as int, k@),
        b ==> p < t.len(),
{
    p < t.len() && token_eq(&t[p], &k)
}

/// The failure of expecting a token at `p`: a wrong token, or the end.
pub fn tag_error_at(t: &[Token], p: usize) -> (r: (usize, ErrorKind))
    ensures
        r.0 == p,
        (r.0 as int, r.1) == grammar::tag_error(tokens_view(t@), p as int),
{
    if p < t.len() {
        (p, ErrorKind::Tag)
    } else {
        (p, ErrorKind::Eof)
    }
}

/// Match the token `expected` at the start of `input`.
pub fn token_tag<'a>(expected: &Token, input: TokenSlice<'a>) -> (r: IResult<'a, &'a Token>)
    ensures
        if input.0@.len() == 0 {
            r matches Err(e) && e.input == input && e.code == ErrorKind::Eof
        } else if input.0@[0]@ == expected@ {
            r matches Ok((rest, tok)) && rest.0@ == input.0@.skip(1) && *tok == input.0@[0]
        } else {
            r matches Err(e) && e.input == input && e.code == ErrorKind::Tag
        },
{
    if input.0.len() == 0 {
        return Err(ParseError { input: input, code: ErrorKind::Eof });
    }
    let tok = &input.0[0];
    if token_eq(tok, expected) {
        let (_, rest) = input.0.split_at(1);
        Ok((TokenSlice(rest), tok))
    } else {
        Err(ParseError { input: input, code: ErrorKind::Tag })
    }
}

/// Parse tokenized Lua code into a syntax tree: a block that takes the
/// whole input (see `spec_chunk`).
pub fn parse<'a>(t: TokenSlice<'a>) -> (r: IResult<'a, Block>)
    ensures
        slice_result(t, r, spec_chunk(tokens_view(t.0@)), |x: Block| x@),
{
    match statement::parse_block_at(t.0, 0) {
        Ok((q, block)) => {
            if q == t.0.len() {
                from_position(t, Ok((q, block)))
            } else {
                from_position(t, Err((q, ErrorKind::Eof)))
            }
        },
        Err(e) => from_position(t, Err(e)),
    }
}

/// What lexing a character sequence from a position comes to.
pub enum SpecLex {
    /// The tokens, in order.
    Tokens(Seq<SpecToken>),
    /// No token starts at this position.
    Error(int),
    /// A whitespace character outside ASCII is reached between tokens; the
    /// lexer skips whitespace one byte at a time and cannot step over it.
    WideSpace,
}

/// The position of the next token at or after `i`, skipping whitespace and
/// `--` comments (to the end of the line); `None` when a whitespace
/// character outside ASCII is reached first.
pub open spec fn skip_trivia(s: Seq<char>, i: int) -> Option<int>
    decreases s.len() - i,
{
    if i < 0 || i >= s.len() {
        Some(i)
    } else if occurs_at(s, i, "--"@) {
        match find_char(s, i, '\n') {
            Some(k) => {
                proof {
                    lemma_find_char(s, i, '\n');
                }
                skip_trivia(s, k + 1)
            },
            None => Some(s.len() as int),
        }
    } else if unicode_white_space(s[i]) {
        if (s[i] as u32) < 0x80 {
            skip_trivia(s, i + 1)
        } else {
            None
        }
    } else {
        Some(i)
    }
}

/// The tokens of `s` from position `i` on.
pub open spec fn spec_lex(s: Seq<char>, i: int) -> SpecLex
    decreases s.len() - i,
{
    match skip_trivia(s, i) {
        None => SpecLex::WideSpace,
        Some(j) => {
            if j < i || j >= s.len() {
                SpecLex::Tokens(Seq::empty())
            } else {
                match spec_single_token(s, j) {
                    None => SpecLex::Error(j),
                    Some((e, t)) => {
                        proof {
                            lemma_single_token_advances(s, j);
                        }
                        match spec_lex(s, e) {
                            SpecLex::Tokens(ts) => SpecLex::Tokens(seq![t] + ts),
                            other => other,
                        }
                    },
                }
            }
        },
    }
}

/// The message of a failed tokenization, `rest` being the input from the
/// position where no token starts.
pub open spec fn tokenize_error_message(rest: Seq<char>) -> Seq<char> {
    "Tokenization error: Error(Error { input: "@ + str_debug(rest) + ", code: Satisfy })"@
}

/// The views of a sequence of tokens.
pub open spec fn tokens_view(v: Seq<Token>) -> Seq<SpecToken> {
    v.map_values(|t: Token| t@)
}

/// The views of a sequence of tokens are as many as the tokens.
pub broadcast proof fn lemma_tokens_view_len(v: Seq<Token>)
    ensures
        #[trigger] tokens_view(v).len() == v.len(),
{
}

/// The view of the token at `i` is the `i`-th view.
pub broadcast proof fn lemma_tokens_view_index(v: Seq<Token>, i: int)
    requires
        0 <= i < v.len(),
    ensures
        #[trigger] tokens_view(v)[i] == v[i]@,
{
}

pub proof fn lemma_skip_trivia(s: Seq<char>, i: int)
    requires
        0 <= i <= s.len(),
    ensures
        skip_trivia(s, i) matches Some(j) ==> i <= j <= s.len(),
    decreases s.len() - i,
{
    if i < s.len() {
        if occurs_at(s, i, "--"@) {
            lemma_find_char(s, i, '\n');
            if let Some(k) = find_char(s, i, '\n') {
                lemma_skip_trivia(s, k + 1);
            }
        } else if unicode_white_space(s[i]) && (s[i] as u32) < 0x80 {
            lemma_skip_trivia(s, i + 1);
        }
    }
}

/// The position of the next token at or after `i` (see `skip_trivia`).
fn skip_trivia_at(v: &[char], i: usize) -> (r: Option<usize>)
    requires
        i <= v@.len(),
    ensures
        match skip_trivia(v@, i as int) {
            Some(j) => r == Some(j as usize) && i <= j <= v@.len(),
            None => r is None,
        },
{
    proof {
        lemma_skip_trivia(v@, i as int);
    }
    let mut k = i;
    while k < v.len()
        invariant
            i <= k <= v@.len(),
            skip_trivia(v@, i as int) == skip_trivia(v@, k as int),
        decreases v@.len() - k,
    {
        if chars_occur_at(v, k, "--") {
            proof {
                lemma_find_char(v@, k as int, '\n');
            }
            match find_char_from(v, k, '\n') {
                Some(n) => {
                    k = n + 1;
                },
                None => {
                    return Some(v.len());
                },
            }
        } else if char_is_whitespace(v[k]) {
            if (v[k] as u32) < 0x80 {
                k = k + 1;
            } else {
                return None;
            }
        } else {
            return Some(k);
        }
    }
    Some(k)
}

/// What lexing a character sequence comes to (see `SpecLex`).
pub enum LexOutcome {
    Tokens(Vec<Token>),
    Error(usize),
    WideSpace,
}

/// Prepends the tokens `prefix` to the outcome of lexing the rest.
pub open spec fn prepend_tokens(prefix: Seq<SpecToken>, outcome: SpecLex) -> SpecLex {
    match outcome {
        SpecLex::Tokens(ts) => SpecLex::Tokens(prefix + ts),
        other => other,
    }
}

/// Lex the characters `v`.
pub fn lex_chars(v: &[char]) -> (r: LexOutcome)
    ensures
        match spec_lex(v@, 0) {
            SpecLex::Tokens(ts) => r matches LexOutcome::Tokens(toks) && tokens_view(toks@) == ts,
            SpecLex::Error(j) => r == LexOutcome::Error(j as usize) && 0 <= j < v@.len(),
            SpecLex::WideSpace => r is WideSpace,
        },
{
    let mut tokens: Vec<Token> = Vec::new();
    let mut pos: usize = 0;
    loop
        invariant
            pos <= v@.len(),
            spec_lex(v@, 0) == prepend_tokens(tokens_view(tokens@), spec_lex(v@, pos as int)),
        decreases v@.len() - pos,
    {
        proof {
            lemma_skip_trivia(v@, pos as int);
        }
        match skip_trivia_at(v, pos) {
            None => {
                return LexOutcome::WideSpace;
            },
            Some(j) => {
                if j >= v.len() {
                    proof {
                        assert(tokens_view(tokens@) + Seq::<SpecToken>::empty() =~= tokens_view(
                            tokens@,
                        ));
                    }
                    return LexOutcome::Tokens(tokens);
                }
                proof {
                    lemma_single_token_advances(v@, j as int);
                }
                match tokenize_single(v, j) {
                    None => {
                        return LexOutcome::Error(j);
                    },
                    Some((e, t)) => {
                        let ghost old_view = tokens_view(tokens@);
                        let ghost tv = t@;
                        tokens.push(t);
                        proof {
                            assert(tokens_view(tokens@) =~= old_view.push(tv));
                            match spec_lex(v@, e as int) {
                                SpecLex::Tokens(ts) => {
                                    assert(old_view + (seq![tv] + ts) =~= old_view.push(tv) + ts);
                                },
                                _ => {},
                            }
                        }
                        pos = e;
                    },
                }
            },
        }
    }
}

/// Tokenize Lua source code into a vector of tokens.
///
/// Whitespace and `--` comments between tokens are skipped; the error names
/// the rest of the input from the first position where no token starts.
pub fn tokenize(input: &str) -> (r: Result<Vec<Token>, String>)
    requires
        !(spec_lex(input@, 0) is WideSpace),
    ensures
        match spec_lex(input@, 0) {
            SpecLex::Tokens(ts) => r matches Ok(toks) && tokens_view(toks@) == ts,
            SpecLex::Error(j) => r matches Err(msg) && msg@ == tokenize_error_message(
                input@.skip(j),
            ),
            SpecLex::WideSpace => false,
        },
{
    let v = chars_of(input);
    match lex_chars(&v) {
        LexOutcome::Tokens(toks) => Ok(toks),
        LexOutcome::Error(j) => {
            let rest = string_from_chars(&v, j, v.len());
            proof {
                assert(rest@ =~= input@.skip(j as int));
            }
            let mut msg = String::new();
            msg.append("Tokenization error: Error(Error { input: ");
            let shown = debug_str(rest.as_str());
            msg.append(shown.as_str());
            msg.append(", code: Satisfy })");
            Err(msg)
        },
        LexOutcome::WideSpace => Err(String::new()),
    }
}

/// `tokenize`, or `None` where a whitespace character outside ASCII stands
/// between tokens, which `tokenize` cannot step over.
pub fn try_tokenize(input: &str) -> (r: Option<Result<Vec<Token>, String>>)
    ensures
        match spec_lex(input@, 0) {
            SpecLex::Tokens(ts) => r matches Some(Ok(toks)) && tokens_view(toks@) == ts,
            SpecLex::Error(j) => r matches Some(Err(msg)) && msg@ == tokenize_error_message(
                input@.skip(j),
            ),
            SpecLex::WideSpace => r is None,
        },
{
    let v = chars_of(input);
    match lex_chars(&v) {
        LexOutcome::WideSpace => None,
        _ => Some(tokenize(input)),
    }
}

} // verus!
