//! Expressions: literals, prefix expressions with their suffixes, table
//! constructors, function definitions and the binary operators by
//! precedence.
//!
//! exp ::= nil | false | true | Numeral | LiteralString | '...' | functiondef |
//!         prefixexp | tableconstructor | exp binop exp | unop exp
use vstd::prelude::*;
use crate::lua_parser_types::{
    BinaryOp, Expression, Field, FieldKey, FunctionBody, Token, UnaryOp, exprs_view,
    lemma_exprs_view_push, lemma_fields_view_push, lemma_strings_view_push, strings_view,
};
use crate::lua_parser::grammar::{
    ErrorKind, level_op_at, level_rank, simple_literal, spec_args, spec_expression,
    spec_expression_list, spec_expression_list_tail, spec_field, spec_fieldlist,
    spec_fieldlist_tail, spec_funcbody, spec_function_def, spec_identifier, spec_level,
    spec_level_tail, spec_namelist, namelist_tail, spec_number_literal, spec_parlist,
    spec_power, spec_prefix_exp, spec_string_literal, spec_suffixes, spec_table_constructor,
    spec_unary, tok_at, unary_op_at,
};
use crate::lua_parser::statement::parse_block_at;
use crate::lua_parser::{
    IResult, PResult, TokenSlice, advances, at_token, expr_result, exprs_result, field_result,
    fields_result, from_position, funcbody_result, names_result, parlist_result, slice_result,
    tag_error_at, tokens_view,
};

verus! {

broadcast use {crate::lua_parser::lemma_tokens_view_len, crate::lua_parser::lemma_tokens_view_index};

/// The literal `nil`, `true`, `false`, `...`, numeral or string at `p`.
fn read_literal(t: &[Token], p: usize) -> (r: Option<Expression>)
    ensures
        match simple_literal(tokens_view(t@), p as int) {
            Some(e) => r matches Some(x) && x@ == e,
            None => r is None,
        },
{
    if p >= t.len() {
        return None;
    }
    match &t[p] {
        Token::Nil => Some(Expression::Nil),
        Token::True => Some(Expression::Boolean(true)),
        Token::False => Some(Expression::Boolean(false)),
        Token::Varargs => Some(Expression::Varargs),
        Token::Number(n) => Some(Expression::Number(n.clone())),
        Token::StringLit(s) => Some(Expression::String(s.clone())),
        _ => None,
    }
}

/// The unary operator at `p`.
fn read_unary_op(t: &[Token], p: usize) -> (r: Option<UnaryOp>)
    ensures
        r == unary_op_at(tokens_view(t@), p as int),
        r is Some ==> p < t.len(),
{
    if p >= t.len() {
        return None;
    }
    match &t[p] {
        Token::Minus => Some(UnaryOp::Minus),
        Token::Not => Some(UnaryOp::Not),
        Token::Hash => Some(UnaryOp::Length),
        Token::Tilde => Some(UnaryOp::BitNot),
        _ => None,
    }
}

/// The binary operator of precedence `level` at `p`.
fn read_level_op(t: &[Token], p: usize, level: usize) -> (r: Option<BinaryOp>)
    ensures
        r == level_op_at(tokens_view(t@), p as int, level as int),
        r is Some ==> p < t.len(),
{
    if p >= t.len() {
        return None;
    }
    match (level, &t[p]) {
        (0, Token::Or) => Some(BinaryOp::Or),
        (1, Token::And) => Some(BinaryOp::And),
        (2, Token::Eq) => Some(BinaryOp::Eq),
        (2, Token::Neq) => Some(BinaryOp::Neq),
        (3, Token::Lt) => Some(BinaryOp::Lt),
        (3, Token::Lte) => Some(BinaryOp::Lte),
        (3, Token::Gt) => Some(BinaryOp::Gt),
        (3, Token::Gte) => Some(BinaryOp::Gte),
        (4, Token::Ampersand) => Some(BinaryOp::BitAnd),
        (4, Token::Pipe) => Some(BinaryOp::BitOr),
        (4, Token::Tilde) => Some(BinaryOp::BitXor),
        (4, Token::LShift) => Some(BinaryOp::LeftShift),
        (4, Token::RShift) => Some(BinaryOp::RightShift),
        (5, Token::Concat) => Some(BinaryOp::Concat),
        (6, Token::Plus) => Some(BinaryOp::Add),
        (6, Token::Minus) => Some(BinaryOp::Subtract),
        (7, Token::Star) => Some(BinaryOp::Multiply),
        (7, Token::Slash) => Some(BinaryOp::Divide),
        (7, Token::DoubleSlash) => Some(BinaryOp::FloorDivide),
        (7, Token::Percent) => Some(BinaryOp::Modulo),
        _ => None,
    }
}

/// A numeral token at `p` as an expression.
pub fn parse_number_literal_at(t: &[Token], p: usize) -> (r: PResult<Expression>)
    ensures
        expr_result(r, spec_number_literal(tokens_view(t@), p as int)),
        p <= t@.len() ==> advances(r, p as int, t@.len() as int, true),
{
    if p < t.len() {
        if let Token::Number(n) = &t[p] {
            return Ok((p + 1, Expression::Number(n.clone())));
        }
    }
    Err((p, ErrorKind::Tag))
}

/// A string token at `p` as an expression.
pub fn parse_string_literal_at(t: &[Token], p: usize) -> (r: PResult<Expression>)
    ensures
        expr_result(r, spec_string_literal(tokens_view(t@), p as int)),
        p <= t@.len() ==> advances(r, p as int, t@.len() as int, true),
{
    if p < t.len() {
        if let Token::StringLit(s) = &t[p] {
            return Ok((p + 1, Expression::String(s.clone())));
        }
    }
    Err((p, ErrorKind::Tag))
}

/// A name token at `p` as an expression.
pub fn parse_identifier_at(t: &[Token], p: usize) -> (r: PResult<Expression>)
    ensures
        expr_result(r, spec_identifier(tokens_view(t@), p as int)),
        p <= t@.len() ==> advances(r, p as int, t@.len() as int, true),
{
    if p < t.len() {
        if let Token::Identifier(s) = &t[p] {
            return Ok((p + 1, Expression::Identifier(s.clone())));
        }
    }
    Err((p, ErrorKind::Tag))
}

/// `tableconstructor ::= '{' [fieldlist] '}'` at `p`.
pub fn parse_table_constructor_at(t: &[Token], p: usize) -> (r: PResult<Expression>)
    requires
        p <= t@.len(),
    ensures
        expr_result(r, spec_table_constructor(tokens_view(t@), p as int)),
        advances(r, p as int, t@.len() as int, true),
    decreases t@.len() - p, 33int,
{
    if !at_token(t, p, Token::LBrace) {
        return Err(tag_error_at(t, p));
    }
    let (q, fields) = match parse_fieldlist_at(t, p + 1) {
        Ok((q, fields)) => (q, fields),
        Err(_) => (p + 1, Vec::new()),
    };
    proof {
        assert(crate::lua_parser_types::fields_view(Seq::<Field>::empty()) =~= Seq::empty());
    }
    if at_token(t, q, Token::RBrace) {
        let e = Expression::TableConstructor { fields: fields };
        Ok((q + 1, e))
    } else {
        Err(tag_error_at(t, q))
    }
}

/// `fieldlist ::= field {fieldsep field} [fieldsep]` at `p`.
fn parse_fieldlist_at(t: &[Token], p: usize) -> (r: PResult<Vec<Field>>)
    requires
        p <= t@.len(),
    ensures
        fields_result(r, spec_fieldlist(tokens_view(t@), p as int)),
        advances(r, p as int, t@.len() as int, true),
    decreases t@.len() - p, 64int,
{
    let ghost tv = tokens_view(t@);
    match parse_field_at(t, p) {
        Err(e) => Err(e),
        Ok((q, f)) => {
            let ghost fv = f@;
            let mut acc: Vec<Field> = Vec::new();
            acc.push(f);
            proof {
                lemma_fields_view_push(Seq::empty(), f);
                assert(Seq::<Field>::empty().push(f) =~= acc@);
            }
            let mut pos = q;
            loop
                invariant
                    p < q <= pos <= t@.len(),
                    tv == tokens_view(t@),
                    spec_fieldlist(tv, p as int) == spec_fieldlist_tail(tv, pos as int, crate::lua_parser_types::fields_view(acc@)),
                decreases t@.len() - pos,
            {
                let sep = pos < t.len() && (at_token(t, pos, Token::Comma) || at_token(t, pos, Token::Semicolon));
                if !sep {
                    return Ok((pos, acc));
                }
                if at_token(t, pos + 1, Token::RBrace) {
                    pos = pos + 1;
                } else {
                    match parse_field_at(t, pos + 1) {
                        Ok((q2, f2)) => {
                            proof {
                                lemma_fields_view_push(acc@, f2);
                            }
                            acc.push(f2);
                            pos = q2;
                        },
                        Err(_) => {
                            return Ok((pos, acc));
                        },
                    }
                }
            }
        },
    }
}

/// `field ::= '[' exp ']' '=' exp | Name '=' exp | exp` at `p`.
fn parse_field_at(t: &[Token], p: usize) -> (r: PResult<Field>)
    requires
        p <= t@.len(),
    ensures
        field_result(r, spec_field(tokens_view(t@), p as int)),
        advances(r, p as int, t@.len() as int, true),
    decreases t@.len() - p, 62int,
{
    if at_token(t, p, Token::LBracket) {
        match parse_expression_at(t, p + 1) {
            Err(e) => Err(e),
            Ok((q, key)) => {
                if !at_token(t, q, Token::RBracket) {
                    Err(tag_error_at(t, q))
                } else if !at_token(t, q + 1, Token::Equals) {
                    Err(tag_error_at(t, q + 1))
                } else {
                    match parse_expression_at(t, q + 2) {
                        Err(e) => Err(e),
                        Ok((r, value)) => Ok(
                            (r, Field { key: FieldKey::Bracket(Box::new(key)), value: value }),
                        ),
                    }
                }
            },
        }
    } else {
        if p < t.len() && at_token(t, p + 1, Token::Equals) {
            if let Token::Identifier(name) = &t[p] {
                let name = name.clone();
                return match parse_expression_at(t, p + 2) {
                    Err(e) => Err(e),
                    Ok((r, value)) => Ok(
                        (r, Field { key: FieldKey::Identifier(name), value: value }),
                    ),
                };
            }
        }
        match parse_expression_at(t, p) {
            Err(e) => Err(e),
            Ok((r, value)) => Ok((r, Field { key: FieldKey::Index(0), value: value })),
        }
    }
}

/// `functiondef ::= function funcbody` at `p`.
pub fn parse_function_def_at(t: &[Token], p: usize) -> (r: PResult<Expression>)
    requires
        p <= t@.len(),
    ensures
        expr_result(r, spec_function_def(tokens_view(t@), p as int)),
        advances(r, p as int, t@.len() as int, true),
    decreases t@.len() - p, 33int,
{
    if !at_token(t, p, Token::Function) {
        return Err(tag_error_at(t, p));
    }
    match parse_funcbody_at(t, p + 1) {
        Err(e) => Err(e),
        Ok((q, body)) => Ok((q, Expression::FunctionDef(Box::new(body)))),
    }
}

/// `funcbody ::= '(' [parlist] ')' block end` at `p`.
pub fn parse_funcbody_at(t: &[Token], p: usize) -> (r: PResult<FunctionBody>)
    requires
        p <= t@.len(),
    ensures
        funcbody_result(r, spec_funcbody(tokens_view(t@), p as int)),
        advances(r, p as int, t@.len() as int, true),
    decreases t@.len() - p, 32int,
{
    if !at_token(t, p, Token::LParen) {
        return Err(tag_error_at(t, p));
    }
    let (q, params, varargs) = match parse_parlist_at(t, p + 1) {
        Ok((q, (params, varargs))) => (q, params, varargs),
        Err(_) => (p + 1, Vec::new(), false),
    };
    proof {
        assert(strings_view(Seq::<String>::empty()) =~= Seq::empty());
    }
    if !at_token(t, q, Token::RParen) {
        return Err(tag_error_at(t, q));
    }
    match parse_block_at(t, q + 1) {
        Err(e) => Err(e),
        Ok((r, block)) => {
            if at_token(t, r, Token::End) {
                Ok((r + 1, FunctionBody { params: params, varargs: varargs, block: Box::new(block) }))
            } else {
                Err(tag_error_at(t, r))
            }
        },
    }
}

/// `parlist ::= '...' | namelist [',' '...']` at `p`.
fn parse_parlist_at(t: &[Token], p: usize) -> (r: PResult<(Vec<String>, bool)>)
    requires
        p <= t@.len(),
    ensures
        parlist_result(r, spec_parlist(tokens_view(t@), p as int)),
        advances(r, p as int, t@.len() as int, true),
{
    if at_token(t, p, Token::Varargs) {
        proof {
            assert(strings_view(Seq::<String>::empty()) =~= Seq::empty());
        }
        return Ok((p + 1, (Vec::new(), true)));
    }
    match parse_namelist_at(t, p) {
        Err(e) => Err(e),
        Ok((q, names)) => {
            if at_token(t, q, Token::Comma) && at_token(t, q + 1, Token::Varargs) {
                Ok((q + 2, (names, true)))
            } else {
                Ok((q, (names, false)))
            }
        },
    }
}

/// `namelist ::= Name {',' Name}` at `p`.
pub fn parse_namelist_at(t: &[Token], p: usize) -> (r: PResult<Vec<String>>)
    requires
        p <= t@.len(),
    ensures
        names_result(r, spec_namelist(tokens_view(t@), p as int)),
        advances(r, p as int, t@.len() as int, true),
{
    let ghost tv = tokens_view(t@);
    if p >= t.len() {
        return Err((p, ErrorKind::Tag));
    }
    let first = match &t[p] {
        Token::Identifier(name) => name.clone(),
        _ => {
            return Err((p, ErrorKind::Tag));
        },
    };
    let ghost first_view = first@;
    let mut names: Vec<String> = Vec::new();
    names.push(first);
    proof {
        lemma_strings_view_push(Seq::empty(), first);
        assert(Seq::<String>::empty().push(first) =~= names@);
        assert(strings_view(Seq::<String>::empty()) =~= Seq::empty());
        assert(seq![first_view] =~= Seq::<Seq<char>>::empty().push(first_view));
    }
    let mut pos = p + 1;
    loop
        invariant
            p < pos <= t@.len(),
            tv == tokens_view(t@),
            spec_namelist(tv, p as int) == Ok::<(int, Seq<Seq<char>>), (int, ErrorKind)>(
                namelist_tail(tv, pos as int, strings_view(names@)),
            ),
        decreases t@.len() - pos,
    {
        if !at_token(t, pos, Token::Comma) || pos + 1 >= t.len() {
            return Ok((pos, names));
        }
        match &t[pos + 1] {
            Token::Identifier(name) => {
                let name = name.clone();
                proof {
                    lemma_strings_view_push(names@, name);
                }
                names.push(name);
                pos = pos + 2;
            },
            _ => {
                return Ok((pos, names));
            },
        }
    }
}

/// `args ::= '(' [explist] ')' | tableconstructor | LiteralString` at `p`.
pub fn parse_args_at(t: &[Token], p: usize) -> (r: PResult<Vec<Expression>>)
    requires
        p <= t@.len(),
    ensures
        exprs_result(r, spec_args(tokens_view(t@), p as int)),
        advances(r, p as int, t@.len() as int, true),
    decreases t@.len() - p, 34int,
{
    if at_token(t, p, Token::LParen) {
        let (q, list) = match parse_expression_list_at(t, p + 1) {
            Ok((q, list)) => (q, list),
            Err(_) => (p + 1, Vec::new()),
        };
        proof {
            assert(exprs_view(Seq::<Expression>::empty()) =~= Seq::empty());
        }
        if at_token(t, q, Token::RParen) {
            Ok((q + 1, list))
        } else {
            Err(tag_error_at(t, q))
        }
    } else {
        match parse_table_constructor_at(t, p) {
            Ok((q, e)) => {
                let mut v: Vec<Expression> = Vec::new();
                proof {
                    lemma_exprs_view_push(v@, e);
                    assert(exprs_view(Seq::<Expression>::empty()) =~= Seq::empty());
                }
                v.push(e);
                Ok((q, v))
            },
            Err(_) => match parse_string_literal_at(t, p) {
                Ok((q, e)) => {
                    let mut v: Vec<Expression> = Vec::new();
                    proof {
                        lemma_exprs_view_push(v@, e);
                        assert(exprs_view(Seq::<Expression>::empty()) =~= Seq::empty());
                    }
                    v.push(e);
                    Ok((q, v))
                },
                Err(_) => Err((p, ErrorKind::Alt)),
            },
        }
    }
}

/// A prefix expression at `p`: a primary expression (literal, `( exp )`,
/// function definition, table constructor or name) and its suffixes.
#[verifier::rlimit(40)]
pub fn parse_prefix_exp_at(t: &[Token], p: usize) -> (r: PResult<Expression>)
    requires
        p <= t@.len(),
    ensures
        expr_result(r, spec_prefix_exp(tokens_view(t@), p as int)),
        advances(r, p as int, t@.len() as int, true),
    decreases t@.len() - p, 36int,
{
    let primary: PResult<Expression> = match read_literal(t, p) {
        Some(e) => Ok((p + 1, e)),
        None => {
            if p >= t.len() {
                Err((p, ErrorKind::Alt))
            } else {
                match &t[p] {
                    Token::LParen => match parse_expression_at(t, p + 1) {
                        Err(e) => Err(e),
                        Ok((q, e)) => {
                            if at_token(t, q, Token::RParen) {
                                Ok((q + 1, e))
                            } else {
                                Err(tag_error_at(t, q))
                            }
                        },
                    },
                    Token::Function => parse_function_def_at(t, p),
                    Token::LBrace => parse_table_constructor_at(t, p),
                    Token::Identifier(_) => parse_identifier_at(t, p),
                    _ => Err((p, ErrorKind::Alt)),
                }
            }
        },
    };
    match primary {
        Err(e) => Err(e),
        Ok((q, e)) => parse_suffixes_at(t, q, e),
    }
}

/// The suffixes `[exp]`, `.Name`, `:Name args` and `args` applied to `e`
/// from `p` on.
fn parse_suffixes_at(t: &[Token], p: usize, e: Expression) -> (r: PResult<Expression>)
    requires
        p <= t@.len(),
    ensures
        expr_result(r, spec_suffixes(tokens_view(t@), p as int, e@)),
        advances(r, p as int, t@.len() as int, false),
    decreases t@.len() - p, 35int,
{
    let ghost tv = tokens_view(t@);
    let mut pos = p;
    let mut cur = e;
    loop
        invariant
            p <= pos <= t@.len(),
            tv == tokens_view(t@),
            spec_suffixes(tv, p as int, e@) == spec_suffixes(tv, pos as int, cur@),
        decreases t@.len() - pos,
    {
        if pos >= t.len() {
            return Ok((pos, cur));
        }
        match &t[pos] {
            Token::LBracket => match parse_expression_at(t, pos + 1) {
                Err(err) => {
                    return Err(err);
                },
                Ok((q, index)) => {
                    if at_token(t, q, Token::RBracket) {
                        cur = Expression::TableIndexing { object: Box::new(cur), index: Box::new(index) };
                        pos = q + 1;
                    } else {
                        return Err(tag_error_at(t, q));
                    }
                },
            },
            Token::Dot => {
                if pos + 1 >= t.len() {
                    return Err((pos + 1, ErrorKind::Tag));
                }
                match &t[pos + 1] {
                    Token::Identifier(field) => {
                        cur = Expression::FieldAccess { object: Box::new(cur), field: field.clone() };
                        pos = pos + 2;
                    },
                    _ => {
                        return Err((pos + 1, ErrorKind::Tag));
                    },
                }
            },
            Token::Colon => {
                if pos + 1 >= t.len() {
                    return Err((pos + 1, ErrorKind::Tag));
                }
                match &t[pos + 1] {
                    Token::Identifier(method) => {
                        let method = method.clone();
                        match parse_args_at(t, pos + 2) {
                            Err(err) => {
                                return Err(err);
                            },
                            Ok((q, args)) => {
                                cur = Expression::MethodCall { object: Box::new(cur), method: method, args: args };
                                pos = q;
                            },
                        }
                    },
                    _ => {
                        return Err((pos + 1, ErrorKind::Tag));
                    },
                }
            },
            Token::LParen | Token::LBrace | Token::StringLit(_) => match parse_args_at(t, pos) {
                Err(err) => {
                    return Err(err);
                },
                Ok((q, args)) => {
                    cur = Expression::FunctionCall { function: Box::new(cur), args: args };
                    pos = q;
                },
            },
            _ => {
                return Ok((pos, cur));
            },
        }
    }
}

/// A unary expression at `p`: operators applied to a power expression;
/// when the operand after an operator fails, the whole is read as a prefix
/// expression.
pub(crate) fn parse_unary_at(t: &[Token], p: usize) -> (r: PResult<Expression>)
    requires
        p <= t@.len(),
    ensures
        expr_result(r, spec_unary(tokens_view(t@), p as int)),
        advances(r, p as int, t@.len() as int, true),
    decreases t@.len() - p, 38int,
{
    match read_unary_op(t, p) {
        Some(op) => match parse_unary_at(t, p + 1) {
            Ok((q, operand)) => Ok((q, Expression::UnaryOp { op: op, operand: Box::new(operand) })),
            Err(_) => parse_prefix_exp_at(t, p),
        },
        None => parse_prefix_exp_at(t, p),
    }
}

/// `unary ['^' power]` at `p`: `^` is right associative.
fn parse_power_at(t: &[Token], p: usize) -> (r: PResult<Expression>)
    requires
        p <= t@.len(),
    ensures
        expr_result(r, spec_power(tokens_view(t@), p as int)),
        advances(r, p as int, t@.len() as int, true),
    decreases t@.len() - p, 40int,
{
    match parse_unary_at(t, p) {
        Err(e) => Err(e),
        Ok((q, left)) => {
            if at_token(t, q, Token::Caret) {
                match parse_power_at(t, q + 1) {
                    Err(e) => Err(e),
                    Ok((r, right)) => Ok(
                        (
                            r,
                            Expression::BinaryOp {
                                left: Box::new(left),
                                op: BinaryOp::Power,
                                right: Box::new(right),
                            },
                        ),
                    ),
                }
            } else {
                Ok((q, left))
            }
        },
    }
}

/// A binary expression of precedence `level` at `p`: operands of the next
/// level joined, left to right, by the operators of this level (level 8
/// is `^`).
fn parse_level_at(t: &[Token], p: usize, level: usize) -> (r: PResult<Expression>)
    requires
        p <= t@.len(),
        level <= 8,
    ensures
        expr_result(r, spec_level(tokens_view(t@), p as int, level as int)),
        advances(r, p as int, t@.len() as int, true),
    decreases t@.len() - p, level_rank(level as int) + 1,
{
    if level == 8 {
        return parse_power_at(t, p);
    }
    match parse_level_at(t, p, level + 1) {
        Err(e) => Err(e),
        Ok((q, left)) => parse_level_tail_at(t, q, level, left),
    }
}

/// The repetition of `op operand` after `left` at precedence `level`.
fn parse_level_tail_at(t: &[Token], p: usize, level: usize, left: Expression) -> (r: PResult<Expression>)
    requires
        p <= t@.len(),
        level < 8,
    ensures
        expr_result(r, spec_level_tail(tokens_view(t@), p as int, level as int, left@)),
        advances(r, p as int, t@.len() as int, false),
    decreases t@.len() - p, level_rank(level as int),
{
    let ghost tv = tokens_view(t@);
    let mut pos = p;
    let mut cur = left;
    loop
        invariant
            p <= pos <= t@.len(),
            level < 8,
            tv == tokens_view(t@),
            spec_level_tail(tv, p as int, level as int, left@) == spec_level_tail(
                tv,
                pos as int,
                level as int,
                cur@,
            ),
        decreases t@.len() - pos,
    {
        if pos >= t.len() {
            return Ok((pos, cur));
        }
        match read_level_op(t, pos, level) {
            None => {
                return Ok((pos, cur));
            },
            Some(op) => match parse_level_at(t, pos + 1, level + 1) {
                Err(_) => {
                    return Ok((pos, cur));
                },
                Ok((q, right)) => {
                    cur = Expression::BinaryOp { left: Box::new(cur), op: op, right: Box::new(right) };
                    pos = q;
                },
            },
        }
    }
}

/// `exp` at `p`.
pub fn parse_expression_at(t: &[Token], p: usize) -> (r: PResult<Expression>)
    requires
        p <= t@.len(),
    ensures
        expr_result(r, spec_expression(tokens_view(t@), p as int)),
        advances(r, p as int, t@.len() as int, true),
    decreases t@.len() - p, 58int,
{
    parse_level_at(t, p, 0)
}

/// `explist ::= exp {',' exp}` at `p`.
pub fn parse_expression_list_at(t: &[Token], p: usize) -> (r: PResult<Vec<Expression>>)
    requires
        p <= t@.len(),
    ensures
        exprs_result(r, spec_expression_list(tokens_view(t@), p as int)),
        advances(r, p as int, t@.len() as int, true),
    decreases t@.len() - p, 60int,
{
    let ghost tv = tokens_view(t@);
    match parse_expression_at(t, p) {
        Err(e) => Err(e),
        Ok((q, first)) => {
            let ghost fv = first@;
            let mut list: Vec<Expression> = Vec::new();
            proof {
                lemma_exprs_view_push(list@, first);
                assert(exprs_view(Seq::<Expression>::empty()) =~= Seq::empty());
                assert(seq![fv] =~= Seq::<crate::lua_parser_types::SpecExpression>::empty().push(fv));
            }
            list.push(first);
            proof {
                assert(Seq::<Expression>::empty().push(first) =~= list@);
            }
            let mut pos = q;
            loop
                invariant
                    p < q <= pos <= t@.len(),
                    tv == tokens_view(t@),
                    spec_expression_list(tv, p as int) == Ok::<(int, Seq<crate::lua_parser_types::SpecExpression>), (int, ErrorKind)>(
                        spec_expression_list_tail(tv, pos as int, exprs_view(list@)),
                    ),
                decreases t@.len() - pos,
            {
                if !at_token(t, pos, Token::Comma) {
                    return Ok((pos, list));
                }
                match parse_expression_at(t, pos + 1) {
                    Ok((q2, e)) => {
                        proof {
                            lemma_exprs_view_push(list@, e);
                        }
                        list.push(e);
                        pos = q2;
                    },
                    Err(_) => {
                        return Ok((pos, list));
                    },
                }
            }
        },
    }
}

/// Parse a numeral token.
pub fn parse_number_literal<'a>(input: TokenSlice<'a>) -> (r: IResult<'a, Expression>)
    ensures
        slice_result(input, r, spec_number_literal(tokens_view(input.0@), 0), |x: Expression| x@),
{
    from_position(input, parse_number_literal_at(input.0, 0))
}

/// Parse a string token.
pub fn parse_string_literal<'a>(input: TokenSlice<'a>) -> (r: IResult<'a, Expression>)
    ensures
        slice_result(input, r, spec_string_literal(tokens_view(input.0@), 0), |x: Expression| x@),
{
    from_position(input, parse_string_literal_at(input.0, 0))
}

/// Parse a name as an expression.
pub fn parse_identifier<'a>(t: TokenSlice<'a>) -> (r: IResult<'a, Expression>)
    ensures
        slice_result(t, r, spec_identifier(tokens_view(t.0@), 0), |x: Expression| x@),
{
    from_position(t, parse_identifier_at(t.0, 0))
}

/// Parse a table constructor `{ ... }`.
pub fn parse_table_constructor<'a>(t: TokenSlice<'a>) -> (r: IResult<'a, Expression>)
    ensures
        slice_result(t, r, spec_table_constructor(tokens_view(t.0@), 0), |x: Expression| x@),
{
    from_position(t, parse_table_constructor_at(t.0, 0))
}

/// Parse an anonymous function `function funcbody`.
pub fn parse_function_def<'a>(t: TokenSlice<'a>) -> (r: IResult<'a, Expression>)
    ensures
        slice_result(t, r, spec_function_def(tokens_view(t.0@), 0), |x: Expression| x@),
{
    from_position(t, parse_function_def_at(t.0, 0))
}

/// Parse a function body `( [parlist] ) block end`.
pub fn parse_funcbody<'a>(t: TokenSlice<'a>) -> (r: IResult<'a, FunctionBody>)
    ensures
        slice_result(t, r, spec_funcbody(tokens_view(t.0@), 0), |x: FunctionBody| x@),
{
    from_position(t, parse_funcbody_at(t.0, 0))
}

/// Parse call arguments.
pub fn parse_args<'a>(t: TokenSlice<'a>) -> (r: IResult<'a, Vec<Expression>>)
    ensures
        slice_result(t, r, spec_args(tokens_view(t.0@), 0), |x: Vec<Expression>| exprs_view(x@)),
{
    from_position(t, parse_args_at(t.0, 0))
}

/// Parse a prefix expression with its suffixes.
pub fn parse_prefix_exp<'a>(t: TokenSlice<'a>) -> (r: IResult<'a, Expression>)
    ensures
        slice_result(t, r, spec_prefix_exp(tokens_view(t.0@), 0), |x: Expression| x@),
{
    from_position(t, parse_prefix_exp_at(t.0, 0))
}

/// Parse an expression.
pub fn parse_expression<'a>(t: TokenSlice<'a>) -> (r: IResult<'a, Expression>)
    ensures
        slice_result(t, r, spec_expression(tokens_view(t.0@), 0), |x: Expression| x@),
{
    from_position(t, parse_expression_at(t.0, 0))
}

/// Parse a comma-separated list of expressions.
pub fn parse_expression_list<'a>(t: TokenSlice<'a>) -> (r: IResult<'a, Vec<Expression>>)
    ensures
        slice_result(t, r, spec_expression_list(tokens_view(t.0@), 0), |x: Vec<Expression>| exprs_view(x@)),
{
    from_position(t, parse_expression_list_at(t.0, 0))
}

} // verus!
