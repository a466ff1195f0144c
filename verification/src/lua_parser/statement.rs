//! Statements and blocks: assignments and calls, control flow and
//! declarations.
//!
//! stat ::= ';' | varlist '=' explist | functioncall | label | break |
//!          goto Name | do block end | while exp do block end |
//!          repeat block until exp |
//!          if exp then block {elseif exp then block} [else block] end |
//!          for Name '=' exp ',' exp [',' exp] do block end |
//!          for namelist in explist do block end |
//!          function funcname funcbody | local function Name funcbody |
//!          local namelist ['=' explist]
use vstd::prelude::*;
use crate::lua_parser_types::{
    Block, Expression, ReturnStatement, SpecExpression, SpecStatement, Statement, Token,
    elseifs_view, exprs_view, lemma_elseifs_view_push, lemma_exprs_view_concat, lemma_exprs_view_push,
    lemma_stmts_view_push, stmts_view, strings_view,
};
use crate::lua_parser::grammar::{
    ErrorKind, at, ends_block, qualified_name, spec_assignment_list, spec_assignment_or_call, spec_block, spec_block_from,
    spec_do, spec_else, spec_elseif, spec_elseif_tail, spec_for, spec_for_generic, spec_for_numeric, spec_function_decl, spec_goto,
    spec_if, spec_label, spec_local, spec_prefix_exp, spec_repeat, spec_return_statement,
    spec_statement, spec_variables_tail, spec_while,
};
use crate::lua_parser::expression::{
    parse_expression_at, parse_expression_list_at, parse_funcbody_at, parse_namelist_at,
    parse_prefix_exp_at,
};
use crate::lua_parser::{
    IResult, PResult, TokenSlice, advances, at_token, block_result, elseif_result,
    exprs_result, from_position, name_result, slice_result, stmt_result, tag_error_at,
    tokens_view,
};
use crate::text::push_char;

verus! {

broadcast use {crate::lua_parser::lemma_tokens_view_len, crate::lua_parser::lemma_tokens_view_index};

/// `'::' Name '::'` at `p`.
fn parse_label_at(t: &[Token], p: usize) -> (r: PResult<Statement>)
    requires
        p <= t@.len(),
    ensures
        stmt_result(r, spec_label(tokens_view(t@), p as int)),
        advances(r, p as int, t@.len() as int, true),
{
    if !at_token(t, p, Token::DoubleColon) {
        return Err(tag_error_at(t, p));
    }
    if p + 1 < t.len() {
        if let Token::Identifier(name) = &t[p + 1] {
            if at_token(t, p + 2, Token::DoubleColon) {
                return Ok((p + 3, Statement::Label(name.clone())));
            } else {
                return Err(tag_error_at(t, p + 2));
            }
        }
    }
    Err((p + 1, ErrorKind::Tag))
}

/// `goto Name` at `p`.
fn parse_goto_at(t: &[Token], p: usize) -> (r: PResult<Statement>)
    requires
        p <= t@.len(),
    ensures
        stmt_result(r, spec_goto(tokens_view(t@), p as int)),
        advances(r, p as int, t@.len() as int, true),
{
    if !at_token(t, p, Token::Goto) {
        return Err(tag_error_at(t, p));
    }
    if p + 1 < t.len() {
        if let Token::Identifier(name) = &t[p + 1] {
            return Ok((p + 2, Statement::Goto(name.clone())));
        }
    }
    Err((p + 1, ErrorKind::Tag))
}

/// `do block end` at `p`.
fn parse_do_at(t: &[Token], p: usize) -> (r: PResult<Statement>)
    requires
        p <= t@.len(),
    ensures
        stmt_result(r, spec_do(tokens_view(t@), p as int)),
        advances(r, p as int, t@.len() as int, true),
    decreases t@.len() - p, 95int,
{
    if !at_token(t, p, Token::Do) {
        return Err(tag_error_at(t, p));
    }
    match parse_block_at(t, p + 1) {
        Err(e) => Err(e),
        Ok((q, b)) => {
            if at_token(t, q, Token::End) {
                Ok((q + 1, Statement::Do(Box::new(b))))
            } else {
                Err(tag_error_at(t, q))
            }
        },
    }
}

/// `while exp do block end` at `p`.
fn parse_while_at(t: &[Token], p: usize) -> (r: PResult<Statement>)
    requires
        p <= t@.len(),
    ensures
        stmt_result(r, spec_while(tokens_view(t@), p as int)),
        advances(r, p as int, t@.len() as int, true),
    decreases t@.len() - p, 95int,
{
    if !at_token(t, p, Token::While) {
        return Err(tag_error_at(t, p));
    }
    match parse_expression_at(t, p + 1) {
        Err(e) => Err(e),
        Ok((q, condition)) => {
            if !at_token(t, q, Token::Do) {
                return Err(tag_error_at(t, q));
            }
            match parse_block_at(t, q + 1) {
                Err(e) => Err(e),
                Ok((r, body)) => {
                    if at_token(t, r, Token::End) {
                        Ok((r + 1, Statement::While { condition: condition, body: Box::new(body) }))
                    } else {
                        Err(tag_error_at(t, r))
                    }
                },
            }
        },
    }
}

/// `repeat block until exp` at `p`.
fn parse_repeat_at(t: &[Token], p: usize) -> (r: PResult<Statement>)
    requires
        p <= t@.len(),
    ensures
        stmt_result(r, spec_repeat(tokens_view(t@), p as int)),
        advances(r, p as int, t@.len() as int, true),
    decreases t@.len() - p, 95int,
{
    if !at_token(t, p, Token::Repeat) {
        return Err(tag_error_at(t, p));
    }
    match parse_block_at(t, p + 1) {
        Err(e) => Err(e),
        Ok((q, body)) => {
            if !at_token(t, q, Token::Until) {
                return Err(tag_error_at(t, q));
            }
            match parse_expression_at(t, q + 1) {
                Err(e) => Err(e),
                Ok((r, condition)) => Ok(
                    (r, Statement::Repeat { body: Box::new(body), condition: condition }),
                ),
            }
        },
    }
}

/// `elseif exp then block` at `p`.
fn parse_elseif_at(t: &[Token], p: usize) -> (r: PResult<(Expression, Block)>)
    requires
        p <= t@.len(),
    ensures
        elseif_result(r, spec_elseif(tokens_view(t@), p as int)),
        advances(r, p as int, t@.len() as int, true),
    decreases t@.len() - p, 94int,
{
    if !at_token(t, p, Token::Elseif) {
        return Err(tag_error_at(t, p));
    }
    match parse_expression_at(t, p + 1) {
        Err(e) => Err(e),
        Ok((q, condition)) => {
            if !at_token(t, q, Token::Then) {
                return Err(tag_error_at(t, q));
            }
            match parse_block_at(t, q + 1) {
                Err(e) => Err(e),
                Ok((r, b)) => Ok((r, (condition, b))),
            }
        },
    }
}

/// `else block` at `p`.
fn parse_else_at(t: &[Token], p: usize) -> (r: PResult<Block>)
    requires
        p <= t@.len(),
    ensures
        block_result(r, spec_else(tokens_view(t@), p as int)),
        advances(r, p as int, t@.len() as int, true),
    decreases t@.len() - p, 94int,
{
    if at_token(t, p, Token::Else) {
        parse_block_at(t, p + 1)
    } else {
        Err(tag_error_at(t, p))
    }
}

/// `if exp then block {elseif exp then block} [else block] end` at `p`.
fn parse_if_at(t: &[Token], p: usize) -> (r: PResult<Statement>)
    requires
        p <= t@.len(),
    ensures
        stmt_result(r, spec_if(tokens_view(t@), p as int)),
        advances(r, p as int, t@.len() as int, true),
    decreases t@.len() - p, 95int,
{
    let ghost tv = tokens_view(t@);
    if !at_token(t, p, Token::If) {
        return Err(tag_error_at(t, p));
    }
    let (q, condition) = match parse_expression_at(t, p + 1) {
        Err(e) => {
            return Err(e);
        },
        Ok(x) => x,
    };
    if !at_token(t, q, Token::Then) {
        return Err(tag_error_at(t, q));
    }
    let (r, then_block) = match parse_block_at(t, q + 1) {
        Err(e) => {
            return Err(e);
        },
        Ok(x) => x,
    };
    let mut parts: Vec<(Expression, Block)> = Vec::new();
    let mut pos = r;
    proof {
        assert(elseifs_view(parts@) =~= Seq::empty());
    }
    loop
        invariant
            p < r <= pos <= t@.len(),
            tv == tokens_view(t@),
            spec_elseif_tail(tv, r as int, Seq::empty()) == spec_elseif_tail(
                tv,
                pos as int,
                elseifs_view(parts@),
            ),
        ensures
            r <= pos <= t@.len(),
            spec_elseif_tail(tv, r as int, Seq::empty()) == (pos as int, elseifs_view(parts@)),
        decreases t@.len() - pos,
    {
        match parse_elseif_at(t, pos) {
            Ok((q2, part)) => {
                proof {
                    lemma_elseifs_view_push(parts@, part);
                }
                parts.push(part);
                pos = q2;
            },
            Err(_) => {
                break;
            },
        }
    }
    let (r3, else_block) = match parse_else_at(t, pos) {
        Ok((r3, b)) => (r3, Some(Box::new(b))),
        Err(_) => (pos, None),
    };
    if at_token(t, r3, Token::End) {
        Ok(
            (
                r3 + 1,
                Statement::If {
                    condition: condition,
                    then_block: Box::new(then_block),
                    elseif_parts: parts,
                    else_block: else_block,
                },
            ),
        )
    } else {
        Err(tag_error_at(t, r3))
    }
}

/// The two forms of `for` at `p`: numeric and generic.
fn parse_for_at(t: &[Token], p: usize) -> (r: PResult<Statement>)
    requires
        p <= t@.len(),
    ensures
        stmt_result(r, spec_for(tokens_view(t@), p as int)),
        advances(r, p as int, t@.len() as int, true),
    decreases t@.len() - p, 95int,
{
    if !at_token(t, p, Token::For) {
        return Err(tag_error_at(t, p));
    }
    if p + 1 >= t.len() {
        return Err((p, ErrorKind::Alt));
    }
    let var = match &t[p + 1] {
        Token::Identifier(var) => var.clone(),
        _ => {
            return Err((p, ErrorKind::Alt));
        },
    };
    if at_token(t, p + 2, Token::Equals) {
        parse_for_numeric_at(t, p, var)
    } else {
        parse_for_generic_at(t, p, var)
    }
}

/// The numeric `for` at `p`, after `for var =`.
fn parse_for_numeric_at(t: &[Token], p: usize, var: String) -> (r: PResult<Statement>)
    requires
        p + 2 < t.len(),
    ensures
        stmt_result(r, spec_for_numeric(tokens_view(t@), p as int, var@)),
        advances(r, p as int, t@.len() as int, true),
    decreases t@.len() - p, 94int,
{
    let (q, start) = match parse_expression_at(t, p + 3) {
        Err(e) => {
            return Err(e);
        },
        Ok(x) => x,
    };
    if !at_token(t, q, Token::Comma) {
        return Err(tag_error_at(t, q));
    }
    let (r, end) = match parse_expression_at(t, q + 1) {
        Err(e) => {
            return Err(e);
        },
        Ok(x) => x,
    };
    let (r2, step) = if at_token(t, r, Token::Comma) {
        match parse_expression_at(t, r + 1) {
            Ok((r2, s)) => (r2, Some(s)),
            Err(_) => (r, None),
        }
    } else {
        (r, None)
    };
    if !at_token(t, r2, Token::Do) {
        return Err(tag_error_at(t, r2));
    }
    match parse_block_at(t, r2 + 1) {
        Err(e) => Err(e),
        Ok((r3, body)) => {
            if at_token(t, r3, Token::End) {
                Ok(
                    (
                        r3 + 1,
                        Statement::ForNumeric {
                            var: var,
                            start: start,
                            end: end,
                            step: step,
                            body: Box::new(body),
                        },
                    ),
                )
            } else {
                Err(tag_error_at(t, r3))
            }
        },
    }
}

/// The generic `for` at `p`, after `for var`.
fn parse_for_generic_at(t: &[Token], p: usize, var: String) -> (r: PResult<Statement>)
    requires
        p + 2 <= t.len(),
    ensures
        stmt_result(r, spec_for_generic(tokens_view(t@), p as int, var@)),
        advances(r, p as int, t@.len() as int, true),
    decreases t@.len() - p, 94int,
{
    let (q, mut more) = if at_token(t, p + 2, Token::Comma) {
        match parse_namelist_at(t, p + 3) {
            Ok((q, names)) => (q, names),
            Err(_) => (p + 2, Vec::new()),
        }
    } else {
        (p + 2, Vec::new())
    };
    proof {
        assert(strings_view(Seq::<String>::empty()) =~= Seq::empty());
    }
    if !at_token(t, q, Token::In) {
        return Err((p, ErrorKind::Alt));
    }
    let (r, iterables) = match parse_expression_list_at(t, q + 1) {
        Err(e) => {
            return Err(e);
        },
        Ok(x) => x,
    };
    if !at_token(t, r, Token::Do) {
        return Err(tag_error_at(t, r));
    }
    match parse_block_at(t, r + 1) {
        Err(e) => Err(e),
        Ok((r2, body)) => {
            if at_token(t, r2, Token::End) {
                let ghost var_view = var@;
                let ghost more_view = more@;
                let mut vars: Vec<String> = Vec::new();
                vars.push(var);
                vars.append(&mut more);
                proof {
                    assert(strings_view(vars@) =~= seq![var_view] + strings_view(more_view));
                }
                Ok(
                    (
                        r2 + 1,
                        Statement::ForGeneric {
                            vars: vars,
                            iterables: iterables,
                            body: Box::new(body),
                        },
                    ),
                )
            } else {
                Err(tag_error_at(t, r2))
            }
        },
    }
}

/// The rest of a function name after `name` at `p`: `.Name` parts, then
/// possibly one `:Name` part, each appended with its separator.
fn qualified_name_at(t: &[Token], p: usize, name: String) -> (r: PResult<String>)
    requires
        p <= t@.len(),
    ensures
        name_result(r, qualified_name(tokens_view(t@), p as int, name@)),
        advances(r, p as int, t@.len() as int, false),
{
    let ghost tv = tokens_view(t@);
    let mut cur = name;
    let mut pos = p;
    loop
        invariant
            p <= pos <= t@.len(),
            tv == tokens_view(t@),
            qualified_name(tv, p as int, name@) == qualified_name(tv, pos as int, cur@),
        decreases t@.len() - pos,
    {
        if pos >= t.len() {
            return Ok((pos, cur));
        }
        let dot = at_token(t, pos, Token::Dot);
        if !dot && !at_token(t, pos, Token::Colon) {
            return Ok((pos, cur));
        }
        if pos + 1 >= t.len() {
            return Err((pos + 1, ErrorKind::Tag));
        }
        let member = match &t[pos + 1] {
            Token::Identifier(member) => member,
            _ => {
                return Err((pos + 1, ErrorKind::Tag));
            },
        };
        let ghost before = cur@;
        if dot {
            push_char(&mut cur, '.');
        } else {
            push_char(&mut cur, ':');
        }
        cur.append(member.as_str());
        proof {
            if dot {
                assert(cur@ =~= before + seq!['.'] + member@);
            } else {
                assert(cur@ =~= before + seq![':'] + member@);
            }
        }
        if !dot {
            return Ok((pos + 2, cur));
        }
        pos = pos + 2;
    }
}

/// `function funcname funcbody` at `p`, the name kept as one dotted name.
fn parse_function_decl_at(t: &[Token], p: usize) -> (r: PResult<Statement>)
    requires
        p <= t@.len(),
    ensures
        stmt_result(r, spec_function_decl(tokens_view(t@), p as int)),
        advances(r, p as int, t@.len() as int, true),
    decreases t@.len() - p, 95int,
{
    if !at_token(t, p, Token::Function) {
        return Err(tag_error_at(t, p));
    }
    if p + 1 >= t.len() {
        return Err((p + 1, ErrorKind::Tag));
    }
    let name = match &t[p + 1] {
        Token::Identifier(name) => name.clone(),
        _ => {
            return Err((p + 1, ErrorKind::Tag));
        },
    };
    match qualified_name_at(t, p + 2, name) {
        Err(e) => Err(e),
        Ok((q, full_name)) => match parse_funcbody_at(t, q) {
            Err(e) => Err(e),
            Ok((r, body)) => Ok(
                (r, Statement::FunctionDecl { name: full_name, body: Box::new(body) }),
            ),
        },
    }
}

/// `local function Name funcbody | local namelist ['=' explist]` at `p`.
fn parse_local_at(t: &[Token], p: usize) -> (r: PResult<Statement>)
    requires
        p <= t@.len(),
    ensures
        stmt_result(r, spec_local(tokens_view(t@), p as int)),
        advances(r, p as int, t@.len() as int, true),
    decreases t@.len() - p, 95int,
{
    if !at_token(t, p, Token::Local) {
        return Err(tag_error_at(t, p));
    }
    if at_token(t, p + 1, Token::Function) && p + 2 < t.len() {
        if let Token::Identifier(name) = &t[p + 2] {
            let name = name.clone();
            return match parse_funcbody_at(t, p + 3) {
                Err(e) => Err(e),
                Ok((q, body)) => Ok(
                    (q, Statement::LocalFunction { name: name, body: Box::new(body) }),
                ),
            };
        }
    }
    match parse_namelist_at(t, p + 1) {
        Err(e) => Err(e),
        Ok((q, names)) => {
            let (r, values) = if at_token(t, q, Token::Equals) {
                match parse_expression_list_at(t, q + 1) {
                    Ok((r, values)) => (r, Some(values)),
                    Err(_) => (q, None),
                }
            } else {
                (q, None)
            };
            Ok((r, Statement::LocalVars { names: names, values: values }))
        },
    }
}

/// The repetition of `prefixexp ','` from `p` on, after the variables
/// `acc`.
fn parse_variables_tail_at(t: &[Token], p: usize, acc: Vec<Expression>) -> (r: (usize, Vec<Expression>))
    requires
        0 < p <= t@.len(),
    ensures
        r.0 as int == spec_variables_tail(tokens_view(t@), p as int, exprs_view(acc@)).0,
        exprs_view(r.1@) == spec_variables_tail(tokens_view(t@), p as int, exprs_view(acc@)).1,
        p <= r.0 <= t@.len(),
    decreases t@.len() - p, 96int,
{
    let ghost tv = tokens_view(t@);
    let mut pos = p;
    let mut cur = acc;
    loop
        invariant
            p <= pos <= t@.len(),
            tv == tokens_view(t@),
            spec_variables_tail(tv, p as int, exprs_view(acc@)) == spec_variables_tail(
                tv,
                pos as int,
                exprs_view(cur@),
            ),
        decreases t@.len() - pos,
    {
        match parse_prefix_exp_at(t, pos) {
            Ok((q, e)) => {
                if at_token(t, q, Token::Comma) {
                    proof {
                        lemma_exprs_view_push(cur@, e);
                    }
                    cur.push(e);
                    pos = q + 1;
                } else {
                    return (pos, cur);
                }
            },
            Err(_) => {
                return (pos, cur);
            },
        }
    }
}

/// The assignment to several variables at `p`, the first variable `first`
/// ending at `q`, where a comma follows it: the other variables, `=` and
/// the values.
fn parse_assignment_list_at(t: &[Token], p: usize, q: usize, first: Expression) -> (r: PResult<Statement>)
    requires
        p < q < t.len(),
    ensures
        stmt_result(r, spec_assignment_list(tokens_view(t@), p as int, q as int, first@)),
        advances(r, p as int, t@.len() as int, true),
    decreases t@.len() - p, 95int,
{
    let ghost tv = tokens_view(t@);
    let ghost first_view = first@;
    proof {
        assert(exprs_view(Seq::<Expression>::empty()) =~= Seq::empty());
    }
    let (r, mut more) = parse_variables_tail_at(t, q + 1, Vec::new());
    let (r2, last) = match parse_prefix_exp_at(t, r) {
        Err(e) => {
            return Err(e);
        },
        Ok(x) => x,
    };
    if !at_token(t, r2, Token::Equals) {
        return Err(tag_error_at(t, r2));
    }
    let ghost more_view = exprs_view(more@);
    let ghost last_view = last@;
    let mut vars: Vec<Expression> = Vec::new();
    proof {
        lemma_exprs_view_push(vars@, first);
    }
    vars.push(first);
    let ghost before = vars@;
    let ghost moved = more@;
    vars.append(&mut more);
    proof {
        lemma_exprs_view_concat(before, moved);
        lemma_exprs_view_push(vars@, last);
    }
    vars.push(last);
    proof {
        assert(exprs_view(vars@) =~= seq![first_view] + more_view + seq![last_view]);
    }
    match parse_expression_list_at(t, r2 + 1) {
        Err(err) => Err(err),
        Ok((r3, values)) => Ok((r3, Statement::Assignment { variables: vars, values: values })),
    }
}

/// `varlist '=' explist | functioncall` at `p`.
fn parse_assignment_or_call_at(t: &[Token], p: usize) -> (r: PResult<Statement>)
    requires
        p <= t@.len(),
    ensures
        stmt_result(r, spec_assignment_or_call(tokens_view(t@), p as int)),
        advances(r, p as int, t@.len() as int, true),
    decreases t@.len() - p, 96int,
{
    let (q, first) = match parse_prefix_exp_at(t, p) {
        Err(e) => {
            return Err(e);
        },
        Ok(x) => x,
    };
    if at_token(t, q, Token::Comma) {
        parse_assignment_list_at(t, p, q, first)
    } else if at_token(t, q, Token::Equals) {
        let ghost first_view = first@;
        let mut vars: Vec<Expression> = Vec::new();
        proof {
            lemma_exprs_view_push(vars@, first);
            assert(exprs_view(Seq::<Expression>::empty()) =~= Seq::empty());
        }
        vars.push(first);
        proof {
            assert(exprs_view(vars@) =~= seq![first_view]);
        }
        match parse_expression_list_at(t, q + 1) {
            Err(e) => Err(e),
            Ok((r, values)) => Ok((r, Statement::Assignment { variables: vars, values: values })),
        }
    } else {
        match first {
            Expression::FunctionCall { .. } => Ok((q, Statement::FunctionCall(first))),
            Expression::MethodCall { .. } => Ok((q, Statement::FunctionCall(first))),
            _ => Err((p, ErrorKind::Alt)),
        }
    }
}

/// `retstat ::= return [explist] [';']` at `p`.
pub fn parse_return_statement_at(t: &[Token], p: usize) -> (r: PResult<Vec<Expression>>)
    requires
        p <= t@.len(),
    ensures
        exprs_result(r, spec_return_statement(tokens_view(t@), p as int)),
        advances(r, p as int, t@.len() as int, true),
    decreases t@.len() - p, 97int,
{
    if !at_token(t, p, Token::Return) {
        return Err(tag_error_at(t, p));
    }
    let (q, list) = match parse_expression_list_at(t, p + 1) {
        Ok((q, list)) => (q, list),
        Err(_) => (p + 1, Vec::new()),
    };
    proof {
        assert(exprs_view(Seq::<Expression>::empty()) =~= Seq::empty());
    }
    if at_token(t, q, Token::Semicolon) {
        Ok((q + 1, list))
    } else {
        Ok((q, list))
    }
}

/// A statement at `p`: the forms are tried in order, the last being an
/// assignment or a call, whose failure is reported when none applies.
pub fn parse_statement_at(t: &[Token], p: usize) -> (r: PResult<Statement>)
    requires
        p <= t@.len(),
    ensures
        stmt_result(r, spec_statement(tokens_view(t@), p as int)),
        advances(r, p as int, t@.len() as int, true),
    decreases t@.len() - p, 98int,
{
    if p < t.len() {
        match &t[p] {
            Token::Semicolon => {
                return Ok((p + 1, Statement::Empty));
            },
            Token::Break => {
                return Ok((p + 1, Statement::Break));
            },
            _ => {},
        }
    }
    if let Ok(x) = parse_label_at(t, p) {
        return Ok(x);
    }
    if let Ok(x) = parse_goto_at(t, p) {
        return Ok(x);
    }
    if let Ok(x) = parse_do_at(t, p) {
        return Ok(x);
    }
    if let Ok(x) = parse_while_at(t, p) {
        return Ok(x);
    }
    if let Ok(x) = parse_repeat_at(t, p) {
        return Ok(x);
    }
    if let Ok(x) = parse_if_at(t, p) {
        return Ok(x);
    }
    if let Ok(x) = parse_for_at(t, p) {
        return Ok(x);
    }
    if let Ok(x) = parse_function_decl_at(t, p) {
        return Ok(x);
    }
    if let Ok(x) = parse_local_at(t, p) {
        return Ok(x);
    }
    parse_assignment_or_call_at(t, p)
}

/// Whether the token at `p` ends a block: `end`, `else`, `elseif`, `until`.
fn ends_block_at(t: &[Token], p: usize) -> (b: bool)
    requires
        p < t@.len(),
    ensures
        b == ends_block(tokens_view(t@)[p as int]),
{
    match &t[p] {
        Token::End | Token::Else | Token::Elseif | Token::Until => true,
        _ => false,
    }
}

/// `block ::= {stat} [retstat]` at `p`: statements until the input ends, a
/// token that ends blocks, a `return` statement (which ends the block) or
/// a statement that does not parse. A block never fails.
pub fn parse_block_at(t: &[Token], p: usize) -> (r: PResult<Block>)
    requires
        p <= t@.len(),
    ensures
        block_result(r, spec_block(tokens_view(t@), p as int)),
        advances(r, p as int, t@.len() as int, false),
        r is Ok,
    decreases t@.len() - p, 101int,
{
    let ghost tv = tokens_view(t@);
    let mut statements: Vec<Statement> = Vec::new();
    let mut pos = p;
    proof {
        assert(stmts_view(statements@) =~= Seq::empty());
    }
    loop
        invariant
            p <= pos <= t@.len(),
            tv == tokens_view(t@),
            spec_block(tv, p as int) == spec_block_from(tv, pos as int, stmts_view(statements@)),
        decreases t@.len() - pos,
    {
        if pos >= t.len() || ends_block_at(t, pos) {
            return Ok((pos, Block { statements: statements, return_statement: None }));
        }
        match parse_return_statement_at(t, pos) {
            Ok((q, list)) => {
                return Ok(
                    (
                        q,
                        Block {
                            statements: statements,
                            return_statement: Some(ReturnStatement { expression_list: list }),
                        },
                    ),
                );
            },
            Err(_) => {},
        }
        match parse_statement_at(t, pos) {
            Ok((q, s)) => {
                proof {
                    lemma_stmts_view_push(statements@, s);
                }
                statements.push(s);
                pos = q;
            },
            Err(_) => {
                return Ok((pos, Block { statements: statements, return_statement: None }));
            },
        }
    }
}

/// Parse one statement.
pub fn parse_statement<'a>(t: TokenSlice<'a>) -> (r: IResult<'a, Statement>)
    ensures
        slice_result(t, r, spec_statement(tokens_view(t.0@), 0), |x: Statement| x@),
{
    from_position(t, parse_statement_at(t.0, 0))
}

/// Parse a `return` statement.
pub fn parse_return_statement<'a>(t: TokenSlice<'a>) -> (r: IResult<'a, ReturnStatement>)
    ensures
        slice_result(t, r, spec_return_statement(tokens_view(t.0@), 0), |x: ReturnStatement| x@),
{
    let r = match parse_return_statement_at(t.0, 0) {
        Ok((q, list)) => Ok((q, ReturnStatement { expression_list: list })),
        Err(e) => Err(e),
    };
    from_position(t, r)
}

/// Parse a block; this never fails.
pub fn parse_block<'a>(t: TokenSlice<'a>) -> (r: IResult<'a, Block>)
    ensures
        slice_result(t, r, spec_block(tokens_view(t.0@), 0), |x: Block| x@),
        r is Ok,
{
    from_position(t, parse_block_at(t.0, 0))
}

} // verus!
