//! The Lua grammar as the parser reads it: each rule is a function from a
//! token sequence and a position to the position after what it recognized
//! and the syntax it built, or to the position and kind of the failure.
//! Alternatives are tried in order; a repetition stops before the first
//! repetition that fails, and an optional part that fails is absent.
use vstd::prelude::*;
use crate::lua_parser_types::{
    BinaryOp, SpecBlock, SpecExpression, SpecField, SpecFieldKey, SpecFunctionBody,
    SpecStatement, SpecToken, UnaryOp,
};

verus! {

/// Why a rule failed.
#[derive(Debug, Clone, Copy, PartialEq, Eq, Structural)]
pub enum ErrorKind {
    /// The token at the position is not the one expected.
    Tag,
    /// The input ended where a token was expected.
    Eof,
    /// None of the alternatives applies.
    Alt,
}

/// The outcome of a rule: the position after what it recognized and the
/// syntax built, or the position and kind of the failure.
pub type PRes<A> = Result<(int, A), (int, ErrorKind)>;

/// The token at position `p`, if any.
pub open spec fn tok_at(t: Seq<SpecToken>, p: int) -> Option<SpecToken> {
    if 0 <= p < t.len() {
        Some(t[p])
    } else {
        None
    }
}

/// Whether the token at `p` is `tok`.
pub open spec fn at(t: Seq<SpecToken>, p: int, tok: SpecToken) -> bool {
    tok_at(t, p) == Some(tok)
}

/// The failure of expecting a token at `p`.
pub open spec fn tag_error(t: Seq<SpecToken>, p: int) -> (int, ErrorKind) {
    if 0 <= p < t.len() {
        (p, ErrorKind::Tag)
    } else {
        (p, ErrorKind::Eof)
    }
}

/// Tokens that end a block: `end`, `else`, `elseif`, `until`.
pub open spec fn ends_block(tok: SpecToken) -> bool {
    tok == SpecToken::End || tok == SpecToken::Else || tok == SpecToken::Elseif || tok
        == SpecToken::Until
}

/// `Number`: a numeral token.
pub open spec fn spec_number_literal(t: Seq<SpecToken>, p: int) -> PRes<SpecExpression> {
    match tok_at(t, p) {
        Some(SpecToken::Number(n)) => Ok((p + 1, SpecExpression::Number(n))),
        _ => Err((p, ErrorKind::Tag)),
    }
}

/// `LiteralString`: a string token.
pub open spec fn spec_string_literal(t: Seq<SpecToken>, p: int) -> PRes<SpecExpression> {
    match tok_at(t, p) {
        Some(SpecToken::StringLit(s)) => Ok((p + 1, SpecExpression::Str(s))),
        _ => Err((p, ErrorKind::Tag)),
    }
}

/// `Name` as an expression.
pub open spec fn spec_identifier(t: Seq<SpecToken>, p: int) -> PRes<SpecExpression> {
    match tok_at(t, p) {
        Some(SpecToken::Identifier(s)) => Ok((p + 1, SpecExpression::Identifier(s))),
        _ => Err((p, ErrorKind::Tag)),
    }
}

/// The literal `nil | true | false | '...' | Numeral | LiteralString` at `p`.
pub open spec fn simple_literal(t: Seq<SpecToken>, p: int) -> Option<SpecExpression> {
    match tok_at(t, p) {
        Some(SpecToken::Nil) => Some(SpecExpression::Nil),
        Some(SpecToken::True) => Some(SpecExpression::Boolean(true)),
        Some(SpecToken::False) => Some(SpecExpression::Boolean(false)),
        Some(SpecToken::Varargs) => Some(SpecExpression::Varargs),
        Some(SpecToken::Number(n)) => Some(SpecExpression::Number(n)),
        Some(SpecToken::StringLit(s)) => Some(SpecExpression::Str(s)),
        _ => None,
    }
}

/// The unary operator at `p`: `-`, `not`, `#` or `~`.
pub open spec fn unary_op_at(t: Seq<SpecToken>, p: int) -> Option<UnaryOp> {
    match tok_at(t, p) {
        Some(SpecToken::Minus) => Some(UnaryOp::Minus),
        Some(SpecToken::Not) => Some(UnaryOp::Not),
        Some(SpecToken::Hash) => Some(UnaryOp::Length),
        Some(SpecToken::Tilde) => Some(UnaryOp::BitNot),
        _ => None,
    }
}

/// The binary operators of each precedence level, from loosest to tightest
/// (`^` is handled on its own): `or`; `and`; `== ~=`; `< <= > >=`;
/// `& | ~ << >>`; `..`; `+ -`; `* / // %`.
pub open spec fn level_op(level: int, tok: SpecToken) -> Option<BinaryOp> {
    if level == 0 {
        if tok == SpecToken::Or { Some(BinaryOp::Or) } else { None }
    } else if level == 1 {
        if tok == SpecToken::And { Some(BinaryOp::And) } else { None }
    } else if level == 2 {
        if tok == SpecToken::Eq { Some(BinaryOp::Eq) }
        else if tok == SpecToken::Neq { Some(BinaryOp::Neq) }
        else { None }
    } else if level == 3 {
        if tok == SpecToken::Lt { Some(BinaryOp::Lt) }
        else if tok == SpecToken::Lte { Some(BinaryOp::Lte) }
        else if tok == SpecToken::Gt { Some(BinaryOp::Gt) }
        else if tok == SpecToken::Gte { Some(BinaryOp::Gte) }
        else { None }
    } else if level == 4 {
        if tok == SpecToken::Ampersand { Some(BinaryOp::BitAnd) }
        else if tok == SpecToken::Pipe { Some(BinaryOp::BitOr) }
        else if tok == SpecToken::Tilde { Some(BinaryOp::BitXor) }
        else if tok == SpecToken::LShift { Some(BinaryOp::LeftShift) }
        else if tok == SpecToken::RShift { Some(BinaryOp::RightShift) }
        else { None }
    } else if level == 5 {
        if tok == SpecToken::Concat { Some(BinaryOp::Concat) } else { None }
    } else if level == 6 {
        if tok == SpecToken::Plus { Some(BinaryOp::Add) }
        else if tok == SpecToken::Minus { Some(BinaryOp::Subtract) }
        else { None }
    } else if level == 7 {
        if tok == SpecToken::Star { Some(BinaryOp::Multiply) }
        else if tok == SpecToken::Slash { Some(BinaryOp::Divide) }
        else if tok == SpecToken::DoubleSlash { Some(BinaryOp::FloorDivide) }
        else if tok == SpecToken::Percent { Some(BinaryOp::Modulo) }
        else { None }
    } else {
        None
    }
}

/// The binary operator of precedence `level` at `p`.
pub open spec fn level_op_at(t: Seq<SpecToken>, p: int, level: int) -> Option<BinaryOp> {
    match tok_at(t, p) {
        Some(tok) => level_op(level, tok),
        None => None,
    }
}

/// The rank of a rule in the order in which rules call each other at the
/// same position (a rule only calls rules of lower rank there).
pub open spec fn level_rank(level: int) -> int {
    56 - 2 * level
}

/// A binary expression of precedence `level` (0 to 7): operands of the
/// next level joined left to right by the level's operators; level 8 is
/// `^`.
pub open spec fn spec_level(t: Seq<SpecToken>, p: int, level: int) -> PRes<SpecExpression>
    decreases t.len() - p, level_rank(level) + 1,
{
    if level == 8 {
        spec_power(t, p)
    } else if level < 0 || level > 8 {
        Err((p, ErrorKind::Alt))
    } else {
        match spec_level(t, p, level + 1) {
            Err(e) => Err(e),
            Ok((q, left)) => {
                if p < q <= t.len() {
                    spec_level_tail(t, q, level, left)
                } else {
                    Ok((q, left))
                }
            },
        }
    }
}

/// The repetition of `op operand` after `left` at precedence `level`.
pub open spec fn spec_level_tail(t: Seq<SpecToken>, p: int, level: int, left: SpecExpression) -> PRes<SpecExpression>
    decreases t.len() - p, level_rank(level),
{
    if 0 <= level < 8 && 0 <= p < t.len() {
        match level_op_at(t, p, level) {
            Some(op) => match spec_level(t, p + 1, level + 1) {
                Ok((q, right)) => {
                    if p < q <= t.len() {
                        spec_level_tail(
                            t,
                            q,
                            level,
                            SpecExpression::BinaryOp {
                                left: Box::new(left),
                                op: op,
                                right: Box::new(right),
                            },
                        )
                    } else {
                        Ok((p, left))
                    }
                },
                Err(_) => Ok((p, left)),
            },
            None => Ok((p, left)),
        }
    } else {
        Ok((p, left))
    }
}

/// `unary ['^' power]`: right associative.
pub open spec fn spec_power(t: Seq<SpecToken>, p: int) -> PRes<SpecExpression>
    decreases t.len() - p, 40int,
{
    match spec_unary(t, p) {
        Err(e) => Err(e),
        Ok((q, left)) => {
            if p < q <= t.len() && at(t, q, SpecToken::Caret) {
                match spec_power(t, q + 1) {
                    Err(e) => Err(e),
                    Ok((r, right)) => Ok((
                        r,
                        SpecExpression::BinaryOp {
                            left: Box::new(left),
                            op: BinaryOp::Power,
                            right: Box::new(right),
                        },
                    )),
                }
            } else {
                Ok((q, left))
            }
        },
    }
}

/// `unop unary | prefixexp`: when the operand after an operator fails, the
/// whole is read as a prefix expression.
pub open spec fn spec_unary(t: Seq<SpecToken>, p: int) -> PRes<SpecExpression>
    decreases t.len() - p, 38int,
{
    match unary_op_at(t, p) {
        Some(op) => match spec_unary(t, p + 1) {
            Ok((q, operand)) => Ok((q, SpecExpression::UnaryOp { op: op, operand: Box::new(operand) })),
            Err(_) => spec_prefix_exp(t, p),
        },
        None => spec_prefix_exp(t, p),
    }
}

/// A primary expression followed by any number of `[exp]`, `.Name`,
/// `:Name args` and `args` suffixes.
pub open spec fn spec_prefix_exp(t: Seq<SpecToken>, p: int) -> PRes<SpecExpression>
    decreases t.len() - p, 36int,
{
    let primary: PRes<SpecExpression> = match simple_literal(t, p) {
        Some(e) => Ok((p + 1, e)),
        None => match tok_at(t, p) {
            Some(SpecToken::LParen) => match spec_expression(t, p + 1) {
                Err(e) => Err(e),
                Ok((q, e)) => {
                    if at(t, q, SpecToken::RParen) {
                        Ok((q + 1, e))
                    } else {
                        Err(tag_error(t, q))
                    }
                },
            },
            Some(SpecToken::Function) => spec_function_def(t, p),
            Some(SpecToken::LBrace) => spec_table_constructor(t, p),
            Some(SpecToken::Identifier(_)) => spec_identifier(t, p),
            _ => Err((p, ErrorKind::Alt)),
        },
    };
    match primary {
        Err(e) => Err(e),
        Ok((q, e)) => {
            if p < q <= t.len() {
                spec_suffixes(t, q, e)
            } else {
                Ok((q, e))
            }
        },
    }
}

/// The suffixes `[exp]`, `.Name`, `:Name args`, `args` applied to `e`.
pub open spec fn spec_suffixes(t: Seq<SpecToken>, p: int, e: SpecExpression) -> PRes<SpecExpression>
    decreases t.len() - p, 35int,
{
    if !(0 <= p <= t.len()) {
        Ok((p, e))
    } else {
        match tok_at(t, p) {
            Some(SpecToken::LBracket) => match spec_expression(t, p + 1) {
                Err(err) => Err(err),
                Ok((q, index)) => {
                    if at(t, q, SpecToken::RBracket) {
                        if p < q + 1 <= t.len() {
                            spec_suffixes(
                                t,
                                q + 1,
                                SpecExpression::TableIndexing {
                                    object: Box::new(e),
                                    index: Box::new(index),
                                },
                            )
                        } else {
                            Ok((q + 1, e))
                        }
                    } else {
                        Err(tag_error(t, q))
                    }
                },
            },
            Some(SpecToken::Dot) => match tok_at(t, p + 1) {
                Some(SpecToken::Identifier(field)) => spec_suffixes(
                    t,
                    p + 2,
                    SpecExpression::FieldAccess { object: Box::new(e), field: field },
                ),
                _ => Err((p + 1, ErrorKind::Tag)),
            },
            Some(SpecToken::Colon) => match tok_at(t, p + 1) {
                Some(SpecToken::Identifier(method)) => match spec_args(t, p + 2) {
                    Err(err) => Err(err),
                    Ok((q, args)) => {
                        if p < q <= t.len() {
                            spec_suffixes(
                                t,
                                q,
                                SpecExpression::MethodCall {
                                    object: Box::new(e),
                                    method: method,
                                    args: args,
                                },
                            )
                        } else {
                            Ok((q, e))
                        }
                    },
                },
                _ => Err((p + 1, ErrorKind::Tag)),
            },
            Some(SpecToken::LParen) | Some(SpecToken::LBrace) | Some(SpecToken::StringLit(_)) => {
                match spec_args(t, p) {
                    Err(err) => Err(err),
                    Ok((q, args)) => {
                        if p < q <= t.len() {
                            spec_suffixes(
                                t,
                                q,
                                SpecExpression::FunctionCall { function: Box::new(e), args: args },
                            )
                        } else {
                            Ok((q, e))
                        }
                    },
                }
            },
            _ => Ok((p, e)),
        }
    }
}

/// `args ::= '(' [explist] ')' | tableconstructor | LiteralString`.
pub open spec fn spec_args(t: Seq<SpecToken>, p: int) -> PRes<Seq<SpecExpression>>
    decreases t.len() - p, 34int,
{
    if at(t, p, SpecToken::LParen) {
        let (q, list) = match spec_expression_list(t, p + 1) {
            Ok((q, list)) => (q, list),
            Err(_) => (p + 1, Seq::empty()),
        };
        if at(t, q, SpecToken::RParen) {
            Ok((q + 1, list))
        } else {
            Err(tag_error(t, q))
        }
    } else {
        match spec_table_constructor(t, p) {
            Ok((q, e)) => Ok((q, seq![e])),
            Err(_) => match spec_string_literal(t, p) {
                Ok((q, e)) => Ok((q, seq![e])),
                Err(_) => Err((p, ErrorKind::Alt)),
            },
        }
    }
}

/// `tableconstructor ::= '{' [fieldlist] '}'`.
pub open spec fn spec_table_constructor(t: Seq<SpecToken>, p: int) -> PRes<SpecExpression>
    decreases t.len() - p, 33int,
{
    if at(t, p, SpecToken::LBrace) {
        let (q, fields) = match spec_fieldlist(t, p + 1) {
            Ok((q, fields)) => (q, fields),
            Err(_) => (p + 1, Seq::empty()),
        };
        if at(t, q, SpecToken::RBrace) {
            Ok((q + 1, SpecExpression::TableConstructor { fields: fields }))
        } else {
            Err(tag_error(t, q))
        }
    } else {
        Err(tag_error(t, p))
    }
}

/// `fieldlist ::= field {fieldsep field} [fieldsep]`.
pub open spec fn spec_fieldlist(t: Seq<SpecToken>, p: int) -> PRes<Seq<SpecField>>
    decreases t.len() - p, 64int,
{
    match spec_field(t, p) {
        Err(e) => Err(e),
        Ok((q, f)) => {
            if p < q <= t.len() {
                spec_fieldlist_tail(t, q, seq![f])
            } else {
                Ok((q, seq![f]))
            }
        },
    }
}

/// The repetition of `fieldsep field` (or a final `fieldsep` before `}`)
/// after the fields `acc`.
pub open spec fn spec_fieldlist_tail(t: Seq<SpecToken>, p: int, acc: Seq<SpecField>) -> PRes<Seq<SpecField>>
    decreases t.len() - p, 63int,
{
    if 0 <= p < t.len() && (t[p] == SpecToken::Comma || t[p] == SpecToken::Semicolon) {
        if at(t, p + 1, SpecToken::RBrace) {
            spec_fieldlist_tail(t, p + 1, acc)
        } else {
            match spec_field(t, p + 1) {
                Ok((q, f)) => {
                    if p < q <= t.len() {
                        spec_fieldlist_tail(t, q, acc.push(f))
                    } else {
                        Ok((p, acc))
                    }
                },
                Err(_) => Ok((p, acc)),
            }
        }
    } else {
        Ok((p, acc))
    }
}

/// `field ::= '[' exp ']' '=' exp | Name '=' exp | exp`.
pub open spec fn spec_field(t: Seq<SpecToken>, p: int) -> PRes<SpecField>
    decreases t.len() - p, 62int,
{
    if at(t, p, SpecToken::LBracket) {
        match spec_expression(t, p + 1) {
            Err(e) => Err(e),
            Ok((q, key)) => {
                if !(p < q <= t.len()) {
                    Err((q, ErrorKind::Alt))
                } else if !at(t, q, SpecToken::RBracket) {
                    Err(tag_error(t, q))
                } else if !at(t, q + 1, SpecToken::Equals) {
                    Err(tag_error(t, q + 1))
                } else {
                    match spec_expression(t, q + 2) {
                        Err(e) => Err(e),
                        Ok((r, value)) => Ok((
                            r,
                            SpecField { key: SpecFieldKey::Bracket(Box::new(key)), value: value },
                        )),
                    }
                }
            },
        }
    } else {
        match tok_at(t, p) {
            Some(SpecToken::Identifier(name)) if at(t, p + 1, SpecToken::Equals) => {
                match spec_expression(t, p + 2) {
                    Err(e) => Err(e),
                    Ok((r, value)) => Ok(
                        (r, SpecField { key: SpecFieldKey::Identifier(name), value: value }),
                    ),
                }
            },
            _ => match spec_expression(t, p) {
                Err(e) => Err(e),
                Ok((r, value)) => Ok((r, SpecField { key: SpecFieldKey::Index(0), value: value })),
            },
        }
    }
}

/// `functiondef ::= function funcbody`.
pub open spec fn spec_function_def(t: Seq<SpecToken>, p: int) -> PRes<SpecExpression>
    decreases t.len() - p, 33int,
{
    if at(t, p, SpecToken::Function) {
        match spec_funcbody(t, p + 1) {
            Err(e) => Err(e),
            Ok((q, body)) => Ok((q, SpecExpression::FunctionDef(Box::new(body)))),
        }
    } else {
        Err(tag_error(t, p))
    }
}

/// `funcbody ::= '(' [parlist] ')' block end`.
pub open spec fn spec_funcbody(t: Seq<SpecToken>, p: int) -> PRes<SpecFunctionBody>
    decreases t.len() - p, 32int,
{
    if at(t, p, SpecToken::LParen) {
        let (q, params, varargs) = match spec_parlist(t, p + 1) {
            Ok((q, (params, varargs))) => (q, params, varargs),
            Err(_) => (p + 1, Seq::empty(), false),
        };
        if !(p < q <= t.len()) {
            Err((q, ErrorKind::Alt))
        } else if !at(t, q, SpecToken::RParen) {
            Err(tag_error(t, q))
        } else {
            match spec_block(t, q + 1) {
                Err(e) => Err(e),
                Ok((r, block)) => {
                    if at(t, r, SpecToken::End) {
                        Ok(
                            (
                                r + 1,
                                SpecFunctionBody {
                                    params: params,
                                    varargs: varargs,
                                    block: Box::new(block),
                                },
                            ),
                        )
                    } else {
                        Err(tag_error(t, r))
                    }
                },
            }
        }
    } else {
        Err(tag_error(t, p))
    }
}

/// `parlist ::= '...' | namelist [',' '...']`.
pub open spec fn spec_parlist(t: Seq<SpecToken>, p: int) -> PRes<(Seq<Seq<char>>, bool)>
    decreases t.len() - p, 31int,
{
    if at(t, p, SpecToken::Varargs) {
        Ok((p + 1, (Seq::empty(), true)))
    } else {
        match spec_namelist(t, p) {
            Err(e) => Err(e),
            Ok((q, names)) => {
                if at(t, q, SpecToken::Comma) && at(t, q + 1, SpecToken::Varargs) {
                    Ok((q + 2, (names, true)))
                } else {
                    Ok((q, (names, false)))
                }
            },
        }
    }
}

/// `namelist ::= Name {',' Name}`.
pub open spec fn spec_namelist(t: Seq<SpecToken>, p: int) -> PRes<Seq<Seq<char>>> {
    match tok_at(t, p) {
        Some(SpecToken::Identifier(name)) => Ok(namelist_tail(t, p + 1, seq![name])),
        _ => Err((p, ErrorKind::Tag)),
    }
}

/// The repetition of `',' Name` after the names `acc`.
pub open spec fn namelist_tail(t: Seq<SpecToken>, p: int, acc: Seq<Seq<char>>) -> (int, Seq<Seq<char>>)
    decreases t.len() - p,
{
    if at(t, p, SpecToken::Comma) {
        match tok_at(t, p + 1) {
            Some(SpecToken::Identifier(name)) => namelist_tail(t, p + 2, acc.push(name)),
            _ => (p, acc),
        }
    } else {
        (p, acc)
    }
}

/// `exp`: the loosest binary level.
pub open spec fn spec_expression(t: Seq<SpecToken>, p: int) -> PRes<SpecExpression>
    decreases t.len() - p, 58int,
{
    spec_level(t, p, 0)
}

/// `explist ::= exp {',' exp}`.
pub open spec fn spec_expression_list(t: Seq<SpecToken>, p: int) -> PRes<Seq<SpecExpression>>
    decreases t.len() - p, 60int,
{
    match spec_expression(t, p) {
        Err(e) => Err(e),
        Ok((q, first)) => {
            if p < q <= t.len() {
                Ok(spec_expression_list_tail(t, q, seq![first]))
            } else {
                Ok((q, seq![first]))
            }
        },
    }
}

/// The repetition of `',' exp` after the expressions `acc`.
pub open spec fn spec_expression_list_tail(t: Seq<SpecToken>, p: int, acc: Seq<SpecExpression>) -> (int, Seq<SpecExpression>)
    decreases t.len() - p, 59int,
{
    if 0 <= p < t.len() && t[p] == SpecToken::Comma {
        match spec_expression(t, p + 1) {
            Ok((q, e)) => {
                if p < q <= t.len() {
                    spec_expression_list_tail(t, q, acc.push(e))
                } else {
                    (p, acc)
                }
            },
            Err(_) => (p, acc),
        }
    } else {
        (p, acc)
    }
}

/// `stat`: the statement forms tried in order, the last being an
/// assignment or a call; a failure reports the last form's failure.
pub open spec fn spec_statement(t: Seq<SpecToken>, p: int) -> PRes<SpecStatement>
    decreases t.len() - p, 98int,
{
    match tok_at(t, p) {
        Some(SpecToken::Semicolon) => Ok((p + 1, SpecStatement::Empty)),
        Some(SpecToken::Break) => Ok((p + 1, SpecStatement::Break)),
        _ => {
            let label: PRes<SpecStatement> = spec_label(t, p);
            if label is Ok {
                label
            } else if spec_goto(t, p) is Ok {
                spec_goto(t, p)
            } else if spec_do(t, p) is Ok {
                spec_do(t, p)
            } else if spec_while(t, p) is Ok {
                spec_while(t, p)
            } else if spec_repeat(t, p) is Ok {
                spec_repeat(t, p)
            } else if spec_if(t, p) is Ok {
                spec_if(t, p)
            } else if spec_for(t, p) is Ok {
                spec_for(t, p)
            } else if spec_function_decl(t, p) is Ok {
                spec_function_decl(t, p)
            } else if spec_local(t, p) is Ok {
                spec_local(t, p)
            } else {
                spec_assignment_or_call(t, p)
            }
        },
    }
}

/// `'::' Name '::'`.
pub open spec fn spec_label(t: Seq<SpecToken>, p: int) -> PRes<SpecStatement> {
    if at(t, p, SpecToken::DoubleColon) {
        match tok_at(t, p + 1) {
            Some(SpecToken::Identifier(name)) => {
                if at(t, p + 2, SpecToken::DoubleColon) {
                    Ok((p + 3, SpecStatement::Label(name)))
                } else {
                    Err(tag_error(t, p + 2))
                }
            },
            _ => Err((p + 1, ErrorKind::Tag)),
        }
    } else {
        Err(tag_error(t, p))
    }
}

/// `goto Name`.
pub open spec fn spec_goto(t: Seq<SpecToken>, p: int) -> PRes<SpecStatement> {
    if at(t, p, SpecToken::Goto) {
        match tok_at(t, p + 1) {
            Some(SpecToken::Identifier(name)) => Ok((p + 2, SpecStatement::Goto(name))),
            _ => Err((p + 1, ErrorKind::Tag)),
        }
    } else {
        Err(tag_error(t, p))
    }
}

/// `do block end`.
pub open spec fn spec_do(t: Seq<SpecToken>, p: int) -> PRes<SpecStatement>
    decreases t.len() - p, 95int,
{
    if at(t, p, SpecToken::Do) {
        match spec_block(t, p + 1) {
            Err(e) => Err(e),
            Ok((q, b)) => {
                if at(t, q, SpecToken::End) {
                    Ok((q + 1, SpecStatement::Do(Box::new(b))))
                } else {
                    Err(tag_error(t, q))
                }
            },
        }
    } else {
        Err(tag_error(t, p))
    }
}

/// `while exp do block end`.
pub open spec fn spec_while(t: Seq<SpecToken>, p: int) -> PRes<SpecStatement>
    decreases t.len() - p, 95int,
{
    if at(t, p, SpecToken::While) {
        match spec_expression(t, p + 1) {
            Err(e) => Err(e),
            Ok((q, cond)) => {
                if !(p < q <= t.len()) {
                    Err((q, ErrorKind::Alt))
                } else if !at(t, q, SpecToken::Do) {
                    Err(tag_error(t, q))
                } else {
                    match spec_block(t, q + 1) {
                        Err(e) => Err(e),
                        Ok((r, body)) => {
                            if at(t, r, SpecToken::End) {
                                Ok(
                                    (
                                        r + 1,
                                        SpecStatement::While {
                                            condition: cond,
                                            body: Box::new(body),
                                        },
                                    ),
                                )
                            } else {
                                Err(tag_error(t, r))
                            }
                        },
                    }
                }
            },
        }
    } else {
        Err(tag_error(t, p))
    }
}

/// `repeat block until exp`.
pub open spec fn spec_repeat(t: Seq<SpecToken>, p: int) -> PRes<SpecStatement>
    decreases t.len() - p, 95int,
{
    if at(t, p, SpecToken::Repeat) {
        match spec_block(t, p + 1) {
            Err(e) => Err(e),
            Ok((q, body)) => {
                if !(p < q <= t.len()) {
                    Err((q, ErrorKind::Alt))
                } else if !at(t, q, SpecToken::Until) {
                    Err(tag_error(t, q))
                } else {
                    match spec_expression(t, q + 1) {
                        Err(e) => Err(e),
                        Ok((r, cond)) => Ok(
                            (r, SpecStatement::Repeat { body: Box::new(body), condition: cond }),
                        ),
                    }
                }
            },
        }
    } else {
        Err(tag_error(t, p))
    }
}

/// `if exp then block {elseif exp then block} [else block] end`.
pub open spec fn spec_if(t: Seq<SpecToken>, p: int) -> PRes<SpecStatement>
    decreases t.len() - p, 95int,
{
    if !at(t, p, SpecToken::If) {
        Err(tag_error(t, p))
    } else {
        match spec_expression(t, p + 1) {
            Err(e) => Err(e),
            Ok((q, cond)) => {
                if !(p < q <= t.len()) {
                    Err((q, ErrorKind::Alt))
                } else if !at(t, q, SpecToken::Then) {
                    Err(tag_error(t, q))
                } else {
                    match spec_block(t, q + 1) {
                        Err(e) => Err(e),
                        Ok((r, then_block)) => {
                            if !(p < r <= t.len()) {
                                Err((r, ErrorKind::Alt))
                            } else {
                                let (r2, parts) = spec_elseif_tail(t, r, Seq::empty());
                                if !(p < r2 <= t.len()) {
                                    Err((r2, ErrorKind::Alt))
                                } else {
                                    let (r3, else_block) = match spec_else(t, r2) {
                                        Ok((r3, b)) => (r3, Some(Box::new(b))),
                                        Err(_) => (r2, None),
                                    };
                                    if at(t, r3, SpecToken::End) {
                                        Ok(
                                            (
                                                r3 + 1,
                                                SpecStatement::If {
                                                    condition: cond,
                                                    then_block: Box::new(then_block),
                                                    elseif_parts: parts,
                                                    else_block: else_block,
                                                },
                                            ),
                                        )
                                    } else {
                                        Err(tag_error(t, r3))
                                    }
                                }
                            }
                        },
                    }
                }
            },
        }
    }
}

/// `elseif exp then block`.
pub open spec fn spec_elseif(t: Seq<SpecToken>, p: int) -> PRes<(SpecExpression, SpecBlock)>
    decreases t.len() - p, 94int,
{
    if !at(t, p, SpecToken::Elseif) {
        Err(tag_error(t, p))
    } else {
        match spec_expression(t, p + 1) {
            Err(e) => Err(e),
            Ok((q, cond)) => {
                if !(p < q <= t.len()) {
                    Err((q, ErrorKind::Alt))
                } else if !at(t, q, SpecToken::Then) {
                    Err(tag_error(t, q))
                } else {
                    match spec_block(t, q + 1) {
                        Err(e) => Err(e),
                        Ok((r, b)) => Ok((r, (cond, b))),
                    }
                }
            },
        }
    }
}

/// The repetition of `elseif` parts after the parts `acc`.
pub open spec fn spec_elseif_tail(t: Seq<SpecToken>, p: int, acc: Seq<(SpecExpression, SpecBlock)>) -> (int, Seq<(SpecExpression, SpecBlock)>)
    decreases t.len() - p, 95int,
{
    if !(0 <= p <= t.len()) {
        (p, acc)
    } else {
        match spec_elseif(t, p) {
            Ok((q, part)) => {
                if p < q <= t.len() {
                    spec_elseif_tail(t, q, acc.push(part))
                } else {
                    (p, acc)
                }
            },
            Err(_) => (p, acc),
        }
    }
}

/// `else block`.
pub open spec fn spec_else(t: Seq<SpecToken>, p: int) -> PRes<SpecBlock>
    decreases t.len() - p, 94int,
{
    if at(t, p, SpecToken::Else) {
        spec_block(t, p + 1)
    } else {
        Err(tag_error(t, p))
    }
}

/// `for Name '=' exp ',' exp [',' exp] do block end |
///  for namelist in explist do block end`.
pub open spec fn spec_for(t: Seq<SpecToken>, p: int) -> PRes<SpecStatement>
    decreases t.len() - p, 95int,
{
    if !at(t, p, SpecToken::For) {
        Err(tag_error(t, p))
    } else {
        match tok_at(t, p + 1) {
            Some(SpecToken::Identifier(var)) => {
                if at(t, p + 2, SpecToken::Equals) {
                    spec_for_numeric(t, p, var)
                } else {
                    spec_for_generic(t, p, var)
                }
            },
            _ => Err((p, ErrorKind::Alt)),
        }
    }
}

/// The numeric `for` at `p`, after `for var =`.
pub open spec fn spec_for_numeric(t: Seq<SpecToken>, p: int, var: Seq<char>) -> PRes<SpecStatement>
    decreases t.len() - p, 94int,
{
    if !(0 <= p && p + 2 < t.len()) {
        Err((p, ErrorKind::Alt))
    } else {
        match spec_expression(t, p + 3) {
            Err(e) => Err(e),
            Ok((q, start)) => {
                if !(p < q <= t.len()) {
                    Err((q, ErrorKind::Alt))
                } else if !at(t, q, SpecToken::Comma) {
                    Err(tag_error(t, q))
                } else {
                    match spec_expression(t, q + 1) {
                        Err(e) => Err(e),
                        Ok((r, end)) => {
                            if !(p < r <= t.len()) {
                                Err((r, ErrorKind::Alt))
                            } else {
                                let (r2, step) = if at(t, r, SpecToken::Comma) {
                                    match spec_expression(t, r + 1) {
                                        Ok((r2, s)) => (r2, Some(s)),
                                        Err(_) => (r, None),
                                    }
                                } else {
                                    (r, None)
                                };
                                if !(p < r2 <= t.len()) {
                                    Err((r2, ErrorKind::Alt))
                                } else if !at(t, r2, SpecToken::Do) {
                                    Err(tag_error(t, r2))
                                } else {
                                    match spec_block(t, r2 + 1) {
                                        Err(e) => Err(e),
                                        Ok((r3, body)) => {
                                            if at(t, r3, SpecToken::End) {
                                                Ok(
                                                    (
                                                        r3 + 1,
                                                        SpecStatement::ForNumeric {
                                                            var: var,
                                                            start: start,
                                                            end: end,
                                                            step: step,
                                                            body: Box::new(body),
                                                        },
                                                    ),
                                                )
                                            } else {
                                                Err(tag_error(t, r3))
                                            }
                                        },
                                    }
                                }
                            }
                        },
                    }
                }
            },
        }
    }
}

/// The generic `for` at `p`, after `for var`.
pub open spec fn spec_for_generic(t: Seq<SpecToken>, p: int, var: Seq<char>) -> PRes<SpecStatement>
    decreases t.len() - p, 94int,
{
    let (q, more) = if at(t, p + 2, SpecToken::Comma) {
        match spec_namelist(t, p + 3) {
            Ok((q, names)) => (q, names),
            Err(_) => (p + 2, Seq::empty()),
        }
    } else {
        (p + 2, Seq::empty())
    };
    if !(p < q <= t.len()) {
        Err((q, ErrorKind::Alt))
    } else if at(t, q, SpecToken::In) {
        match spec_expression_list(t, q + 1) {
            Err(e) => Err(e),
            Ok((r, iterables)) => {
                if !(p < r <= t.len()) {
                    Err((r, ErrorKind::Alt))
                } else if !at(t, r, SpecToken::Do) {
                    Err(tag_error(t, r))
                } else {
                    match spec_block(t, r + 1) {
                        Err(e) => Err(e),
                        Ok((r2, body)) => {
                            if at(t, r2, SpecToken::End) {
                                Ok(
                                    (
                                        r2 + 1,
                                        SpecStatement::ForGeneric {
                                            vars: seq![var] + more,
                                            iterables: iterables,
                                            body: Box::new(body),
                                        },
                                    ),
                                )
                            } else {
                                Err(tag_error(t, r2))
                            }
                        },
                    }
                }
            },
        }
    } else {
        Err((p, ErrorKind::Alt))
    }
}

/// The rest of a function name after `name`: `.Name` parts, then possibly
/// one `:Name` part, each appended with its separator.
pub open spec fn qualified_name(t: Seq<SpecToken>, p: int, name: Seq<char>) -> PRes<Seq<char>>
    decreases t.len() - p,
{
    if !(0 <= p < t.len()) {
        Ok((p, name))
    } else if t[p] == SpecToken::Dot {
        match tok_at(t, p + 1) {
            Some(SpecToken::Identifier(member)) => qualified_name(
                t,
                p + 2,
                name + seq!['.'] + member,
            ),
            _ => Err((p + 1, ErrorKind::Tag)),
        }
    } else if t[p] == SpecToken::Colon {
        match tok_at(t, p + 1) {
            Some(SpecToken::Identifier(method)) => Ok((p + 2, name + seq![':'] + method)),
            _ => Err((p + 1, ErrorKind::Tag)),
        }
    } else {
        Ok((p, name))
    }
}

/// `function funcname funcbody`, with `funcname ::= Name {'.' Name} [':' Name]`
/// kept as one dotted name.
pub open spec fn spec_function_decl(t: Seq<SpecToken>, p: int) -> PRes<SpecStatement>
    decreases t.len() - p, 95int,
{
    if !at(t, p, SpecToken::Function) {
        Err(tag_error(t, p))
    } else {
        match tok_at(t, p + 1) {
            Some(SpecToken::Identifier(name)) => match qualified_name(t, p + 2, name) {
                Err(e) => Err(e),
                Ok((q, full_name)) => {
                    if p < q <= t.len() {
                        match spec_funcbody(t, q) {
                            Err(e) => Err(e),
                            Ok((r, body)) => Ok(
                                (
                                    r,
                                    SpecStatement::FunctionDecl {
                                        name: full_name,
                                        body: Box::new(body),
                                    },
                                ),
                            ),
                        }
                    } else {
                        Err((q, ErrorKind::Alt))
                    }
                },
            },
            _ => Err((p + 1, ErrorKind::Tag)),
        }
    }
}

/// `local function Name funcbody | local namelist ['=' explist]`.
pub open spec fn spec_local(t: Seq<SpecToken>, p: int) -> PRes<SpecStatement>
    decreases t.len() - p, 95int,
{
    if !at(t, p, SpecToken::Local) {
        Err(tag_error(t, p))
    } else {
        match (tok_at(t, p + 1), tok_at(t, p + 2)) {
            (Some(SpecToken::Function), Some(SpecToken::Identifier(name))) => match spec_funcbody(
                t,
                p + 3,
            ) {
                Err(e) => Err(e),
                Ok((q, body)) => Ok(
                    (q, SpecStatement::LocalFunction { name: name, body: Box::new(body) }),
                ),
            },
            _ => match spec_namelist(t, p + 1) {
                Err(e) => Err(e),
                Ok((q, names)) => {
                    if !(p < q <= t.len()) {
                        Err((q, ErrorKind::Alt))
                    } else {
                        let (r, values) = if at(t, q, SpecToken::Equals) {
                            match spec_expression_list(t, q + 1) {
                                Ok((r, values)) => (r, Some(values)),
                                Err(_) => (q, None),
                            }
                        } else {
                            (q, None)
                        };
                        Ok((r, SpecStatement::LocalVars { names: names, values: values }))
                    }
                },
            },
        }
    }
}

/// `varlist '=' explist | functioncall`: a prefix expression, then either
/// more variables and `=`, or `=`, or nothing if it is a call.
pub open spec fn spec_assignment_or_call(t: Seq<SpecToken>, p: int) -> PRes<SpecStatement>
    decreases t.len() - p, 96int,
{
    match spec_prefix_exp(t, p) {
        Err(e) => Err(e),
        Ok((q, first)) => {
            if !(p < q <= t.len()) {
                Err((p, ErrorKind::Alt))
            } else if at(t, q, SpecToken::Comma) {
                spec_assignment_list(t, p, q, first)
            } else if at(t, q, SpecToken::Equals) {
                match spec_expression_list(t, q + 1) {
                    Err(e) => Err(e),
                    Ok((r, values)) => Ok(
                        (r, SpecStatement::Assignment { variables: seq![first], values: values }),
                    ),
                }
            } else {
                match first {
                    SpecExpression::FunctionCall { .. } => Ok(
                        (q, SpecStatement::FunctionCall(first)),
                    ),
                    SpecExpression::MethodCall { .. } => Ok(
                        (q, SpecStatement::FunctionCall(first)),
                    ),
                    _ => Err((p, ErrorKind::Alt)),
                }
            }
        },
    }
}

/// The assignment to several variables at `p`, the first variable `first`
/// ending at `q` (after `p`), where a comma follows it.
pub open spec fn spec_assignment_list(t: Seq<SpecToken>, p: int, q: int, first: SpecExpression) -> PRes<SpecStatement>
    decreases t.len() - p, 95int,
{
    let (r, more) = if p < q < t.len() {
        spec_variables_tail(t, q + 1, Seq::empty())
    } else {
        (p, Seq::empty())
    };
    if !(p < r <= t.len()) {
        Err((r, ErrorKind::Alt))
    } else {
        match spec_prefix_exp(t, r) {
            Err(e) => Err(e),
            Ok((r2, last)) => {
                if !(p < r2 <= t.len()) {
                    Err((r2, ErrorKind::Alt))
                } else if !at(t, r2, SpecToken::Equals) {
                    Err(tag_error(t, r2))
                } else {
                    match spec_expression_list(t, r2 + 1) {
                        Err(e) => Err(e),
                        Ok((r3, values)) => Ok(
                            (
                                r3,
                                SpecStatement::Assignment {
                                    variables: seq![first] + more + seq![last],
                                    values: values,
                                },
                            ),
                        ),
                    }
                }
            },
        }
    }
}

/// The repetition of `prefixexp ','` after the variables `acc`.
pub open spec fn spec_variables_tail(t: Seq<SpecToken>, p: int, acc: Seq<SpecExpression>) -> (int, Seq<SpecExpression>)
    decreases t.len() - p, 96int,
{
    if !(0 <= p <= t.len()) {
        (p, acc)
    } else {
        match spec_prefix_exp(t, p) {
            Ok((q, e)) => {
                if p < q && at(t, q, SpecToken::Comma) {
                    spec_variables_tail(t, q + 1, acc.push(e))
                } else {
                    (p, acc)
                }
            },
            Err(_) => (p, acc),
        }
    }
}

/// `retstat ::= return [explist] [';']`.
pub open spec fn spec_return_statement(t: Seq<SpecToken>, p: int) -> PRes<Seq<SpecExpression>>
    decreases t.len() - p, 97int,
{
    if !at(t, p, SpecToken::Return) {
        Err(tag_error(t, p))
    } else {
        let (q, list) = match spec_expression_list(t, p + 1) {
            Ok((q, list)) => (q, list),
            Err(_) => (p + 1, Seq::empty()),
        };
        if at(t, q, SpecToken::Semicolon) {
            Ok((q + 1, list))
        } else {
            Ok((q, list))
        }
    }
}

/// `block ::= {stat} [retstat]`: statements until the input ends, a token
/// that ends blocks, a `return` statement (which ends the block) or a
/// statement that does not parse. A block never fails.
pub open spec fn spec_block(t: Seq<SpecToken>, p: int) -> PRes<SpecBlock>
    decreases t.len() - p, 101int,
{
    spec_block_from(t, p, Seq::empty())
}

/// The rest of a block after the statements `acc`.
pub open spec fn spec_block_from(t: Seq<SpecToken>, p: int, acc: Seq<SpecStatement>) -> PRes<SpecBlock>
    decreases t.len() - p, 100int,
{
    if !(0 <= p < t.len()) || ends_block(t[p]) {
        Ok((p, SpecBlock { statements: acc, return_statement: None }))
    } else {
        match spec_return_statement(t, p) {
            Ok((q, ret)) => Ok((q, SpecBlock { statements: acc, return_statement: Some(ret) })),
            Err(_) => match spec_statement(t, p) {
                Ok((q, s)) => {
                    if p < q <= t.len() {
                        spec_block_from(t, q, acc.push(s))
                    } else {
                        Ok((p, SpecBlock { statements: acc, return_statement: None }))
                    }
                },
                Err(_) => Ok((p, SpecBlock { statements: acc, return_statement: None })),
            },
        }
    }
}

/// `chunk ::= block`, the block taking the whole input: where tokens are
/// left after the block, the failure is at the first of them.
pub open spec fn spec_chunk(t: Seq<SpecToken>) -> PRes<SpecBlock> {
    match spec_block(t, 0) {
        Ok((q, b)) => if q == t.len() {
            Ok((q, b))
        } else {
            Err((q, ErrorKind::Eof))
        },
        Err(e) => Err(e),
    }
}


/// A numeric `for` takes its start and its limit in source order: when a
/// statement parses as `for v = e1, e2 [, e3] do ... end`, the statement
/// begins with `for`, the name and `=`, its start is the expression read
/// right after the `=`, a comma follows that expression, and its limit is
/// the expression read right after that comma.
pub proof fn lemma_numeric_for_operands(t: Seq<SpecToken>, p: int)
    requires
        spec_statement(t, p) matches Ok((_, SpecStatement::ForNumeric { .. })),
    ensures
        ({
            let s = spec_statement(t, p)->Ok_0.1;
            &&& at(t, p, SpecToken::For)
            &&& tok_at(t, p + 1) == Some(SpecToken::Identifier(s->var))
            &&& at(t, p + 2, SpecToken::Equals)
            &&& exists|q: int|
                #![trigger spec_expression(t, q + 1)]
                spec_expression(t, p + 3) == Ok::<(int, SpecExpression), (int, ErrorKind)>(
                    (q, s->start),
                ) && at(t, q, SpecToken::Comma) && spec_expression(t, q + 1) is Ok
                    && spec_expression(t, q + 1)->Ok_0.1 == s->end
        }),
{
    let s = spec_statement(t, p)->Ok_0.1;
    assert(spec_for(t, p) == spec_statement(t, p));
    match tok_at(t, p + 1) {
        Some(SpecToken::Identifier(var)) => {
            if at(t, p + 2, SpecToken::Equals) {
                let q = spec_expression(t, p + 3)->Ok_0.0;
                assert(spec_expression(t, q + 1)->Ok_0.1 == s->end);
            }
        },
        _ => {},
    }
}

} // verus!
