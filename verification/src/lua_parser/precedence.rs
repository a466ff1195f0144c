//! Binary expressions by precedence climbing: an operand is a unary
//! expression, and an operator binds its right operand at its own level
//! (right associative) or at the next tighter level (left associative).
use vstd::prelude::*;
use crate::lua_parser_types::{BinaryOp, Expression, SpecExpression, SpecToken, Token};
use crate::lua_parser::grammar::{ErrorKind, PRes, level_op, spec_unary};
use crate::lua_parser::expression::parse_unary_at;
use crate::lua_parser::{
    IResult, PResult, TokenSlice, advances, expr_result, from_position, slice_result, tokens_view,
};

verus! {

broadcast use {crate::lua_parser::lemma_tokens_view_len, crate::lua_parser::lemma_tokens_view_index};

/// Binding strength of binary operators, from loosest to tightest.
#[derive(Debug, Clone, Copy, PartialEq, Eq, Structural)]
pub enum Precedence {
    Or,
    And,
    /// `<`, `<=`, `>`, `>=`, `==`, `~=`
    RelationalEq,
    BitOr,
    BitXor,
    BitAnd,
    /// `<<`, `>>`
    Shift,
    /// `..` (right associative)
    Concat,
    /// `+`, `-`
    Additive,
    /// `*`, `/`, `//`, `%`
    Multiplicative,
    /// The level of the prefix operators.
    UnaryBitNot,
    /// `^` (right associative)
    Exponent,
}

/// The rank of a level: 0 for the loosest, 11 for the tightest.
pub open spec fn rank(p: Precedence) -> int {
    match p {
        Precedence::Or => 0,
        Precedence::And => 1,
        Precedence::RelationalEq => 2,
        Precedence::BitOr => 3,
        Precedence::BitXor => 4,
        Precedence::BitAnd => 5,
        Precedence::Shift => 6,
        Precedence::Concat => 7,
        Precedence::Additive => 8,
        Precedence::Multiplicative => 9,
        Precedence::UnaryBitNot => 10,
        Precedence::Exponent => 11,
    }
}

/// The level of a binary operator.
pub open spec fn level_of(op: BinaryOp) -> Precedence {
    match op {
        BinaryOp::Or => Precedence::Or,
        BinaryOp::And => Precedence::And,
        BinaryOp::Lt | BinaryOp::Lte | BinaryOp::Gt | BinaryOp::Gte | BinaryOp::Eq
        | BinaryOp::Neq => Precedence::RelationalEq,
        BinaryOp::BitOr => Precedence::BitOr,
        BinaryOp::BitXor => Precedence::BitXor,
        BinaryOp::BitAnd => Precedence::BitAnd,
        BinaryOp::Concat => Precedence::Concat,
        BinaryOp::LeftShift | BinaryOp::RightShift => Precedence::Shift,
        BinaryOp::Add | BinaryOp::Subtract => Precedence::Additive,
        BinaryOp::Multiply | BinaryOp::Divide | BinaryOp::FloorDivide | BinaryOp::Modulo => Precedence::Multiplicative,
        BinaryOp::Power => Precedence::Exponent,
    }
}

/// The next tighter level; the tightest is its own next.
pub open spec fn tighter(p: Precedence) -> Precedence {
    match p {
        Precedence::Or => Precedence::And,
        Precedence::And => Precedence::RelationalEq,
        Precedence::RelationalEq => Precedence::BitOr,
        Precedence::BitOr => Precedence::BitXor,
        Precedence::BitXor => Precedence::BitAnd,
        Precedence::BitAnd => Precedence::Shift,
        Precedence::Shift => Precedence::Concat,
        Precedence::Concat => Precedence::Additive,
        Precedence::Additive => Precedence::Multiplicative,
        Precedence::Multiplicative => Precedence::UnaryBitNot,
        Precedence::UnaryBitNot => Precedence::Exponent,
        Precedence::Exponent => Precedence::Exponent,
    }
}

/// The binary operators bind, loosest first, in Lua's order: `or`, `and`,
/// the comparisons, `|`, `~`, `&`, the shifts, `..`, `+ -`, `* / // %`,
/// and `^`.
pub proof fn lemma_operator_order()
    ensures
        rank(level_of(BinaryOp::Or)) < rank(level_of(BinaryOp::And)),
        rank(level_of(BinaryOp::And)) < rank(level_of(BinaryOp::Lt)),
        rank(level_of(BinaryOp::Lt)) == rank(level_of(BinaryOp::Eq)),
        rank(level_of(BinaryOp::Eq)) < rank(level_of(BinaryOp::BitOr)),
        rank(level_of(BinaryOp::BitOr)) < rank(level_of(BinaryOp::BitXor)),
        rank(level_of(BinaryOp::BitXor)) < rank(level_of(BinaryOp::BitAnd)),
        rank(level_of(BinaryOp::BitAnd)) < rank(level_of(BinaryOp::LeftShift)),
        rank(level_of(BinaryOp::LeftShift)) == rank(level_of(BinaryOp::RightShift)),
        rank(level_of(BinaryOp::RightShift)) < rank(level_of(BinaryOp::Concat)),
        rank(level_of(BinaryOp::Concat)) < rank(level_of(BinaryOp::Add)),
        rank(level_of(BinaryOp::Add)) == rank(level_of(BinaryOp::Subtract)),
        rank(level_of(BinaryOp::Subtract)) < rank(level_of(BinaryOp::Multiply)),
        rank(level_of(BinaryOp::Multiply)) == rank(level_of(BinaryOp::FloorDivide)),
        rank(level_of(BinaryOp::FloorDivide)) == rank(level_of(BinaryOp::Modulo)),
        rank(level_of(BinaryOp::Modulo)) < rank(level_of(BinaryOp::Power)),
        forall|p: Precedence| p != Precedence::Exponent ==> rank(tighter(p)) == rank(p) + 1,
{
}

/// The two expression parsers read the same operator from the same token:
/// the operator the level-by-level grammar reads from a token is the one
/// the precedence climber reads from it; two tokens never stand for the
/// same operator, nor one token at two levels; and every binary-operator
/// token but `^` (read by its own rule) belongs to a level.
pub proof fn lemma_level_ops_agree(level: int, tok: SpecToken, level2: int, tok2: SpecToken)
    ensures
        level_op(level, tok) matches Some(op) ==> binop_of(tok) == Some(op) && op
            != BinaryOp::Power,
        level_op(level, tok) is Some && level_op(level2, tok2) == level_op(level, tok) ==> tok2
            == tok && level2 == level,
        binop_of(tok) matches Some(op) ==> op == BinaryOp::Power || level_op(
            rank_in_grammar(op),
            tok,
        ) == Some(op),
{
}

/// The level of the level-by-level grammar that reads `op`.
pub open spec fn rank_in_grammar(op: BinaryOp) -> int {
    match op {
        BinaryOp::Or => 0,
        BinaryOp::And => 1,
        BinaryOp::Eq | BinaryOp::Neq => 2,
        BinaryOp::Lt | BinaryOp::Lte | BinaryOp::Gt | BinaryOp::Gte => 3,
        BinaryOp::BitAnd | BinaryOp::BitOr | BinaryOp::BitXor | BinaryOp::LeftShift
        | BinaryOp::RightShift => 4,
        BinaryOp::Concat => 5,
        BinaryOp::Add | BinaryOp::Subtract => 6,
        BinaryOp::Multiply | BinaryOp::Divide | BinaryOp::FloorDivide | BinaryOp::Modulo => 7,
        BinaryOp::Power => 8,
    }
}

/// Whether operators of a level group to the right: `..` and `^`.
pub open spec fn right_associative(p: Precedence) -> bool {
    p == Precedence::Concat || p == Precedence::Exponent
}

/// The binary operator a token stands for.
pub open spec fn binop_of(tok: SpecToken) -> Option<BinaryOp> {
    match tok {
        SpecToken::Plus => Some(BinaryOp::Add),
        SpecToken::Minus => Some(BinaryOp::Subtract),
        SpecToken::Star => Some(BinaryOp::Multiply),
        SpecToken::Slash => Some(BinaryOp::Divide),
        SpecToken::DoubleSlash => Some(BinaryOp::FloorDivide),
        SpecToken::Percent => Some(BinaryOp::Modulo),
        SpecToken::Caret => Some(BinaryOp::Power),
        SpecToken::Concat => Some(BinaryOp::Concat),
        SpecToken::Ampersand => Some(BinaryOp::BitAnd),
        SpecToken::Pipe => Some(BinaryOp::BitOr),
        SpecToken::Tilde => Some(BinaryOp::BitXor),
        SpecToken::LShift => Some(BinaryOp::LeftShift),
        SpecToken::RShift => Some(BinaryOp::RightShift),
        SpecToken::Lt => Some(BinaryOp::Lt),
        SpecToken::Lte => Some(BinaryOp::Lte),
        SpecToken::Gt => Some(BinaryOp::Gt),
        SpecToken::Gte => Some(BinaryOp::Gte),
        SpecToken::Eq => Some(BinaryOp::Eq),
        SpecToken::Neq => Some(BinaryOp::Neq),
        SpecToken::And => Some(BinaryOp::And),
        SpecToken::Or => Some(BinaryOp::Or),
        _ => None,
    }
}

/// The level at which the right operand of an operator of level `p` is
/// read.
pub open spec fn operand_level(p: Precedence) -> Precedence {
    if right_associative(p) {
        p
    } else {
        tighter(p)
    }
}

/// A binary expression whose operators are of level `min` or tighter: a
/// unary expression, then the operators that follow.
pub open spec fn spec_binary(t: Seq<SpecToken>, p: int, min: Precedence) -> PRes<SpecExpression>
    decreases t.len() - p, 2int,
{
    match spec_unary(t, p) {
        Err(e) => Err(e),
        Ok((q, left)) => {
            if p < q <= t.len() {
                spec_binary_rest(t, q, min, left)
            } else {
                Ok((q, left))
            }
        },
    }
}

/// The operators of level `min` or tighter after `left`, each with its
/// right operand; a failing right operand fails the whole.
pub open spec fn spec_binary_rest(t: Seq<SpecToken>, p: int, min: Precedence, left: SpecExpression) -> PRes<SpecExpression>
    decreases t.len() - p, 1int,
{
    if !(0 <= p < t.len()) {
        Ok((p, left))
    } else {
        match binop_of(t[p]) {
            None => Ok((p, left)),
            Some(op) => {
                if rank(level_of(op)) < rank(min) {
                    Ok((p, left))
                } else {
                    match spec_binary(t, p + 1, operand_level(level_of(op))) {
                        Err(e) => Err(e),
                        Ok((q, right)) => {
                            let e = SpecExpression::BinaryOp {
                                left: Box::new(left),
                                op: op,
                                right: Box::new(right),
                            };
                            if p < q <= t.len() {
                                spec_binary_rest(t, q, min, e)
                            } else {
                                Ok((q, e))
                            }
                        },
                    }
                }
            },
        }
    }
}

impl Precedence {
    /// The level of a binary operator.
    pub fn of(op: &BinaryOp) -> (r: Self)
        ensures
            r == level_of(*op),
    {
        match op {
            BinaryOp::Or => Precedence::Or,
            BinaryOp::And => Precedence::And,
            BinaryOp::Lt | BinaryOp::Lte | BinaryOp::Gt | BinaryOp::Gte | BinaryOp::Eq
            | BinaryOp::Neq => Precedence::RelationalEq,
            BinaryOp::BitOr => Precedence::BitOr,
            BinaryOp::BitXor => Precedence::BitXor,
            BinaryOp::BitAnd => Precedence::BitAnd,
            BinaryOp::Concat => Precedence::Concat,
            BinaryOp::LeftShift | BinaryOp::RightShift => Precedence::Shift,
            BinaryOp::Add | BinaryOp::Subtract => Precedence::Additive,
            BinaryOp::Multiply | BinaryOp::Divide | BinaryOp::FloorDivide | BinaryOp::Modulo => {
                Precedence::Multiplicative
            },
            BinaryOp::Power => Precedence::Exponent,
        }
    }

    /// Whether operators of this level group to the right.
    pub fn is_right_associative(&self) -> (r: bool)
        ensures
            r == right_associative(*self),
    {
        match self {
            Precedence::Concat | Precedence::Exponent => true,
            _ => false,
        }
    }

    /// The next tighter level (the tightest stays).
    pub fn next_level(&self) -> (r: Self)
        ensures
            r == tighter(*self),
    {
        match self {
            Precedence::Or => Precedence::And,
            Precedence::And => Precedence::RelationalEq,
            Precedence::RelationalEq => Precedence::BitOr,
            Precedence::BitOr => Precedence::BitXor,
            Precedence::BitXor => Precedence::BitAnd,
            Precedence::BitAnd => Precedence::Shift,
            Precedence::Shift => Precedence::Concat,
            Precedence::Concat => Precedence::Additive,
            Precedence::Additive => Precedence::Multiplicative,
            Precedence::Multiplicative => Precedence::UnaryBitNot,
            Precedence::UnaryBitNot => Precedence::Exponent,
            Precedence::Exponent => Precedence::Exponent,
        }
    }

    /// The rank of the level, 0 for the loosest.
    pub fn rank(&self) -> (r: u8)
        ensures
            r == rank(*self),
    {
        match self {
            Precedence::Or => 0,
            Precedence::And => 1,
            Precedence::RelationalEq => 2,
            Precedence::BitOr => 3,
            Precedence::BitXor => 4,
            Precedence::BitAnd => 5,
            Precedence::Shift => 6,
            Precedence::Concat => 7,
            Precedence::Additive => 8,
            Precedence::Multiplicative => 9,
            Precedence::UnaryBitNot => 10,
            Precedence::Exponent => 11,
        }
    }
}

/// The binary operator the first token of `t` stands for.
pub fn token_to_binop(t: TokenSlice) -> (r: Option<BinaryOp>)
    ensures
        r == (if t.0@.len() > 0 {
            binop_of(t.0@[0]@)
        } else {
            None
        }),
{
    if t.0.len() == 0 {
        return None;
    }
    match &t.0[0] {
        Token::Plus => Some(BinaryOp::Add),
        Token::Minus => Some(BinaryOp::Subtract),
        Token::Star => Some(BinaryOp::Multiply),
        Token::Slash => Some(BinaryOp::Divide),
        Token::DoubleSlash => Some(BinaryOp::FloorDivide),
        Token::Percent => Some(BinaryOp::Modulo),
        Token::Caret => Some(BinaryOp::Power),
        Token::Concat => Some(BinaryOp::Concat),
        Token::Ampersand => Some(BinaryOp::BitAnd),
        Token::Pipe => Some(BinaryOp::BitOr),
        Token::Tilde => Some(BinaryOp::BitXor),
        Token::LShift => Some(BinaryOp::LeftShift),
        Token::RShift => Some(BinaryOp::RightShift),
        Token::Lt => Some(BinaryOp::Lt),
        Token::Lte => Some(BinaryOp::Lte),
        Token::Gt => Some(BinaryOp::Gt),
        Token::Gte => Some(BinaryOp::Gte),
        Token::Eq => Some(BinaryOp::Eq),
        Token::Neq => Some(BinaryOp::Neq),
        Token::And => Some(BinaryOp::And),
        Token::Or => Some(BinaryOp::Or),
        _ => None,
    }
}

/// A binary expression of level `min` or tighter at `p`.
pub fn parse_binary_op_at(t: &[Token], p: usize, min: Precedence) -> (r: PResult<Expression>)
    requires
        p <= t@.len(),
    ensures
        expr_result(r, spec_binary(tokens_view(t@), p as int, min)),
        advances(r, p as int, t@.len() as int, true),
    decreases t@.len() - p, 2int,
{
    let ghost tv = tokens_view(t@);
    let (q, left) = match parse_unary_at(t, p) {
        Err(e) => {
            return Err(e);
        },
        Ok(x) => x,
    };
    let mut pos = q;
    let mut cur = left;
    loop
        invariant
            p < q <= pos <= t@.len(),
            tv == tokens_view(t@),
            spec_binary(tv, p as int, min) == spec_binary_rest(tv, pos as int, min, cur@),
        decreases t@.len() - pos,
    {
        if pos >= t.len() {
            return Ok((pos, cur));
        }
        let (_, rest) = t.split_at(pos);
        let op = match token_to_binop(TokenSlice(rest)) {
            None => {
                return Ok((pos, cur));
            },
            Some(op) => op,
        };
        let level = Precedence::of(&op);
        if level.rank() < min.rank() {
            return Ok((pos, cur));
        }
        let next = if level.is_right_associative() {
            level
        } else {
            level.next_level()
        };
        match parse_binary_op_at(t, pos + 1, next) {
            Err(e) => {
                return Err(e);
            },
            Ok((q2, right)) => {
                cur = Expression::BinaryOp { left: Box::new(cur), op: op, right: Box::new(right) };
                pos = q2;
            },
        }
    }
}

/// Parse binary operations of level `min_prec` or tighter by precedence
/// climbing.
pub fn parse_binary_op<'a>(t: TokenSlice<'a>, min_prec: Precedence) -> (r: IResult<'a, Expression>)
    ensures
        slice_result(t, r, spec_binary(tokens_view(t.0@), 0, min_prec), |x: Expression| x@),
{
    from_position(t, parse_binary_op_at(t.0, 0, min_prec))
}

/// Parse a full expression by precedence climbing.
pub fn parse_expr<'a>(t: TokenSlice<'a>) -> (r: IResult<'a, Expression>)
    ensures
        slice_result(t, r, spec_binary(tokens_view(t.0@), 0, Precedence::Or), |x: Expression| x@),
{
    parse_binary_op(t, Precedence::Or)
}

} // verus!
