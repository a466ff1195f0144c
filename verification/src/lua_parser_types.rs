//! Tokens and syntax tree of Lua programs, with their mathematical views
//! (strings as character sequences, vectors as sequences) used in contracts.
use vstd::prelude::*;

verus! {

broadcast use vstd::std_specs::vec::axiom_vec_index_decreases;

/// A lexical token of Lua source code.
#[derive(Debug, Clone, PartialEq, Eq)]
pub enum Token {
    And,
    Break,
    Do,
    Else,
    Elseif,
    End,
    False,
    For,
    Function,
    Goto,
    If,
    In,
    Local,
    Nil,
    Not,
    Or,
    Repeat,
    Return,
    Then,
    True,
    Until,
    While,
    // Symbols
    Semicolon,
    Equals,
    Comma,
    Dot,
    Colon,
    DoubleColon,
    LParen,
    RParen,
    LBracket,
    RBracket,
    LBrace,
    RBrace,
    Plus,
    Minus,
    Star,
    Slash,
    DoubleSlash,
    Caret,
    Percent,
    Ampersand,
    Tilde,
    Pipe,
    RShift,
    LShift,
    Concat,
    Lt,
    Lte,
    Gt,
    Gte,
    Eq,
    Neq,
    Hash,
    Varargs,
    // Values
    Identifier(String),
    Number(String),
    StringLit(String),
}

/// The view of a token: its kind, with the text of identifiers, numerals and
/// string literals as character sequences.
pub enum SpecToken {
    And,
    Break,
    Do,
    Else,
    Elseif,
    End,
    False,
    For,
    Function,
    Goto,
    If,
    In,
    Local,
    Nil,
    Not,
    Or,
    Repeat,
    Return,
    Then,
    True,
    Until,
    While,
    Semicolon,
    Equals,
    Comma,
    Dot,
    Colon,
    DoubleColon,
    LParen,
    RParen,
    LBracket,
    RBracket,
    LBrace,
    RBrace,
    Plus,
    Minus,
    Star,
    Slash,
    DoubleSlash,
    Caret,
    Percent,
    Ampersand,
    Tilde,
    Pipe,
    RShift,
    LShift,
    Concat,
    Lt,
    Lte,
    Gt,
    Gte,
    Eq,
    Neq,
    Hash,
    Varargs,
    Identifier(Seq<char>),
    Number(Seq<char>),
    StringLit(Seq<char>),
}

impl View for Token {
    type V = SpecToken;

    open spec fn view(&self) -> SpecToken {
        match self {
            Token::And => SpecToken::And,
            Token::Break => SpecToken::Break,
            Token::Do => SpecToken::Do,
            Token::Else => SpecToken::Else,
            Token::Elseif => SpecToken::Elseif,
            Token::End => SpecToken::End,
            Token::False => SpecToken::False,
            Token::For => SpecToken::For,
            Token::Function => SpecToken::Function,
            Token::Goto => SpecToken::Goto,
            Token::If => SpecToken::If,
            Token::In => SpecToken::In,
            Token::Local => SpecToken::Local,
            Token::Nil => SpecToken::Nil,
            Token::Not => SpecToken::Not,
            Token::Or => SpecToken::Or,
            Token::Repeat => SpecToken::Repeat,
            Token::Return => SpecToken::Return,
            Token::Then => SpecToken::Then,
            Token::True => SpecToken::True,
            Token::Until => SpecToken::Until,
            Token::While => SpecToken::While,
            Token::Semicolon => SpecToken::Semicolon,
            Token::Equals => SpecToken::Equals,
            Token::Comma => SpecToken::Comma,
            Token::Dot => SpecToken::Dot,
            Token::Colon => SpecToken::Colon,
            Token::DoubleColon => SpecToken::DoubleColon,
            Token::LParen => SpecToken::LParen,
            Token::RParen => SpecToken::RParen,
            Token::LBracket => SpecToken::LBracket,
            Token::RBracket => SpecToken::RBracket,
            Token::LBrace => SpecToken::LBrace,
            Token::RBrace => SpecToken::RBrace,
            Token::Plus => SpecToken::Plus,
            Token::Minus => SpecToken::Minus,
            Token::Star => SpecToken::Star,
            Token::Slash => SpecToken::Slash,
            Token::DoubleSlash => SpecToken::DoubleSlash,
            Token::Caret => SpecToken::Caret,
            Token::Percent => SpecToken::Percent,
            Token::Ampersand => SpecToken::Ampersand,
            Token::Tilde => SpecToken::Tilde,
            Token::Pipe => SpecToken::Pipe,
            Token::RShift => SpecToken::RShift,
            Token::LShift => SpecToken::LShift,
            Token::Concat => SpecToken::Concat,
            Token::Lt => SpecToken::Lt,
            Token::Lte => SpecToken::Lte,
            Token::Gt => SpecToken::Gt,
            Token::Gte => SpecToken::Gte,
            Token::Eq => SpecToken::Eq,
            Token::Neq => SpecToken::Neq,
            Token::Hash => SpecToken::Hash,
            Token::Varargs => SpecToken::Varargs,
            Token::Identifier(s) => SpecToken::Identifier(s@),
            Token::Number(s) => SpecToken::Number(s@),
            Token::StringLit(s) => SpecToken::StringLit(s@),
        }
    }
}

/// A block: statements followed by an optional `return`.
#[derive(Debug, PartialEq, Eq)]
pub struct Block {
    pub statements: Vec<Statement>,
    pub return_statement: Option<ReturnStatement>,
}

#[derive(Debug, PartialEq, Eq)]
pub enum Statement {
    Empty,
    Assignment { variables: Vec<Expression>, values: Vec<Expression> },
    FunctionCall(Expression),
    Break,
    Label(String),
    Goto(String),
    Do(Box<Block>),
    While { condition: Expression, body: Box<Block> },
    Repeat { body: Box<Block>, condition: Expression },
    If {
        condition: Expression,
        then_block: Box<Block>,
        elseif_parts: Vec<(Expression, Block)>,
        else_block: Option<Box<Block>>,
    },
    ForNumeric {
        var: String,
        start: Expression,
        end: Expression,
        step: Option<Expression>,
        body: Box<Block>,
    },
    ForGeneric { vars: Vec<String>, iterables: Vec<Expression>, body: Box<Block> },
    FunctionDecl { name: String, body: Box<FunctionBody> },
    LocalFunction { name: String, body: Box<FunctionBody> },
    LocalVars { names: Vec<String>, values: Option<Vec<Expression>> },
}

#[derive(Debug, PartialEq, Eq)]
pub struct ReturnStatement {
    pub expression_list: Vec<Expression>,
}

#[derive(Debug, PartialEq, Eq)]
pub enum Expression {
    Nil,
    Boolean(bool),
    Number(String),
    String(String),
    Varargs,
    Identifier(String),
    BinaryOp { left: Box<Expression>, op: BinaryOp, right: Box<Expression> },
    UnaryOp { op: UnaryOp, operand: Box<Expression> },
    TableIndexing { object: Box<Expression>, index: Box<Expression> },
    FieldAccess { object: Box<Expression>, field: String },
    FunctionCall { function: Box<Expression>, args: Vec<Expression> },
    MethodCall { object: Box<Expression>, method: String, args: Vec<Expression> },
    TableConstructor { fields: Vec<Field> },
    FunctionDef(Box<FunctionBody>),
}

#[derive(Debug, Clone, Copy, PartialEq, Eq, Structural)]
pub enum BinaryOp {
    Add,
    Subtract,
    Multiply,
    Divide,
    FloorDivide,
    Modulo,
    Power,
    Concat,
    BitAnd,
    BitOr,
    BitXor,
    LeftShift,
    RightShift,
    Lt,
    Lte,
    Gt,
    Gte,
    Eq,
    Neq,
    And,
    Or,
}

#[derive(Debug, Clone, Copy, PartialEq, Eq, Structural)]
pub enum UnaryOp {
    Minus,
    Not,
    BitNot,
    Length,
}

#[derive(Debug, PartialEq, Eq)]
pub struct Field {
    pub key: FieldKey,
    pub value: Expression,
}

#[derive(Debug, PartialEq, Eq)]
pub enum FieldKey {
    Bracket(Box<Expression>),
    Identifier(String),
    Index(usize),
}

#[derive(Debug, PartialEq, Eq)]
pub struct FunctionBody {
    pub params: Vec<String>,
    pub varargs: bool,
    pub block: Box<Block>,
}

/// View of a block.
pub struct SpecBlock {
    pub statements: Seq<SpecStatement>,
    pub return_statement: Option<Seq<SpecExpression>>,
}

/// View of a statement.
pub enum SpecStatement {
    Empty,
    Assignment { variables: Seq<SpecExpression>, values: Seq<SpecExpression> },
    FunctionCall(SpecExpression),
    Break,
    Label(Seq<char>),
    Goto(Seq<char>),
    Do(Box<SpecBlock>),
    While { condition: SpecExpression, body: Box<SpecBlock> },
    Repeat { body: Box<SpecBlock>, condition: SpecExpression },
    If {
        condition: SpecExpression,
        then_block: Box<SpecBlock>,
        elseif_parts: Seq<(SpecExpression, SpecBlock)>,
        else_block: Option<Box<SpecBlock>>,
    },
    ForNumeric {
        var: Seq<char>,
        start: SpecExpression,
        end: SpecExpression,
        step: Option<SpecExpression>,
        body: Box<SpecBlock>,
    },
    ForGeneric { vars: Seq<Seq<char>>, iterables: Seq<SpecExpression>, body: Box<SpecBlock> },
    FunctionDecl { name: Seq<char>, body: Box<SpecFunctionBody> },
    LocalFunction { name: Seq<char>, body: Box<SpecFunctionBody> },
    LocalVars { names: Seq<Seq<char>>, values: Option<Seq<SpecExpression>> },
}

/// View of an expression.
pub enum SpecExpression {
    Nil,
    Boolean(bool),
    Number(Seq<char>),
    Str(Seq<char>),
    Varargs,
    Identifier(Seq<char>),
    BinaryOp { left: Box<SpecExpression>, op: BinaryOp, right: Box<SpecExpression> },
    UnaryOp { op: UnaryOp, operand: Box<SpecExpression> },
    TableIndexing { object: Box<SpecExpression>, index: Box<SpecExpression> },
    FieldAccess { object: Box<SpecExpression>, field: Seq<char> },
    FunctionCall { function: Box<SpecExpression>, args: Seq<SpecExpression> },
    MethodCall { object: Box<SpecExpression>, method: Seq<char>, args: Seq<SpecExpression> },
    TableConstructor { fields: Seq<SpecField> },
    FunctionDef(Box<SpecFunctionBody>),
}

/// View of a table-constructor field.
pub struct SpecField {
    pub key: SpecFieldKey,
    pub value: SpecExpression,
}

/// View of a field key.
pub enum SpecFieldKey {
    Bracket(Box<SpecExpression>),
    Identifier(Seq<char>),
    Index(nat),
}

/// View of a function body.
pub struct SpecFunctionBody {
    pub params: Seq<Seq<char>>,
    pub varargs: bool,
    pub block: Box<SpecBlock>,
}

/// The view of a binary operator is itself.
impl View for BinaryOp {
    type V = BinaryOp;

    open spec fn view(&self) -> BinaryOp {
        *self
    }
}

/// The view of a unary operator is itself.
impl View for UnaryOp {
    type V = UnaryOp;

    open spec fn view(&self) -> UnaryOp {
        *self
    }
}

/// The character sequences of a sequence of strings.
pub open spec fn strings_view(s: Seq<String>) -> Seq<Seq<char>> {
    s.map_values(|x: String| x@)
}

/// The view of an expression.
pub open spec fn expr_view(e: Expression) -> SpecExpression
    decreases e,
{
    match e {
        Expression::Nil => SpecExpression::Nil,
        Expression::Boolean(b) => SpecExpression::Boolean(b),
        Expression::Number(s) => SpecExpression::Number(s@),
        Expression::String(s) => SpecExpression::Str(s@),
        Expression::Varargs => SpecExpression::Varargs,
        Expression::Identifier(s) => SpecExpression::Identifier(s@),
        Expression::BinaryOp { left, op, right } => SpecExpression::BinaryOp {
            left: Box::new(expr_view(*left)),
            op: op,
            right: Box::new(expr_view(*right)),
        },
        Expression::UnaryOp { op, operand } => SpecExpression::UnaryOp {
            op: op,
            operand: Box::new(expr_view(*operand)),
        },
        Expression::TableIndexing { object, index } => SpecExpression::TableIndexing {
            object: Box::new(expr_view(*object)),
            index: Box::new(expr_view(*index)),
        },
        Expression::FieldAccess { object, field } => SpecExpression::FieldAccess {
            object: Box::new(expr_view(*object)),
            field: field@,
        },
        Expression::FunctionCall { function, args } => SpecExpression::FunctionCall {
            function: Box::new(expr_view(*function)),
            args: exprs_view(args@),
        },
        Expression::MethodCall { object, method, args } => SpecExpression::MethodCall {
            object: Box::new(expr_view(*object)),
            method: method@,
            args: exprs_view(args@),
        },
        Expression::TableConstructor { fields } => SpecExpression::TableConstructor {
            fields: fields_view(fields@),
        },
        Expression::FunctionDef(body) => SpecExpression::FunctionDef(Box::new(funcbody_view(*body))),
    }
}

/// The views of a sequence of expressions.
pub open spec fn exprs_view(s: Seq<Expression>) -> Seq<SpecExpression>
    decreases s,
{
    if s.len() == 0 {
        Seq::empty()
    } else {
        exprs_view(s.drop_last()).push(expr_view(s.last()))
    }
}

/// The view of the key of a table-constructor field.
pub open spec fn key_view(k: FieldKey) -> SpecFieldKey
    decreases k,
{
    match k {
        FieldKey::Bracket(e) => SpecFieldKey::Bracket(Box::new(expr_view(*e))),
        FieldKey::Identifier(s) => SpecFieldKey::Identifier(s@),
        FieldKey::Index(n) => SpecFieldKey::Index(n as nat),
    }
}

/// The view of a table-constructor field.
pub open spec fn field_view(f: Field) -> SpecField
    decreases f,
{
    SpecField { key: key_view(f.key), value: expr_view(f.value) }
}

/// The views of a sequence of fields.
pub open spec fn fields_view(s: Seq<Field>) -> Seq<SpecField>
    decreases s,
{
    if s.len() == 0 {
        Seq::empty()
    } else {
        fields_view(s.drop_last()).push(field_view(s.last()))
    }
}

/// The view of a function body.
pub open spec fn funcbody_view(f: FunctionBody) -> SpecFunctionBody
    decreases f,
{
    SpecFunctionBody {
        params: strings_view(f.params@),
        varargs: f.varargs,
        block: Box::new(block_view(*f.block)),
    }
}

/// The view of a block.
pub open spec fn block_view(b: Block) -> SpecBlock
    decreases b,
{
    SpecBlock {
        statements: stmts_view(b.statements@),
        return_statement: match b.return_statement {
            Some(r) => Some(exprs_view(r.expression_list@)),
            None => None,
        },
    }
}

/// The views of a sequence of statements.
pub open spec fn stmts_view(s: Seq<Statement>) -> Seq<SpecStatement>
    decreases s,
{
    if s.len() == 0 {
        Seq::empty()
    } else {
        stmts_view(s.drop_last()).push(stmt_view(s.last()))
    }
}

/// The views of the `elseif` parts of an `if` statement.
pub open spec fn elseifs_view(s: Seq<(Expression, Block)>) -> Seq<(SpecExpression, SpecBlock)>
    decreases s,
{
    if s.len() == 0 {
        Seq::empty()
    } else {
        elseifs_view(s.drop_last()).push((expr_view(s.last().0), block_view(s.last().1)))
    }
}

/// The view of a statement.
pub open spec fn stmt_view(s: Statement) -> SpecStatement
    decreases s,
{
    match s {
        Statement::Empty => SpecStatement::Empty,
        Statement::Assignment { variables, values } => SpecStatement::Assignment {
            variables: exprs_view(variables@),
            values: exprs_view(values@),
        },
        Statement::FunctionCall(e) => SpecStatement::FunctionCall(expr_view(e)),
        Statement::Break => SpecStatement::Break,
        Statement::Label(s) => SpecStatement::Label(s@),
        Statement::Goto(s) => SpecStatement::Goto(s@),
        Statement::Do(b) => SpecStatement::Do(Box::new(block_view(*b))),
        Statement::While { condition, body } => SpecStatement::While {
            condition: expr_view(condition),
            body: Box::new(block_view(*body)),
        },
        Statement::Repeat { body, condition } => SpecStatement::Repeat {
            body: Box::new(block_view(*body)),
            condition: expr_view(condition),
        },
        Statement::If { condition, then_block, elseif_parts, else_block } => SpecStatement::If {
            condition: expr_view(condition),
            then_block: Box::new(block_view(*then_block)),
            elseif_parts: elseifs_view(elseif_parts@),
            else_block: match else_block {
                Some(b) => Some(Box::new(block_view(*b))),
                None => None,
            },
        },
        Statement::ForNumeric { var, start, end, step, body } => SpecStatement::ForNumeric {
            var: var@,
            start: expr_view(start),
            end: expr_view(end),
            step: match step {
                Some(e) => Some(expr_view(e)),
                None => None,
            },
            body: Box::new(block_view(*body)),
        },
        Statement::ForGeneric { vars, iterables, body } => SpecStatement::ForGeneric {
            vars: strings_view(vars@),
            iterables: exprs_view(iterables@),
            body: Box::new(block_view(*body)),
        },
        Statement::FunctionDecl { name, body } => SpecStatement::FunctionDecl {
            name: name@,
            body: Box::new(funcbody_view(*body)),
        },
        Statement::LocalFunction { name, body } => SpecStatement::LocalFunction {
            name: name@,
            body: Box::new(funcbody_view(*body)),
        },
        Statement::LocalVars { names, values } => SpecStatement::LocalVars {
            names: strings_view(names@),
            values: match values {
                Some(v) => Some(exprs_view(v@)),
                None => None,
            },
        },
    }
}

impl View for Expression {
    type V = SpecExpression;

    open spec fn view(&self) -> SpecExpression {
        expr_view(*self)
    }
}

impl View for Statement {
    type V = SpecStatement;

    open spec fn view(&self) -> SpecStatement {
        stmt_view(*self)
    }
}

impl View for Block {
    type V = SpecBlock;

    open spec fn view(&self) -> SpecBlock {
        block_view(*self)
    }
}

impl View for Field {
    type V = SpecField;

    open spec fn view(&self) -> SpecField {
        field_view(*self)
    }
}

impl View for FunctionBody {
    type V = SpecFunctionBody;

    open spec fn view(&self) -> SpecFunctionBody {
        funcbody_view(*self)
    }
}

impl View for ReturnStatement {
    type V = Seq<SpecExpression>;

    open spec fn view(&self) -> Seq<SpecExpression> {
        exprs_view(self.expression_list@)
    }
}

/// Pushing an expression pushes its view.
pub proof fn lemma_exprs_view_push(s: Seq<Expression>, e: Expression)
    ensures
        exprs_view(s.push(e)) == exprs_view(s).push(expr_view(e)),
{
    assert(s.push(e).drop_last() =~= s);
}

/// The views of two lists of expressions joined are their views joined.
pub proof fn lemma_exprs_view_concat(a: Seq<Expression>, b: Seq<Expression>)
    ensures
        exprs_view(a + b) == exprs_view(a) + exprs_view(b),
    decreases b.len(),
{
    if b.len() == 0 {
        assert(a + b =~= a);
        assert(exprs_view(a) + exprs_view(b) =~= exprs_view(a));
    } else {
        lemma_exprs_view_concat(a, b.drop_last());
        assert((a + b).drop_last() =~= a + b.drop_last());
        assert((a + b).last() == b.last());
        assert(exprs_view(a) + exprs_view(b) =~= (exprs_view(a) + exprs_view(b.drop_last())).push(
            expr_view(b.last()),
        ));
    }
}

/// Pushing a statement pushes its view.
pub proof fn lemma_stmts_view_push(s: Seq<Statement>, x: Statement)
    ensures
        stmts_view(s.push(x)) == stmts_view(s).push(stmt_view(x)),
{
    assert(s.push(x).drop_last() =~= s);
}

/// Pushing a field pushes its view.
pub proof fn lemma_fields_view_push(s: Seq<Field>, x: Field)
    ensures
        fields_view(s.push(x)) == fields_view(s).push(field_view(x)),
{
    assert(s.push(x).drop_last() =~= s);
}

/// Pushing an `elseif` part pushes its view.
pub proof fn lemma_elseifs_view_push(s: Seq<(Expression, Block)>, x: (Expression, Block))
    ensures
        elseifs_view(s.push(x)) == elseifs_view(s).push((expr_view(x.0), block_view(x.1))),
{
    assert(s.push(x).drop_last() =~= s);
}

/// Pushing a string pushes its characters.
pub proof fn lemma_strings_view_push(s: Seq<String>, x: String)
    ensures
        strings_view(s.push(x)) == strings_view(s).push(x@),
{
    assert(strings_view(s.push(x)) =~= strings_view(s).push(x@));
}

/// A copy of an expression.
pub fn clone_expr(e: &Expression) -> (r: Expression)
    ensures
        expr_view(r) == expr_view(*e),
    decreases e,
{
    match e {
        Expression::Nil => Expression::Nil,
        Expression::Boolean(b) => Expression::Boolean(*b),
        Expression::Number(s) => Expression::Number(s.clone()),
        Expression::String(s) => Expression::String(s.clone()),
        Expression::Varargs => Expression::Varargs,
        Expression::Identifier(s) => Expression::Identifier(s.clone()),
        Expression::BinaryOp { left, op, right } => Expression::BinaryOp {
            left: Box::new(clone_expr(left)),
            op: *op,
            right: Box::new(clone_expr(right)),
        },
        Expression::UnaryOp { op, operand } => Expression::UnaryOp {
            op: *op,
            operand: Box::new(clone_expr(operand)),
        },
        Expression::TableIndexing { object, index } => Expression::TableIndexing {
            object: Box::new(clone_expr(object)),
            index: Box::new(clone_expr(index)),
        },
        Expression::FieldAccess { object, field } => Expression::FieldAccess {
            object: Box::new(clone_expr(object)),
            field: field.clone(),
        },
        Expression::FunctionCall { function, args } => Expression::FunctionCall {
            function: Box::new(clone_expr(function)),
            args: clone_exprs(args),
        },
        Expression::MethodCall { object, method, args } => Expression::MethodCall {
            object: Box::new(clone_expr(object)),
            method: method.clone(),
            args: clone_exprs(args),
        },
        Expression::TableConstructor { fields } => Expression::TableConstructor {
            fields: clone_fields(fields),
        },
        Expression::FunctionDef(body) => Expression::FunctionDef(Box::new(clone_funcbody(body))),
    }
}

/// A copy of a list of expressions.
pub fn clone_exprs(v: &Vec<Expression>) -> (r: Vec<Expression>)
    ensures
        exprs_view(r@) == exprs_view(v@),
    decreases v,
{
    let mut r: Vec<Expression> = Vec::new();
    let mut i: usize = 0;
    while i < v.len()
        invariant
            i <= v@.len(),
            exprs_view(r@) == exprs_view(v@.take(i as int)),
        decreases v@.len() - i,
    {
        let x = clone_expr(&v[i]);
        proof {
            lemma_exprs_view_push(r@, x);
            lemma_exprs_view_push(v@.take(i as int), v@[i as int]);
            assert(v@.take(i + 1) =~= v@.take(i as int).push(v@[i as int]));
        }
        r.push(x);
        i = i + 1;
    }
    proof {
        assert(v@.take(v@.len() as int) =~= v@);
    }
    r
}

/// A copy of a table field.
pub fn clone_field(f: &Field) -> (r: Field)
    ensures
        field_view(r) == field_view(*f),
    decreases f,
{
    let key = match &f.key {
        FieldKey::Bracket(e) => FieldKey::Bracket(Box::new(clone_expr(e))),
        FieldKey::Identifier(s) => FieldKey::Identifier(s.clone()),
        FieldKey::Index(n) => FieldKey::Index(*n),
    };
    Field { key: key, value: clone_expr(&f.value) }
}

/// A copy of a list of fields.
pub fn clone_fields(v: &Vec<Field>) -> (r: Vec<Field>)
    ensures
        fields_view(r@) == fields_view(v@),
    decreases v,
{
    let mut r: Vec<Field> = Vec::new();
    let mut i: usize = 0;
    while i < v.len()
        invariant
            i <= v@.len(),
            fields_view(r@) == fields_view(v@.take(i as int)),
        decreases v@.len() - i,
    {
        let x = clone_field(&v[i]);
        proof {
            lemma_fields_view_push(r@, x);
            lemma_fields_view_push(v@.take(i as int), v@[i as int]);
            assert(v@.take(i + 1) =~= v@.take(i as int).push(v@[i as int]));
        }
        r.push(x);
        i = i + 1;
    }
    proof {
        assert(v@.take(v@.len() as int) =~= v@);
    }
    r
}

/// A copy of a list of names.
pub fn clone_strings(v: &Vec<String>) -> (r: Vec<String>)
    ensures
        strings_view(r@) == strings_view(v@),
{
    let mut r: Vec<String> = Vec::new();
    let mut i: usize = 0;
    while i < v.len()
        invariant
            i <= v@.len(),
            strings_view(r@) == strings_view(v@.take(i as int)),
        decreases v@.len() - i,
    {
        let x = v[i].clone();
        proof {
            lemma_strings_view_push(r@, x);
            lemma_strings_view_push(v@.take(i as int), v@[i as int]);
            assert(v@.take(i + 1) =~= v@.take(i as int).push(v@[i as int]));
        }
        r.push(x);
        i = i + 1;
    }
    proof {
        assert(v@.take(v@.len() as int) =~= v@);
    }
    r
}

/// A copy of a function body.
pub fn clone_funcbody(f: &FunctionBody) -> (r: FunctionBody)
    ensures
        funcbody_view(r) == funcbody_view(*f),
    decreases f,
{
    FunctionBody {
        params: clone_strings(&f.params),
        varargs: f.varargs,
        block: Box::new(clone_block(&f.block)),
    }
}

/// A copy of a block.
pub fn clone_block(b: &Block) -> (r: Block)
    ensures
        block_view(r) == block_view(*b),
    decreases b,
{
    let statements = clone_stmts(&b.statements);
    let return_statement = match &b.return_statement {
        Some(ret) => Some(ReturnStatement { expression_list: clone_exprs(&ret.expression_list) }),
        None => None,
    };
    Block { statements: statements, return_statement: return_statement }
}

/// A copy of a list of statements.
pub fn clone_stmts(v: &Vec<Statement>) -> (r: Vec<Statement>)
    ensures
        stmts_view(r@) == stmts_view(v@),
    decreases v,
{
    let mut r: Vec<Statement> = Vec::new();
    let mut i: usize = 0;
    while i < v.len()
        invariant
            i <= v@.len(),
            stmts_view(r@) == stmts_view(v@.take(i as int)),
        decreases v@.len() - i,
    {
        let x = clone_stmt(&v[i]);
        proof {
            lemma_stmts_view_push(r@, x);
            lemma_stmts_view_push(v@.take(i as int), v@[i as int]);
            assert(v@.take(i + 1) =~= v@.take(i as int).push(v@[i as int]));
        }
        r.push(x);
        i = i + 1;
    }
    proof {
        assert(v@.take(v@.len() as int) =~= v@);
    }
    r
}

/// A copy of the `elseif` parts of an `if` statement.
pub fn clone_elseifs(v: &Vec<(Expression, Block)>) -> (r: Vec<(Expression, Block)>)
    ensures
        elseifs_view(r@) == elseifs_view(v@),
    decreases v,
{
    let mut r: Vec<(Expression, Block)> = Vec::new();
    let mut i: usize = 0;
    while i < v.len()
        invariant
            i <= v@.len(),
            elseifs_view(r@) == elseifs_view(v@.take(i as int)),
        decreases v@.len() - i,
    {
        let x = (clone_expr(&v[i].0), clone_block(&v[i].1));
        proof {
            lemma_elseifs_view_push(r@, x);
            lemma_elseifs_view_push(v@.take(i as int), v@[i as int]);
            assert(v@.take(i + 1) =~= v@.take(i as int).push(v@[i as int]));
        }
        r.push(x);
        i = i + 1;
    }
    proof {
        assert(v@.take(v@.len() as int) =~= v@);
    }
    r
}

/// A copy of a statement.
pub fn clone_stmt(s: &Statement) -> (r: Statement)
    ensures
        stmt_view(r) == stmt_view(*s),
    decreases s,
{
    match s {
        Statement::Empty => Statement::Empty,
        Statement::Assignment { variables, values } => Statement::Assignment {
            variables: clone_exprs(variables),
            values: clone_exprs(values),
        },
        Statement::FunctionCall(e) => Statement::FunctionCall(clone_expr(e)),
        Statement::Break => Statement::Break,
        Statement::Label(l) => Statement::Label(l.clone()),
        Statement::Goto(l) => Statement::Goto(l.clone()),
        Statement::Do(b) => Statement::Do(Box::new(clone_block(b))),
        Statement::While { condition, body } => Statement::While {
            condition: clone_expr(condition),
            body: Box::new(clone_block(body)),
        },
        Statement::Repeat { body, condition } => Statement::Repeat {
            body: Box::new(clone_block(body)),
            condition: clone_expr(condition),
        },
        Statement::If { condition, then_block, elseif_parts, else_block } => Statement::If {
            condition: clone_expr(condition),
            then_block: Box::new(clone_block(then_block)),
            elseif_parts: clone_elseifs(elseif_parts),
            else_block: match else_block {
                Some(b) => Some(Box::new(clone_block(b))),
                None => None,
            },
        },
        Statement::ForNumeric { var, start, end, step, body } => Statement::ForNumeric {
            var: var.clone(),
            start: clone_expr(start),
            end: clone_expr(end),
            step: match step {
                Some(e) => Some(clone_expr(e)),
                None => None,
            },
            body: Box::new(clone_block(body)),
        },
        Statement::ForGeneric { vars, iterables, body } => Statement::ForGeneric {
            vars: clone_strings(vars),
            iterables: clone_exprs(iterables),
            body: Box::new(clone_block(body)),
        },
        Statement::FunctionDecl { name, body } => Statement::FunctionDecl {
            name: name.clone(),
            body: Box::new(clone_funcbody(body)),
        },
        Statement::LocalFunction { name, body } => Statement::LocalFunction {
            name: name.clone(),
            body: Box::new(clone_funcbody(body)),
        },
        Statement::LocalVars { names, values } => Statement::LocalVars {
            names: clone_strings(names),
            values: match values {
                Some(v) => Some(clone_exprs(v)),
                None => None,
            },
        },
    }
}

impl Clone for Expression {
    fn clone(&self) -> (r: Self)
        ensures
            r@ == self@,
    {
        clone_expr(self)
    }
}

impl Clone for Statement {
    fn clone(&self) -> (r: Self)
        ensures
            r@ == self@,
    {
        clone_stmt(self)
    }
}

impl Clone for Block {
    fn clone(&self) -> (r: Self)
        ensures
            r@ == self@,
    {
        clone_block(self)
    }
}

impl Clone for ReturnStatement {
    fn clone(&self) -> (r: Self)
        ensures
            r@ == self@,
    {
        ReturnStatement { expression_list: clone_exprs(&self.expression_list) }
    }
}

impl Clone for Field {
    fn clone(&self) -> (r: Self)
        ensures
            r@ == self@,
    {
        clone_field(self)
    }
}

impl Clone for FunctionBody {
    fn clone(&self) -> (r: Self)
        ensures
            r@ == self@,
    {
        clone_funcbody(self)
    }
}

impl Clone for FieldKey {
    fn clone(&self) -> (r: Self)
        ensures
            key_view(r) == key_view(*self),
    {
        match self {
            FieldKey::Bracket(e) => FieldKey::Bracket(Box::new(clone_expr(e))),
            FieldKey::Identifier(s) => FieldKey::Identifier(s.clone()),
            FieldKey::Index(n) => FieldKey::Index(*n),
        }
    }
}

} // verus!
