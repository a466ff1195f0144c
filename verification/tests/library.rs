use muscm::stdlib::validation::require_args;
use muscm::stdlib::string_sub_bounds;
use muscm::module_loader::module_file_name;
use muscm::coroutines::CoroutineStatus;
use muscm::error_types::LuaError;
use muscm::errors;
use muscm::executor::Executor;
use muscm::lua_parser::grammar::ErrorKind;
use muscm::lua_parser::location::LocationTracker;
use muscm::lua_parser::{
    parse, parse_args, parse_block, parse_expr, parse_expression, parse_funcbody,
    parse_function_def, parse_identifier, parse_number_literal, parse_return_statement,
    parse_statement, parse_string_literal, parse_table_constructor, process_escape_sequences,
    token_tag, token_to_binop, tokenize, try_tokenize, BinaryOp, Block, Expression, FieldKey,
    Precedence, Statement, Token, TokenSlice, UnaryOp,
};
use muscm::tokenizer::{tokenize_string, TokenType};
use muscm::upvalues::find_free_variables;

fn tokens(code: &str) -> Vec<Token> {
    tokenize(code).unwrap()
}

fn ident(name: &str) -> Expression {
    Expression::Identifier(name.to_string())
}

fn num(text: &str) -> Expression {
    Expression::Number(text.to_string())
}

fn bin(left: Expression, op: BinaryOp, right: Expression) -> Expression {
    Expression::BinaryOp { left: Box::new(left), op, right: Box::new(right) }
}

#[test]
fn test_tokenize_error_message_shows_rest() {
    let err = tokenize("x = $ y").unwrap_err();
    assert_eq!(err, "Tokenization error: Error(Error { input: \"$ y\", code: Satisfy })");
}

#[test]
fn test_tokenize_unicode_identifier() {
    let toks = tokens("é1 = 2");
    assert_eq!(toks[0], Token::Identifier("é1".to_string()));
}

#[test]
fn test_try_tokenize_wide_space() {
    assert!(try_tokenize("x\u{00a0}= 1").is_none());
    assert_eq!(try_tokenize("x = 1").unwrap().unwrap().len(), 3);
}

#[test]
fn test_escape_sequences() {
    assert_eq!(process_escape_sequences("a\\nb\\t\\\\\\\"c\\\""), "a\nb\t\\\"c\"");
}

#[test]
fn test_token_tag_outcomes() {
    let toks = tokens("x y");
    let ts = TokenSlice::from(toks.as_slice());
    let (rest, tok) = token_tag(&Token::Identifier("x".to_string()), ts).unwrap();
    assert_eq!(*tok, Token::Identifier("x".to_string()));
    assert_eq!(rest.0.len(), 1);
    let err = token_tag(&Token::Comma, ts).unwrap_err();
    assert_eq!(err.code, ErrorKind::Tag);
    assert_eq!(err.input.0.len(), 2);
    let empty: Vec<Token> = Vec::new();
    let err = token_tag(&Token::Comma, TokenSlice::from(empty.as_slice())).unwrap_err();
    assert_eq!(err.code, ErrorKind::Eof);
}

#[test]
fn test_precedence_mul_over_add() {
    let toks = tokens("a + b * c");
    let (rest, e) = parse_expression(TokenSlice::from(toks.as_slice())).unwrap();
    assert!(rest.0.is_empty());
    assert_eq!(e, bin(ident("a"), BinaryOp::Add, bin(ident("b"), BinaryOp::Multiply, ident("c"))));
}

#[test]
fn test_left_associative_subtraction() {
    let toks = tokens("a - b - c");
    let (_, e) = parse_expression(TokenSlice::from(toks.as_slice())).unwrap();
    assert_eq!(e, bin(bin(ident("a"), BinaryOp::Subtract, ident("b")), BinaryOp::Subtract, ident("c")));
}

#[test]
fn test_power_right_associative() {
    let toks = tokens("2 ^ 3 ^ 4");
    let (_, e) = parse_expression(TokenSlice::from(toks.as_slice())).unwrap();
    assert_eq!(e, bin(num("2"), BinaryOp::Power, bin(num("3"), BinaryOp::Power, num("4"))));
}

#[test]
fn test_expression_stops_before_dangling_operator() {
    let toks = tokens("1 +");
    let (rest, e) = parse_expression(TokenSlice::from(toks.as_slice())).unwrap();
    assert_eq!(e, num("1"));
    assert_eq!(rest.0, &[Token::Plus][..]);
}

#[test]
fn test_parse_expr_concat_right_associative() {
    let toks = tokens("a .. b .. c");
    let (rest, e) = parse_expr(TokenSlice::from(toks.as_slice())).unwrap();
    assert!(rest.0.is_empty());
    assert_eq!(e, bin(ident("a"), BinaryOp::Concat, bin(ident("b"), BinaryOp::Concat, ident("c"))));
}

#[test]
fn test_parse_expr_missing_operand_fails() {
    let toks = tokens("a +");
    let err = parse_expr(TokenSlice::from(toks.as_slice())).unwrap_err();
    assert_eq!(err.input.0.len(), 0);
}

#[test]
fn test_precedence_levels() {
    assert_eq!(Precedence::of(&BinaryOp::Multiply), Precedence::Multiplicative);
    assert_eq!(Precedence::of(&BinaryOp::Lt), Precedence::RelationalEq);
    assert_eq!(Precedence::Or.next_level(), Precedence::And);
    assert_eq!(Precedence::Exponent.next_level(), Precedence::Exponent);
    assert!(Precedence::Concat.is_right_associative());
    assert!(!Precedence::Additive.is_right_associative());
    assert_eq!(Precedence::Exponent.rank(), 11);
    let toks = tokens("// x");
    assert_eq!(token_to_binop(TokenSlice::from(toks.as_slice())), Some(BinaryOp::FloorDivide));
    let toks = tokens("x");
    assert_eq!(token_to_binop(TokenSlice::from(toks.as_slice())), None);
}

#[test]
fn test_literal_parsers() {
    let toks = tokens("42 'hi' name");
    let ts = TokenSlice::from(toks.as_slice());
    let (rest, e) = parse_number_literal(ts).unwrap();
    assert_eq!(e, num("42"));
    let (rest, e) = parse_string_literal(rest).unwrap();
    assert_eq!(e, Expression::String("hi".to_string()));
    let (rest, e) = parse_identifier(rest).unwrap();
    assert_eq!(e, ident("name"));
    assert!(rest.0.is_empty());
    assert_eq!(parse_identifier(ts).unwrap_err().code, ErrorKind::Tag);
}

#[test]
fn test_table_constructor_fields() {
    let toks = tokens("{1, x = 2, [k] = 3;}");
    let (rest, e) = parse_table_constructor(TokenSlice::from(toks.as_slice())).unwrap();
    assert!(rest.0.is_empty());
    match e {
        Expression::TableConstructor { fields } => {
            assert_eq!(fields.len(), 3);
            assert_eq!(fields[0].key, FieldKey::Index(0));
            assert_eq!(fields[1].key, FieldKey::Identifier("x".to_string()));
            assert_eq!(fields[2].key, FieldKey::Bracket(Box::new(ident("k"))));
        }
        other => panic!("expected a table, got {:?}", other),
    }
}

#[test]
fn test_function_def_and_body() {
    let toks = tokens("function (a, ...) return a end");
    let (rest, e) = parse_function_def(TokenSlice::from(toks.as_slice())).unwrap();
    assert!(rest.0.is_empty());
    match e {
        Expression::FunctionDef(body) => {
            assert_eq!(body.params, vec!["a".to_string()]);
            assert!(body.varargs);
            assert!(body.block.return_statement.is_some());
        }
        other => panic!("expected a function, got {:?}", other),
    }
    let toks = tokens("() end");
    let (_, body) = parse_funcbody(TokenSlice::from(toks.as_slice())).unwrap();
    assert!(body.params.is_empty());
    assert!(!body.varargs);
}

#[test]
fn test_args_forms() {
    let toks = tokens("(1, 2)");
    let (_, args) = parse_args(TokenSlice::from(toks.as_slice())).unwrap();
    assert_eq!(args, vec![num("1"), num("2")]);
    let toks = tokens("'s'");
    let (_, args) = parse_args(TokenSlice::from(toks.as_slice())).unwrap();
    assert_eq!(args, vec![Expression::String("s".to_string())]);
    let toks = tokens("x");
    let err = parse_args(TokenSlice::from(toks.as_slice())).unwrap_err();
    assert_eq!(err.code, ErrorKind::Alt);
}

#[test]
fn test_return_statement_with_semicolon() {
    let toks = tokens("return 1, 2;");
    let (rest, r) = parse_return_statement(TokenSlice::from(toks.as_slice())).unwrap();
    assert!(rest.0.is_empty());
    assert_eq!(r.expression_list, vec![num("1"), num("2")]);
}

#[test]
fn test_method_name_declaration() {
    let toks = tokens("function a.b:c() end");
    let (_, s) = parse_statement(TokenSlice::from(toks.as_slice())).unwrap();
    match s {
        Statement::FunctionDecl { name, .. } => assert_eq!(name, "a.b:c"),
        other => panic!("expected a declaration, got {:?}", other),
    }
}

#[test]
fn test_statement_failure_reports_last_form() {
    let toks = tokens("x");
    let err = parse_statement(TokenSlice::from(toks.as_slice())).unwrap_err();
    assert_eq!(err.code, ErrorKind::Alt);
    assert_eq!(err.input.0.len(), 1);
}

#[test]
fn test_block_never_fails() {
    let toks = tokens("= = =");
    let (rest, block) = parse_block(TokenSlice::from(toks.as_slice())).unwrap();
    assert!(block.statements.is_empty());
    assert_eq!(rest.0.len(), 3);
}

#[test]
fn test_parse_requires_whole_input() {
    let toks = tokens("x = 1 )");
    let err = parse(TokenSlice::from(toks.as_slice())).unwrap_err();
    assert_eq!(err.code, ErrorKind::Eof);
    assert_eq!(err.input.0, &[Token::RParen][..]);
}

#[test]
fn test_unary_operators_parse() {
    let toks = tokens("-x");
    let (_, e) = parse_expression(TokenSlice::from(toks.as_slice())).unwrap();
    assert_eq!(e, Expression::UnaryOp { op: UnaryOp::Minus, operand: Box::new(ident("x")) });
}

#[test]
fn test_syntax_tree_clone_is_equal() {
    let toks = tokens("if a then f(1, {x = 2}) elseif b then return else local y = 3 end");
    let (_, block) = parse(TokenSlice::from(toks.as_slice())).unwrap();
    let copy: Block = block.clone();
    assert_eq!(copy, block);
}

#[test]
fn test_location_advance_in_pieces() {
    let mut whole = LocationTracker::new();
    whole.advance_str("ab\ncd");
    let mut pieces = LocationTracker::new();
    pieces.advance_str("ab\n");
    pieces.advance_str("cd");
    assert_eq!(whole.current(), pieces.current());
    assert_eq!(whole.current().line, 2);
    assert_eq!(whole.current().column, 2);
}

#[test]
fn test_scheme_tokens_in_order() {
    let input = "(define x\n  ; note\n  \"s\" 'y)";
    let toks = tokenize_string(input);
    for k in 0..toks.len() {
        assert!(toks[k].start < toks[k].end);
        assert_eq!(toks[k].literal, &input[toks[k].start..toks[k].end]);
        if k + 1 < toks.len() {
            assert!(toks[k].end <= toks[k + 1].start);
            assert!(toks[k].line <= toks[k + 1].line);
        }
    }
    assert_eq!(toks.last().unwrap().token_type, TokenType::RParen);
    assert_eq!(toks.last().unwrap().line, 3);
}

#[test]
fn test_error_messages_show_details() {
    let e = LuaError::arg_count("f", 2, 5);
    assert_eq!(e.message(), "Function f expects 2 argument(s), got 5");
    let e = LuaError::index("nil", "string");
    assert_eq!(e.category(), "index");
    assert_eq!(e.message(), "Cannot index nil with string");
    let e = LuaError::call("number");
    assert_eq!(e.message(), "Attempt to call number (not a function)");
    let e = LuaError::token("bad", 7);
    assert_eq!(e.message(), "Token error at position 7: bad");
    let e = LuaError::parse("oops", 120, 0);
    assert_eq!(e.message(), "Parse error at 120:0: oops");
}

#[test]
fn test_simple_error_levels() {
    let e = errors::LuaError::new("m".to_string());
    assert_eq!(e.level, 0);
    let e = errors::LuaError::with_level("m".to_string(), 3);
    assert_eq!(e.message, "m");
    assert_eq!(e.level, 3);
    assert_eq!(e.to_string(), "m");
}

#[test]
fn test_coroutine_status_names() {
    assert_eq!(CoroutineStatus::Suspended.to_string(), "suspended");
    assert_eq!(CoroutineStatus::Running.to_string(), "running");
    assert_eq!(CoroutineStatus::Dead.to_string(), "dead");
}

#[test]
fn test_executor_and_free_variables() {
    let mut exec = Executor::new();
    exec.mark_label("start".to_string());
    assert!(find_free_variables(&["a".to_string()]).is_empty());
}

#[test]
fn test_require_args_counts() {
    let args = [1, 2, 3];
    assert_eq!(require_args("f", &args, 1, Some(3)), Ok(()));
    assert_eq!(require_args("f", &args, 3, None), Ok(()));
    assert_eq!(
        require_args("f", &args, 4, None),
        Err(LuaError::ArgumentCountError { function: "f".to_string(), expected: 4, got: 3 })
    );
    assert_eq!(
        require_args("g", &args, 0, Some(2)),
        Err(LuaError::ArgumentCountError { function: "g".to_string(), expected: 2, got: 3 })
    );
}

#[test]
fn test_string_sub_bounds() {
    // "hello": sub(2, 4) = "ell"
    assert_eq!(string_sub_bounds(5, 2, 4), (1, 4));
    // sub(-3, -1) = "llo"
    assert_eq!(string_sub_bounds(5, -3, -1), (2, 4));
    // sub(0, 100) = "hello"
    assert_eq!(string_sub_bounds(5, 0, 100), (0, 5));
    // sub(4, 2) is empty
    assert_eq!(string_sub_bounds(5, 4, 2), (3, 3));
    // an end before the start of the string counts as past its end
    assert_eq!(string_sub_bounds(5, 1, -7), (0, 5));
    // a start past the end gives an empty range at the end
    assert_eq!(string_sub_bounds(5, 9, 9), (5, 5));
}

#[test]
fn test_module_file_name() {
    assert_eq!(module_file_name("config.server"), "config/server.lua");
    assert_eq!(module_file_name("mymodule"), "mymodule.lua");
    assert_eq!(module_file_name(""), ".lua");
}

#[test]
fn test_shift_binds_looser_than_concat() {
    // a .. b << c groups as (a .. b) << c, and a << b .. c as a << (b .. c)
    let t = tokens("a .. b << c");
    let (_, e) = parse_expr(TokenSlice::from(t.as_slice())).unwrap();
    match e {
        Expression::BinaryOp { left, op: BinaryOp::LeftShift, .. } => {
            assert!(matches!(*left, Expression::BinaryOp { op: BinaryOp::Concat, .. }))
        }
        other => panic!("unexpected {:?}", other),
    }
    let t = tokens("a << b .. c");
    let (_, e) = parse_expr(TokenSlice::from(t.as_slice())).unwrap();
    match e {
        Expression::BinaryOp { op: BinaryOp::LeftShift, right, .. } => {
            assert!(matches!(*right, Expression::BinaryOp { op: BinaryOp::Concat, .. }))
        }
        other => panic!("unexpected {:?}", other),
    }
    assert_eq!(Precedence::BitAnd.next_level(), Precedence::Shift);
    assert_eq!(Precedence::Shift.next_level(), Precedence::Concat);
    assert_eq!(Precedence::Concat.next_level(), Precedence::Additive);
    assert!(Precedence::Shift.rank() < Precedence::Concat.rank());
}

#[test]
fn test_escapes_shorten_by_one_each() {
    let s = "a\\nb\\qc\\\\";
    let r = process_escape_sequences(s);
    assert_eq!(r, "a\nb\\qc\\");
    // two escapes recognised (\n and \\), \q kept
    assert_eq!(r.chars().count() + 2, s.chars().count());
    assert_eq!(r.len() + 2, s.len());
    let u = "é\\tü";
    assert_eq!(process_escape_sequences(u).len() + 1, u.len());
}

#[test]
fn test_error_messages_show_fixed_words() {
    assert!(LuaError::BreakOutsideLoop.message().contains("outside loop"));
    assert!(LuaError::DivisionByZero.message().contains("division by zero"));
    let m = LuaError::call("nil").message();
    assert!(m.contains("call") && m.contains("not a function"));
    let m = LuaError::type_error("number", "string", "f").message();
    assert!(m.contains("Type error") && m.contains("expected") && m.contains("got"));
}

#[test]
fn test_whitespace_matches_std() {
    for u in 0u32..0x11000 {
        if let Some(c) = char::from_u32(u) {
            assert_eq!(muscm::text::char_is_whitespace(c), c.is_whitespace(), "U+{:04X}", u);
        }
    }
}
