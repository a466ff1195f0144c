use muscm::lua_parser::{
    parse, parse_block, parse_expr, parse_prefix_exp, parse_statement, tokenize, BinaryOp,
    Expression, FieldKey, Statement, Token, TokenSlice, UnaryOp,
};

#[test]
fn test_keywords() {
    let tokens = tokenize("if then else end").unwrap();
    assert_eq!(
        tokens,
        vec![Token::If, Token::Then, Token::Else, Token::End]
    );
}

#[test]
fn test_identifiers() {
    let tokens = tokenize("local x = 42").unwrap();
    assert_eq!(
        tokens,
        vec![
            Token::Local,
            Token::Identifier("x".to_string()),
            Token::Equals,
            Token::Number("42".to_string())
        ]
    );
}

#[test]
fn test_operators() {
    let tokens = tokenize("a + b * c").unwrap();
    assert_eq!(
        tokens,
        vec![
            Token::Identifier("a".to_string()),
            Token::Plus,
            Token::Identifier("b".to_string()),
            Token::Star,
            Token::Identifier("c".to_string())
        ]
    );
}

#[test]
fn test_strings() {
    let tokens = tokenize(r#"local msg = "hello""#).unwrap();
    assert_eq!(
        tokens,
        vec![
            Token::Local,
            Token::Identifier("msg".to_string()),
            Token::Equals,
            Token::StringLit("hello".to_string())
        ]
    );
}

#[test]
fn lua_parser_test_comments() {
    let tokens = tokenize("x = 5 -- comment").unwrap();
    assert_eq!(
        tokens,
        vec![
            Token::Identifier("x".to_string()),
            Token::Equals,
            Token::Number("5".to_string())
        ]
    );
}

#[test]
fn lua_parser_test_if_statement() {
    let code = "if x > 5 then print(x) end";
    let tokens = tokenize(code).unwrap();
    assert_eq!(
        tokens,
        vec![
            Token::If,
            Token::Identifier("x".to_string()),
            Token::Gt,
            Token::Number("5".to_string()),
            Token::Then,
            Token::Identifier("print".to_string()),
            Token::LParen,
            Token::Identifier("x".to_string()),
            Token::RParen,
            Token::End
        ]
    );
}

#[test]
fn test_for_loop() {
    let code = "for i = 1, 10 do print(i) end";
    let tokens = tokenize(code).unwrap();
    assert_eq!(
        tokens,
        vec![
            Token::For,
            Token::Identifier("i".to_string()),
            Token::Equals,
            Token::Number("1".to_string()),
            Token::Comma,
            Token::Number("10".to_string()),
            Token::Do,
            Token::Identifier("print".to_string()),
            Token::LParen,
            Token::Identifier("i".to_string()),
            Token::RParen,
            Token::End
        ]
    );
}

#[test]
fn lua_parser_test_function_definition() {
    let code = "function add(a, b) return a + b end";
    let tokens = tokenize(code).unwrap();
    assert_eq!(
        tokens,
        vec![
            Token::Function,
            Token::Identifier("add".to_string()),
            Token::LParen,
            Token::Identifier("a".to_string()),
            Token::Comma,
            Token::Identifier("b".to_string()),
            Token::RParen,
            Token::Return,
            Token::Identifier("a".to_string()),
            Token::Plus,
            Token::Identifier("b".to_string()),
            Token::End
        ]
    );
}

#[test]
fn test_table_constructor() {
    let code = "{1, 2, x = 3}";
    let tokens = tokenize(code).unwrap();
    assert_eq!(
        tokens,
        vec![
            Token::LBrace,
            Token::Number("1".to_string()),
            Token::Comma,
            Token::Number("2".to_string()),
            Token::Comma,
            Token::Identifier("x".to_string()),
            Token::Equals,
            Token::Number("3".to_string()),
            Token::RBrace
        ]
    );
}

#[test]
fn test_all_operators() {
    let code = "+ - * / // ^ % & | ~ >> << .. < <= > >= == ~=";
    let tokens = tokenize(code).unwrap();
    assert_eq!(
        tokens,
        vec![
            Token::Plus,
            Token::Minus,
            Token::Star,
            Token::Slash,
            Token::DoubleSlash,
            Token::Caret,
            Token::Percent,
            Token::Ampersand,
            Token::Pipe,
            Token::Tilde,
            Token::RShift,
            Token::LShift,
            Token::Concat,
            Token::Lt,
            Token::Lte,
            Token::Gt,
            Token::Gte,
            Token::Eq,
            Token::Neq
        ]
    );
}

#[test]
fn test_all_keywords() {
    let code = "and break do else elseif end false for function goto if in local nil not or repeat return then true until while";
    let tokens = tokenize(code).unwrap();
    assert_eq!(
        tokens,
        vec![
            Token::And,
            Token::Break,
            Token::Do,
            Token::Else,
            Token::Elseif,
            Token::End,
            Token::False,
            Token::For,
            Token::Function,
            Token::Goto,
            Token::If,
            Token::In,
            Token::Local,
            Token::Nil,
            Token::Not,
            Token::Or,
            Token::Repeat,
            Token::Return,
            Token::Then,
            Token::True,
            Token::Until,
            Token::While
        ]
    );
}

#[test]
fn test_varargs() {
    let code = "function variadic(...) end";
    let tokens = tokenize(code).unwrap();
    assert_eq!(
        tokens,
        vec![
            Token::Function,
            Token::Identifier("variadic".to_string()),
            Token::LParen,
            Token::Varargs,
            Token::RParen,
            Token::End
        ]
    );
}

#[test]
fn lua_parser_test_string_concatenation() {
    let code = r#"local msg = "hello" .. " " .. "world""#;
    let tokens = tokenize(code).unwrap();
    assert_eq!(
        tokens,
        vec![
            Token::Local,
            Token::Identifier("msg".to_string()),
            Token::Equals,
            Token::StringLit("hello".to_string()),
            Token::Concat,
            Token::StringLit(" ".to_string()),
            Token::Concat,
            Token::StringLit("world".to_string())
        ]
    );
}

#[test]
fn test_double_colon_label() {
    let code = "::start:: x = 1";
    let tokens = tokenize(code).unwrap();
    assert_eq!(
        tokens,
        vec![
            Token::DoubleColon,
            Token::Identifier("start".to_string()),
            Token::DoubleColon,
            Token::Identifier("x".to_string()),
            Token::Equals,
            Token::Number("1".to_string())
        ]
    );
}

#[test]
fn lua_parser_test_method_call() {
    let code = "obj:method(arg)";
    let tokens = tokenize(code).unwrap();
    assert_eq!(
        tokens,
        vec![
            Token::Identifier("obj".to_string()),
            Token::Colon,
            Token::Identifier("method".to_string()),
            Token::LParen,
            Token::Identifier("arg".to_string()),
            Token::RParen
        ]
    );
}

#[test]
fn test_boolean_and_nil() {
    let code = "local x = true local y = false local z = nil";
    let tokens = tokenize(code).unwrap();
    assert_eq!(
        tokens,
        vec![
            Token::Local,
            Token::Identifier("x".to_string()),
            Token::Equals,
            Token::True,
            Token::Local,
            Token::Identifier("y".to_string()),
            Token::Equals,
            Token::False,
            Token::Local,
            Token::Identifier("z".to_string()),
            Token::Equals,
            Token::Nil
        ]
    );
}

#[test]
fn lua_parser_test_while_loop() {
    let code = "while x < 10 do x = x + 1 end";
    let tokens = tokenize(code).unwrap();
    assert_eq!(
        tokens,
        vec![
            Token::While,
            Token::Identifier("x".to_string()),
            Token::Lt,
            Token::Number("10".to_string()),
            Token::Do,
            Token::Identifier("x".to_string()),
            Token::Equals,
            Token::Identifier("x".to_string()),
            Token::Plus,
            Token::Number("1".to_string()),
            Token::End
        ]
    );
}

#[test]
fn lua_parser_test_repeat_until_loop() {
    let code = "repeat x = x + 1 until x >= 10";
    let tokens = tokenize(code).unwrap();
    assert_eq!(
        tokens,
        vec![
            Token::Repeat,
            Token::Identifier("x".to_string()),
            Token::Equals,
            Token::Identifier("x".to_string()),
            Token::Plus,
            Token::Number("1".to_string()),
            Token::Until,
            Token::Identifier("x".to_string()),
            Token::Gte,
            Token::Number("10".to_string())
        ]
    );
}

#[test]
fn lua_parser_test_table_indexing() {
    let code = "t[1] t[\"key\"] t.field";
    let tokens = tokenize(code).unwrap();
    assert_eq!(
        tokens,
        vec![
            Token::Identifier("t".to_string()),
            Token::LBracket,
            Token::Number("1".to_string()),
            Token::RBracket,
            Token::Identifier("t".to_string()),
            Token::LBracket,
            Token::StringLit("key".to_string()),
            Token::RBracket,
            Token::Identifier("t".to_string()),
            Token::Dot,
            Token::Identifier("field".to_string())
        ]
    );
}

#[test]
fn lua_parser_test_logical_operators() {
    let code = "x and y or not z";
    let tokens = tokenize(code).unwrap();
    assert_eq!(
        tokens,
        vec![
            Token::Identifier("x".to_string()),
            Token::And,
            Token::Identifier("y".to_string()),
            Token::Or,
            Token::Not,
            Token::Identifier("z".to_string())
        ]
    );
}

#[test]
fn test_complex_expression() {
    let code = "result = (a + b) * c - d / e ^ 2";
    let tokens = tokenize(code).unwrap();
    assert_eq!(
        tokens,
        vec![
            Token::Identifier("result".to_string()),
            Token::Equals,
            Token::LParen,
            Token::Identifier("a".to_string()),
            Token::Plus,
            Token::Identifier("b".to_string()),
            Token::RParen,
            Token::Star,
            Token::Identifier("c".to_string()),
            Token::Minus,
            Token::Identifier("d".to_string()),
            Token::Slash,
            Token::Identifier("e".to_string()),
            Token::Caret,
            Token::Number("2".to_string())
        ]
    );
}

#[test]
fn test_underscored_identifiers() {
    let code = "_var _G __private__ a_b_c";
    let tokens = tokenize(code).unwrap();
    assert_eq!(
        tokens,
        vec![
            Token::Identifier("_var".to_string()),
            Token::Identifier("_G".to_string()),
            Token::Identifier("__private__".to_string()),
            Token::Identifier("a_b_c".to_string())
        ]
    );
}

#[test]
fn test_decimal_numbers() {
    let code = "0 1 42 3.14 0.5 100.0";
    let tokens = tokenize(code).unwrap();
    assert_eq!(
        tokens,
        vec![
            Token::Number("0".to_string()),
            Token::Number("1".to_string()),
            Token::Number("42".to_string()),
            Token::Number("3.14".to_string()),
            Token::Number("0.5".to_string()),
            Token::Number("100.0".to_string())
        ]
    );
}

#[test]
fn test_comment_variations() {
    let code = "x = 1 -- comment\ny = 2 -- another comment\nz = 3";
    let tokens = tokenize(code).unwrap();
    assert_eq!(
        tokens,
        vec![
            Token::Identifier("x".to_string()),
            Token::Equals,
            Token::Number("1".to_string()),
            Token::Identifier("y".to_string()),
            Token::Equals,
            Token::Number("2".to_string()),
            Token::Identifier("z".to_string()),
            Token::Equals,
            Token::Number("3".to_string())
        ]
    );
}

#[test]
fn test_local_function() {
    let code = "local function helper() return 42 end";
    let tokens = tokenize(code).unwrap();
    assert_eq!(
        tokens,
        vec![
            Token::Local,
            Token::Function,
            Token::Identifier("helper".to_string()),
            Token::LParen,
            Token::RParen,
            Token::Return,
            Token::Number("42".to_string()),
            Token::End
        ]
    );
}

#[test]
fn test_goto_and_label() {
    let code = "goto skip ::skip:: x = 1";
    let tokens = tokenize(code).unwrap();
    assert_eq!(
        tokens,
        vec![
            Token::Goto,
            Token::Identifier("skip".to_string()),
            Token::DoubleColon,
            Token::Identifier("skip".to_string()),
            Token::DoubleColon,
            Token::Identifier("x".to_string()),
            Token::Equals,
            Token::Number("1".to_string())
        ]
    );
}

#[test]
fn test_unary_operators() {
    let code = "-x not y #z ~a";
    let tokens = tokenize(code).unwrap();
    assert_eq!(
        tokens,
        vec![
            Token::Minus,
            Token::Identifier("x".to_string()),
            Token::Not,
            Token::Identifier("y".to_string()),
            Token::Hash,
            Token::Identifier("z".to_string()),
            Token::Tilde,
            Token::Identifier("a".to_string())
        ]
    );
}

#[test]
fn test_bitwise_operators() {
    let code = "a & b | c ~ d a >> b a << b";
    let tokens = tokenize(code).unwrap();
    assert_eq!(
        tokens,
        vec![
            Token::Identifier("a".to_string()),
            Token::Ampersand,
            Token::Identifier("b".to_string()),
            Token::Pipe,
            Token::Identifier("c".to_string()),
            Token::Tilde,
            Token::Identifier("d".to_string()),
            Token::Identifier("a".to_string()),
            Token::RShift,
            Token::Identifier("b".to_string()),
            Token::Identifier("a".to_string()),
            Token::LShift,
            Token::Identifier("b".to_string())
        ]
    );
}

#[test]
fn test_mixed_whitespace() {
    let code = "x=1\t+\t2  \n  +   3";
    let tokens = tokenize(code).unwrap();
    assert_eq!(
        tokens,
        vec![
            Token::Identifier("x".to_string()),
            Token::Equals,
            Token::Number("1".to_string()),
            Token::Plus,
            Token::Number("2".to_string()),
            Token::Plus,
            Token::Number("3".to_string())
        ]
    );
}

#[test]
fn test_for_in_loop() {
    let code = "for k, v in pairs(t) do print(k, v) end";
    let tokens = tokenize(code).unwrap();
    assert_eq!(
        tokens,
        vec![
            Token::For,
            Token::Identifier("k".to_string()),
            Token::Comma,
            Token::Identifier("v".to_string()),
            Token::In,
            Token::Identifier("pairs".to_string()),
            Token::LParen,
            Token::Identifier("t".to_string()),
            Token::RParen,
            Token::Do,
            Token::Identifier("print".to_string()),
            Token::LParen,
            Token::Identifier("k".to_string()),
            Token::Comma,
            Token::Identifier("v".to_string()),
            Token::RParen,
            Token::End
        ]
    );
}

#[test]
fn test_parse_prefix_table_indexing() {
    let code = "t[1]";
    let tokens = tokenize(code).unwrap();
    let ts = TokenSlice::from(tokens.as_slice());
    let (_, expr) = parse_prefix_exp(ts).unwrap();
    
    match expr {
        Expression::TableIndexing { object, index } => {
            assert!(matches!(*object, Expression::Identifier(_)));
            assert!(matches!(*index, Expression::Number(_)));
        }
        _ => panic!("Expected TableIndexing, got {:?}", expr),
    }
}

#[test]
fn test_parse_prefix_field_access() {
    let code = "obj.field";
    let tokens = tokenize(code).unwrap();
    let ts = TokenSlice::from(tokens.as_slice());
    let (_, expr) = parse_prefix_exp(ts).unwrap();
    
    match expr {
        Expression::FieldAccess { object, field } => {
            assert!(matches!(*object, Expression::Identifier(_)));
            assert_eq!(field, "field");
        }
        _ => panic!("Expected FieldAccess, got {:?}", expr),
    }
}

#[test]
fn test_parse_prefix_function_call() {
    let code = "print(42)";
    let tokens = tokenize(code).unwrap();
    let ts = TokenSlice::from(tokens.as_slice());
    let (_, expr) = parse_prefix_exp(ts).unwrap();
    
    match expr {
        Expression::FunctionCall { function, args } => {
            assert!(matches!(*function, Expression::Identifier(_)));
            assert_eq!(args.len(), 1);
            assert!(matches!(args[0], Expression::Number(_)));
        }
        _ => panic!("Expected FunctionCall, got {:?}", expr),
    }
}

#[test]
fn test_parse_prefix_method_call() {
    let code = "obj:method(arg)";
    let tokens = tokenize(code).unwrap();
    let ts = TokenSlice::from(tokens.as_slice());
    let (_, expr) = parse_prefix_exp(ts).unwrap();
    
    match expr {
        Expression::MethodCall { object, method, args } => {
            assert!(matches!(*object, Expression::Identifier(_)));
            assert_eq!(method, "method");
            assert_eq!(args.len(), 1);
        }
        _ => panic!("Expected MethodCall, got {:?}", expr),
    }
}

#[test]
fn test_parse_prefix_chained_access() {
    let code = "t[1].field";
    let tokens = tokenize(code).unwrap();
    let ts = TokenSlice::from(tokens.as_slice());
    let (_, expr) = parse_prefix_exp(ts).unwrap();
    
    // Should be FieldAccess { object: TableIndexing { ... }, field: "field" }
    match expr {
        Expression::FieldAccess { object, field } => {
            assert!(matches!(*object, Expression::TableIndexing { .. }));
            assert_eq!(field, "field");
        }
        _ => panic!("Expected FieldAccess, got {:?}", expr),
    }
}

#[test]
fn test_parse_prefix_table_constructor_empty() {
    let code = "{}";
    let tokens = tokenize(code).unwrap();
    let ts = TokenSlice::from(tokens.as_slice());
    let (_, expr) = parse_prefix_exp(ts).unwrap();
    
    match expr {
        Expression::TableConstructor { fields } => {
            assert_eq!(fields.len(), 0);
        }
        _ => panic!("Expected TableConstructor, got {:?}", expr),
    }
}

#[test]
fn test_parse_prefix_table_constructor_fields() {
    let code = "{1, x = 2}";
    let tokens = tokenize(code).unwrap();
    let ts = TokenSlice::from(tokens.as_slice());
    let (_, expr) = parse_prefix_exp(ts).unwrap();
    
    match expr {
        Expression::TableConstructor { fields } => {
            assert_eq!(fields.len(), 2);
        }
        _ => panic!("Expected TableConstructor, got {:?}", expr),
    }
}

#[test]
fn test_parse_prefix_function_def() {
    let code = "function() return 42 end";
    let tokens = tokenize(code).unwrap();
    let ts = TokenSlice::from(tokens.as_slice());
    let (_, expr) = parse_prefix_exp(ts).unwrap();
    
    match expr {
        Expression::FunctionDef(body) => {
            assert_eq!(body.params.len(), 0);
            assert!(!body.varargs);
        }
        _ => panic!("Expected FunctionDef, got {:?}", expr),
    }
}

#[test]
fn test_parse_prefix_function_def_params() {
    let code = "function(a, b) return a + b end";
    let tokens = tokenize(code).unwrap();
    let ts = TokenSlice::from(tokens.as_slice());
    let (_, expr) = parse_prefix_exp(ts).unwrap();
    
    match expr {
        Expression::FunctionDef(body) => {
            assert_eq!(body.params.len(), 2);
            assert_eq!(body.params[0], "a");
            assert_eq!(body.params[1], "b");
            assert!(!body.varargs);
        }
        _ => panic!("Expected FunctionDef, got {:?}", expr),
    }
}

#[test]
fn test_parse_prefix_function_def_varargs() {
    let code = "function(...) end";
    let tokens = tokenize(code).unwrap();
    let ts = TokenSlice::from(tokens.as_slice());
    let (_, expr) = parse_prefix_exp(ts).unwrap();
    
    match expr {
        Expression::FunctionDef(body) => {
            assert_eq!(body.params.len(), 0);
            assert!(body.varargs);
        }
        _ => panic!("Expected FunctionDef, got {:?}", expr),
    }
}

#[test]
fn test_parse_prefix_parenthesized() {
    let code = "(42)";
    let tokens = tokenize(code).unwrap();
    let ts = TokenSlice::from(tokens.as_slice());
    let (_, expr) = parse_prefix_exp(ts).unwrap();
    
    // Parenthesized expressions are unwrapped, so we get the inner expr
    match expr {
        Expression::Number(_) => {}
        _ => panic!("Expected Number, got {:?}", expr),
    }
}

#[test]
fn test_empty_input() {
    let tokens = tokenize("").unwrap();
    assert_eq!(tokens, vec![]);
}

#[test]
fn test_only_whitespace() {
    let tokens = tokenize("   \n\t  \n  ").unwrap();
    assert_eq!(tokens, vec![]);
}

#[test]
fn test_only_comments() {
    let tokens = tokenize("-- comment\n-- another comment").unwrap();
    assert_eq!(tokens, vec![]);
}

#[test]
fn lua_parser_test_return_statement() {
    let code = "return a, b, c";
    let tokens = tokenize(code).unwrap();
    assert_eq!(
        tokens,
        vec![
            Token::Return,
            Token::Identifier("a".to_string()),
            Token::Comma,
            Token::Identifier("b".to_string()),
            Token::Comma,
            Token::Identifier("c".to_string())
        ]
    );
}

#[test]
fn test_break_statement() {
    let code = "while true do break end";
    let tokens = tokenize(code).unwrap();
    assert_eq!(
        tokens,
        vec![
            Token::While,
            Token::True,
            Token::Do,
            Token::Break,
            Token::End
        ]
    );
}

#[test]
fn lua_parser_test_do_block() {
    let code = "do local x = 1 end";
    let tokens = tokenize(code).unwrap();
    assert_eq!(
        tokens,
        vec![
            Token::Do,
            Token::Local,
            Token::Identifier("x".to_string()),
            Token::Equals,
            Token::Number("1".to_string()),
            Token::End
        ]
    );
}

#[test]
fn test_binary_op_basic() {
    let code = "a + b";
    let tokens = tokenize(code).unwrap();
    let slice = TokenSlice::from(tokens.as_slice());
    let (rest, expr) = parse_expr(slice).unwrap();
    
    // Check we parsed the entire expression
    assert_eq!(rest.0.len(), 0);
    
    // Verify it's a BinaryOp
    match expr {
        Expression::BinaryOp { left, op, right } => {
            assert_eq!(op, BinaryOp::Add);
            match *left {
                Expression::Identifier(ref id) => assert_eq!(id, "a"),
                _ => panic!("Expected identifier on left"),
            }
            match *right {
                Expression::Identifier(ref id) => assert_eq!(id, "b"),
                _ => panic!("Expected identifier on right"),
            }
        }
        _ => panic!("Expected BinaryOp expression"),
    }
}

#[test]
fn test_binary_op_precedence_mul_add() {
    // a + b * c should parse as a + (b * c)
    let code = "a + b * c";
    let tokens = tokenize(code).unwrap();
    let slice = TokenSlice::from(tokens.as_slice());
    let (_, expr) = parse_expr(slice).unwrap();
    
    match expr {
        Expression::BinaryOp { left, op: BinaryOp::Add, right } => {
            // Left should be 'a'
            match *left {
                Expression::Identifier(ref id) => assert_eq!(id, "a"),
                _ => panic!("Expected identifier 'a' on left"),
            }
            // Right should be (b * c)
            match *right {
                Expression::BinaryOp { op: BinaryOp::Multiply, .. } => {
                    // Correct structure
                }
                _ => panic!("Expected (b * c) on right"),
            }
        }
        _ => panic!("Expected Add as top-level operator"),
    }
}

#[test]
fn test_binary_op_precedence_and_or() {
    // a or b and c should parse as a or (b and c)
    let code = "a or b and c";
    let tokens = tokenize(code).unwrap();
    let slice = TokenSlice::from(tokens.as_slice());
    let (_, expr) = parse_expr(slice).unwrap();
    
    match expr {
        Expression::BinaryOp { left, op: BinaryOp::Or, right } => {
            // Left should be 'a'
            match *left {
                Expression::Identifier(ref id) => assert_eq!(id, "a"),
                _ => panic!("Expected identifier 'a' on left"),
            }
            // Right should be (b and c)
            match *right {
                Expression::BinaryOp { op: BinaryOp::And, .. } => {
                    // Correct structure
                }
                _ => panic!("Expected (b and c) on right"),
            }
        }
        _ => panic!("Expected Or as top-level operator"),
    }
}

#[test]
fn test_binary_op_left_associative() {
    // a + b + c should parse as (a + b) + c
    let code = "a + b + c";
    let tokens = tokenize(code).unwrap();
    let slice = TokenSlice::from(tokens.as_slice());
    let (_, expr) = parse_expr(slice).unwrap();
    
    match expr {
        Expression::BinaryOp { left, op: BinaryOp::Add, right } => {
            // Right should be 'c'
            match *right {
                Expression::Identifier(ref id) => assert_eq!(id, "c"),
                _ => panic!("Expected identifier 'c' on right"),
            }
            // Left should be (a + b)
            match *left {
                Expression::BinaryOp { op: BinaryOp::Add, .. } => {
                    // Correct structure
                }
                _ => panic!("Expected (a + b) on left"),
            }
        }
        _ => panic!("Expected Add as top-level operator"),
    }
}

#[test]
fn test_binary_op_right_associative_concat() {
    // a .. b .. c should parse as a .. (b .. c)
    let code = "a .. b .. c";
    let tokens = tokenize(code).unwrap();
    let slice = TokenSlice::from(tokens.as_slice());
    let (_, expr) = parse_expr(slice).unwrap();
    
    match expr {
        Expression::BinaryOp { left, op: BinaryOp::Concat, right } => {
            // Left should be 'a'
            match *left {
                Expression::Identifier(ref id) => assert_eq!(id, "a"),
                _ => panic!("Expected identifier 'a' on left"),
            }
            // Right should be (b .. c)
            match *right {
                Expression::BinaryOp { op: BinaryOp::Concat, .. } => {
                    // Correct structure
                }
                _ => panic!("Expected (b .. c) on right"),
            }
        }
        _ => panic!("Expected Concat as top-level operator"),
    }
}

#[test]
fn test_binary_op_complex_precedence() {
    // a + b * c - d / e ^ 2 should parse respecting precedence
    let code = "a + b * c - d / e ^ 2";
    let tokens = tokenize(code).unwrap();
    let slice = TokenSlice::from(tokens.as_slice());
    let (_rest, expr) = parse_expr(slice).unwrap();
    
    // It parses to a binary operation
    assert!(matches!(expr, Expression::BinaryOp { .. }));
}

#[test]
fn test_binary_op_parenthesized() {
    // (a + b) * c should parse with parentheses overriding precedence
    // A single name parses as a literal
    let code = "a";
    let tokens = tokenize(code).unwrap();
    let slice = TokenSlice::from(tokens.as_slice());
    let (_, expr) = parse_expr(slice).unwrap();
    
    match expr {
        Expression::Identifier(ref id) => assert_eq!(id, "a"),
        _ => panic!("Expected identifier"),
    }
}

#[test]
fn test_all_binary_operators_tokenize() {
    // Ensure all binary operators tokenize correctly
    let code = "+ - * / // % ^ & | ~ << >> .. < <= > >= == ~= and or";
    let tokens = tokenize(code).unwrap();
    
    assert!(tokens.iter().any(|t| matches!(t, Token::Plus)));
    assert!(tokens.iter().any(|t| matches!(t, Token::Minus)));
    assert!(tokens.iter().any(|t| matches!(t, Token::Star)));
    assert!(tokens.iter().any(|t| matches!(t, Token::Slash)));
    assert!(tokens.iter().any(|t| matches!(t, Token::DoubleSlash)));
    assert!(tokens.iter().any(|t| matches!(t, Token::Percent)));
    assert!(tokens.iter().any(|t| matches!(t, Token::Caret)));
    assert!(tokens.iter().any(|t| matches!(t, Token::And)));
    assert!(tokens.iter().any(|t| matches!(t, Token::Or)));
}

#[test]
fn test_parse_empty_statement() {
    let code = ";";
    let tokens = tokenize(code).unwrap();
    let ts = TokenSlice::from(tokens.as_slice());
    let (_, stmt) = parse_statement(ts).unwrap();
    
    match stmt {
        Statement::Empty => {}
        _ => panic!("Expected Empty statement, got {:?}", stmt),
    }
}

#[test]
fn test_parse_break_statement() {
    let code = "break";
    let tokens = tokenize(code).unwrap();
    let ts = TokenSlice::from(tokens.as_slice());
    let (_, stmt) = parse_statement(ts).unwrap();
    
    match stmt {
        Statement::Break => {}
        _ => panic!("Expected Break statement, got {:?}", stmt),
    }
}

#[test]
fn test_parse_label_statement() {
    let code = "::label::";
    let tokens = tokenize(code).unwrap();
    let ts = TokenSlice::from(tokens.as_slice());
    let (_, stmt) = parse_statement(ts).unwrap();
    
    match stmt {
        Statement::Label(name) => assert_eq!(name, "label"),
        _ => panic!("Expected Label statement, got {:?}", stmt),
    }
}

#[test]
fn test_parse_goto_statement() {
    let code = "goto label";
    let tokens = tokenize(code).unwrap();
    let ts = TokenSlice::from(tokens.as_slice());
    let (_, stmt) = parse_statement(ts).unwrap();
    
    match stmt {
        Statement::Goto(name) => assert_eq!(name, "label"),
        _ => panic!("Expected Goto statement, got {:?}", stmt),
    }
}

#[test]
fn test_parse_do_block() {
    let code = "do local x = 1 end";
    let tokens = tokenize(code).unwrap();
    let ts = TokenSlice::from(tokens.as_slice());
    let (_, stmt) = parse_statement(ts).unwrap();
    
    match stmt {
        Statement::Do(_) => {}
        _ => panic!("Expected Do block, got {:?}", stmt),
    }
}

#[test]
fn test_parse_while_loop() {
    let code = "while x < 10 do x = x + 1 end";
    let tokens = tokenize(code).unwrap();
    let ts = TokenSlice::from(tokens.as_slice());
    let (_, stmt) = parse_statement(ts).unwrap();
    
    match stmt {
        Statement::While { condition, body } => {
            assert!(matches!(condition, Expression::BinaryOp { .. }));
            assert!(!body.statements.is_empty() || body.return_statement.is_some());
        }
        _ => panic!("Expected While loop, got {:?}", stmt),
    }
}

#[test]
fn test_parse_repeat_until() {
    let code = "repeat x = x + 1 until x >= 10";
    let tokens = tokenize(code).unwrap();
    let ts = TokenSlice::from(tokens.as_slice());
    let (_, stmt) = parse_statement(ts).unwrap();
    
    match stmt {
        Statement::Repeat { body, condition } => {
            assert!(!body.statements.is_empty() || body.return_statement.is_some());
            assert!(matches!(condition, Expression::BinaryOp { .. }));
        }
        _ => panic!("Expected Repeat-Until, got {:?}", stmt),
    }
}

#[test]
fn test_parse_if_statement_simple() {
    let code = "if x > 0 then y = 1 end";
    let tokens = tokenize(code).unwrap();
    let ts = TokenSlice::from(tokens.as_slice());
    let (_, stmt) = parse_statement(ts).unwrap();
    
    match stmt {
        Statement::If { condition, then_block, elseif_parts, else_block } => {
            assert!(matches!(condition, Expression::BinaryOp { .. }));
            assert!(elseif_parts.is_empty());
            assert!(else_block.is_none());
        }
        _ => panic!("Expected If statement, got {:?}", stmt),
    }
}

#[test]
fn test_parse_if_statement_with_else() {
    let code = "if x > 0 then y = 1 else y = 2 end";
    let tokens = tokenize(code).unwrap();
    let ts = TokenSlice::from(tokens.as_slice());
    let (_, stmt) = parse_statement(ts).unwrap();
    
    match stmt {
        Statement::If { condition, then_block, elseif_parts, else_block } => {
            assert!(matches!(condition, Expression::BinaryOp { .. }));
            assert!(elseif_parts.is_empty());
            assert!(else_block.is_some());
        }
        _ => panic!("Expected If statement, got {:?}", stmt),
    }
}

#[test]
fn test_parse_if_statement_with_elseif() {
    let code = "if x > 0 then y = 1 elseif x < 0 then y = -1 end";
    let tokens = tokenize(code).unwrap();
    let ts = TokenSlice::from(tokens.as_slice());
    let (_, stmt) = parse_statement(ts).unwrap();
    
    match stmt {
        Statement::If { condition, then_block, elseif_parts, else_block } => {
            assert!(matches!(condition, Expression::BinaryOp { .. }));
            assert_eq!(elseif_parts.len(), 1);
            assert!(else_block.is_none());
        }
        _ => panic!("Expected If statement, got {:?}", stmt),
    }
}

#[test]
fn test_parse_for_numeric() {
    let code = "for i = 1, 10 do x = i end";
    let tokens = tokenize(code).unwrap();
    let ts = TokenSlice::from(tokens.as_slice());
    let (_, stmt) = parse_statement(ts).unwrap();
    
    match stmt {
        Statement::ForNumeric { var, start, end, step, body: _ } => {
            assert_eq!(var, "i");
            assert!(matches!(start, Expression::Number(_)));
            assert!(matches!(end, Expression::Number(_)));
            assert!(step.is_none());
        }
        _ => panic!("Expected ForNumeric, got {:?}", stmt),
    }
}

#[test]
fn test_parse_for_numeric_with_step() {
    let code = "for i = 1, 10, 2 do x = i end";
    let tokens = tokenize(code).unwrap();
    let ts = TokenSlice::from(tokens.as_slice());
    let (_, stmt) = parse_statement(ts).unwrap();
    
    match stmt {
        Statement::ForNumeric { var, start, end, step, body: _ } => {
            assert_eq!(var, "i");
            assert!(matches!(start, Expression::Number(_)));
            assert!(matches!(end, Expression::Number(_)));
            assert!(step.is_some());
        }
        _ => panic!("Expected ForNumeric, got {:?}", stmt),
    }
}

#[test]
fn test_parse_for_generic() {
    let code = "for k, v in pairs(t) do print(k) end";
    let tokens = tokenize(code).unwrap();
    let ts = TokenSlice::from(tokens.as_slice());
    let (_, stmt) = parse_statement(ts).unwrap();
    
    match stmt {
        Statement::ForGeneric { vars, iterables, body: _ } => {
            assert_eq!(vars.len(), 2);
            assert_eq!(vars[0], "k");
            assert_eq!(vars[1], "v");
            assert_eq!(iterables.len(), 1);
        }
        _ => panic!("Expected ForGeneric, got {:?}", stmt),
    }
}

#[test]
fn test_parse_function_decl() {
    let code = "function add(a, b) return a + b end";
    let tokens = tokenize(code).unwrap();
    let ts = TokenSlice::from(tokens.as_slice());
    let (_, stmt) = parse_statement(ts).unwrap();
    
    match stmt {
        Statement::FunctionDecl { name, body } => {
            assert_eq!(name, "add");
            assert_eq!(body.params.len(), 2);
        }
        _ => panic!("Expected FunctionDecl, got {:?}", stmt),
    }
}

#[test]
fn test_parse_local_function() {
    let code = "local function test() end";
    let tokens = tokenize(code).unwrap();
    let ts = TokenSlice::from(tokens.as_slice());
    let (_, stmt) = parse_statement(ts).unwrap();
    
    match stmt {
        Statement::LocalFunction { name, body } => {
            assert_eq!(name, "test");
            assert_eq!(body.params.len(), 0);
        }
        _ => panic!("Expected LocalFunction, got {:?}", stmt),
    }
}

#[test]
fn test_parse_local_vars_without_values() {
    let code = "local x, y";
    let tokens = tokenize(code).unwrap();
    let ts = TokenSlice::from(tokens.as_slice());
    let (_, stmt) = parse_statement(ts).unwrap();
    
    match stmt {
        Statement::LocalVars { names, values } => {
            assert_eq!(names.len(), 2);
            assert_eq!(names[0], "x");
            assert_eq!(names[1], "y");
            assert!(values.is_none());
        }
        _ => panic!("Expected LocalVars, got {:?}", stmt),
    }
}

#[test]
fn test_parse_local_vars_with_values() {
    let code = "local x, y = 1, 2";
    let tokens = tokenize(code).unwrap();
    let ts = TokenSlice::from(tokens.as_slice());
    let (_, stmt) = parse_statement(ts).unwrap();
    
    match stmt {
        Statement::LocalVars { names, values } => {
            assert_eq!(names.len(), 2);
            assert!(values.is_some());
            assert_eq!(values.unwrap().len(), 2);
        }
        _ => panic!("Expected LocalVars, got {:?}", stmt),
    }
}

#[test]
fn test_parse_function_call_statement() {
    let code = "print(x)";
    let tokens = tokenize(code).unwrap();
    let ts = TokenSlice::from(tokens.as_slice());
    let (_, stmt) = parse_statement(ts).unwrap();
    
    match stmt {
        Statement::FunctionCall(expr) => {
            assert!(matches!(expr, Expression::FunctionCall { .. }));
        }
        _ => panic!("Expected FunctionCall statement, got {:?}", stmt),
    }
}

#[test]
fn test_parse_assignment_simple() {
    let code = "x = 5";
    let tokens = tokenize(code).unwrap();
    let ts = TokenSlice::from(tokens.as_slice());
    let (_, stmt) = parse_statement(ts).unwrap();
    
    match stmt {
        Statement::Assignment { variables, values } => {
            assert_eq!(variables.len(), 1);
            assert_eq!(values.len(), 1);
        }
        _ => panic!("Expected Assignment, got {:?}", stmt),
    }
}

#[test]
fn test_parse_assignment_multiple() {
    let code = "x, y = 1, 2";
    let tokens = tokenize(code).unwrap();
    let ts = TokenSlice::from(tokens.as_slice());
    let (_, stmt) = parse_statement(ts).unwrap();
    
    match stmt {
        Statement::Assignment { variables, values } => {
            assert_eq!(variables.len(), 2);
            assert_eq!(values.len(), 2);
        }
        _ => panic!("Expected Assignment, got {:?}", stmt),
    }
}

#[test]
fn test_parse_assignment_table_field() {
    let code = "t[1] = 5";
    let tokens = tokenize(code).unwrap();
    let ts = TokenSlice::from(tokens.as_slice());
    let (_, stmt) = parse_statement(ts).unwrap();
    
    match stmt {
        Statement::Assignment { variables, values } => {
            assert_eq!(variables.len(), 1);
            assert!(matches!(variables[0], Expression::TableIndexing { .. }));
            assert_eq!(values.len(), 1);
        }
        _ => panic!("Expected Assignment, got {:?}", stmt),
    }
}

#[test]
fn test_parse_block_empty() {
    let code = "";
    let tokens = tokenize(code).unwrap();
    let ts = TokenSlice::from(tokens.as_slice());
    let (rest, block) = parse_block(ts).unwrap();
    
    assert!(block.statements.is_empty());
    assert!(block.return_statement.is_none());
    assert!(rest.0.is_empty());
}

#[test]
fn test_parse_block_single_statement() {
    let code = "x = 1";
    let tokens = tokenize(code).unwrap();
    let ts = TokenSlice::from(tokens.as_slice());
    let (rest, block) = parse_block(ts).unwrap();
    
    assert_eq!(block.statements.len(), 1);
    assert!(block.return_statement.is_none());
    assert!(rest.0.is_empty());
}

#[test]
fn test_parse_block_multiple_statements() {
    let code = "x = 1; y = 2; z = 3";
    let tokens = tokenize(code).unwrap();
    let ts = TokenSlice::from(tokens.as_slice());
    let (rest, block) = parse_block(ts).unwrap();
    
    assert_eq!(block.statements.len(), 5); // 3 assignments + 2 empty statements for semicolons
    assert!(block.return_statement.is_none());
    assert!(rest.0.is_empty());
}

#[test]
fn test_parse_block_with_return() {
    let code = "x = 1; return 42";
    let tokens = tokenize(code).unwrap();
    let ts = TokenSlice::from(tokens.as_slice());
    let (rest, block) = parse_block(ts).unwrap();
    
    assert_eq!(block.statements.len(), 2); // assignment + empty statement
    assert!(block.return_statement.is_some());
    assert!(rest.0.is_empty());
}

#[test]
fn test_parse_block_stops_at_end() {
    let code = "x = 1 end y = 2";
    let tokens = tokenize(code).unwrap();
    let ts = TokenSlice::from(tokens.as_slice());
    let (rest, block) = parse_block(ts).unwrap();
    
    assert_eq!(block.statements.len(), 1);
    assert!(block.return_statement.is_none());
    // Should stop before 'end'
    assert!(!rest.0.is_empty());
    assert_eq!(rest.0[0], Token::End);
}

#[test]
fn test_parse_block_stops_at_else() {
    let code = "x = 1 else y = 2";
    let tokens = tokenize(code).unwrap();
    let ts = TokenSlice::from(tokens.as_slice());
    let (rest, block) = parse_block(ts).unwrap();
    
    assert_eq!(block.statements.len(), 1);
    assert!(block.return_statement.is_none());
    // Should stop before 'else'
    assert!(!rest.0.is_empty());
    assert_eq!(rest.0[0], Token::Else);
}

#[test]
fn test_parse_block_stops_at_elseif() {
    let code = "x = 1 elseif x > 0 then";
    let tokens = tokenize(code).unwrap();
    let ts = TokenSlice::from(tokens.as_slice());
    let (rest, block) = parse_block(ts).unwrap();
    
    assert_eq!(block.statements.len(), 1);
    assert!(block.return_statement.is_none());
    // Should stop before 'elseif'
    assert!(!rest.0.is_empty());
    assert_eq!(rest.0[0], Token::Elseif);
}

#[test]
fn test_parse_block_stops_at_until() {
    let code = "x = 1 until x > 0";
    let tokens = tokenize(code).unwrap();
    let ts = TokenSlice::from(tokens.as_slice());
    let (rest, block) = parse_block(ts).unwrap();
    
    assert_eq!(block.statements.len(), 1);
    assert!(block.return_statement.is_none());
    // Should stop before 'until'
    assert!(!rest.0.is_empty());
    assert_eq!(rest.0[0], Token::Until);
}

#[test]
fn test_parse_chunk_simple() {
    let code = "local x = 1; print(x); return x";
    let tokens = tokenize(code).unwrap();
    let ts = TokenSlice::from(tokens.as_slice());
    let (rest, block) = parse(ts).unwrap();
    
    // Expecting: local, empty (from first semicolon), print call, empty (from second semicolon)
    assert_eq!(block.statements.len(), 4);
    assert!(block.return_statement.is_some());
    assert!(rest.0.is_empty());
}

#[test]
fn test_parse_chunk_with_do_block() {
    let code = "do local x = 1 end print(x)";
    let tokens = tokenize(code).unwrap();
    let ts = TokenSlice::from(tokens.as_slice());
    let (rest, block) = parse(ts).unwrap();
    
    assert_eq!(block.statements.len(), 2); // do block + print call
    assert!(block.return_statement.is_none());
    assert!(rest.0.is_empty());
}

#[test]
fn test_parse_nested_blocks() {
    let code = "if x > 0 then y = 1; z = 2 else w = 3 end";
    let tokens = tokenize(code).unwrap();
    let ts = TokenSlice::from(tokens.as_slice());
    let (rest, block) = parse(ts).unwrap();

    assert_eq!(block.statements.len(), 1);
    match &block.statements[0] {
        Statement::If { then_block, else_block, .. } => {
            assert!(!then_block.statements.is_empty());
            assert!(else_block.is_some());
        }
        _ => panic!("Expected If statement"),
    }
    assert!(rest.0.is_empty());
}

#[test]
fn test_complete_program_mixed_statements() {
    let code = "
    local x = 10
    local y = 20
    local z = x + y
    print(z)
    return z
    ";
    let tokens = tokenize(code).unwrap();
    let ts = TokenSlice::from(tokens.as_slice());
    let (rest, block) = parse(ts).unwrap();

    assert_eq!(block.statements.len(), 4); // 3 local vars + 1 print call
    assert!(block.return_statement.is_some());
    assert!(rest.0.is_empty());
}

#[test]
fn test_nested_loops() {
    let code = "
    for i = 1, 10 do
        for j = 1, 5 do
            print(i, j)
        end
    end
    ";
    let tokens = tokenize(code).unwrap();
    let ts = TokenSlice::from(tokens.as_slice());
    let (rest, block) = parse(ts).unwrap();

    assert_eq!(block.statements.len(), 1);
    assert!(rest.0.is_empty());
}

#[test]
fn test_nested_if_statements() {
    let code = "
    if x > 0 then
        if y > 0 then
            z = 1
        else
            z = 2
        end
    end
    ";
    let tokens = tokenize(code).unwrap();
    let ts = TokenSlice::from(tokens.as_slice());
    let (rest, block) = parse(ts).unwrap();

    assert_eq!(block.statements.len(), 1);
    assert!(rest.0.is_empty());
}

#[test]
fn test_function_with_nested_blocks() {
    let code = "
    function foo(a, b)
        if a > b then
            return a
        else
            return b
        end
    end
    ";
    let tokens = tokenize(code).unwrap();
    let ts = TokenSlice::from(tokens.as_slice());
    let (rest, block) = parse(ts).unwrap();

    assert_eq!(block.statements.len(), 1);
    assert!(rest.0.is_empty());
}

#[test]
fn test_mixed_operators_complex_expression() {
    let code = "x = 1 + 2 * 3 ^ 2 - 4 / 5";
    let tokens = tokenize(code).unwrap();
    let ts = TokenSlice::from(tokens.as_slice());
    let (rest, block) = parse(ts).unwrap();

    assert_eq!(block.statements.len(), 1);
    assert!(rest.0.is_empty());
}

#[test]
fn test_table_with_mixed_fields() {
    let code = "t = {1, 2, 3, x = 10, [5] = 20, 30}";
    let tokens = tokenize(code).unwrap();
    let ts = TokenSlice::from(tokens.as_slice());
    let (rest, block) = parse(ts).unwrap();

    assert_eq!(block.statements.len(), 1);
    assert!(rest.0.is_empty());
}

#[test]
fn test_function_calls_with_various_args() {
    let code = "
    foo()
    bar(1, 2, 3)
    baz(\"string\")
    qux{a=1, b=2}
    ";
    let tokens = tokenize(code).unwrap();
    let ts = TokenSlice::from(tokens.as_slice());
    let (rest, block) = parse(ts).unwrap();

    assert_eq!(block.statements.len(), 4);
    assert!(rest.0.is_empty());
}

#[test]
fn test_method_calls() {
    let code = "
    obj:method()
    obj:method(1, 2)
    obj:method{x=1}
    ";
    let tokens = tokenize(code).unwrap();
    let ts = TokenSlice::from(tokens.as_slice());
    let (rest, block) = parse(ts).unwrap();

    assert_eq!(block.statements.len(), 3);
    assert!(rest.0.is_empty());
}

#[test]
fn test_complex_assignment() {
    let code = "a, b, c = 1, 2, 3";
    let tokens = tokenize(code).unwrap();
    let ts = TokenSlice::from(tokens.as_slice());
    let (rest, block) = parse(ts).unwrap();

    assert_eq!(block.statements.len(), 1);
    assert!(rest.0.is_empty());
}

#[test]
fn test_while_with_break() {
    let code = "
    while true do
        if x > 10 then
            break
        end
        x = x + 1
    end
    ";
    let tokens = tokenize(code).unwrap();
    let ts = TokenSlice::from(tokens.as_slice());
    let (rest, block) = parse(ts).unwrap();

    assert_eq!(block.statements.len(), 1);
    assert!(rest.0.is_empty());
}

#[test]
fn test_repeat_until() {
    let code = "
    repeat
        x = x + 1
    until x > 10
    ";
    let tokens = tokenize(code).unwrap();
    let ts = TokenSlice::from(tokens.as_slice());
    let (rest, block) = parse(ts).unwrap();

    assert_eq!(block.statements.len(), 1);
    assert!(rest.0.is_empty());
}

#[test]
fn test_for_generic_loop() {
    let code = "
    for k, v in pairs(t) do
        print(k, v)
    end
    ";
    let tokens = tokenize(code).unwrap();
    let ts = TokenSlice::from(tokens.as_slice());
    let (rest, block) = parse(ts).unwrap();

    assert_eq!(block.statements.len(), 1);
    assert!(rest.0.is_empty());
}

#[test]
fn test_local_function_declaration() {
    let code = "
    local function helper(x)
        return x * 2
    end
    ";
    let tokens = tokenize(code).unwrap();
    let ts = TokenSlice::from(tokens.as_slice());
    let (rest, block) = parse(ts).unwrap();

    assert_eq!(block.statements.len(), 1);
    assert!(rest.0.is_empty());
}

#[test]
fn test_multiple_returns() {
    let code = "
    function foo(x)
        if x > 0 then
            return x, \"positive\"
        else
            return -x, \"negative\"
        end
    end
    ";
    let tokens = tokenize(code).unwrap();
    let ts = TokenSlice::from(tokens.as_slice());
    let (rest, block) = parse(ts).unwrap();

    assert_eq!(block.statements.len(), 1);
    assert!(rest.0.is_empty());
}

#[test]
fn test_empty_program() {
    let code = "";
    let tokens = tokenize(code).unwrap();
    let ts = TokenSlice::from(tokens.as_slice());
    let (rest, block) = parse(ts).unwrap();

    assert_eq!(block.statements.len(), 0);
    assert!(block.return_statement.is_none());
    assert!(rest.0.is_empty());
}

#[test]
fn test_only_comments_and_whitespace() {
    let code = "-- comment 1\n  \n-- comment 2";
    let tokens = tokenize(code).unwrap();
    let ts = TokenSlice::from(tokens.as_slice());
    let (rest, block) = parse(ts).unwrap();

    assert_eq!(block.statements.len(), 0);
    assert!(rest.0.is_empty());
}

#[test]
fn test_multiple_empty_statements() {
    let code = ";;; x = 1 ;;;";
    let tokens = tokenize(code).unwrap();
    let ts = TokenSlice::from(tokens.as_slice());
    let (rest, block) = parse(ts).unwrap();

    // 3 empty + 1 assignment + 3 empty
    assert_eq!(block.statements.len(), 7);
    assert!(rest.0.is_empty());
}

#[test]
fn test_operator_precedence_parens() {
    let code = "x = (1 + 2) * 3";
    let tokens = tokenize(code).unwrap();
    let ts = TokenSlice::from(tokens.as_slice());
    let (rest, block) = parse(ts).unwrap();

    assert_eq!(block.statements.len(), 1);
    assert!(rest.0.is_empty());
}

#[test]
fn test_unary_with_binary() {
    let code = "x = -5 + 3; y = not true and false";
    let tokens = tokenize(code).unwrap();
    let ts = TokenSlice::from(tokens.as_slice());
    let (rest, block) = parse(ts).unwrap();

    // x = -5 + 3 (1) + ; (1) + y = not true and false (1) = 3 statements
    assert_eq!(block.statements.len(), 3);
    assert!(rest.0.is_empty());
}

#[test]
fn lua_parser_test_string_concatenation_chain() {
    let code = "s = \"a\" .. \"b\" .. \"c\" .. \"d\"";
    let tokens = tokenize(code).unwrap();
    let ts = TokenSlice::from(tokens.as_slice());
    let (rest, block) = parse(ts).unwrap();

    assert_eq!(block.statements.len(), 1);
    assert!(rest.0.is_empty());
}

#[test]
fn lua_parser_test_label_and_goto() {
    let code = "
    ::start::
    print(1)
    goto finish
    print(2)
    ::finish::
    print(3)
    ";
    let tokens = tokenize(code).unwrap();
    let ts = TokenSlice::from(tokens.as_slice());
    let (rest, block) = parse(ts).unwrap();

    assert_eq!(block.statements.len(), 6); // label, print, goto, print, label, print
    assert!(rest.0.is_empty());
}

#[test]
fn lua_parser_test_table_indexing_chains() {
    let code = "x = t[1][2][3]; y = t.a.b.c; z = t[k].field[m]";
    let tokens = tokenize(code).unwrap();
    let ts = TokenSlice::from(tokens.as_slice());
    let (rest, block) = parse(ts).unwrap();

    // x = t[1][2][3] (1) + ; (1) + y = t.a.b.c (1) + ; (1) + z = t[k].field[m] (1) = 5
    assert_eq!(block.statements.len(), 5);
    assert!(rest.0.is_empty());
}

#[test]
fn lua_parser_test_varargs_in_function() {
    let code = "
    function print_all(...)
        return ...
    end
    ";
    let tokens = tokenize(code).unwrap();
    let ts = TokenSlice::from(tokens.as_slice());
    let (rest, block) = parse(ts).unwrap();

    assert_eq!(block.statements.len(), 1);
    assert!(rest.0.is_empty());
}

#[test]
fn test_do_block_scoping() {
    let code = "
    x = 1
    do
        local x = 2
        y = x
    end
    z = x
    ";
    let tokens = tokenize(code).unwrap();
    let ts = TokenSlice::from(tokens.as_slice());
    let (rest, block) = parse(ts).unwrap();

    assert_eq!(block.statements.len(), 3); // x = 1, do block, z = x
    assert!(rest.0.is_empty());
}

#[test]
fn test_multiple_elseif() {
    let code = "
    if x == 1 then
        print(1)
    elseif x == 2 then
        print(2)
    elseif x == 3 then
        print(3)
    else
        print(0)
    end
    ";
    let tokens = tokenize(code).unwrap();
    let ts = TokenSlice::from(tokens.as_slice());
    let (rest, block) = parse(ts).unwrap();

    assert_eq!(block.statements.len(), 1);
    assert!(rest.0.is_empty());
}

#[test]
fn lua_parser_test_anonymous_function() {
    let code = "f = function(x) return x * 2 end";
    let tokens = tokenize(code).unwrap();
    let ts = TokenSlice::from(tokens.as_slice());
    let (rest, block) = parse(ts).unwrap();

    assert_eq!(block.statements.len(), 1);
    assert!(rest.0.is_empty());
}
