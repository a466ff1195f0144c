use muscm::lua_parser::{parse, tokenize, TokenSlice};

#[test]
fn mod_test_simple_assignment() {
    let code = "x = 5";
    let tokens = tokenize(code).unwrap();
    let ts = TokenSlice::from(tokens.as_slice());
    let (rest, block) = parse(ts).unwrap();

    assert_eq!(block.statements.len(), 1);
    assert!(rest.0.is_empty());
}

#[test]
fn mod_test_function_definition() {
    let code = "function foo(a, b) return a + b end";
    let tokens = tokenize(code).unwrap();
    let ts = TokenSlice::from(tokens.as_slice());
    let (rest, block) = parse(ts).unwrap();

    assert_eq!(block.statements.len(), 1);
    assert!(rest.0.is_empty());
}

#[test]
fn mod_test_if_statement() {
    let code = "if x > 0 then print('positive') elseif x < 0 then print('negative') else print('zero') end";
    let tokens = tokenize(code).unwrap();
    let ts = TokenSlice::from(tokens.as_slice());
    let (rest, block) = parse(ts).unwrap();

    assert_eq!(block.statements.len(), 1);
    assert!(rest.0.is_empty());
}

#[test]
fn test_table_construction() {
    let code = "t = {1, 2, 3, x = 10, y = 20}";
    let tokens = tokenize(code).unwrap();
    let ts = TokenSlice::from(tokens.as_slice());
    let (rest, block) = parse(ts).unwrap();

    assert_eq!(block.statements.len(), 1);
    assert!(rest.0.is_empty());
}

#[test]
fn mod_test_while_loop() {
    let code = "while x < 10 do x = x + 1 end";
    let tokens = tokenize(code).unwrap();
    let ts = TokenSlice::from(tokens.as_slice());
    let (rest, block) = parse(ts).unwrap();

    assert_eq!(block.statements.len(), 1);
    assert!(rest.0.is_empty());
}

#[test]
fn test_multiple_statements() {
    let code = "x = 1; y = 2; z = x + y";
    let tokens = tokenize(code).unwrap();
    let ts = TokenSlice::from(tokens.as_slice());
    let (rest, block) = parse(ts).unwrap();

    assert_eq!(block.statements.len(), 5); // 3 assignments + 2 semicolons as empty statements
    assert!(rest.0.is_empty());
}

#[test]
fn test_nested_function_calls() {
    let code = "print(foo(bar(1, 2), 3))";
    let tokens = tokenize(code).unwrap();
    let ts = TokenSlice::from(tokens.as_slice());
    let (rest, block) = parse(ts).unwrap();

    assert_eq!(block.statements.len(), 1);
    assert!(rest.0.is_empty());
}

#[test]
fn test_binary_operations() {
    let code = "z = a + b * c - d / e ^ f % g";
    let tokens = tokenize(code).unwrap();
    let ts = TokenSlice::from(tokens.as_slice());
    let (rest, block) = parse(ts).unwrap();

    assert_eq!(block.statements.len(), 1);
    assert!(rest.0.is_empty());
}

#[test]
fn test_for_loop_numeric() {
    let code = "for i = 1, 10, 2 do print(i) end";
    let tokens = tokenize(code).unwrap();
    let ts = TokenSlice::from(tokens.as_slice());
    let (rest, block) = parse(ts).unwrap();

    assert_eq!(block.statements.len(), 1);
    assert!(rest.0.is_empty());
}

#[test]
fn test_for_loop_generic() {
    let code = "for k, v in pairs(t) do print(k, v) end";
    let tokens = tokenize(code).unwrap();
    let ts = TokenSlice::from(tokens.as_slice());
    let (rest, block) = parse(ts).unwrap();

    assert_eq!(block.statements.len(), 1);
    assert!(rest.0.is_empty());
}

#[test]
fn test_local_variables() {
    let code = "local x, y, z = 1, 2, 3";
    let tokens = tokenize(code).unwrap();
    let ts = TokenSlice::from(tokens.as_slice());
    let (rest, block) = parse(ts).unwrap();

    assert_eq!(block.statements.len(), 1);
    assert!(rest.0.is_empty());
}

#[test]
fn mod_test_return_statement() {
    let code = "function test() return 42 end";
    let tokens = tokenize(code).unwrap();
    let ts = TokenSlice::from(tokens.as_slice());
    let (rest, block) = parse(ts).unwrap();

    assert_eq!(block.statements.len(), 1);
    assert!(rest.0.is_empty());
}

#[test]
fn mod_test_method_call() {
    let code = "obj:method(arg1, arg2)";
    let tokens = tokenize(code).unwrap();
    let ts = TokenSlice::from(tokens.as_slice());
    let (rest, block) = parse(ts).unwrap();

    assert_eq!(block.statements.len(), 1);
    assert!(rest.0.is_empty());
}

#[test]
fn mod_test_anonymous_function() {
    let code = "f = function(x) return x * 2 end";
    let tokens = tokenize(code).unwrap();
    let ts = TokenSlice::from(tokens.as_slice());
    let (rest, block) = parse(ts).unwrap();

    assert_eq!(block.statements.len(), 1);
    assert!(rest.0.is_empty());
}

#[test]
fn mod_test_string_concatenation() {
    let code = "s = 'hello' .. ' ' .. 'world'";
    let tokens = tokenize(code).unwrap();
    let ts = TokenSlice::from(tokens.as_slice());
    let (rest, block) = parse(ts).unwrap();

    assert_eq!(block.statements.len(), 1);
    assert!(rest.0.is_empty());
}

#[test]
fn mod_test_comments() {
    let code = "-- This is a comment
    x = 5 -- inline comment
    -- Another comment
    y = 10";
    let tokens = tokenize(code).unwrap();
    let ts = TokenSlice::from(tokens.as_slice());
    let (rest, block) = parse(ts).unwrap();

    assert_eq!(block.statements.len(), 2);
    assert!(rest.0.is_empty());
}

#[test]
fn mod_test_repeat_until_loop() {
    let code = "repeat x = x + 1 until x > 10";
    let tokens = tokenize(code).unwrap();
    let ts = TokenSlice::from(tokens.as_slice());
    let (rest, block) = parse(ts).unwrap();

    assert_eq!(block.statements.len(), 1);
    assert!(rest.0.is_empty());
}

#[test]
fn mod_test_do_block() {
    let code = "do local x = 5 print(x) end";
    let tokens = tokenize(code).unwrap();
    let ts = TokenSlice::from(tokens.as_slice());
    let (rest, block) = parse(ts).unwrap();

    assert_eq!(block.statements.len(), 1);
    assert!(rest.0.is_empty());
}

#[test]
fn mod_test_label_and_goto() {
    let code = "
    ::start::
    print(1)
    goto finish
    print(2)
    ::finish::
    print(3)
    ";
    let tokens = tokenize(code).unwrap();
    let ts = TokenSlice::from(tokens.as_slice());
    let (rest, block) = parse(ts).unwrap();

    assert_eq!(block.statements.len(), 6); // label, print, goto, print, label, print
    assert!(rest.0.is_empty());
}

#[test]
fn mod_test_table_indexing_chains() {
    let code = "x = t[1][2][3]; y = t.a.b.c; z = t[k].field[m]";
    let tokens = tokenize(code).unwrap();
    let ts = TokenSlice::from(tokens.as_slice());
    let (rest, block) = parse(ts).unwrap();

    // x = t[1][2][3] (1) + ; (1) + y = t.a.b.c (1) + ; (1) + z = t[k].field[m] (1) = 5
    assert_eq!(block.statements.len(), 5);
    assert!(rest.0.is_empty());
}

#[test]
fn mod_test_varargs_in_function() {
    let code = "
    function print_all(...)
        return ...
    end
    ";
    let tokens = tokenize(code).unwrap();
    let ts = TokenSlice::from(tokens.as_slice());
    let (rest, block) = parse(ts).unwrap();

    assert_eq!(block.statements.len(), 1);
    assert!(rest.0.is_empty());
}
