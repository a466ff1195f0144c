use muscm::tokenizer::{tokenize_string, TokenType, Tokenizer};

#[test]
fn test_simple_list() {
    let tokens = tokenize_string("(+ 1 2)");
    assert_eq!(tokens.len(), 5);
    assert_eq!(tokens[0].token_type, TokenType::LParen);
    assert_eq!(tokens[1].token_type, TokenType::Atom);
    assert_eq!(tokens[1].literal, "+");
    assert_eq!(tokens[2].token_type, TokenType::Atom);
    assert_eq!(tokens[2].literal, "1");
    assert_eq!(tokens[3].token_type, TokenType::Atom);
    assert_eq!(tokens[3].literal, "2");
    assert_eq!(tokens[4].token_type, TokenType::RParen);
}

#[test]
fn test_nested_lists() {
    let tokens =
        tokenize_string("(define (factorial n) (if (= n 0) 1 (* n (factorial (- n 1)))))");
    assert_eq!(tokens[0].token_type, TokenType::LParen);
    assert_eq!(tokens[1].token_type, TokenType::Atom); // define
    assert_eq!(tokens[1].literal, "define");
    assert_eq!(tokens[2].token_type, TokenType::LParen); // (factorial
    assert_eq!(tokens[3].token_type, TokenType::Atom); // factorial
    assert_eq!(tokens[3].literal, "factorial");
    assert_eq!(tokens[4].token_type, TokenType::Atom); // n
    assert_eq!(tokens[4].literal, "n");
    assert_eq!(tokens[5].token_type, TokenType::RParen); // )
    assert_eq!(tokens[tokens.len() - 1].token_type, TokenType::RParen); // final )
}

#[test]
fn test_quote() {
    let tokens = tokenize_string("'(a b c)");
    assert_eq!(tokens.len(), 6);
    assert_eq!(tokens[0].token_type, TokenType::Quote);
    assert_eq!(tokens[1].token_type, TokenType::LParen);
    assert_eq!(tokens[2].token_type, TokenType::Atom);
    assert_eq!(tokens[2].literal, "a");
    assert_eq!(tokens[3].token_type, TokenType::Atom);
    assert_eq!(tokens[3].literal, "b");
    assert_eq!(tokens[4].token_type, TokenType::Atom);
    assert_eq!(tokens[4].literal, "c");
    assert_eq!(tokens[5].token_type, TokenType::RParen);
}

#[test]
fn test_backquote() {
    let tokens = tokenize_string("`(a ,b)");
    assert_eq!(tokens.len(), 6);
    assert_eq!(tokens[0].token_type, TokenType::BQuote);
    assert_eq!(tokens[1].token_type, TokenType::LParen);
    assert_eq!(tokens[2].token_type, TokenType::Atom);
    assert_eq!(tokens[2].literal, "a");
    assert_eq!(tokens[3].token_type, TokenType::Comma);
    assert_eq!(tokens[4].token_type, TokenType::Atom);
    assert_eq!(tokens[4].literal, "b");
    assert_eq!(tokens[5].token_type, TokenType::RParen);
}

#[test]
fn test_unquote_splicing() {
    let tokens = tokenize_string("(list ,@items)");
    assert_eq!(tokens.len(), 5);
    assert_eq!(tokens[0].token_type, TokenType::LParen);
    assert_eq!(tokens[1].token_type, TokenType::Atom);
    assert_eq!(tokens[1].literal, "list");
    assert_eq!(tokens[2].token_type, TokenType::AtMark);
    assert_eq!(tokens[2].literal, ",@");
    assert_eq!(tokens[3].token_type, TokenType::Atom);
    assert_eq!(tokens[3].literal, "items");
    assert_eq!(tokens[4].token_type, TokenType::RParen);
}

#[test]
fn test_dot_notation() {
    let tokens = tokenize_string("(a . b)");
    assert_eq!(tokens.len(), 5);
    assert_eq!(tokens[0].token_type, TokenType::LParen);
    assert_eq!(tokens[1].token_type, TokenType::Atom);
    assert_eq!(tokens[1].literal, "a");
    assert_eq!(tokens[2].token_type, TokenType::Dot);
    assert_eq!(tokens[2].literal, ".");
    assert_eq!(tokens[3].token_type, TokenType::Atom);
    assert_eq!(tokens[3].literal, "b");
    assert_eq!(tokens[4].token_type, TokenType::RParen);
}

#[test]
fn test_vector() {
    let tokens = tokenize_string("#(1 2 3)");
    assert_eq!(tokens.len(), 5);
    assert_eq!(tokens[0].token_type, TokenType::Vec);
    assert_eq!(tokens[0].literal, "#(");
    assert_eq!(tokens[1].token_type, TokenType::Atom);
    assert_eq!(tokens[1].literal, "1");
    assert_eq!(tokens[2].token_type, TokenType::Atom);
    assert_eq!(tokens[2].literal, "2");
    assert_eq!(tokens[3].token_type, TokenType::Atom);
    assert_eq!(tokens[3].literal, "3");
    assert_eq!(tokens[4].token_type, TokenType::RParen);
}

#[test]
fn test_sharp_const() {
    let tokens = tokenize_string("#t #f #\\n #x1F");
    assert_eq!(tokens.len(), 4);
    for i in 0..4 {
        assert_eq!(tokens[i].token_type, TokenType::SharpConst);
    }
}

#[test]
fn test_string_literal() {
    let tokens = tokenize_string("\"hello world\"");
    // Tokenizer returns DQuote, then atoms for the content, then another DQuote
    // String parsing is left to the parser
    assert_eq!(tokens[0].token_type, TokenType::DQuote);
    assert_eq!(tokens[0].literal, "\"");
    assert!(tokens.len() >= 3); // at least opening quote, content, closing quote
}

#[test]
fn tokenizer_test_comments() {
    let tokens = tokenize_string("(+ 1 2) ; this is a comment\n(* 3 4)");
    assert_eq!(tokens.len(), 10);
    assert_eq!(tokens[0].token_type, TokenType::LParen);
    assert_eq!(tokens[1].token_type, TokenType::Atom);
    assert_eq!(tokens[1].literal, "+");
    assert_eq!(tokens[2].token_type, TokenType::Atom);
    assert_eq!(tokens[2].literal, "1");
    assert_eq!(tokens[3].token_type, TokenType::Atom);
    assert_eq!(tokens[3].literal, "2");
    assert_eq!(tokens[4].token_type, TokenType::RParen);
    assert_eq!(tokens[5].token_type, TokenType::LParen);
    assert_eq!(tokens[6].token_type, TokenType::Atom);
    assert_eq!(tokens[6].literal, "*");
    assert_eq!(tokens[7].token_type, TokenType::Atom);
    assert_eq!(tokens[7].literal, "3");
    assert_eq!(tokens[8].token_type, TokenType::Atom);
    assert_eq!(tokens[8].literal, "4");
    assert_eq!(tokens[9].token_type, TokenType::RParen);
}

#[test]
fn test_lambda() {
    let tokens = tokenize_string("(lambda (x) (* x x))");
    assert_eq!(tokens[0].token_type, TokenType::LParen);
    assert_eq!(tokens[1].token_type, TokenType::Atom); // lambda
    assert_eq!(tokens[1].literal, "lambda");
    assert_eq!(tokens[2].token_type, TokenType::LParen); // (x)
    assert_eq!(tokens[3].token_type, TokenType::Atom); // x
    assert_eq!(tokens[3].literal, "x");
    assert_eq!(tokens[4].token_type, TokenType::RParen);
    assert_eq!(tokens[tokens.len() - 1].token_type, TokenType::RParen);
}

#[test]
fn test_whitespace_handling() {
    let tokens = tokenize_string("  (  +   1   2  )  ");
    assert_eq!(tokens.len(), 5);
    assert_eq!(tokens[0].token_type, TokenType::LParen);
    assert_eq!(tokens[1].token_type, TokenType::Atom);
    assert_eq!(tokens[1].literal, "+");
    assert_eq!(tokens[2].token_type, TokenType::Atom);
    assert_eq!(tokens[2].literal, "1");
    assert_eq!(tokens[3].token_type, TokenType::Atom);
    assert_eq!(tokens[3].literal, "2");
    assert_eq!(tokens[4].token_type, TokenType::RParen);
}

#[test]
fn test_atom_with_numbers() {
    let tokens = tokenize_string("(list 42 3.14 -17)");
    let atom_count = tokens
        .iter()
        .filter(|t| t.token_type == TokenType::Atom)
        .count();
    assert_eq!(atom_count, 4); // list, 42, 3.14, -17
}

#[test]
fn test_let_form() {
    let tokens = tokenize_string("(let ((x 10) (y 20)) (+ x y))");
    assert_eq!(tokens[0].token_type, TokenType::LParen);
    assert_eq!(tokens[1].token_type, TokenType::Atom); // let
    assert_eq!(tokens[1].literal, "let");
    assert_eq!(tokens[2].token_type, TokenType::LParen); // ((x 10)
    assert_eq!(tokens[3].token_type, TokenType::LParen); // (x 10)
    assert_eq!(tokens[tokens.len() - 1].token_type, TokenType::RParen);
}

#[test]
fn test_cond_form() {
    let tokens = tokenize_string("(cond ((> x 0) 1) ((< x 0) -1) (else 0))");
    assert_eq!(tokens[0].token_type, TokenType::LParen);
    assert_eq!(tokens[1].token_type, TokenType::Atom); // cond
    assert_eq!(tokens[1].literal, "cond");
    assert_eq!(tokens[2].token_type, TokenType::LParen); // ((> x 0)
}

#[test]
fn test_empty_list() {
    let tokens = tokenize_string("()");
    assert_eq!(tokens.len(), 2);
    assert_eq!(tokens[0].token_type, TokenType::LParen);
    assert_eq!(tokens[1].token_type, TokenType::RParen);
}

#[test]
fn test_multiple_expressions() {
    let tokens = tokenize_string("42 hello (+ 1 2)");
    assert_eq!(tokens[0].token_type, TokenType::Atom); // 42
    assert_eq!(tokens[0].literal, "42");
    assert_eq!(tokens[1].token_type, TokenType::Atom); // hello
    assert_eq!(tokens[1].literal, "hello");
    assert_eq!(tokens[2].token_type, TokenType::LParen);
    assert_eq!(tokens[3].token_type, TokenType::Atom); // +
    assert_eq!(tokens[3].literal, "+");
    assert_eq!(tokens[4].token_type, TokenType::Atom); // 1
    assert_eq!(tokens[4].literal, "1");
    assert_eq!(tokens[5].token_type, TokenType::Atom); // 2
    assert_eq!(tokens[5].literal, "2");
    assert_eq!(tokens[6].token_type, TokenType::RParen);
}

#[test]
fn test_boolean_constants() {
    let tokens = tokenize_string("#t #f");
    assert_eq!(tokens.len(), 2);
    assert_eq!(tokens[0].token_type, TokenType::SharpConst);
    assert_eq!(tokens[1].token_type, TokenType::SharpConst);
}

#[test]
fn test_character_literals() {
    let tokens = tokenize_string("#\\a #\\space #\\newline");
    assert_eq!(tokens[0].token_type, TokenType::SharpConst);
    assert_eq!(tokens[1].token_type, TokenType::SharpConst);
    assert_eq!(tokens[2].token_type, TokenType::SharpConst);
}

#[test]
fn test_tokenizer_gaps_and_end() {
    let input = "  ; note\n#! run\n(a)";
    let mut t = Tokenizer::new(input);
    let first = t.next_token();
    assert_eq!(first.token_type, TokenType::LParen);
    assert_eq!(first.start, 16);
    assert_eq!(&input[first.start..first.end], first.literal);
    let mut t = Tokenizer::new(input);
    let tokens = t.tokenize();
    assert_eq!(tokens.len(), 3);
    let eof = t.next_token();
    assert_eq!(eof.token_type, TokenType::Eof);
    assert_eq!((eof.start, eof.end), (input.len(), input.len()));
}
