use muscm::ast::{Arena, SExpr};
use muscm::parser::parse;

#[test]
fn parser_test_parse_simple_list() {
    let (arena, node_ids) = parse("(+ 1 2)").unwrap();
    assert_eq!(node_ids.len(), 1);
    if let Some(SExpr::List(ids)) = arena.get(node_ids[0]) {
        assert_eq!(ids.len(), 3);
        assert_eq!(arena.get(ids[1]), Some(&SExpr::Atom("1".to_string())));
        assert_eq!(arena.get(ids[2]), Some(&SExpr::Atom("2".to_string())));
    } else {
        panic!("Expected list");
    }
}

#[test]
fn parser_test_parse_atom() {
    let (_arena, node_ids) = parse("hello").unwrap();
    assert_eq!(node_ids.len(), 1);
}

#[test]
fn parser_test_parse_number() {
    let (_arena, node_ids) = parse("42").unwrap();
    assert_eq!(node_ids.len(), 1);
}

#[test]
fn parser_test_parse_quote() {
    let (_arena, node_ids) = parse("'hello").unwrap();
    assert_eq!(node_ids.len(), 1);
}

#[test]
fn parser_test_parse_bool() {
    let (_arena, node_ids) = parse("#t #f").unwrap();
    assert_eq!(node_ids.len(), 2);
}

#[test]
fn parser_test_parse_string() {
    let (_arena, node_ids) = parse("\"hello world\"").unwrap();
    assert_eq!(node_ids.len(), 1);
}

#[test]
fn parser_test_parse_nested_list() {
    let (_arena, node_ids) = parse("(define (square x) (* x x))").unwrap();
    assert_eq!(node_ids.len(), 1);
}

#[test]
fn parser_test_parse_vector() {
    let (_arena, node_ids) = parse("#(1 2 3)").unwrap();
    assert_eq!(node_ids.len(), 1);
}

#[test]
fn parser_test_parse_multiple_exprs() {
    let (_arena, node_ids) = parse("42 hello (+ 1 2)").unwrap();
    assert_eq!(node_ids.len(), 3);
}

#[test]
fn parser_test_parse_backquote() {
    let (_arena, node_ids) = parse("`(a ,b)").unwrap();
    assert_eq!(node_ids.len(), 1);
}

#[test]
fn parser_test_parse_unquote_splicing() {
    let (_arena, node_ids) = parse("(,@items)").unwrap();
    assert_eq!(node_ids.len(), 1);
}

#[test]
fn parser_test_parse_scheme_read_file() {
    let input = r#"(define (print-file filename)
      (call-with-input-file filename
        (lambda (port)
          (let loop ()
            (let ((line (read-line port)))
              (if (eof-object? line)
                  'done
                  (begin
                    (display line)
                    (newline)
                    (loop))))))))

    ;; Example usage
    (print-file "example.txt")"#;
    let (_arena, node_ids) = parse(input).unwrap();
    assert_eq!(node_ids.len(), 2);
}

#[test]
fn test_parse_char_and_bool_constants() {
    let (arena, ids) = parse("#t #\\space #\\a").unwrap();
    assert_eq!(arena.get(ids[0]), Some(&SExpr::Bool(true)));
    assert_eq!(arena.get(ids[1]), Some(&SExpr::Char(' ')));
    assert_eq!(arena.get(ids[2]), Some(&SExpr::Char('a')));
}

#[test]
fn test_parse_unknown_character_literal() {
    let err = parse("\n#\\bogus").unwrap_err();
    assert_eq!(err.message, "Unknown character literal: bogus");
    assert_eq!(err.line, 0);
    assert_eq!(err.to_string(), "Parse error at line 0: Unknown character literal: bogus");
}

#[test]
fn test_parse_string_joins_words() {
    let (arena, ids) = parse("\"hello   world\"").unwrap();
    assert_eq!(arena.get(ids[0]), Some(&SExpr::String("hello world".to_string())));
}

#[test]
fn test_parse_errors() {
    assert_eq!(parse("(a").unwrap_err().message, "Unexpected token");
    assert_eq!(parse("( . a)").unwrap_err().message, "Unexpected dot");
    assert_eq!(parse("(a . b c)").unwrap_err().message, "Expected ) after dot notation");
    assert_eq!(parse("\"abc").unwrap_err().message, "Unterminated string");
    let err = parse("(a\n)\n)").unwrap_err();
    assert_eq!(err.message, "Unexpected token");
    assert_eq!(err.line, 0);
}

#[test]
fn test_parse_dotted_pair_and_quotes() {
    let (arena, ids) = parse("(a . b) 'x `(y ,z ,@w)").unwrap();
    assert_eq!(ids.len(), 3);
    match arena.get(ids[0]) {
        Some(SExpr::List(items)) => assert_eq!(items.len(), 2),
        other => panic!("expected a list, got {:?}", other),
    }
    assert!(matches!(arena.get(ids[1]), Some(SExpr::Quote(_))));
    assert!(matches!(arena.get(ids[2]), Some(SExpr::QuasiQuote(_))));
}

#[test]
fn test_arena_allocate_and_get_mut() {
    let mut arena = Arena::new();
    let a = arena.allocate(SExpr::Bool(true));
    let b = arena.allocate(SExpr::Atom("x".to_string()));
    assert_eq!((a, b), (0, 1));
    if let Some(node) = arena.get_mut(b) {
        *node = SExpr::Bool(false);
    }
    assert_eq!(arena.get(b), Some(&SExpr::Bool(false)));
    assert!(arena.get(2).is_none());
    assert!(arena.get_mut(5).is_none());
    let empty = Arena::default();
    assert!(empty.get(0).is_none());
}

#[test]
fn test_display_parsed_expressions() {
    let (arena, ids) = parse("(define (f x) '(a #t \"hi there\" #\\a) #(1 2)) `(y ,z ,@w) (a . b) ()").unwrap();
    let shown: Vec<String> = ids
        .iter()
        .map(|id| arena.get(*id).unwrap().display_with_arena(&arena))
        .collect();
    assert_eq!(shown[0], "(define (f x) '(a #t \"hi there\" #\\a) #(1 2))");
    assert_eq!(shown[1], "`(y ,z ,@w)");
    assert_eq!(shown[2], "(a b)");
    assert_eq!(shown[3], "()");
}

#[test]
fn test_display_invalid_child_and_alone() {
    let mut arena = Arena::new();
    let a = arena.allocate(SExpr::Atom("a".to_string()));
    let list = SExpr::List(vec![a, 7]);
    assert_eq!(list.display_with_arena(&arena), "(a #<invalid>)");
    assert_eq!(SExpr::Quote(9).display_with_arena(&arena), "'#<invalid>");
    assert_eq!(SExpr::Bool(false).display_with_arena(&arena), "#f");
    assert_eq!(list.to_string(), "#<node-list>");
    assert_eq!(SExpr::Vector(vec![]).to_string(), "#<node-vector>");
    assert_eq!(SExpr::Unquote(0).to_string(), "#<node-ref>");
    assert_eq!(SExpr::String("s".to_string()).to_string(), "\"s\"");
    assert_eq!(SExpr::Char('z').to_string(), "#\\z");
    assert_eq!(SExpr::Atom("sym".to_string()).to_string(), "sym");
}
