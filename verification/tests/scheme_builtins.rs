use muscm::environment::{define_all, Environment};
use muscm::scheme_builtins::{core_builtins, root_environment, stdlib_builtins};

#[test]
fn test_stdlib_registration() {
    let env = root_environment();

    // Verify key builtins are registered
    assert!(env.lookup("+").is_some());
    assert!(env.lookup("-").is_some());
    assert!(env.lookup("*").is_some());
    assert!(env.lookup("/").is_some());
    assert!(env.lookup("=").is_some());
    assert!(env.lookup("<").is_some());
    assert!(env.lookup(">").is_some());
    assert!(env.lookup("number?").is_some());
    assert!(env.lookup("car").is_some());
    assert!(env.lookup("cdr").is_some());
    assert!(env.lookup("cons").is_some());
    assert!(env.lookup("list").is_some());
    assert!(env.lookup("length").is_some());
    assert!(env.lookup("append").is_some());
    assert!(env.lookup("display").is_some());
    assert!(env.lookup("newline").is_some());

    // Verify math functions are registered
    assert!(env.lookup("abs").is_some());
    assert!(env.lookup("floor").is_some());
    assert!(env.lookup("ceiling").is_some());
    assert!(env.lookup("round").is_some());
    assert!(env.lookup("sqrt").is_some());
    assert!(env.lookup("sin").is_some());
    assert!(env.lookup("cos").is_some());
    assert!(env.lookup("min").is_some());
    assert!(env.lookup("max").is_some());

    // Verify string functions are registered
    assert!(env.lookup("string?").is_some());
    assert!(env.lookup("string-length").is_some());
    assert!(env.lookup("substring").is_some());
    assert!(env.lookup("string-upcase").is_some());
    assert!(env.lookup("string-downcase").is_some());
    assert!(env.lookup("string-append").is_some());
    assert!(env.lookup("string->number").is_some());
    assert!(env.lookup("number->string").is_some());
}

#[test]
fn test_builtin_tables() {
    let core = core_builtins();
    let all = stdlib_builtins();
    assert_eq!(core.len(), 23);
    assert_eq!(all.len(), 44);
    assert_eq!(core[..], all[..23]);
    assert_eq!(core[4], ("=".to_string(), Some(2)));
    assert_eq!(all[43], ("number->string".to_string(), Some(1)));
}

#[test]
fn test_define_all_last_entry_wins() {
    let mut env: Environment<i32> = Environment::new();
    env.define("keep".to_string(), 9);
    define_all(&mut env, vec![("a".to_string(), 1), ("b".to_string(), 2), ("a".to_string(), 3)]);
    assert_eq!(env.lookup("a"), Some(&3));
    assert_eq!(env.lookup("b"), Some(&2));
    assert_eq!(env.lookup("keep"), Some(&9));
    assert_eq!(env.frame_bindings(0).len(), 3);
}

#[test]
fn test_root_environment_arities() {
    let env = root_environment();
    for (name, arity) in stdlib_builtins() {
        assert_eq!(env.lookup(&name), Some(&arity), "{}", name);
    }
    for (name, arity) in core_builtins() {
        assert_eq!(env.lookup(&name), Some(&arity), "{}", name);
    }
    assert_eq!(env.lookup("lambda"), None);
}
