use muscm::environment::Environment;

#[test]
fn test_environment_define_and_lookup() {
    let mut env: Environment<i32> = Environment::new();
    assert_eq!(env.lookup("x"), None);
    env.define("x".to_string(), 1);
    env.define("y".to_string(), 2);
    assert_eq!(env.lookup("x"), Some(&1));
    assert_eq!(env.lookup("y"), Some(&2));
    env.define("x".to_string(), 10);
    assert_eq!(env.lookup("x"), Some(&10));
    assert_eq!(env.lookup("y"), Some(&2));
}

#[test]
fn test_environment_child_shadows_and_reads_outer() {
    let mut env: Environment<&str> = Environment::new();
    env.define("a".to_string(), "outer a");
    env.define("b".to_string(), "outer b");
    let mut inner = env.clone().child();
    assert_eq!(inner.lookup("a"), Some(&"outer a"));
    inner.define("a".to_string(), "inner a");
    assert_eq!(inner.lookup("a"), Some(&"inner a"));
    assert_eq!(inner.lookup("b"), Some(&"outer b"));
    // The copy the child was made from is left alone.
    assert_eq!(env.lookup("a"), Some(&"outer a"));
}

#[test]
fn test_environment_set_innermost_binding() {
    let mut env: Environment<i32> = Environment::new();
    env.define("n".to_string(), 1);
    let mut inner = env.child();
    assert_eq!(inner.set("n", 5), Ok(()));
    assert_eq!(inner.lookup("n"), Some(&5));
    inner.define("n".to_string(), 7);
    assert_eq!(inner.set("n", 8), Ok(()));
    assert_eq!(inner.lookup("n"), Some(&8));
}

#[test]
fn test_environment_set_unbound() {
    let mut env: Environment<i32> = Environment::new();
    env.define("x".to_string(), 3);
    let mut inner = env.child();
    assert_eq!(inner.set("missing", 1), Err("Unbound variable: missing".to_string()));
    assert_eq!(inner.lookup("x"), Some(&3));
    assert_eq!(inner.lookup("missing"), None);
}

#[test]
fn test_environment_lua_scopes() {
    let mut vars: Environment<i32> = Environment::new();
    vars.define("g".to_string(), 1);
    assert_eq!(vars.scope_depth(), 0);
    vars = vars.child();
    vars.define("l".to_string(), 2);
    assert_eq!(vars.scope_depth(), 1);
    assert_eq!(vars.update("g", 10), Ok(()));
    assert_eq!(vars.update("nope", 0), Err("Undefined variable: nope".to_string()));
    assert_eq!(vars.frame_bindings(0), &vec![("g".to_string(), 10)]);
    assert_eq!(vars.frame_bindings(1), &vec![("l".to_string(), 2)]);
    vars.pop_scope();
    assert_eq!(vars.scope_depth(), 0);
    assert_eq!(vars.lookup("l"), None);
    assert_eq!(vars.lookup("g"), Some(&10));
    // The outermost scope stays.
    vars.pop_scope();
    assert_eq!(vars.lookup("g"), Some(&10));
}
