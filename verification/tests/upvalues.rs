use muscm::upvalues::{ClosureState, Upvalue};

#[test]
fn test_closure_state_upvalues() {
    let mut c: ClosureState<i32> = ClosureState::new();
    assert!(c.get_upvalue("x").is_none());
    c.add_upvalue(Upvalue::new("x".to_string(), 0, 1));
    c.add_upvalue(Upvalue::new("y".to_string(), 1, 2));
    c.add_upvalue(Upvalue::new("x".to_string(), 2, 3));
    assert_eq!(c.get_upvalue("x"), Some(&Upvalue { name: "x".to_string(), scope_depth: 0, value: 1 }));
    c.update_upvalue("x", 10);
    assert_eq!(c.upvalues[0].value, 10);
    assert_eq!(c.upvalues[2].value, 3);
    c.update_upvalue("missing", 99);
    assert_eq!(c.upvalues.len(), 3);
    let locals = c.to_locals();
    assert_eq!(locals.len(), 2);
    assert_eq!(locals.get("x"), Some(&3));
    assert_eq!(locals.get("y"), Some(&2));
    let d: ClosureState<i32> = ClosureState::default();
    assert!(d.upvalues.is_empty());
}
