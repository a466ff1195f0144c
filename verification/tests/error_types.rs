use muscm::error_types::{LuaError, LuaResult};

#[test]
fn test_parse_error_creation() {
    let err = LuaError::parse("unexpected token", 10, 5);
    assert_eq!(err.category(), "parse");
    assert!(err.message().contains("10:5"));
}

#[test]
fn test_runtime_error_creation() {
    let err = LuaError::runtime("invalid operation", "assignment");
    assert_eq!(err.category(), "runtime");
    assert!(err.message().contains("assignment"));
}

#[test]
fn test_type_error_creation() {
    let err = LuaError::type_error("number", "string", "math.abs");
    assert_eq!(err.category(), "type");
    assert!(err.message().contains("math.abs"));
    assert!(err.message().contains("number"));
}

#[test]
fn test_file_error_creation() {
    let err = LuaError::file("test.lua", "file not found");
    assert_eq!(err.category(), "file");
    assert!(err.message().contains("test.lua"));
}

#[test]
fn test_module_error_creation() {
    let err = LuaError::module("mylib", "circular dependency detected");
    assert_eq!(err.category(), "module");
    assert!(err.message().contains("mylib"));
}

#[test]
fn test_user_error_creation() {
    let err = LuaError::user("custom error message", 1);
    assert_eq!(err.category(), "user");
    match err {
        LuaError::UserError { message, level } => {
            assert_eq!(message, "custom error message");
            assert_eq!(level, 1);
        }
        _ => panic!("Expected UserError"),
    }
}

#[test]
fn test_argument_count_error() {
    let err = LuaError::arg_count("print", 1, 3);
    assert_eq!(err.category(), "argument");
    assert!(err.message().contains("print"));
    assert!(err.message().contains("1"));
    assert!(err.message().contains("3"));
}

#[test]
fn error_types_test_break_outside_loop() {
    let err = LuaError::BreakOutsideLoop;
    assert_eq!(err.category(), "control_flow");
    assert!(err.message().contains("break"));
}

#[test]
fn error_types_test_division_by_zero() {
    let err = LuaError::DivisionByZero;
    assert_eq!(err.category(), "arithmetic");
    assert!(err.message().contains("division"));
}

#[test]
fn test_display_impl() {
    let err = LuaError::value("test error");
    let display_str = err.message();
    assert!(display_str.contains("test error"));
}

#[test]
fn test_error_conversion_chain() {
    let err: LuaResult<i32> = Err(LuaError::value("oops"));
    assert!(err.is_err());
}
