//! Front ends and shared pieces of an interpreter for Lua and Scheme: the
//! Lua lexer and parser with its syntax tree and source locations, the
//! Scheme tokenizer and parser with its syntax trees, variable scopes, the
//! runtime state that does not read runtime values (coroutines, captured
//! variables, labels), the checks of the Lua standard library, and the
//! error types.
pub mod ast;
pub mod coroutines;
pub mod environment;
pub mod error_types;
pub mod errors;
pub mod executor;
pub mod lua_parser;
pub mod lua_parser_types;
pub mod module_loader;
pub mod parser;
pub mod scheme_builtins;
pub mod stdlib;
pub mod text;
pub mod tokenizer;
pub mod upvalues;

pub use error_types::{LuaError, LuaResult};
