//! Error variants of the Lua interpreter, with the context each one carries,
//! a category name for matching and a human-readable message.
use vstd::prelude::*;
use crate::text::{decimal, push_decimal};

verus! {

/// Error raised while tokenizing, parsing or running a Lua program.
#[derive(Debug, Clone, PartialEq)]
pub enum LuaError {
    /// Parse error with location information
    ParseError { message: String, line: usize, column: usize },
    /// Runtime error with execution context
    RuntimeError { message: String, context: String },
    /// Type mismatch error
    TypeError { expected: String, got: String, function: String },
    /// Value validation error
    ValueError { message: String },
    /// File I/O error
    FileError { path: String, reason: String },
    /// Module loading error
    ModuleError { module: String, reason: String },
    /// Tokenization error
    TokenError { message: String, position: usize },
    /// User-raised error (from error() function)
    UserError { message: String, level: usize },
    /// Control flow: break outside loop
    BreakOutsideLoop,
    /// Control flow: goto to undefined label
    UndefinedLabel { label: String },
    /// Function argument count mismatch
    ArgumentCountError { function: String, expected: usize, got: usize },
    /// Division by zero
    DivisionByZero,
    /// Attempt to index non-indexable type
    IndexError { indexing_type: String, key_type: String },
    /// Attempt to call non-callable
    CallError { value_type: String },
}

/// Result of an interpreter operation.
pub type LuaResult<T> = Result<T, LuaError>;

impl LuaError {
    /// The category name of the error, used for matching.
    pub open spec fn spec_category(&self) -> Seq<char> {
        match self {
            LuaError::ParseError { .. } => "parse"@,
            LuaError::RuntimeError { .. } => "runtime"@,
            LuaError::TypeError { .. } => "type"@,
            LuaError::ValueError { .. } => "value"@,
            LuaError::FileError { .. } => "file"@,
            LuaError::ModuleError { .. } => "module"@,
            LuaError::TokenError { .. } => "token"@,
            LuaError::UserError { .. } => "user"@,
            LuaError::BreakOutsideLoop => "control_flow"@,
            LuaError::UndefinedLabel { .. } => "label"@,
            LuaError::ArgumentCountError { .. } => "argument"@,
            LuaError::DivisionByZero => "arithmetic"@,
            LuaError::IndexError { .. } => "index"@,
            LuaError::CallError { .. } => "call"@,
        }
    }

    /// The message reported for the error.
    pub open spec fn spec_message(&self) -> Seq<char> {
        match self {
            LuaError::ParseError { message, line, column } =>
                "Parse error at "@ + decimal(*line as nat) + ":"@ + decimal(*column as nat) + ": "@
                    + message@,
            LuaError::RuntimeError { message, context } =>
                "Runtime error ("@ + context@ + "): "@ + message@,
            LuaError::TypeError { expected, got, function } =>
                "Type error in "@ + function@ + ": expected "@ + expected@ + ", got "@ + got@,
            LuaError::ValueError { message } => "Value error: "@ + message@,
            LuaError::FileError { path, reason } => "File error ("@ + path@ + "): "@ + reason@,
            LuaError::ModuleError { module, reason } =>
                "Module error ("@ + module@ + "): "@ + reason@,
            LuaError::TokenError { message, position } =>
                "Token error at position "@ + decimal(*position as nat) + ": "@ + message@,
            LuaError::UserError { message, .. } => message@,
            LuaError::BreakOutsideLoop => "break statement outside loop"@,
            LuaError::UndefinedLabel { label } => "undefined label: "@ + label@,
            LuaError::ArgumentCountError { function, expected, got } =>
                "Function "@ + function@ + " expects "@ + decimal(*expected as nat)
                    + " argument(s), got "@ + decimal(*got as nat),
            LuaError::DivisionByZero => "division by zero"@,
            LuaError::IndexError { indexing_type, key_type } =>
                "Cannot index "@ + indexing_type@ + " with "@ + key_type@,
            LuaError::CallError { value_type } =>
                "Attempt to call "@ + value_type@ + " (not a function)"@,
        }
    }

    /// The details an error carries that its message shows: its location,
    /// context, names and values.
    pub open spec fn details(&self) -> Seq<Seq<char>> {
        match self {
            LuaError::ParseError { message, line, column } => seq![
                decimal(*line as nat) + ":"@ + decimal(*column as nat),
                message@,
            ],
            LuaError::RuntimeError { message, context } => seq![context@, message@],
            LuaError::TypeError { expected, got, function } => seq![function@, expected@, got@],
            LuaError::ValueError { message } => seq![message@],
            LuaError::FileError { path, reason } => seq![path@, reason@],
            LuaError::ModuleError { module, reason } => seq![module@, reason@],
            LuaError::TokenError { message, position } => seq![decimal(*position as nat), message@],
            LuaError::UserError { message, .. } => seq![message@],
            LuaError::BreakOutsideLoop => seq!["break"@],
            LuaError::UndefinedLabel { label } => seq![label@],
            LuaError::ArgumentCountError { function, expected, got } => seq![
                function@,
                decimal(*expected as nat),
                decimal(*got as nat),
            ],
            LuaError::DivisionByZero => seq!["division"@],
            LuaError::IndexError { indexing_type, key_type } => seq![indexing_type@, key_type@],
            LuaError::CallError { value_type } => seq![value_type@],
        }
    }

    /// Create a parse error with location information
    pub fn parse(message: &str, line: usize, column: usize) -> (e: Self)
        ensures
            e matches LuaError::ParseError { message: m, line: l, column: c }
                && m@ == message@ && l == line && c == column,
    {
        LuaError::ParseError { message: message.to_owned(), line, column }
    }

    /// Create a runtime error with context
    pub fn runtime(message: &str, context: &str) -> (e: Self)
        ensures
            e matches LuaError::RuntimeError { message: m, context: c }
                && m@ == message@ && c@ == context@,
    {
        LuaError::RuntimeError { message: message.to_owned(), context: context.to_owned() }
    }

    /// Create a type error
    pub fn type_error(expected: &str, got: &str, function: &str) -> (e: Self)
        ensures
            e matches LuaError::TypeError { expected: x, got: g, function: f }
                && x@ == expected@ && g@ == got@ && f@ == function@,
    {
        LuaError::TypeError {
            expected: expected.to_owned(),
            got: got.to_owned(),
            function: function.to_owned(),
        }
    }

    /// Create a value error
    pub fn value(message: &str) -> (e: Self)
        ensures
            e matches LuaError::ValueError { message: m } && m@ == message@,
    {
        LuaError::ValueError { message: message.to_owned() }
    }

    /// Create a file error
    pub fn file(path: &str, reason: &str) -> (e: Self)
        ensures
            e matches LuaError::FileError { path: p, reason: r } && p@ == path@ && r@ == reason@,
    {
        LuaError::FileError { path: path.to_owned(), reason: reason.to_owned() }
    }

    /// Create a module error
    pub fn module(module: &str, reason: &str) -> (e: Self)
        ensures
            e matches LuaError::ModuleError { module: m, reason: r }
                && m@ == module@ && r@ == reason@,
    {
        LuaError::ModuleError { module: module.to_owned(), reason: reason.to_owned() }
    }

    /// Create a tokenization error
    pub fn token(message: &str, position: usize) -> (e: Self)
        ensures
            e matches LuaError::TokenError { message: m, position: p }
                && m@ == message@ && p == position,
    {
        LuaError::TokenError { message: message.to_owned(), position }
    }

    /// Create a user-raised error
    pub fn user(message: &str, level: usize) -> (e: Self)
        ensures
            e matches LuaError::UserError { message: m, level: l } && m@ == message@ && l == level,
    {
        LuaError::UserError { message: message.to_owned(), level }
    }

    /// Create an argument count error
    pub fn arg_count(function: &str, expected: usize, got: usize) -> (e: Self)
        ensures
            e matches LuaError::ArgumentCountError { function: f, expected: x, got: g }
                && f@ == function@ && x == expected && g == got,
    {
        LuaError::ArgumentCountError { function: function.to_owned(), expected, got }
    }

    /// Create an index error
    pub fn index(indexing_type: &str, key_type: &str) -> (e: Self)
        ensures
            e matches LuaError::IndexError { indexing_type: i, key_type: k }
                && i@ == indexing_type@ && k@ == key_type@,
    {
        LuaError::IndexError {
            indexing_type: indexing_type.to_owned(),
            key_type: key_type.to_owned(),
        }
    }

    /// Create a call error
    pub fn call(value_type: &str) -> (e: Self)
        ensures
            e matches LuaError::CallError { value_type: v } && v@ == value_type@,
    {
        LuaError::CallError { value_type: value_type.to_owned() }
    }

    /// Get error category for matching
    pub fn category(&self) -> (c: &'static str)
        ensures
            c@ == self.spec_category(),
    {
        match self {
            LuaError::ParseError { .. } => "parse",
            LuaError::RuntimeError { .. } => "runtime",
            LuaError::TypeError { .. } => "type",
            LuaError::ValueError { .. } => "value",
            LuaError::FileError { .. } => "file",
            LuaError::ModuleError { .. } => "module",
            LuaError::TokenError { .. } => "token",
            LuaError::UserError { .. } => "user",
            LuaError::BreakOutsideLoop => "control_flow",
            LuaError::UndefinedLabel { .. } => "label",
            LuaError::ArgumentCountError { .. } => "argument",
            LuaError::DivisionByZero => "arithmetic",
            LuaError::IndexError { .. } => "index",
            LuaError::CallError { .. } => "call",
        }
    }

    /// Get the message string for error reporting
    pub fn message(&self) -> (s: String)
        ensures
            s@ == self.spec_message(),
    {
        let mut s = String::new();
        match self {
            LuaError::ParseError { message, line, column } => {
                s.append("Parse error at ");
                push_decimal(&mut s, *line);
                s.append(":");
                push_decimal(&mut s, *column);
                s.append(": ");
                s.append(message.as_str());
            },
            LuaError::RuntimeError { message, context } => {
                s.append("Runtime error (");
                s.append(context.as_str());
                s.append("): ");
                s.append(message.as_str());
            },
            LuaError::TypeError { expected, got, function } => {
                s.append("Type error in ");
                s.append(function.as_str());
                s.append(": expected ");
                s.append(expected.as_str());
                s.append(", got ");
                s.append(got.as_str());
            },
            LuaError::ValueError { message } => {
                s.append("Value error: ");
                s.append(message.as_str());
            },
            LuaError::FileError { path, reason } => {
                s.append("File error (");
                s.append(path.as_str());
                s.append("): ");
                s.append(reason.as_str());
            },
            LuaError::ModuleError { module, reason } => {
                s.append("Module error (");
                s.append(module.as_str());
                s.append("): ");
                s.append(reason.as_str());
            },
            LuaError::TokenError { message, position } => {
                s.append("Token error at position ");
                push_decimal(&mut s, *position);
                s.append(": ");
                s.append(message.as_str());
            },
            LuaError::UserError { message, .. } => {
                s.append(message.as_str());
            },
            LuaError::BreakOutsideLoop => {
                s.append("break statement outside loop");
            },
            LuaError::UndefinedLabel { label } => {
                s.append("undefined label: ");
                s.append(label.as_str());
            },
            LuaError::ArgumentCountError { function, expected, got } => {
                s.append("Function ");
                s.append(function.as_str());
                s.append(" expects ");
                push_decimal(&mut s, *expected);
                s.append(" argument(s), got ");
                push_decimal(&mut s, *got);
            },
            LuaError::DivisionByZero => {
                s.append("division by zero");
            },
            LuaError::IndexError { indexing_type, key_type } => {
                s.append("Cannot index ");
                s.append(indexing_type.as_str());
                s.append(" with ");
                s.append(key_type.as_str());
            },
            LuaError::CallError { value_type } => {
                s.append("Attempt to call ");
                s.append(value_type.as_str());
                s.append(" (not a function)");
            },
        }
        s
    }
}

/// Whether `w` occurs in `m` as a run of consecutive characters.
pub open spec fn contains(m: Seq<char>, w: Seq<char>) -> bool {
    exists|i: int| 0 <= i <= m.len() - w.len() && #[trigger] m.subrange(i, i + w.len()) == w
}

/// `w` occurs in `a + w + c`.
proof fn lemma_contains_within(a: Seq<char>, w: Seq<char>, c: Seq<char>)
    ensures
        contains(a + w + c, w),
{
    assert((a + w + c).subrange(a.len() as int, (a.len() + w.len()) as int) =~= w);
}

/// The parse-error case of `lemma_message_shows_details`.
proof fn lemma_parse_message_shows_details(e: LuaError)
    requires
        e is ParseError,
    ensures
        forall|k: int| 0 <= k < e.details().len() ==> contains(e.spec_message(), #[trigger] e.details()[k]),
{
    let m = e.spec_message();
    let d = e.details();
    let loc = decimal(e->line as nat) + ":"@ + decimal(e->column as nat);
    let a = "Parse error at "@;
    let b = ": "@;
    lemma_contains_within(a, loc, b + e->ParseError_message@);
    assert(a + loc + (b + e->ParseError_message@) =~= m);
    lemma_contains_within(a + loc + b, e->ParseError_message@, Seq::empty());
    assert(a + loc + b + e->ParseError_message@ + Seq::<char>::empty() =~= m);
    assert(d[0] == loc);
    assert(d[1] == e->ParseError_message@);
}

/// The message of every error shows each of its details: a parse error
/// shows `line:column` and its message, a type error the function and both
/// types, an argument-count error the function and both counts, and so on.
pub proof fn lemma_message_shows_details(e: LuaError)
    ensures
        forall|k: int| 0 <= k < e.details().len() ==> contains(e.spec_message(), #[trigger] e.details()[k]),
{
    let m = e.spec_message();
    let d = e.details();
    match e {
        LuaError::ParseError { .. } => {
            lemma_parse_message_shows_details(e);
        },
        LuaError::RuntimeError { message, context } => {
            lemma_contains_within("Runtime error ("@, context@, "): "@ + message@);
            assert("Runtime error ("@ + context@ + ("): "@ + message@) =~= m);
            lemma_contains_within("Runtime error ("@ + context@ + "): "@, message@, Seq::empty());
            assert("Runtime error ("@ + context@ + "): "@ + message@ + Seq::<char>::empty() =~= m);
        },
        LuaError::TypeError { expected, got, function } => {
            let a = "Type error in "@;
            let b = ": expected "@;
            let c = ", got "@;
            lemma_contains_within(a, function@, b + expected@ + c + got@);
            assert(a + function@ + (b + expected@ + c + got@) =~= m);
            lemma_contains_within(a + function@ + b, expected@, c + got@);
            assert(a + function@ + b + expected@ + (c + got@) =~= m);
            lemma_contains_within(a + function@ + b + expected@ + c, got@, Seq::empty());
            assert(a + function@ + b + expected@ + c + got@ + Seq::<char>::empty() =~= m);
        },
        LuaError::ValueError { message } => {
            lemma_contains_within("Value error: "@, message@, Seq::empty());
            assert("Value error: "@ + message@ + Seq::<char>::empty() =~= m);
        },
        LuaError::FileError { path, reason } => {
            lemma_contains_within("File error ("@, path@, "): "@ + reason@);
            assert("File error ("@ + path@ + ("): "@ + reason@) =~= m);
            lemma_contains_within("File error ("@ + path@ + "): "@, reason@, Seq::empty());
            assert("File error ("@ + path@ + "): "@ + reason@ + Seq::<char>::empty() =~= m);
        },
        LuaError::ModuleError { module, reason } => {
            lemma_contains_within("Module error ("@, module@, "): "@ + reason@);
            assert("Module error ("@ + module@ + ("): "@ + reason@) =~= m);
            lemma_contains_within("Module error ("@ + module@ + "): "@, reason@, Seq::empty());
            assert("Module error ("@ + module@ + "): "@ + reason@ + Seq::<char>::empty() =~= m);
        },
        LuaError::TokenError { message, position } => {
            let p = decimal(position as nat);
            lemma_contains_within("Token error at position "@, p, ": "@ + message@);
            assert("Token error at position "@ + p + (": "@ + message@) =~= m);
            lemma_contains_within("Token error at position "@ + p + ": "@, message@, Seq::empty());
            assert("Token error at position "@ + p + ": "@ + message@ + Seq::<char>::empty() =~= m);
        },
        LuaError::UserError { message, .. } => {
            lemma_contains_within(Seq::empty(), message@, Seq::empty());
            assert(Seq::<char>::empty() + message@ + Seq::<char>::empty() =~= m);
        },
        LuaError::BreakOutsideLoop => {
            reveal_strlit("break statement outside loop");
            reveal_strlit("break");
            reveal_strlit(" statement outside loop");
            lemma_contains_within(Seq::empty(), "break"@, " statement outside loop"@);
            assert(Seq::<char>::empty() + "break"@ + " statement outside loop"@ =~= m);
        },
        LuaError::UndefinedLabel { label } => {
            lemma_contains_within("undefined label: "@, label@, Seq::empty());
            assert("undefined label: "@ + label@ + Seq::<char>::empty() =~= m);
        },
        LuaError::ArgumentCountError { function, expected, got } => {
            let a = "Function "@;
            let b = " expects "@;
            let c = " argument(s), got "@;
            let x = decimal(expected as nat);
            let y = decimal(got as nat);
            lemma_contains_within(a, function@, b + x + c + y);
            assert(a + function@ + (b + x + c + y) =~= m);
            lemma_contains_within(a + function@ + b, x, c + y);
            assert(a + function@ + b + x + (c + y) =~= m);
            lemma_contains_within(a + function@ + b + x + c, y, Seq::empty());
            assert(a + function@ + b + x + c + y + Seq::<char>::empty() =~= m);
        },
        LuaError::DivisionByZero => {
            reveal_strlit("division by zero");
            reveal_strlit("division");
            reveal_strlit(" by zero");
            lemma_contains_within(Seq::empty(), "division"@, " by zero"@);
            assert(Seq::<char>::empty() + "division"@ + " by zero"@ =~= m);
        },
        LuaError::IndexError { indexing_type, key_type } => {
            lemma_contains_within("Cannot index "@, indexing_type@, " with "@ + key_type@);
            assert("Cannot index "@ + indexing_type@ + (" with "@ + key_type@) =~= m);
            lemma_contains_within("Cannot index "@ + indexing_type@ + " with "@, key_type@, Seq::empty());
            assert("Cannot index "@ + indexing_type@ + " with "@ + key_type@ + Seq::<char>::empty() =~= m);
        },
        LuaError::CallError { value_type } => {
            lemma_contains_within("Attempt to call "@, value_type@, " (not a function)"@);
        },
    }
}


impl LuaError {
    /// The fixed words of the error's message: its kind (`Parse error`,
    /// `Type error`, ...) and the words around its details (`expected`,
    /// `got`, `outside loop`, `not a function`, ...).
    pub open spec fn spec_words(&self) -> Seq<Seq<char>> {
        match self {
            LuaError::ParseError { .. } => seq!["Parse error"@],
            LuaError::RuntimeError { .. } => seq!["Runtime error"@],
            LuaError::TypeError { .. } => seq!["Type error"@, "expected"@, "got"@],
            LuaError::ValueError { .. } => seq!["Value error"@],
            LuaError::FileError { .. } => seq!["File error"@],
            LuaError::ModuleError { .. } => seq!["Module error"@],
            LuaError::TokenError { .. } => seq!["Token error"@, "position"@],
            LuaError::UserError { .. } => Seq::empty(),
            LuaError::BreakOutsideLoop => seq!["break"@, "outside loop"@],
            LuaError::UndefinedLabel { .. } => seq!["undefined"@, "label"@],
            LuaError::ArgumentCountError { .. } => seq!["expects"@, "argument"@, "got"@],
            LuaError::DivisionByZero => seq!["division by zero"@],
            LuaError::IndexError { .. } => seq!["Cannot index"@, "with"@],
            LuaError::CallError { .. } => seq!["call"@, "not a function"@],
        }
    }
}

/// `lemma_message_shows_words` for `ParseError`.
proof fn lemma_parse_error_words(e: LuaError)
    requires
        e is ParseError,
    ensures
        forall|k: int| 0 <= k < e.spec_words().len() ==> contains(e.spec_message(), #[trigger] e.spec_words()[k]),
{
    let m = e.spec_message();
    match e {
        LuaError::ParseError { message, line, column } => {
            reveal_strlit("Parse error at ");
            reveal_strlit("Parse error");
            reveal_strlit(" at ");
            assert("Parse error at "@ =~= "Parse error"@ + " at "@);
            lemma_contains_within(Seq::<char>::empty(), "Parse error"@, " at "@ + decimal(line as nat) + ":"@ + decimal(column as nat) + ": "@ + message@);
            assert(Seq::<char>::empty() + "Parse error"@ + (" at "@ + decimal(line as nat) + ":"@ + decimal(column as nat) + ": "@ + message@) =~= m);
        },
        _ => {},
    }
}

/// `lemma_message_shows_words` for `RuntimeError`.
proof fn lemma_runtime_error_words(e: LuaError)
    requires
        e is RuntimeError,
    ensures
        forall|k: int| 0 <= k < e.spec_words().len() ==> contains(e.spec_message(), #[trigger] e.spec_words()[k]),
{
    let m = e.spec_message();
    match e {
        LuaError::RuntimeError { message, context } => {
            reveal_strlit("Runtime error (");
            reveal_strlit("Runtime error");
            reveal_strlit(" (");
            assert("Runtime error ("@ =~= "Runtime error"@ + " ("@);
            lemma_contains_within(Seq::<char>::empty(), "Runtime error"@, " ("@ + context@ + "): "@ + message@);
            assert(Seq::<char>::empty() + "Runtime error"@ + (" ("@ + context@ + "): "@ + message@) =~= m);
        },
        _ => {},
    }
}

/// `lemma_message_shows_words` for `TypeError`.
proof fn lemma_type_error_words(e: LuaError)
    requires
        e is TypeError,
    ensures
        forall|k: int| 0 <= k < e.spec_words().len() ==> contains(e.spec_message(), #[trigger] e.spec_words()[k]),
{
    let m = e.spec_message();
    match e {
        LuaError::TypeError { expected, got, function } => {
            reveal_strlit("Type error in ");
            reveal_strlit("Type error");
            reveal_strlit(" in ");
            assert("Type error in "@ =~= "Type error"@ + " in "@);
            lemma_contains_within(Seq::<char>::empty(), "Type error"@, " in "@ + function@ + ": expected "@ + expected@ + ", got "@ + got@);
            assert(Seq::<char>::empty() + "Type error"@ + (" in "@ + function@ + ": expected "@ + expected@ + ", got "@ + got@) =~= m);
            reveal_strlit(": expected ");
            reveal_strlit("expected");
            reveal_strlit(": ");
            reveal_strlit(" ");
            assert(": expected "@ =~= ": "@ + "expected"@ + " "@);
            lemma_contains_within("Type error in "@ + function@ + ": "@, "expected"@, " "@ + expected@ + ", got "@ + got@);
            assert("Type error in "@ + function@ + ": "@ + "expected"@ + (" "@ + expected@ + ", got "@ + got@) =~= m);
            reveal_strlit(", got ");
            reveal_strlit("got");
            reveal_strlit(", ");
            assert(", got "@ =~= ", "@ + "got"@ + " "@);
            lemma_contains_within("Type error in "@ + function@ + ": expected "@ + expected@ + ", "@, "got"@, " "@ + got@);
            assert("Type error in "@ + function@ + ": expected "@ + expected@ + ", "@ + "got"@ + (" "@ + got@) =~= m);
        },
        _ => {},
    }
}

/// `lemma_message_shows_words` for `ValueError`.
proof fn lemma_value_error_words(e: LuaError)
    requires
        e is ValueError,
    ensures
        forall|k: int| 0 <= k < e.spec_words().len() ==> contains(e.spec_message(), #[trigger] e.spec_words()[k]),
{
    let m = e.spec_message();
    match e {
        LuaError::ValueError { message } => {
            reveal_strlit("Value error: ");
            reveal_strlit("Value error");
            reveal_strlit(": ");
            assert("Value error: "@ =~= "Value error"@ + ": "@);
            lemma_contains_within(Seq::<char>::empty(), "Value error"@, ": "@ + message@);
            assert(Seq::<char>::empty() + "Value error"@ + (": "@ + message@) =~= m);
        },
        _ => {},
    }
}

/// `lemma_message_shows_words` for `FileError`.
proof fn lemma_file_error_words(e: LuaError)
    requires
        e is FileError,
    ensures
        forall|k: int| 0 <= k < e.spec_words().len() ==> contains(e.spec_message(), #[trigger] e.spec_words()[k]),
{
    let m = e.spec_message();
    match e {
        LuaError::FileError { path, reason } => {
            reveal_strlit("File error (");
            reveal_strlit("File error");
            reveal_strlit(" (");
            assert("File error ("@ =~= "File error"@ + " ("@);
            lemma_contains_within(Seq::<char>::empty(), "File error"@, " ("@ + path@ + "): "@ + reason@);
            assert(Seq::<char>::empty() + "File error"@ + (" ("@ + path@ + "): "@ + reason@) =~= m);
        },
        _ => {},
    }
}

/// `lemma_message_shows_words` for `ModuleError`.
proof fn lemma_module_error_words(e: LuaError)
    requires
        e is ModuleError,
    ensures
        forall|k: int| 0 <= k < e.spec_words().len() ==> contains(e.spec_message(), #[trigger] e.spec_words()[k]),
{
    let m = e.spec_message();
    match e {
        LuaError::ModuleError { module, reason } => {
            reveal_strlit("Module error (");
            reveal_strlit("Module error");
            reveal_strlit(" (");
            assert("Module error ("@ =~= "Module error"@ + " ("@);
            lemma_contains_within(Seq::<char>::empty(), "Module error"@, " ("@ + module@ + "): "@ + reason@);
            assert(Seq::<char>::empty() + "Module error"@ + (" ("@ + module@ + "): "@ + reason@) =~= m);
        },
        _ => {},
    }
}

/// `lemma_message_shows_words` for `TokenError`.
proof fn lemma_token_error_words(e: LuaError)
    requires
        e is TokenError,
    ensures
        forall|k: int| 0 <= k < e.spec_words().len() ==> contains(e.spec_message(), #[trigger] e.spec_words()[k]),
{
    let m = e.spec_message();
    match e {
        LuaError::TokenError { message, position } => {
            reveal_strlit("Token error at position ");
            reveal_strlit("Token error");
            reveal_strlit(" at position ");
            assert("Token error at position "@ =~= "Token error"@ + " at position "@);
            lemma_contains_within(Seq::<char>::empty(), "Token error"@, " at position "@ + decimal(position as nat) + ": "@ + message@);
            assert(Seq::<char>::empty() + "Token error"@ + (" at position "@ + decimal(position as nat) + ": "@ + message@) =~= m);
            reveal_strlit("position");
            reveal_strlit("Token error at ");
            reveal_strlit(" ");
            assert("Token error at position "@ =~= "Token error at "@ + "position"@ + " "@);
            lemma_contains_within("Token error at "@, "position"@, " "@ + decimal(position as nat) + ": "@ + message@);
            assert("Token error at "@ + "position"@ + (" "@ + decimal(position as nat) + ": "@ + message@) =~= m);
        },
        _ => {},
    }
}

/// `lemma_message_shows_words` for `BreakOutsideLoop`.
proof fn lemma_break_outside_loop_words(e: LuaError)
    requires
        e is BreakOutsideLoop,
    ensures
        forall|k: int| 0 <= k < e.spec_words().len() ==> contains(e.spec_message(), #[trigger] e.spec_words()[k]),
{
    let m = e.spec_message();
    match e {
        LuaError::BreakOutsideLoop => {
            reveal_strlit("break statement outside loop");
            reveal_strlit("break");
            reveal_strlit(" statement outside loop");
            assert("break statement outside loop"@ =~= "break"@ + " statement outside loop"@);
            lemma_contains_within(Seq::<char>::empty(), "break"@, " statement outside loop"@);
            assert(Seq::<char>::empty() + "break"@ + (" statement outside loop"@) =~= m);
            reveal_strlit("outside loop");
            reveal_strlit("break statement ");
            assert("break statement outside loop"@ =~= "break statement "@ + "outside loop"@);
            lemma_contains_within("break statement "@, "outside loop"@, Seq::<char>::empty());
            assert("break statement "@ + "outside loop"@ + (Seq::<char>::empty()) =~= m);
        },
        _ => {},
    }
}

/// `lemma_message_shows_words` for `UndefinedLabel`.
proof fn lemma_undefined_label_words(e: LuaError)
    requires
        e is UndefinedLabel,
    ensures
        forall|k: int| 0 <= k < e.spec_words().len() ==> contains(e.spec_message(), #[trigger] e.spec_words()[k]),
{
    let m = e.spec_message();
    match e {
        LuaError::UndefinedLabel { label } => {
            reveal_strlit("undefined label: ");
            reveal_strlit("undefined");
            reveal_strlit(" label: ");
            assert("undefined label: "@ =~= "undefined"@ + " label: "@);
            lemma_contains_within(Seq::<char>::empty(), "undefined"@, " label: "@ + label@);
            assert(Seq::<char>::empty() + "undefined"@ + (" label: "@ + label@) =~= m);
            reveal_strlit("label");
            reveal_strlit("undefined ");
            reveal_strlit(": ");
            assert("undefined label: "@ =~= "undefined "@ + "label"@ + ": "@);
            lemma_contains_within("undefined "@, "label"@, ": "@ + label@);
            assert("undefined "@ + "label"@ + (": "@ + label@) =~= m);
        },
        _ => {},
    }
}

/// `lemma_message_shows_words` for `ArgumentCountError`.
proof fn lemma_argument_count_error_words(e: LuaError)
    requires
        e is ArgumentCountError,
    ensures
        forall|k: int| 0 <= k < e.spec_words().len() ==> contains(e.spec_message(), #[trigger] e.spec_words()[k]),
{
    let m = e.spec_message();
    match e {
        LuaError::ArgumentCountError { function, expected, got } => {
            reveal_strlit(" expects ");
            reveal_strlit("expects");
            reveal_strlit(" ");
            assert(" expects "@ =~= " "@ + "expects"@ + " "@);
            lemma_contains_within("Function "@ + function@ + " "@, "expects"@, " "@ + decimal(expected as nat) + " argument(s), got "@ + decimal(got as nat));
            assert("Function "@ + function@ + " "@ + "expects"@ + (" "@ + decimal(expected as nat) + " argument(s), got "@ + decimal(got as nat)) =~= m);
            reveal_strlit(" argument(s), got ");
            reveal_strlit("argument");
            reveal_strlit("(s), got ");
            assert(" argument(s), got "@ =~= " "@ + "argument"@ + "(s), got "@);
            lemma_contains_within("Function "@ + function@ + " expects "@ + decimal(expected as nat) + " "@, "argument"@, "(s), got "@ + decimal(got as nat));
            assert("Function "@ + function@ + " expects "@ + decimal(expected as nat) + " "@ + "argument"@ + ("(s), got "@ + decimal(got as nat)) =~= m);
            reveal_strlit("got");
            reveal_strlit(" argument(s), ");
            assert(" argument(s), got "@ =~= " argument(s), "@ + "got"@ + " "@);
            lemma_contains_within("Function "@ + function@ + " expects "@ + decimal(expected as nat) + " argument(s), "@, "got"@, " "@ + decimal(got as nat));
            assert("Function "@ + function@ + " expects "@ + decimal(expected as nat) + " argument(s), "@ + "got"@ + (" "@ + decimal(got as nat)) =~= m);
        },
        _ => {},
    }
}

/// `lemma_message_shows_words` for `DivisionByZero`.
proof fn lemma_division_by_zero_words(e: LuaError)
    requires
        e is DivisionByZero,
    ensures
        forall|k: int| 0 <= k < e.spec_words().len() ==> contains(e.spec_message(), #[trigger] e.spec_words()[k]),
{
    let m = e.spec_message();
    match e {
        LuaError::DivisionByZero => {
            reveal_strlit("division by zero");
            lemma_contains_within(Seq::<char>::empty(), "division by zero"@, Seq::<char>::empty());
            assert(Seq::<char>::empty() + "division by zero"@ + (Seq::<char>::empty()) =~= m);
        },
        _ => {},
    }
}

/// `lemma_message_shows_words` for `IndexError`.
proof fn lemma_index_error_words(e: LuaError)
    requires
        e is IndexError,
    ensures
        forall|k: int| 0 <= k < e.spec_words().len() ==> contains(e.spec_message(), #[trigger] e.spec_words()[k]),
{
    let m = e.spec_message();
    match e {
        LuaError::IndexError { indexing_type, key_type } => {
            reveal_strlit("Cannot index ");
            reveal_strlit("Cannot index");
            reveal_strlit(" ");
            assert("Cannot index "@ =~= "Cannot index"@ + " "@);
            lemma_contains_within(Seq::<char>::empty(), "Cannot index"@, " "@ + indexing_type@ + " with "@ + key_type@);
            assert(Seq::<char>::empty() + "Cannot index"@ + (" "@ + indexing_type@ + " with "@ + key_type@) =~= m);
            reveal_strlit(" with ");
            reveal_strlit("with");
            assert(" with "@ =~= " "@ + "with"@ + " "@);
            lemma_contains_within("Cannot index "@ + indexing_type@ + " "@, "with"@, " "@ + key_type@);
            assert("Cannot index "@ + indexing_type@ + " "@ + "with"@ + (" "@ + key_type@) =~= m);
        },
        _ => {},
    }
}

/// `lemma_message_shows_words` for `CallError`.
proof fn lemma_call_error_words(e: LuaError)
    requires
        e is CallError,
    ensures
        forall|k: int| 0 <= k < e.spec_words().len() ==> contains(e.spec_message(), #[trigger] e.spec_words()[k]),
{
    let m = e.spec_message();
    match e {
        LuaError::CallError { value_type } => {
            reveal_strlit("Attempt to call ");
            reveal_strlit("call");
            reveal_strlit("Attempt to ");
            reveal_strlit(" ");
            assert("Attempt to call "@ =~= "Attempt to "@ + "call"@ + " "@);
            lemma_contains_within("Attempt to "@, "call"@, " "@ + value_type@ + " (not a function)"@);
            assert("Attempt to "@ + "call"@ + (" "@ + value_type@ + " (not a function)"@) =~= m);
            reveal_strlit(" (not a function)");
            reveal_strlit("not a function");
            reveal_strlit(" (");
            reveal_strlit(")");
            assert(" (not a function)"@ =~= " ("@ + "not a function"@ + ")"@);
            lemma_contains_within("Attempt to call "@ + value_type@ + " ("@, "not a function"@, ")"@);
            assert("Attempt to call "@ + value_type@ + " ("@ + "not a function"@ + (")"@) =~= m);
        },
        _ => {},
    }
}

/// The message of every error shows the fixed words of its kind: a break
/// outside a loop says `break` and `outside loop`, a division by zero says
/// `division by zero`, a call error says `call` and `not a function`, and
/// so on.
pub proof fn lemma_message_shows_words(e: LuaError)
    ensures
        forall|k: int| 0 <= k < e.spec_words().len() ==> contains(e.spec_message(), #[trigger] e.spec_words()[k]),
{
    match e {
        LuaError::ParseError { .. } => lemma_parse_error_words(e),
        LuaError::RuntimeError { .. } => lemma_runtime_error_words(e),
        LuaError::TypeError { .. } => lemma_type_error_words(e),
        LuaError::ValueError { .. } => lemma_value_error_words(e),
        LuaError::FileError { .. } => lemma_file_error_words(e),
        LuaError::ModuleError { .. } => lemma_module_error_words(e),
        LuaError::TokenError { .. } => lemma_token_error_words(e),
        LuaError::UserError { .. } => {},
        LuaError::BreakOutsideLoop => lemma_break_outside_loop_words(e),
        LuaError::UndefinedLabel { .. } => lemma_undefined_label_words(e),
        LuaError::ArgumentCountError { .. } => lemma_argument_count_error_words(e),
        LuaError::DivisionByZero => lemma_division_by_zero_words(e),
        LuaError::IndexError { .. } => lemma_index_error_words(e),
        LuaError::CallError { .. } => lemma_call_error_words(e),
    }
}

} // verus!
