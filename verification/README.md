# muscm

Front ends and runtime bookkeeping of a small interpreter for Lua and
Scheme, written in Verus.

`src/` is the verified library:

- `lua_parser` — the Lua lexer (`tokenize`), the grammar as spec functions
  (`lua_parser::grammar`), the recursive-descent parser that follows it
  (`expression`, `statement`), a precedence-climbing expression parser
  (`precedence`), and source locations (`location`).
- `lua_parser_types` — Lua tokens and syntax trees, with their views as
  mathematical values.
- `tokenizer` — the Scheme tokenizer: kinds, byte ranges, lines and texts of
  the tokens.
- `ast`, `parser` — the Scheme syntax trees in an arena, the parser that
  builds them from the tokens (numerals are kept as atoms with their text),
  and the text of a node (`display_with_arena`).
- `environment` — nested variable scopes, shared by both evaluators: the
  Scheme environment and the Lua globals with their local scopes.
- `scheme_builtins` — the names and arities of the Scheme built-in
  procedures (the core ones and the standard library, which a new
  environment binds).
- `coroutines`, `upvalues`, `executor` — the parts of the Lua runtime state
  that do not read runtime values: coroutine states and their registry,
  captured variables, labels.
- `stdlib`, `module_loader` — the decisions of the Lua standard library that
  do not read runtime values: argument counts, the byte range of
  `string.sub`, the file a module name stands for.
- `error_types`, `errors` — error values, their categories and messages.

The scopes, coroutines and upvalues hold values of any type; the program
gives them its own.

`app/` is the program: it reads a Lua file or runs a Scheme demo, with the
evaluators and the standard library functions, which work on floating-point
values (Scheme numerals are read as numbers there), and the file and system
access of Lua programs.
