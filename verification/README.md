# Jitter

The front end of Jitter, a small just-in-time compiled language with Rust's
syntax, written in Verus: each stage states what it computes and is proved to
compute it.

- `src/frontend/lex`: the lexer (with `#define`/`#include` preprocessing and
  lexer callbacks); it asks its caller for the tokens of `#include`d files.
- `src/frontend/parse`: the recursive descent parser; `grammar.rs` defines
  what each rule parses, `mod.rs` implements it.
- `src/frontend/validate`: type checking, scopes, variable allocations and
  struct layout; `check.rs` defines validation, `context.rs` implements it,
  `layout.rs` proves that structs are laid out as `#[repr(C)]` lays them out
  (a struct without fields has size 0 and alignment 1).
- `src/frontend/modules.rs`: the search for a module's source file, as a
  state machine whose questions the caller answers.
- `src/arithmetic.rs`: a small lexer of arithmetic expressions.
- `src/backend`: machine types, calling shapes, and the plan of slot sizes,
  field offsets and copies that code generation replays.
- `app/`: reading files, loading extensions, and Cranelift code generation
  and JIT compilation.
