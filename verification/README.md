# wervc, verified

A small programming language with two front ends, written in Verus:

- **wervc**: a statically typed language with `let` bindings, functions, pointers and
  arrays. `lexer`, `parser` (with `grammar` as its specification), `typing` (type
  resolution and stack offsets), `eval` (a tree-walking evaluator specified step by step
  in `eval::semantics`), `interpreter`, and `codegen` (x86-64 assembly, specified in
  `codegen::semantics`).
- **script** (`src/script`): a dynamically typed sibling with strings, comments and
  function definitions by `let name(params) = body;`, with its own lexer, parser and
  evaluator.

Every function of the library carries a contract that Verus checks against mathematical
models of tokens, syntax trees, values and evaluator states. `app/` holds the command line
and the read-evaluate-print loops, which do the reading and printing.
