# first

A small toy language, verified with Verus: syntax trees, a run-time memory,
an interpreter, a type checker, an arithmetic-expression parser and the
lowering of function bodies to LLVM builder operations.

Layout of `src/`:

- `ast.rs` – syntax trees (`ExprTree`, `FnHead`, operators, types) and their
  mathematical model (`SpecExpr`, `SpecFnHead`).
- `memory.rs` – run-time values (`IntRep`) and the memory: a function table, a
  stack of variable scopes and a stack of returned values, each operation
  specified over `MemView`; laws on reading back what was written.
- `assoc.rs` – the association lists behind the memory's maps.
- `interpret.rs` – the interpreter, specified by `eval` (a big-step semantics
  with a depth budget), and `run` for whole programs on a machine whose
  memory the type checker may have used first; the law that the first of
  several definitions of a name is the one the function table keeps.
- `type_checker.rs` – the type checker, specified by `check`, and its laws.
- `scope_laws.rs`, `fuel_laws.rs` – laws of the interpreter and of the type
  checker: evaluation and checking only change the innermost scope, a call
  restores its caller's scopes, a call binds its arguments, and a larger
  budget never changes a completed run.
- `parser.rs` – the expression parser over bytes, specified by `tree_spec`.
- `llvm.rs` – lowering of straight-line bodies to builder operations, and the
  law that the operations only refer to earlier results.
- `llvm_laws.rs` – what a list of operations computes, and the laws that the
  operations emitted for an expression compute the interpreter's value of
  it, and that a compiled `return` returns it.

`app/` holds the program: it type checks and then runs the example program on
one machine, and
replays lowered bodies on an inkwell builder.
