# cnone

A front end for a small C-like language, verified with Verus.

- `src/preprocessor.rs`: comments, `#define`/`#undef`, `#ifdef`/`#ifndef`/`#elif`/`#else`/`#endif`
  and `#include` (the text of included files is handed in by the caller).
- `src/lexer.rs`: tokens with their line and column.
- `src/ast.rs`: a recursive-descent parser into `Program`.
- `src/ir/code_generator.rs`: stack bytecode for a program.
- `src/vm/`: the operand stack and the slot table of the bytecode machine.

Each module states what it computes as spec functions (`*/spec.rs`, `ast/grammar.rs`), and
the executable code is proved against them.

`app/main.rs` reads a source file (and the files it includes), runs the pipeline and
prints the syntax tree.
