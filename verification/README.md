# sysy_compiler

The passes of a SysY (a small subset of C) compiler, written in Verus: the
front end builds koopa IR for function bodies, and the back end lowers IR
instructions to RV32IM assembly. Each function carries a contract that the
verifier proves. The crate holds no SysY grammar, so it does not read source
text; expressions with `&&`, `||` or calls, arrays and globals are not
built into IR yet, and no pass walks a whole IR program to emit assembly.

Layout:

- `src/parse/` — the syntax tree (`ast.rs`), its constructors, and printing it
  back as source text (`print.rs`, `print_expr.rs`, `print_stmt.rs`).
- `src/ir/` — front-end passes on the tree: binding each `else` to its `if`
  (`func.rs`), folding constant expressions (`expr.rs`), defining constants
  (`block.rs`), bringing array initialisers into the shape of their array
  (`arr.rs`), the table of names in scope (`meta.rs`), and the runtime
  library's declarations (`stdlib.rs`). Building IR: what the library knows
  of a koopa program and the builder calls it makes (`program.rs`),
  expressions (`irgen.rs`), statements with `if`, `while`, `break` and
  `continue` (`stmtgen.rs`), declarations (`declgen.rs`), and functions:
  adding a function to the program, building its body (parameters first)
  and placing the body's blocks in its layout (`funcgen.rs`).
- `src/riscv/` — the back end: instructions and their text (`meta.rs`,
  `inst.rs`), which registers hold which values (`regmap.rs`), stack frames
  and argument locations (`stack.rs`), labels and the per-function context
  (`context.rs`), the prologue (`func.rs`), the lowering of single IR
  instructions (`expr.rs`), fetching operands and lowering the instructions
  that read and write memory: binary operations, loads, stores, branches,
  returns and calls with their arguments (`lower.rs`), and global data
  (`var.rs`).
- `src/driver.rs`, `src/token.rs`, `src/text.rs` — the command line, parser
  tokens, and decimal numerals.
- `tests/` — tests on concrete inputs.
- `app/main.rs` — the command-line program.

IR values, basic blocks and types are those of the `koopa` crate.
