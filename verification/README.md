# oxide_emit

The analyses and instruction sequences of the oxide JavaScript code
generator, verified with Verus.

- `src/ast.rs` — the syntax tree the analyses read.
- Name analyses: `names`, `nameset`, `block_fn`, `capture`, `captured`,
  `cells`, `upvalues`, `prescan`, `syntax`, `params`, `program`,
  `function_setup`.
- Compilation context and instructions: `ctx`, `inst`, `labels`, `regmap`,
  `field_buffer`.
- Instruction sequences: `emit_ops`, `literal`, `keys`, `linking`,
  `class_plan`, `class_emit`, `template`, `member`, `prologue` (the
  parameter prologue), `fn_record` (the start and end of a function body,
  and the compiled function's record), `link_step` (module linking as steps
  driven by the embedder's loader).
- Accesses of resolved identifiers: `read` (static and `with` reads),
  `update` (`++`/`--`), `delete`. Each takes the binding's resolution as an
  argument. `assign` holds the member-assignment steps that follow the
  evaluation of the operands (stores, compound updates, logical tests).
- `app/` holds the floating-point helpers for numeric literals and the
  loop that runs the linking steps against a module loader.
- `tests/` exercises the library on concrete programs.

Big integers are parsed with `num-bigint` (the wrapper's contract states the
accepted grammar and the canonical decimal result) and regular expressions
checked with `regress` (the wrapper's contract names the verdict).
