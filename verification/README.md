# kiro_lang

The Kiro language toolchain as a verified library: the grammar's syntax tree
(as data), the expression checker of the semantic pass, the semantic program
(HIR), its lowering to executable IR (EIR), the IR verifier and printer, Rust
code generation, diagnostics, the line formatter, the embedding interface and
the selection of host bindings.

Verus checks the functions of `src/` against their `requires` / `ensures`
contracts. Three small functions are trusted instead of checked: they wrap
`String::push`, `format!("{:?}")` on a string and `char::is_alphanumeric`
(`src/text.rs`, `src/formatter.rs`), and two names stand for what the last two
return. Their doc comments say what is assumed of them.

The semantic checker (`src/compiler/semantic.rs`) infers the type of an
expression and checks statements and function definitions: unknown names (with
a suggested spelling), variables declared without `var` are immutable, `move`
of an immutable variable, effects inside pure functions (`rest`, `give`,
`take`, `move`, impure calls), wrong argument counts and types, unknown
imported functions, return types and returns on every path, and misuse of
lists, maps, pipes and addresses, each with its code, message, location, label
and help. `Compiler::validate_semantics` runs it over a module after recording
its functions and refusing effectful recursion.

The IR verifier (`src/eir/verify.rs`) reports exactly the findings that
`program_findings` lists, in order.

Not here: the parser from source text to the syntax tree, the lowering from
the syntax tree to HIR, and the Rust code generation straight from the syntax
tree. A caller supplies the HIR that `eir::lower::lower_program` and
`engine::Engine::compile_module` take.

Layout:

- `src/grammar.rs` — the syntax tree and span helpers.
- `src/hir/` — semantic identifiers, types, effects and the HIR tree.
- `src/eir/` — executable IR, lowering from HIR (`lower.rs`), the IR verifier
  (`verify.rs`), the textual listing (`print.rs`) and initializer ordering
  (`order.rs`).
- `src/compiler/` — Rust code generation from EIR, type names, effect and
  recursion analysis, and the semantic checker.
- `src/analysis.rs`, `src/engine.rs`, `src/host_gen.rs` — module analysis
  helpers, the embedding interface, and host binding selection.
- `src/errors/` — error codes, diagnostics, positions and plain rendering.
- `src/formatter.rs`, `src/build_manager.rs`, `src/graph.rs`, `src/runtime.rs`,
  `src/text.rs` — formatting, build files, reachability, runtime values and
  text helpers.
- `app/` — the `kiro` command line: file system access and terminal output.
- `tests/` — tests of the library on concrete values.
