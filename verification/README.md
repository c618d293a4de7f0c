# metadol

Metal DOL tooling as a verified library: the lexer and parser of the DOL
language, the REPL's state machine, the MCP tools (CRDT recommendations,
schema generation from prose or field specifications, strategy
explanations), LSP completion, the syntax migrations, the order of a build's
modules, the `Spirit.dol` manifest grammar, and the texts of a generated
crate. Everything in `src/` is checked by Verus; the few calls into `regex`
and `std` that it cannot see into stand behind documented trusted wrappers.

Layout:

- `src/` — the library, written in Verus.
  - `lexer.rs`, `parser.rs` — tokens and the grammar, stated as relations
    over the token stream; `parse_determinism.rs` proves that a source
    parses to at most one declaration.
  - `repl/` — the REPL: commands, declarations (never two of one name),
    the symbol context, sessions and their saved text, the evaluator's
    type inference.
  - `mcp/` — tool catalogue, recommender, natural-language and
    specification-driven schema generation, tool handlers, and the CRDT
    schema diagnostics and optimization suggestions for `gen` declarations.
  - `hir/` — the HIR node types, interned symbols, node spans, and HIR
    validation: every identifier resolves, no scope defines a name twice,
    gene statements, types, patterns and assignments are checked. Each pass
    is stated as a transition of the validation state (scopes, diagnostics,
    references), and the validator is proved to compute it.
  - `lsp/` — code completion.
  - `migrate.rs` — the v0.2→v0.3 and v0.7→v0.8 migrations, over the
    `regex` crate.
  - `manifest.rs` — the `Spirit.dol` manifest: its grammar, read over the
    DOL token stream (words such as `spirit`, `use` and `config` arrive as
    identifiers and `:`, `,`, `/`, `[`, `]` as one-character tokens), its
    data model, and what is read off it: the qualified name, the entry
    file, the public modules.
  - `orchestrator.rs` — the build's module order: dependencies first,
    cycles reported, proved to put every module after the modules it uses.
  - `codegen/`, `message.rs`, `network/`, `error.rs`, `text.rs`,
    `assoc.rs` — the generated crate (module analysis of parsed files,
    `use` resolution, the texts around the modules), message checks,
    network identifiers, errors, and text helpers.
- `tests/` — tests run against the compiled library.
- `app/` — the host side: the `dol-migrate` command line, message types
  with their serde encodings, file input and output, and the hyphal
  network's floating-point topology, growth and resource discovery.

## What this library does not include, and why

Parts of the DOL tool chain rest on data models and components that this
source tree does not define. Without them there is nothing to state their
contracts over, so they are not here:

- **Lowering** of declarations to HIR: the lowering context and its
  per-declaration rules are not part of this tree, nor is the file-level
  parser that feeds them.
- **Schema validation and field suggestions** (the MCP tools
  `validate_schema`, `validate_and_suggest`, `get_suggestions`): they start
  from the file-level parser, which is not part of this tree. The schema
  diagnostics they build on are here (`mcp/diagnostics.rs`), over `gen`
  declarations whose fields carry their type as written, their constraint
  as written, and their CRDT annotation.
- **The code of each generated module**, **Rust code generation** and **tree
  shaking** behind the REPL's `:emit` and `:shake`, and the MCP tools
  `parse`, `typecheck`, `compile_rust`, `compile_typescript`, `eval`,
  `reflect` and the macro tools, with the dispatcher over them: they need
  the Rust code generator, the file-level parser, the type checker and the
  tree shaker, which are not part of this tree. The REPL answers `:emit`
  and `:shake` on a non-empty session with a feature error, as it answers
  `:wasm` when WebAssembly compilation is not built in.
- **WebAssembly execution** of REPL expressions: it needs a WebAssembly
  runtime, which this build does not include; an expression that parses is
  answered with a feature error.

The REPL accepts the declarations of this DOL grammar (`gene`, `trait`,
`constraint`, `system` and `evolves` blocks with their exegesis) and the
typed forms of the later syntax: `gen`/`gene`/`trait` blocks with
`has name: Type` fields, and `fun`/`pub fun` declarations with typed
parameters and a return type.
