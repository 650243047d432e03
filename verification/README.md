# riven

Verified core of the Riven language tools, written in Verus.

- `src/` — the library, every function with a contract proved by Verus:
  - `hir` — types and the inference context (binding, occurs check, resolution);
  - `borrow_check` — the borrow-check pass over a typed program (`borrow_check`, whose
    result is stated as a model of the whole pass), and its parts: borrow sets,
    ownership and move tracking, scopes, lifetime elision, and the error catalogue;
  - `resolve::symbols` — the symbol table the pass reads (names, kinds, declared types);
  - `formatter` — the layout of a parsed source file as a document (`format_program`,
    `format_expr`, `format_pattern`, `format_type_expr` and the rest), the spans of the
    syntax nodes (`collect_node_spans`), the document printer, comment collection and
    attachment, import sorting and merging, and the final clean-up of formatted text;
  - `codegen` — runtime function names and heap size estimates;
  - `diagnostics`, `lexer::token`, `parser::ast` (the syntax tree), `hir::nodes` — the
    shared data they work on;
  - `version`, `manifest`, `deps`, `resolve_deps`, `module_discovery`, `rlib` — the
    package manager: semantic versions and requirements, manifest rules, dependency
    ordering, module naming and lookup, and source hashes.
- `app/` — the file-system and serialization side (TOML, JSON, `ar` archives, walking
  `src/`), which hands plain values to the library.
- `tests/` — tests of the library on concrete values.

## What is not here

The lexer and the parser, name resolution beyond the symbol table, the MIR and the code
generators (Cranelift and LLVM back ends, type layouts) are not part of this crate. So
`format`, which lexes and parses a source text before laying it out, is absent; every
step after parsing is here. A float literal is held in the syntax tree as the text that
`Display` gives for its value, since the library does no floating point; the tokens of
an interpolated string are those whose source form the formatter writes back.
