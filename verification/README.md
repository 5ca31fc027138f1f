# atlas_77

The core of the Atlas77 compiler, written in Verus: each function states what it does in
its `requires` / `ensures`, and Verus proves it.

## Layout

- `src/lexer/` — the lexer: keywords, literals, comments and doc comments, spans.
- `src/hir/` — the high-level representation: types and their identities, item
  signatures, the generic instance pool and monomorphization (mangled names, substitution
  of generic parameters, instances of generic unions, clearing of generic templates),
  type relations used by the type checker, external function calls, variable contexts,
  the ownership states of the ownership pass, and cycle detection in struct fields.
- `src/lir/` — the low-level representation and dead-block removal.
- `src/codegen.rs` — C code generation from the low-level representation.
- `src/package/` — packaging a C header: the shim header and source and the Atlas module
  generated from the header's declarations.
- `src/config.rs`, `src/tinycc.rs`, `src/utils.rs`, `src/text.rs` — build settings,
  TinyCC platform directories, spans and source locations, verified string helpers.
- `app/` — the command-line program: argument handling, files, parsing C headers with
  `lang-c`, and reports.
- `tests/` — tests of the library through its public interface.

Laws of the library (what holds across calls) are public proof functions named
`lemma_*`, next to the functions they speak of.

## Not part of this crate

Some parts of the compiler are absent, because the definitions they are written against
(the syntax tree and its parser, the HIR expression, statement, block and module-body
types, the arena, the HIR errors, the LIR lowering passes and the documentation
generator) are not part of the sources this crate was built from:

- the parser and the lowering of the syntax tree to the HIR;
- type checking of expressions and statements (the type relations it uses are here);
- the ownership pass's rewriting of blocks (its drop order is here);
- monomorphization of function and method bodies, and clearing generic templates from
  the module bodies (the signatures are handled here);
- lowering from the HIR to the LIR;
- the embedded standard and core libraries: `std/` and `core/` paths are not found.

So `build`, `check` and `docs` stop after lexing the source.
