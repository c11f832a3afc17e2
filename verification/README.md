# ts2artel

Converts TypeScript declaration files (`.d.ts`-style sources) into Artel API
definitions, verified with Verus.

- `src/syntax.rs` — the syntax tree the converter reads (`SyntaxNode`).
- `src/source_tree.rs` — parsing with tree-sitter, reading its nodes by
  their preorder positions into `SyntaxNode`s, and the end-to-end
  `convert_ts` / `convert_tree`.
- `src/parse_type.rs`, `src/convert_tree_walk.rs` — reading types and
  statements out of the tree; each reader is specified by a spec function of
  the tree it reads.
- `src/ast_type.rs`, `src/class_declaration.rs`, `src/interface_declaration.rs`,
  `src/enum_declaration.rs`, `src/lexical_declaration.rs`,
  `src/type_alias_declaration.rs`, `src/statement.rs`, `src/identifier.rs` —
  the Artel syntax nodes, their models, and their rendering (`ArtelStr`), each
  specified by the text it produces and by when rendering is possible.
- `src/text.rs` — indentation, joining and line re-indentation.
- `app/` — the command-line program and the wasm-bindgen export.
