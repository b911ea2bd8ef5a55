# charip

The core of a MyST-aware language server for Markdown documentation vaults,
written in Verus and verified.

- `src/` is the library. `vault/` parses documents (references from the
  Markdown syntax tree, headings, tags, footnotes, link reference
  definitions, indexed blocks, code blocks, frontmatter metadata) and holds
  them in the `Vault`, whose queries select referenceables and references
  and resolve one to the other. `completion/`, `diagnostics`, `gotodef`,
  `references`, `rename` and `symbol` answer the server's requests over the
  vault, as plain values (`lsp`). `myst_parser` finds MyST directives,
  anchors and glossary terms. Each public function states in its contract
  what it returns, over spec functions of the library.
- Calls into `regex`, `ropey`, `markdown`, `pathdiff`, `urlencoding`,
  `nucleo-matcher`, `serde_json`/`serde_yaml`/`jsonschema` (frontmatter
  schema validation) and a few std functions go through small trusted
  wrappers whose contracts say what those functions answer.
- `app/` is the server's side: reading settings, schema files and
  documents, YAML frontmatter into metadata, and the conversions to and
  from `tower-lsp`'s types.
- `tests/` runs the library on concrete documents.
