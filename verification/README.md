# seiran_compiler

The verified core of the Seiran document compiler's front end and project model, written in
Verus.

- `src/syntax`: spans, tokens, the lossless green tree and its parser, typed views over nodes.
- `src/evaluator`: what evaluation decides on the concrete syntax alone: argument counts,
  optional arguments and their schemas, the command and environment registries (with how
  each command's arguments are read), the inline reading of tokens, strict body scans, link
  targets, citation keys, inline and block code, table options with column alignments and
  widths, lists, quotes, theorems, headings and footnotes (each read into its parts), the
  numbering of multi-line math rows, placement rules, and the per-source context.
- `src/project`: project paths and their normalisation, the resolver, the source seam and its
  in-memory implementation, the source set, font kinds and maps, font loading, OpenType tags,
  and the configuration: its field checks, its font values, and path resolution.
- `src/length.rs`, `src/failures.rs`, `src/publication.rs`, `src/strs.rs`: lengths in scaled
  points, non-empty failure lists, drawing resources, and text helpers.
- `app/`: the file system source, floating-point length conversions, TOML reading into the
  library's configuration, diagnostics and phase logging.
