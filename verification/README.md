# codex-tui

The text-processing core of a terminal markdown renderer and of its UI theme registry,
written in Verus: every function in `src/` carries a contract that Verus proves.

- `src/text.rs`: character-level helpers (trimming, line splitting, joining).
- `src/table.rs`: normalization of GitHub-style pipe tables before parsing (cell splitting
  that respects inline code, canonical rows and delimiter rows, repeated header rows).
- `src/layout.rs`: layout decisions: table column widths and borders, list markers, line
  prefixes of nested blocks, inline and display math, short list-item labels.
- `src/links.rs`: display of local file links (path normalization, shortening against the
  working directory, `:line:col` and `#L..` location suffixes).
- `src/theme.rs`: the built-in UI themes, the configured and the active theme, and their
  `ui:` syntax-theme aliases.
- `src/colors.rs`, `src/palette.rs`: theme colour seeds in `#rrggbb[aa]` notation, and how a
  theme variant resolves into the roles of the UI and syntax palettes.
- `src/render.rs`: markdown text to styled lines: tables put in canonical form, the text
  parsed with `pulldown-cmark`, and each event, completed by the host's hooks, handled by the
  writer.
- `src/writer.rs`: the renderer itself, a state machine over markdown parser events that
  assembles styled lines (prefixes of nested blocks, list markers, links, code blocks,
  tables), with the layout of table lines.

`app/` is the terminal-facing layer around the library: it hands the library the host's
hooks (code highlighting, location normalization), has the host wrap lines, turns styled pieces into `ratatui` text,
parses the bundled theme files, keeps the process-wide theme state, and does the
floating-point colour arithmetic (blending and contrast).

`tests/` exercises the library on concrete inputs.
