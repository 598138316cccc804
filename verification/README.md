# gargo

The logic of a modal terminal editor, verified with Verus: fuzzy matching and
ranking, the command palette and its pickers (files, buffers, jumps,
references, symbols, branches, global search), the explorer sidebar, the
commit log, the GitHub issue and pull-request pickers, the project pickers,
text inputs, the incremental-search prompt, key routing among the
overlays, display-width arithmetic, themes and interface colours.

- `src/` is the verified library. Each public function states its result in
  its contract; laws that relate several functions stand as public proof
  functions named `law_*`.
- `app/` is the plain Rust around it: the terminal, the file-system work the
  overlays ask for, the preview and search worker threads, parsing `gh`'s
  JSON and the colour blending of derived interface roles (floating point).
- `tests/` runs the library on concrete inputs.

The compositor's key routing among the overlays, the search prompt and the
link hover is part of the library (`src/ui/framework/compositor.rs`). Not
part of it: drawing frames onto the terminal surface, the window manager
behind split windows and border dragging, the find-and-replace popup, the
git view and the explorer popup, and tree-sitter parsing, highlighting and
indentation.
