# editor_core

The core of a modal terminal text editor (normal, insert, visual and
replace modes, a `:` command prompt with tab completion, search, undo and
redo, a jump list, a context menu, syntax highlighting with tree-sitter, and
language-server support), written in Verus. The library's functions have
contracts that Verus proves; the exceptions are the small wrappers around
calls into std and the outside crates (grapheme segmentation, display
width, percent decoding, tree-sitter), whose contracts are trusted and say
in their doc comments what they claim.

## Layout

- `src/` — the verified library.
  - `line.rs`, `annotatedstring.rs`, `text.rs`: lines of text as grapheme
    clusters, their widths and annotated substrings.
  - `buffer.rs`, `fileinfo.rs`, `filetype.rs`: the text of a document, its
    edits with undo and redo, search, and what file it comes from.
  - `view.rs`: a document on screen (caret, selection, scrolling, search,
    edits as transitions of a `ViewModel`, the rows to draw).
  - `highlighter.rs`, `treesitter.rs`, `attribute.rs`, `annotation.rs`:
    what is highlighted and how.
  - `command.rs`, `keymap.rs`, `vimcommand.rs`, `jumplist.rs`: keys, key
    sequences, `:` commands and completion, the jump list.
  - `commandbar.rs`, `messagebar.rs`, `contextmenu.rs`, `infopopup.rs`,
    `documentstatus.rs`: the other parts of the screen.
  - `editor.rs`: the editor as a whole; its contracts are stated over an
    `EditorModel`. Work only the surrounding program can do is asked for as
    `EditorAction`s and reported back.
  - `lsp.rs`, `uri.rs`: language-server answers and message framing.
- `app/` — the terminal program: terminal I/O, the system clipboard, files
  and language-server processes.
- `tests/` — tests of the library.
