# dezes

The editing core of a terminal hex editor, written in Verus: every function
carries a `requires` / `ensures` contract and is proved against it.

The library holds the editor's state (`app::App`) and what each key does to it
in each screen and dialog: cursor movement, nibble and text editing, pending
edits with undo and redo, selections and coloured blocks, bookmarks, comments
and the Names list, the Patches list, the characters the text columns show
for each byte, the Edit Data, Find and Modify Block
dialogs, string scans and in-place string replacement, the help box, search
patterns with wildcards, and the init file. Key handlers return a
`hex::events::HexAction` for what only the terminal side can do (sound the
bell, read or write the clipboard).

Layout:

- `src/app.rs`: the editor's state and its basic operations.
- `src/hex/`: the hex view, one module per dialog or feature; each handler has
  a `*_post` specification saying what a key does.
- `src/codec.rs`: text encodings, through `encoding_rs`.
- `src/text.rs`: characters, digits and padding.
- `src/initfile.rs`, `src/i18n.rs`, `src/input_history.rs`, `src/offset_map.rs`,
  `src/reader.rs`: the init file, the interface texts, dialog histories, the
  map of pending edits, and the paged file reader.
- `tests/`: tests run against the compiled library.

Calls into `encoding_rs`, `regex`, `memchr`, `unicode-width`, `rand` and a few
std functions go through small trusted wrappers marked
`#[verifier::external_body]`, each with a doc comment saying what its contract
claims of the outside code.
