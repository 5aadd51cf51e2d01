# mustang

A WordStar-style terminal text editor whose core is verified with Verus.

## Layout

- `src/` — the verified library.
  - `util.rs`: display columns (tab stops, wide characters).
  - `chars.rs`: character properties and string building.
  - `buffer.rs`: the text buffer as lines of characters, with its
    mathematical model, range extraction/deletion/insertion, search, and
    the conversion between file text and lines (line endings preserved).
  - `buffer_laws.rs`: laws of the buffer (round trips, search soundness).
  - `keymap.rs`: key presses to commands, with the `^K`/`^Q` prefixes.
  - `editor_model.rs`: the editor's state as a spec value and every
    command as a spec transition.
  - `editor.rs`: the executable editor; each operation is proved to follow
    its transition. File reads and writes are requested from the caller and
    their outcome is handed back (`finish_write`, `finish_read`).
  - `line_number.rs`: parsing of the "go to line" answer.
  - `editor_laws.rs`: laws that span several commands.
  - `screen.rs`: what the screen shows (layout, ruler, text rows, status
    line, menu and help box).
- `tests/` — tests run against the compiled library.
- `app/` — the terminal program: argument handling, file I/O, raw-mode
  terminal input and drawing.
