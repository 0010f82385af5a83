# hecto

A small terminal text editor. The library under `src/` holds the editor's
logic, each function with a proved contract; `app/` is the program around it (terminal
set-up, reading input, drawing, files), written against the library.

- `line`: a line as grapheme clusters with their display widths; inserting,
  deleting, cutting out ranges and showing a window of columns.
- `buffer`: the lines of a text, loading them from text and writing them back.
- `view`: the caret, its moves, and the rows a screen shows.
- `editor`, `editorcommand`, `event`: which input events become which
  commands, and what a screen refresh draws.
- `statusbar`, `documentstatus`: the status row.
- `terminal`, `location`: sizes, screen positions and text locations.
- `text`, `unicode`: character sequences, and the calls into
  `unicode-segmentation` and `unicode-width`.

The tests under `tests/` run the library on concrete values.
