# rnano

A small nano-like terminal text editor whose editing core is verified with
Verus.

- `src/` is the library: the text buffer (a `ropey::Rope` with LF line
  endings in memory and CRLF detected on load and restored on save), the
  undo/redo history, the config file parser, syntax highlighting rules,
  search, the editor state machine that turns key presses and mouse events
  into edits, prompts and effects, and the text of every screen line.  Each
  public function states what it does in its `requires`/`ensures`, and
  `src/laws.rs` states properties that relate several operations (undoing an
  edit restores the text and the cursor, switching through all buffers comes
  back to the first, a file is saved as it was loaded, ...).
- `app/` is the program around it: argument handling, reading and writing
  files, the terminal, the OS clipboard, running the save hook, and the
  autosave timer.  The library asks for that work through `Effect` values
  and is told the outcome.
- `tests/` runs the library on concrete inputs.
