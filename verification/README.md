# pika

A keyboard-driven terminal editor whose editing core is verified with Verus.

- `src/` is the verified library: the text buffer and its undo history,
  cursor and selection, search and replace, tabs, the file tree and its
  ordering, the sidebar's file commands, the command palette's fuzzy
  filtering, completion, the CSV table view, key bindings and input
  decoding, language-server message framing and server registry, and the
  application state machine (`app.rs`), which turns each user action into a
  new state and a list of effects. `ui/undo_chain.rs` and `app_history.rs`
  state how the undo history stays tied to the text: every undo group,
  inverted, gives back the text from before it, and the editing operations
  and `App::dispatch_action` keep it so; `App::is_ready_for` tests, before an
  action is dispatched, exactly what `dispatch_action` asks. Calls into ropey, fuzzy-matcher, arboard,
  syntect, csv, dirs and std's path functions go through small trusted
  wrappers whose contracts are stated next to them.
- `app/` is the program around it: the terminal loop (crossterm and
  ratatui), drawing, reading and writing files, the file watcher, the
  language-server processes, and the configuration file.
- `tests/` holds the tests, run against the compiled library.
