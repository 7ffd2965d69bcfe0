# icode_cli

The editor, completion and dialog logic of the icode terminal client, written in Verus
and proved against its contracts.

- `src/` is the verified library. Each dialog is a state machine over plain values: a
  key goes in, the new state and an action for the caller come out, and every public
  function states exactly what it returns or changes. Laws that relate several calls
  (history navigation, undo and redo, parsing then printing, saving then loading, asking
  before deleting) are public proof functions next to the code they speak of.
- `app/` is the terminal side: crossterm events, the rustyline prompt, the file system,
  the JSON stores on disk, logging, the external editor, and the computations done in
  floating point. It hands the library plain values and acts on what comes back; for
  instance it sends the answer that the question prompt leaves pending.
- `tests/` runs the library on concrete inputs.
