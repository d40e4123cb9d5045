# bevy_editor

The verified core of a scene editor for the Bevy engine, written in Verus.

`src/` holds the editor's state and rules, each function with a contract that
Verus proves:

- `state`: the play-mode state machine (which state each shortcut, button or
  menu entry leads to) and the entity selection.
- `history`: the undo / redo stacks (100 steps by default) over actions that
  can be applied and reverted on a world, and what each step does to it.
- `editor_log`: the bounded log buffer (newest 10 000 entries).
- `asset_db`: asset kinds from file extensions, entries built from a directory
  walk, the index stably sorted by relative path, counts and sizes.
- `project`: the default project layout and the most-recently-opened scene list.
- `paths`: joining path parts and comparing paths by their components.
- `hierarchy`: the top-level entities of the scene tree, sorted by name.
- `panels`, `script_editor`, `theme`, `components`: panel state, console
  commands, list filters, renaming, the script editor's state, the palettes,
  and the requests the UI queues.
- `text`, `sorting`: the text primitives and the stable sort the above use.

`app/` is the Bevy program: systems, egui panels, file and directory I/O,
floating-point camera and timer code, and the shared, locked log.
