# quickterm

A small drop-down terminal for sway/i3-compatible IPC, as a verified
library (`src/`) and the program around it (`app/`).

- `src/text.rs`: string helpers (character sequences, trimming, ordering,
  decimal notation).
- `src/strmap.rs`: sorted string maps and sets.
- `src/expand.rs`: `{key}` placeholder expansion and splitting of commands.
- `src/config.rs`: defaults, file location, overriding defaults.
- `src/history.rs`: the order of shells and its JSON storage.
- `src/terminal.rs`: the command that opens a terminal.
- `src/ipc.rs`: marks, searches in the window tree, IPC command strings.
- `src/menu.rs`: text exchanged with the menu program.
- `src/session.rs`: the steps of a run, from what came back to what to do.
- `app/`: command line, files, IPC connection, processes.
