# pressa

A schema-driven data manager for the terminal: a `pressa.yaml` file names the
collections and their fields, records are JSON documents stored in SQLite, and a
TUI browses them.

This crate is its core, written in Verus and proved against its contracts:

- `config`, `schema`, `discovery` — validating the schema file and finding the
  project it belongs to;
- `validation` — checking a document against its collection;
- `json`, `json_text`, `values`, `ieee` — JSON documents and the value semantics
  storage shares with SQLite (ordering, equality, case-insensitive search);
- `repository`, `memory`, `sql`, `migrations`, `clock`, `record` — the storage
  port, an in-memory adapter kept in id order, and the statements, row
  decoding and migration decisions of the SQLite adapter;
- `services` — the record and collection services the UI talks to;
- `tui` — the state machine, keymap and everything the screen shows;
- `cli`, `logging` — the messages and paths of the command line.

`app/` is the binary around it: argument parsing, reading files, the SQLite
connection, the terminal and the event loop.
