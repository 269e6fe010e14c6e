# kosh

The verified core of Kosh, a self-hosted storage server with a terminal log viewer.

- `src/` is the library, checked by Verus: the viewer's state machine (entry ring buffer,
  filter bar, scrolling, mouse column resizing, key routing), the log wire format and the
  daily-file rotation decisions of the logging service, the HTTP layer's request validation
  and error answers, the configuration paths, and the pairing screen's data.
- `app/` is the program around it: the ratatui/crossterm viewer (`kosh`), and a plain-HTTP
  server mode (`kosh serve [config.kdl]`) with the logging service, configuration file and
  database calls.
- `tests/` runs the library on concrete inputs.

Calls into outside crates (bincode, chrono, hex, bip39, qrcodegen, base64) sit behind small
trusted wrappers whose contracts are documented next to them.
