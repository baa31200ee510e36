# tiez_slim

The verified core of the tiez-slim clipboard manager, written in Verus.

`src/` is the library. Verus verifies all of it; its public functions and
laws carry the contracts that state what the library does:

- `text` — character-level string operations (`trim`, `replace`,
  `contains`, line splitting, ASCII case mapping) against exact
  specifications.
- `actions` — user actions: pattern compilation and matching (regex and
  glob, through the `regex` and `globset` crates), placeholder expansion,
  the dangerous-command blocklist, the command allowlist, the concurrency
  limit and the program each action kind runs.
- `blacklist` — the window-class exclusion list.
- `i18n` — locale detection and the persisted language choice.
- `ipc` — the CLI protocol's error model, response envelope, session token
  and port file, request admission and command routing.
- `platform` — hotkey parsing and registration plans, tray and hotkey
  events, the applications offered for a content type, and the portable
  fallbacks.
- `ui` — the action editor's state, the snippet editor's checks, the
  settings tabs, drop-down search, colour parsing and the pattern tester.
- `cli` — command-line and environment switches.

`app/` is the program around it: running the planned processes, the TCP
transport and JSON wire forms of the IPC protocol, and desktop glue.

`tests/` exercises the library on concrete values.
