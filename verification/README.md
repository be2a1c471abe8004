# rollcall

A terminal picker for coding-agent sessions on this machine and over SSH.

- `src/` is the library: the session model, the store's rules, reconnection, the adapters'
  parsing and commands, and everything the picker decides and shows. All of it is verified with
  Verus; the few calls into other crates stand behind small functions whose contracts are stated
  beside them.
- `app/` is the program around it: arguments, processes, sockets, the database and the terminal.
- `tests/` runs the library.

The library keeps no clock and reads no environment: times, host names and what commands printed
are handed in. What the picker wants done outside (asking a host, capturing a pane, notifying) it
leaves as effects, and takes the answers back as events.
