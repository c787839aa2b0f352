# sshmux

A terminal multiplexer for SSH sessions: tabs, panes that can be divided and
resized, embedded sessions, and two-panel file browsers over `sftp` and over
`ssh` with `scp`.

- `src/` is the library, verified with Verus: key combinations and their text in
  the configuration file, the tree of panes, tabs, keys and clicks, the dialogue
  with `sftp`, `ssh` and `scp`, the parsers of their output, and what is shown on
  the screen. Contracts are stated over views (`AppView`, `PaneView`,
  `CoreView`, ...); proof functions named `law_...` state what holds over several
  calls.
- `app/` is the program around it: the terminal, pseudo-terminals, files and the
  loop of events.
- `tests/` run the library.

The library does no input or output. A pane that needs something says so in a
field (`reload_local`, `scp_request`, an `outbox`, `App::request`), and the
program hands the outcome back. Times are milliseconds that the program passes
in.
