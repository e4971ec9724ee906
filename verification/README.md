# hub_tui

A terminal dashboard for a fleet of coding-agent terminals: a directory of
agents grouped by worktree, groups, an activity log, an input line with
prefix commands (`to:`, `pty:`, `snip:`, `chain:`, `alias:`, `theme:` …),
a command palette, global search, macros, saved views and overlays.

## Layout

- `src/` — the library, verified with Verus. The data model (`store`,
  `model`, `strmap`), the update step (`update`) and the state machines it
  drives (`router`, `keymap`, `overlay`, `palette`, `finder`, `line`,
  `dispatch`), the input grammar (`input`), sorting and filtering of the
  directory (`directory`, with facts on orders in `order`), layout and card text (`view`, `card`, `render`,
  `cwd`), the dashboard and metrics aggregates, the cheatsheet (`help`), and
  the socket protocol's answers (`socket`). Every public function states what
  it returns or changes; laws that relate several functions are public proof
  functions (`law_*`).
- `app/` — the program around it: terminal set-up and the event loop, the
  `orca-ide` command-line calls, SQLite persistence, the Unix socket, and
  drawing with ratatui.
- `tests/` — tests of the library on concrete values.

The outside crates are reached from `src/` only through a few small trusted
wrappers (display widths from `unicode-width`, colour names from ratatui,
the clock, and `char::is_alphanumeric`), each with a contract that says what
is assumed of it.
