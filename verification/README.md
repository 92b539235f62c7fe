# Veya

Veya records where clipboard content is copied from on Windows and where it
is observed to be pasted. This crate is its verified core, written in Verus:
every decision the program takes about clipboard events, history, search,
shortcuts, the tray, the window and updates is a function with a contract
that Verus proves.

## Layout

- `src/` — the library.
  - `events`, `model`, `flow`, `aggregate`, `search`: clipboard events, the
    flow engine that links copies to pastes, history cards and search.
  - `format`, `time`, `detail`, `ui`, `listing`, `window`, `icons`, `fonts`:
    what the window shows and how it reacts to the user.
  - `capture`, `history`, `worker`, `tracking`, `tray`: the capture worker's
    state, history pages and the tray.
  - `platform`, `clipboard`, `hotkey`, `registration`, `locate`, `shell`:
    platform events, clipboard wire formats, shortcuts, executable lookup and
    shell targets.
  - `storage`: rows of the local SQLite database.
  - `update`: reading release answers and checking downloaded installers.
- `app/` — the program around the library: the SQLite store, the worker
  loop and the update downloads. The window, tray and hooks need the
  Windows API and the Iced toolkit.
- `tests/` — behaviour tests of the library.
