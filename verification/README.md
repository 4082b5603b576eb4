# zenity-rs

Simple GUI dialogs for shell scripts: message, entry and password, progress,
file selection, list, calendar, text-info, scale and forms dialogs.

## Layout

- `src/` is the verified library. Each dialog has a module with its builder,
  its result type and its state: a value that window events update through
  methods with exact contracts (what is selected, hovered, scrolled, typed,
  and which result the dialog closes with). `report` states the exit status
  and printed line of every result, `events` turns raw keyboard and pointer
  input into window events, `strutil` and `order` hold the character and
  ordering helpers the dialogs are built on. Public proof functions named
  `law_*` state properties that span several calls.
- `app/` is the program: the command line, the X11 and Wayland windows,
  drawing and text rendering, and the loops that read events, files and
  standard input and hand them to the library.
- `tests/` runs the library on concrete values.
