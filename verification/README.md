# tracker

A work-time tracker: `tracker go` when you start, `tracker pause` for breaks,
`tracker stop` when you are done, `tracker status [day] [week] [year]` to look
at a day, or `tracker` alone for the terminal interface. A day holds sessions
of Go / Pause / Stop events, and a session holds spans of named tasks.

## Layout

- `src/` is the library, verified with Verus:
  - `model`, `clock`, `date`, `text`: the data of a day, times, dates, texts;
  - `timer`, `actions`, `tasks`: worked / paused / total time, Go / Pause /
    Stop, starting and suspending tasks;
  - `commands`: what each command does to the day and prints;
  - `config`, `legacy`, `editor`, `launch`: the options, records of the
    earlier flat format, choosing an editor and a terminal;
  - `app`, `view`, `smartcard`: the state of the terminal interface, its
    reaction to keys and card events, and the lines it draws.
- `app/` is the program around it: command-line parsing, the files under the
  data directory, the terminal, and the PC/SC library.
- `tests/` runs the library on concrete days.
