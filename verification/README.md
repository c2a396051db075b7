# RAMP

RAMP keeps Apache, MySQL and PHP running on a Windows machine: it starts them,
watches them, checks their health, and brings them back when they crash.

- `src/` is the library: what RAMP decides, with contracts that Verus proves.
  - `state`, `events`, `reducer`: the state of the services, what can happen, and
    what follows from it. `laws` holds what is true of it whatever happens.
  - `session`: the event loop, one event at a time, with repeated commands held
    back.
  - `executor`, `process`, `health`, `storage`: what is done outside, as a
    sequence of small steps.
  - `config`, `format`, `paths`, `winpath`: the configuration file and what it
    says, and the layout of an installation, on paths as Windows understands them.
  - `logger`, `ui`, `text`: the log, what the user sees, and how numbers are
    written.
- `tests/` runs the library on concrete values.
- `app/` is the program around it: the files, the network, the processes, the
  window and the tray icon.

Times are whole numbers: retries are planned in seconds, timeouts and intervals
are in milliseconds, and the clock of the event loop is in nanoseconds.
