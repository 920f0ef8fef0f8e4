# rudder

Rudder manages the dev services of a project from one terminal: it detects
what a directory holds (Node, Rust, Go, Python, Java, Ruby, Elixir, PHP,
.NET, Make, Docker Compose services, tooling, one level of subdirectories,
or a `rudder.toml`), starts and stops those services as process groups,
keeps their logs, spots local URLs and port conflicts, and shows it all in a
terminal UI. A small command line (`init`, `up`, `down`, `services`) covers
scripting.

## Layout

- `src/` is the library, verified with Verus. Every decision lives here and
  carries a contract: detection over what a directory holds
  (`detect`), the service lifecycle as a state machine that the caller
  feeds with spawn outcomes, output lines and poll results (`service`), the
  file browser (`browser`), the UI state and the effects each key or command
  queues (`app`, `commands`, `input`), the texts the UI shows (`ui`), the
  configuration writer (`config`), the session-log layout (`logger`), and PID
  files, `ps` output and the SIGTERM/SIGKILL sequence (`process`). Public
  `lemma_*` proof functions state the laws that tie these together.
- `app/` is the program around it: argument parsing, reading directories and
  files, spawning and signalling processes, the session log file and drawing
  the terminal. It hands the library plain values and carries out the effects
  the library queues.
- `tests/` exercises the library on concrete inputs.
