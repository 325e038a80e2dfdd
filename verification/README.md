# mu

A command-line tool for Ubuntu that cleans, optimizes and monitors the
system. Every destructive action is previewed before it runs.

## Layout

- `src/` is the library, written in Verus: the command-line parser, the
  clean targets and their safety checks (protected paths, whitelist, glob
  patterns, trash entries), the audit rules and report, the optimize steps,
  the parsers of `/proc` and of `apt`, `snap`, `dpkg` and `docker` output,
  and the state machines and screen layouts of the terminal interface. Each
  public function carries a contract that Verus proves, and the `law_*`
  proof functions state the properties that hold across calls.
- `app/` is the program around it: argument handling, reading the system,
  running commands, the terminal, JSON and TOML.
- `tests/` runs the library on concrete inputs.
