# ardi-agent

The logic of an agent that mines unattended, verified with Verus.

- `src/state.rs`, `src/pending.rs`: the commits that still have to be revealed, by
  epoch and word.
- `src/update.rs`, `src/serial.rs`: the locked update of the state file, and the laws
  of any number of updates at once.
- `src/paths.rs`: where the agent keeps its files.
- `src/shell.rs`: the command line of a tick, and how a shell reads it.
- `src/cmd/`: the decisions of the `auto-mine` and `loop` commands.
- `src/text.rs`, `src/order.rs`, `src/probe.rs`, `src/output.rs`: numerals, the order
  of strings, what a command finds out, and what it prints.

`app/` performs what the library asks for: files, locks, processes, signals, the clock
and JSON.
