# bnvr

A command-line manager for the mihomo proxy kernel: profiles (add, sync,
merge, diff, activate), kernel downloads and versions, overwrite plugins,
TUN mode, a background daemon with an IPC interface, and a terminal UI.

## Layout

- `src/` is the library, written in Verus. Its functions are verified
  against their contracts: the profile store and its merge and diff
  algorithms, YAML documents as values, configuration injection for TUN mode,
  kernel asset selection and archive extraction, plugin bookkeeping, the
  daemon's state machines (kernel supervision, traffic window, IPC routing,
  start and stop), and the state and key handling of the terminal UI.
  Calls into `dirs`, `ipnetwork`, `flate2`, `zip`, `serde_json` and a few
  std functions stand behind small trusted wrappers, whose contracts Verus
  takes on trust and whose doc comments say what is assumed of them. Some
  small functions, such as message builders and constructors, state their
  result in their types alone.
- `app/` is the program around the library: argument parsing, file and
  network I/O, processes, the SQLite store, the TUN device, the async daemon
  loop and the terminal drawing. It hands the library plain values and acts
  on what comes back.
- `tests/` exercises the library from outside, with the real outside crates
  linked.
