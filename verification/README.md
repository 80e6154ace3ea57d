# gub-wire

The wire types and the decision logic of a small cluster manager: nodes
describe their machine (packages, OS release, `uname`, memory) to a
coordinator, report their load, and run the jobs they are handed.

- `src/` is the library, verified with Verus: memory amounts and their text,
  the package index, `os-release` parsing, machine selection expressions and
  their `Debug` text, message framing, truncated `Debug` output, how systemd
  states are read, the search path, retry waits, log lines, and the
  coordinator's per-node state.
- `tests/` exercises the library on concrete values.
- `app/` holds the two programs (`client` and `server`) around it: option
  parsing, TLS, sockets, serde forms of the messages, `sysinfo`, `uname(2)`,
  D-Bus, and the floating-point parts of memory amounts.
