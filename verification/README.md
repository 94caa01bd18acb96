# Rode

Rode is a Linux-first, native control plane for Codex. It keeps projects and threads, runs turns
through the Codex app-server, shows what changed in the repository, and has a host terminal for
each thread.

The logic is a library verified with Verus; around it stands a thin program.

- `src/` — the library. Each module starts with what it is about, each public function states in
  its contract what it gives and changes, and the laws that hold across functions are public proof
  functions beside the code they speak of.
- `tests/` — the library from outside, on concrete values.
- `app/` — the program: windows, processes, the database file and the emulator. It performs what
  the library asks for and hands back what came of it.

## How the parts meet

- Commands and looks at the file system: a function such as `RepoSnapshot::load` takes the replies
  so far and gives the next `Step`, until it is done.
- The application: each thing that happens is a method of `RodeApp`; it changes the state and
  gives the `Effect`s to perform, in order.
- The terminal: `TerminalWorker::run` takes a command and gives the actions for the emulator and
  the pseudo-terminal.
- The database: `StateStore` holds the state; the file follows it.

What the library calls outside of itself stands behind a few trusted functions, each with a
comment that says what is claimed of it: reading and writing JSON (`wire`, `json`), grapheme
clusters (`editor`), UTF-8 and quoting (`command`), lower case (`git`), the clock (`clock`) and
the hashes of paths and texts (`hashing`).
