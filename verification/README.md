# rufa

rufa supervises the programs that a developer, or a coding agent, works on: it starts
configured targets in the background, keeps their output in logs, hands out ports, restarts
services when their files change, and answers questions about all of it from the command line.

The rules of the program live in a library that is verified with Verus. Everything that
touches the outside (processes, sockets, files, signals, the clock) stands in a thin program
around it.

## Layout

- `src/config` reads `rufa.toml`: the shape of a document, its values, and the errors it can have.
- `src/runner` supervises targets: which units a selection stands for, what is planned for each,
  ports, environments, commands, starting, stopping, restarting after changes or exits.
- `src/ipc` is what clients and the supervisor say to each other, and how the supervisor answers.
- `src/cli` is what the command line decides and shows: logs, the state of targets, first set-up.
- `src/watch.rs` decides which services a change of files concerns.
- `src/debug_update.rs` keeps the debugger configurations of editors in step with ports.
- `src/names.rs`, `src/text.rs`, `src/parts.rs`, `src/numbers.rs`, `src/paths.rs`, `src/time.rs`,
  `src/json.rs`, `src/pattern.rs` and `src/views.rs` are what the rest is built from.
- `app` is the program.
- `tests` runs the library.

## How contracts are written

Each type has a mathematical counterpart, named after it with `View` at the end, which its
`deep_view` gives. A function says in its `ensures` that the view of its result is what a
specification function makes of the views of its arguments. Work that reaches outside is cut
into steps: a function takes what happened and the state so far, and tells the next state and
what is to be done.

What follows from the contracts and is worth knowing by itself stands in public proof functions
under the heading "Laws" of each module.
