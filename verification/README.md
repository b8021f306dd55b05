# timesimulation

Deterministic, wall-clock-free time simulation, written and proved in Verus. Commands are
scheduled against a simulated clock and run when the clock reaches them.

## Layout

- `src/`: the library. Every function states what it returns or changes, and Verus proves it.
  - `clock`, `scheduler`, `dispatcher`: simulated time, the queue of commands, and the
    dispatcher that moves time, publishes it and runs what is due. `command` is the payload of a
    command.
  - `pipe`: the line format `timestamp:command body`.
  - `client`: a client over a transport, in memory or fed from pipe input.
  - `windows_pipe`, `json`: control messages as shorthand lines, as JSON and as JSON-RPC requests.
  - `forward`, `frame`: what a listener does with lines and with binary messages, and its replies.
  - `repl`, `session`: the command language of the interactive client, and what commands and
    events do to a dispatcher.
  - `remote`: what the client sends arrives as what its user asked for.
  - `demo`, `sink`: the logic of the demo listeners, and what sinks write.
  - `text`: trimming, splitting, numbers and letter case.
- `tests/`: tests of the compiled library.
- `app/`: the programs: arguments, terminal, files, named pipes and the async runtime.

## Reading the contracts

Contracts speak of plain values: the view of a `Dispatcher` is a `DispatcherState`, the view of a
command is a timestamp and its text, and a text is a sequence of characters. Laws that relate
several functions are public proof functions; most stand at the end of their module.

Functions that would leave the range of `u64` timestamps require that they do not, and a function
that tests it stands beside them (`can_step`, `can_run`, `fits`, `demo_allowed`, ...). Code that
Verus does not read has to call that test first.

What is taken on trust is marked where it stands: `serde_json`, `rmp_serde` and a few functions of
the standard library, each with a doc comment that says what is believed of it. A `CommandSink`
promises only that it takes the calls that are made on it.
