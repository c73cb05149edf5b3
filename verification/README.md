# Aion

The verified core of a durable workflow engine: workflows whose every step is recorded as an event,
so that a restart finds each of them where it was left.

- `src/` is the library. Every function in it is verified by Verus against its contract: event
  histories and the rules of the stores that keep them, the single-writer recorder, projections of a
  history, worker registration and activity dispatch, durable timers, live queries, schedules and
  the assembly of an engine. Laws that relate several functions stand beside them as public proof
  functions.
- `tests/` runs the library on concrete values, with the outside crates linked.
- `app/` is ordinary Rust around the library: the libSQL store, worker streams, the native functions
  of workflow processes, the start of an engine and its waits. It counts what is under way and
  refuses where a bound of the library is not met; all else is decided by the library.

The library waits for nothing and touches no disk. Where the engine has to wait, a function of the
library takes what happened and returns what to do next (`AppendFlow`, `DispatchFlow`,
`Engine::result`, `resume_sleep`), and `app/` does it.

What the library believes of the crates it calls (`chrono`, `uuid`, `serde_json`, `dashmap`) and of
the standard library is written in the contracts of a few small functions that are marked
`external_body`; the comment above each names the function that it calls.
