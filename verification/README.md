# apalis-monitor

A monitor runs a collection of workers together and shuts them down together.

- `src/` is the library, verified with Verus. It decides: which listeners a starting shutdown
  wakes and which it forgets, what a run polls and in which order, and when a run exits.
- `app/` carries those decisions out on real futures. It shares the shutdown token between
  the monitor and its workers, polls, and wakes.
- `tests/` runs the library on concrete values, and on futures under a tokio runtime.

## A run

A run begins with `Monitor::run` or `Monitor::run_with_signal`. Its driver asks
`RunState::next_poll` what to poll, hands back what came of it to `RunState::step`, carries out
the wakes that `step` returns, and stops when `RunState::exit` says so.

| Terminator | Exits when |
| --- | --- |
| none | all workers have completed |
| set | all workers have completed, or the terminator has resolved |

The two ways to begin a run differ in one thing: with a signal, the run also polls it, and when
it resolves, starts the shutdown and wakes every worker. The run waits for the workers to
complete even then, and it does not wait for the signal once they have.

A token remembers one waiting task. A run with a signal and a terminator leaves that place to
others and only looks at the token; its driver registers a waker slot of its own, and so learns
of a shutdown that others start. Every other run awaits the token.

The terminator is polled from the start of the shutdown on, whoever started it. Where it ends a
run, workers are outstanding, and the run exits with an error that counts them. Every other
exit is a success.

Whenever a run exits, the shutdown has been started.
