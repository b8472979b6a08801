# henmen

Delegate code investigation and well-scoped edits to a worker agent, keeping the
calling agent's context small. The worker is a codex app server.

## Layout

- `src/` is the library. Verus proves the contracts of its functions, except for the
  calls into `serde_json`, `ulid` and `std::path`, whose contracts it takes for
  granted. Of what implements the traits in `ports.rs` nothing is assumed.
  - `delegation/application.rs`: sessions, and the two ways to hand work to a
    worker, `delegate` and `resume`.
  - `delegation/ports.rs`: what these need from their surroundings, as traits.
  - `delegation/desk.rs`: the way to these surroundings, with an account of the calls,
    in which the contracts of `delegate` and `resume` are stated. That the account
    leaves no call out has to be seen by reading this file: it is not proved.
  - `delegation/history.rs`: what holds of that account, for one run and for many.
  - `delegation/adapters/codex/`: the conversation with the server. The library
    decides which line to write and what each message that comes in means; a
    caller does the reading and writing. Getting a server ready, opening a thread,
    taking a turn and ending a thread each go on in steps: a step says what has to
    be done next, and what came of it is handed back.
  - `delegation/adapters/session.rs`, `log.rs`: where sessions and the log of runs
    are kept.
  - `json.rs`, `paths.rs`: JSON values and paths as mathematical values, and the
    calls into `serde_json` and `std::path`, with what is taken for granted of each.
  - `error.rs`, `launch.rs`, `termination.rs`: errors as chains of causes, what a
    run is made up from, and requests to stop.
- `app/` is the program: arguments, processes, files, and the library's types in the
  form in which they are read and written.
- `tests/` runs the library.

## Usage

```bash
henmen models
henmen delegate <TASK> --model <MODEL> --effort <EFFORT> --mode <inspect|edit> [--cwd <PATH>] [--timeout-minutes <MINUTES>]
henmen resume <SESSION_ID> <TASK> --model <MODEL> --effort <EFFORT> --mode <inspect|edit> [--cwd <PATH>] [--timeout-minutes <MINUTES>]
```
