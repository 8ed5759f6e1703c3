# Cybion Worker

A worker receives calls from a controller over an event stream, runs them on the device (a shell
command, a browser, the desktop) and posts the results back. This crate holds its decisions,
written in Verus and proved against their contracts; the program around them stands in `app/`.

- `src/` is the library. Nothing in it touches the network or the disk: it says what has to be
  done, and what follows from what happened.
  - `pairing`, `setup`, `config`: how a device gets its configuration, and what it tells about
    itself.
  - `delivery`, `session`, `calls`: the event stream, the exactly-once execution of calls, retries,
    and the life of the worker.
  - `tools`, `browser`, `process`: what is run for a call.
  - `self_update`, `install`, `archive`: how a newer release is fetched, checked and installed.
  - `command`, `paths`: the command line, and the start in the background.
  - `text`, `numbers`, `json`, `encoding`: what these are built on.
- `tests/` runs the library with the crates that it calls.
- `app/` performs the actions and hands back the events.

Public proof functions state what holds of the library as a whole, such as that a call is executed
at most once (`delivery`), that only an approval configures a device (`pairing`), or that only a
release which was checked and tried is installed (`install`).
