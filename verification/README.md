# daemon-green

Per-user background services on Linux and macOS, without privileges.

A service is described once, by a `ServiceSpec`. On Linux it becomes a unit of the user's systemd
manager, on macOS an agent of the user's login session. It can then be started, stopped and
restarted, and asked for its status and its log.

- `src/` is the library. It renders the unit and the property list, and it decides what each
  operation does: which files and commands, in which order, and what their outcomes amount to. It
  performs no input or output. It is verified with Verus; of the standard library it trusts
  `String::push`, `String::from_utf8` and `String::from_utf8_lossy`, as stated in `text`, besides
  what Verus's own library states. An operation is a value: it names the next effect that it needs
  (`pending`), takes the reply to it (`resume`), and says how it ended (`outcome`).
  - `service`, `session`: what a service is, and on whose behalf it is managed.
  - `render`: the property list and the unit.
  - `effect`, `plan`: effects and replies, and operations that are a list of steps.
  - `systemd`, `launchd`: the operations of the two managers.
  - `text`, `path`: white space, lines, decimal numbers, and paths.
  - The modules whose names end in `_laws`, and `plist_readback`, state what holds of the library as
    a whole.
- `tests/` runs the library against scripted hosts and against the standard library.
- `app/` performs the effects: files, commands, the environment and the clock.
