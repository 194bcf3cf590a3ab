# io_event

The event selector and worker pool behind a Ruby fiber scheduler.

- `src/` is the library. It holds the state of a selector and of a worker pool,
  and the decisions they take, as state machines: a machine says what has to be
  asked of Ruby or of the system next, is told the answer, and goes on. Each
  function carries its contract, and Verus proves it. `src/laws/` states what
  holds of several operations together.
- `app/` is the Ruby extension. It makes the calls that the machines ask for. It
  also converts durations, which are floating-point numbers: the time that a turn
  of the event loop may wait, to milliseconds, and the time that a busy operation
  lasts, to seconds and microseconds; and it knows how long one lasts by default.
- `tests/` runs the library on concrete values.

The only thing taken on trust is the record of the system's error codes in
`src/platform.rs`. The numbers that only Unix has, its poll conditions and its
non-blocking flag, are handed in by the caller; without them the library works as
on a system whose descriptors can neither be waited for nor be read directly.
