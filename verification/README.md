# clock_sync

Clock synchronisation for boards that hear the same WiFi broadcasts, with its
logic verified by Verus.

* `src/` is the library: the packet format, the estimator, the client that runs
  on a board, the arithmetic of the edge timestamps, the pulse rig's schedule,
  and the host side that compares two boards. Each function has a contract;
  properties of the whole are the proof functions named `law_..`.
* `app/` is what surrounds it: sockets, serial ports, the command line, the radio
  and the registers. `clock_sync server` broadcasts the time, `clock_sync
  skew-meter` compares two boards; `app/device` is what runs on a board.
* `tests/` runs the library on concrete values.

What the proofs rest on beyond Verus itself: the contracts given to
`String::push`, `String::pop`, and to the `new`, `try_send` and `try_receive` of
`embassy_sync`'s bounded channel, in `src/queue.rs`.
