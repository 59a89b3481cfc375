# chip8

A CHIP-8 virtual machine whose core is verified with Verus.

- `src/` is the library: the machine state (`machine`), the instruction semantics as
  spec functions (`ops`), the executor (`cpu`), sprite drawing (`draw`), the keypad
  mapping (`keys`), the delay timer (`timer`: `DelayTimer`, starting at 60) and proved properties (`laws`).
  The random byte of `CxNN` comes from `rand` through one trusted wrapper (`random`).
- `app/` is the SDL front end: window, event queue, program file and the 60 Hz clock
  thread. It drives the library one instruction per frame: `fetch_decode`, then
  `execute`; when that returns `AwaitKeys` it hands events to `key_event` until told
  to stop, or calls `events_exhausted`.
- `tests/` exercises the library on concrete programs.
