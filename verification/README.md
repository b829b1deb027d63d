# cvirtos

Firmware for the small core of a camera board: it brings up a USB host, finds a UVC camera,
captures motion-JPEG frames, has the JPEG unit decode and the image unit convert them, and tells
the big core about each frame through a mailbox in shared memory. A test of that traffic, run on
the big core, comes with it.

- `src/` is the library, verified by Verus: descriptor and header parsers, the walk over the bus,
  transfers, stream negotiation, frame assembly, the page pool, table generation, register
  sequences, the line lock and the mailbox protocol. It touches no hardware. A register sequence is
  a list of `HwOp` values; a loop that waits for the outside is a state machine that is handed what
  was read and says what to do next.
- `app/` performs those steps on the board and holds `main`, the interrupt entry and the console.
- `tests/` runs the library on concrete values.

Two outside crates are called from the library, each behind a few functions whose contracts are
taken on trust: `tock-registers` for bit fields (`src/registers.rs`) and `riscv` for trap causes
(`src/arch/trap.rs`). Functions that state a law of the library as a whole are named `law_..`.
