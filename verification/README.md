# cargo_scry

Host tools of the Scry Rust SDK, with their logic verified by Verus.

- `cargo scry` runs cargo for the `scry32-unknown-none-elf` target: it takes the board out of the
  arguments, finds the board a project's `Cargo.toml` records, and writes the SDK's settings into
  cargo's `--config` values.
- `scry-load` puts an ELF executable onto a board: it flattens the loadable segments into one
  image, checks the image against the board's memory, verifies it against the ELF byte for byte,
  sends the download frame, and splits what the board sends back into the program's output and
  its final report.

## Layout

- `src/` is the verified library. Every function has a contract over spec functions and views:
  `image` (flattening, checking, verifying), `loader` (frames, acknowledgements, the report
  parser and its laws), `cli` and `manifest` (the `cargo scry` command line and the project's
  board), `load` (the `scry-load` command line and port choice), `board` (profiles), `text` and
  `order` (strings). `scry_core`, `builtins` and `programs` model the target's minimal `core`
  library, its memory routines and the SDK's test programs.
  The `object` and `toml` crates are called from `elf` and `manifest` through wrappers whose
  contracts name what they return.
- `app/` is the program around it: file and serial-port I/O, the serde form of board profiles,
  and the processes it starts. It is one binary that acts as `scry-load` when invoked under that
  name, so `dist/bin/scry-load` is a link to or copy of `cargo-scry`.
- `tests/` holds the tests.
