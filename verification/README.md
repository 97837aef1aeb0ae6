# Chalkydri

Chalkydri is a vision coprocessor for robots: it takes frames from a camera, calibrates the
camera, serves a web interface and publishes what it sees to the robot's network tables.

- `src/` is the verified core. Its functions take and return plain values; their contracts say
  what they decide, and Verus proves them.
- `tests/` runs the core on concrete values, with the crates that it calls.
- `app/` is the program around the core: cameras, files, the network and the calibration solver.

Four calls leave the verified core, each behind a function whose doc comment says what is
believed of it: the colour conversion of `yuvutils-rs` (`src/frame.rs`), the image container of
`image` (`src/calibration.rs`), the content types of `mime_guess` (`src/api.rs`) and the random
numbers of `fastrand` (`src/net.rs`).
