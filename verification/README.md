# visage

The logic of visage, face authentication with an infrared camera, as a verified
library.

- `src/` is the library. It opens cameras, captures and judges frames, enrolls and
  verifies faces, and says what the two enrollment front-ends show. Calls to a
  driver, a model or the bus are the caller's: a run says which call comes next,
  and is told how it went.
- `app/` is ordinary Rust around it: the terminal and the window front-end, the
  D-Bus client, the engine thread and the V4L2 driver. Averaging embeddings is
  floating point and stands there too.
- `tests/` runs the library on concrete values.

Three calls into other crates are trusted: the division of the terminal into rows
and the shrinking of a rectangle (`ratatui`), and the making of an image (`egui`).
