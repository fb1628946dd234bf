# cydonia

The decisions behind cydonia's workspace window — its panes and panels, the
composer, the transcript, the board, the file tree and the terminal tabs —
written in Verus and proved against their contracts.

## Layout

- `src/` is the library. Each module holds one part of the window's logic:
  the state a part keeps, the spec functions that say what it means, the
  executable functions with their `requires`/`ensures`, and the proof
  functions that state what holds across calls (what one call undoes, what
  every operation keeps).
- Calls into outside crates (`url`, `base64`, `image`, `chrono`) and into
  std where vstd gives no specification stand behind small trusted wrappers,
  each with a doc comment saying what its contract claims of the call.
- `tests/` runs the library on concrete values.
- `app/` is the program around it: reading and writing files, starting
  processes, the settings file, and layout arithmetic done in `f32` pixels.
