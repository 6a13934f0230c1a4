# dualslint

Two-thread rendering for a retained-mode user interface, with the logic verified
by [Verus](https://github.com/verus-lang/verus).

The user-interface thread encodes what is on screen into a self-contained
*scene*; the render thread keeps the latest scene and overlay and replays them
against a GL canvas.  Nothing of the user interface crosses the border but plain
values.

- `src/` is the verified library.  `scalar` and `rounding` hold the arithmetic of
  IEEE-754 numbers on bit patterns, `scene` the draw commands, `encoder`,
  `encoder_draw` and `transform` the encoding of items, `host` and `render_core` the two ends of
  the channel between the threads, `replay` and `canvas` the replay of a frame,
  one canvas operation at a time, and `setup` the creation of the GL context.
  What holds of them together is stated and proved in the modules whose names
  end in `_laws`.
- `tests/` runs the library, beside the hardware's own arithmetic where there is
  any.
- `app/` is the rest: windows, GL, threads and the traits of the user-interface
  toolkit.
