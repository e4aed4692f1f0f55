# sixel_playground

Terminal tools that draw the waveform of a WAV file or the envelope of a
YM2151 (OPM) voice as an image, shown either inline as sixel graphics or in a
ratatui TUI.

- `src/` is the verified library (Verus):
  - `decimal`: decimal text of `u32` values, with a parser proved to accept
    exactly an optional `+` and one or more ASCII digits without overflow.
  - `envelope`: the envelope registers and the command-line parser that
    clamps them to their hardware ranges.
  - `editor`: the interactive editor's state changes (cursor moves, clamped
    register steps), the formatted register list, and the argument list that
    re-renders the envelope; laws on round trips and on the editor state.
  - `waveform`: RGB to RGBA widening and the sample range of each pixel
    column of a waveform chart, with laws that the columns cover every sample.
  - `sixel`: sixel encoding through `icy_sixel`.
  - `image_buffer`: wrapping RGBA bytes as an `image::DynamicImage`.
- `app/` holds the four programs: file reading with `hound`, the
  floating-point envelope simulation and sample aggregation, drawing with
  `plotters`, and the terminal user interface with `ratatui`,
  `ratatui-image` and `crossterm`.
- `tests/` exercises the library on concrete values.
