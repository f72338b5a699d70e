# nano9

The verified core of Nano-9, a Pico-8 style fantasy console: the data and
decisions behind its sound effects, indexed graphics, palettes, maps, sprites,
shapes, text, screen clearing and system commands, each with a contract that
Verus proves.

## Layout

- `src/` — the library, checked by Verus.
  - `audio/` — notes and their packed encoding, sound effects (text and
    binary cart formats, looping playback order), and audio recording (event
    log, sample positions, WAV bytes).
  - `gfx.rs`, `gfx_png.rs` — indexed images over a `bitvec` bit-vector, and
    loading them from PNG files through the `png` crate.
  - `palette.rs`, `color.rs` — palette access modes, palette colours from
    images and `PLTE` chunks, palette selection, pen colours.
  - `map.rs`, `sprite.rs` — Pico-8 maps and sprite flags.
  - `raster.rs`, `line.rs`, `shapes.rs`, `draw.rs` — RGBA plotting, Bresenham
    lines (through the `bresenham` crate), `tline` sampling, rounded-rectangle
    corners, `pset`/`sset`/`color`/`cursor`.
  - `clear.rs` — what `cls` does to each drawn thing, the draw counter and the
    cache of hidden things (a `mashmap` multimap).
  - `sys.rs` — `load`, `extcmd`, the queue of system requests worked through
    at the end of each frame, and screenshot cropping.
  - `text.rs` — `sub` and `print` text handling.
  - `camera.rs`, `camera3d.rs`, `components.rs`, `level.rs`, `asset.rs`,
    `one_or_map.rs` — cameras, marker types, map-object selectors, fonts and a
    small map type.
  - `plan.rs` — the registrations each part asks of the application at start-up.
  - `cli.rs` — the decisions of the `n9` command line (`run`, `new`, `info`)
    and the choice of config template.
  - `config.rs` — how a config's maps and sprite sheets are loaded.
- `tests/` — tests of the library on concrete values.
- `app/` — what stays outside the verified library: sound synthesis in
  floating point, writing WAV and PNG files, the capture directory, the
  command line's look at the file system, and serde/thiserror copies of
  library types.
