# wasmos

A small windowed desktop that draws into a 1280x720 RGBA frame buffer: a
terminal with a few commands, a paint canvas and a file manager, moved and
resized with the mouse.

- `src/` is the verified library (Verus). `raster` models the frame buffer and
  the shapes drawn into it; `font` holds the glyphs; `text` the character
  sequences of the command line; `state` the desktop's state, its view and
  invariant; `scene` what is drawn; `input` how keys and mouse events change
  the state; `laws` properties proved of the whole.
- `app/` exports the desktop to a web page through `wasm-bindgen`.
- `tests/` runs the library on concrete inputs.
