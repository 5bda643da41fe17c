# love

A heart of little cards that forms on a web canvas, pulses, and scatters
onto a wall, over a code-editor backdrop.

- `src/` is the verified library (Verus): the layout rule for narrow and
  wide viewports, the dealing of the deck, the back-to-front paint order,
  the resize decisions, and the lines of the backdrop. All of it works on
  integers and carries its contracts and laws.
- `app/` is the browser side (wasm-bindgen, web-sys): it finds the canvas,
  runs the frame loop, measures the window, computes the floating-point
  geometry of each frame and draws.
- `tests/` exercises the library on concrete values.
