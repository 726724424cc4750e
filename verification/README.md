# solarxy_cli

The terminal side of the solarxy command line, written in Verus: the logic of
the analyze surface and of the render dashboard, each function with a contract
that Verus proves.

- `src/` is the verified library. The split-tree arrangement of panels
  (`layout`, `codec`, `arrange`, `frame`), the key table and its dispatcher
  (`keymap`), the surface's state machine from key to effect (`surface`),
  terminal capability detection (`caps`, `glyphs`), scrolling, the panels'
  tables and their orderings (`panels`, `order`), the overlays and the bottom
  strip (`overlay`, `chrome`), one composed frame of the surface
  (`compose`), the counting half of an analysis report (`report`), saved
  preferences (`prefs`), and the render
  dashboard's model and readouts (`render_state`, `readouts`, `render_sink`,
  `dashboard`, `window`). Laws that span functions are public proof
  functions named `law_*`.
- `tests/` runs the library on concrete values.
- `app/` is the program around it: argument parsing, the terminal, drawing
  a composed frame, and the readings taken in floating point (luminance,
  spans in seconds, the estimate of time left).
