# remglk (verified core)

A Verus library holding the logic of a Glk implementation, each function with
a contract that Verus proves:

- `theme` — the theme table supplied by the display layer and
  `glk_style_measure` (`measure_style`, `set_hint`, `clear_hint`), with laws
  relating hints to measurements.
- `map` — the Glk mapping extension: presenting SVG or image maps, overlays
  with freshly allocated ids, focus and hyperlinks, and the queue of updates
  for the display. Each call is specified as a transition of `MapStateView`.
- `iff` and `stream` — listing the chunks of an IFF `FORM` file (Blorb) read
  from an in-memory Glk stream.
- `css`, `text`, `protocol`, `glkapi`, `constants` — CSS colour strings, byte
  search and UTF-8 decoding, the values sent to the display, the session
  object, and Glk/Blorb constants.

Tests under `tests/` run the library on concrete values.
