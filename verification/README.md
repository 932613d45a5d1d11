# kas_verified

The logic of the KAS GUI toolkit, written in Verus and proved against its
contracts.

- `src/view`: view controllers — data clerks and their update tokens,
  filters, list and grid index arithmetic, scrolling and sizing of list and
  grid views, selection of items.
- `src/soft`: the software renderer — texture atlases over a guillotine
  allocator, pixel uploads and blending, sprite preparation, clip regions
  and the order of draw passes.
- `src/theme`: colour schemes, theme configuration and animation state
  (text cursors and fades).
- `src/canvas.rs`: rendering state of the canvas and SVG widgets.
- `src/macros`: the procedural macros' parsers and code generators — the
  layout language, collections, widget and trait derivation. Macro input is
  a flat token sequence; the output is Rust source text.
- `app/`: plain Rust around the library — token stream conversion for the
  macros, configuration (de)serialisation, floating-point geometry of the
  renderer and drawing tasks.
- `tests/`: tests of the library through its public interface.
