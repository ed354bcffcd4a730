# flyover

A terminal radar scope for live ADS-B traffic around a home location, with
a Sixel raster renderer and a braille-canvas renderer.

- `src/` is the library, verified with Verus: how contacts are classified
  (`aircraft`), coloured and labelled (`contact`, `theme`), their position
  trails (`trail`), the scope's text and controls (`scope`, `control`),
  which airports, runways and airspace features are drawn, from the bytes
  of the airport and runway CSV files (`airports`, `airspace`), the dataset cache's decisions (`cache`) and compositing of
  rasterised label glyphs (`glyph`).
- `app/` is the program around it: terminal, file and network I/O, the
  JSON feed's and TOML theme's deserialisation, and the floating-point
  geometry and drawing of both renderers.
- `tests/` exercises the library on concrete values.
