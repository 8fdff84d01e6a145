# wavedrom

Shaping and laying out digital timing diagrams and register figures described in WaveJson,
with the logic verified by Verus.

- `src/` is the verified library: cycle offsets, the shaping of signals into path segments
  (`path`), figures with nested groups and their assembly (`figure`), the layout of a drawn
  figure (`dimensions`), the SVG document of a figure (`svg`, `svg_path`), edges between signal
  nodes (`edges`), register figures (`reg`), the rendering options with their defaults and the
  merging of skins (`options`), colors, escaping, the text metrics of the font, and the finding
  and splicing of WaveDrom blocks in Markdown (`mdbook`).
- `app/` is the command line program around it: reading WaveJson and skins with serde, and
  drawing what needs floating point numbers (edge geometry, the gap marker, register figures).
- `tests/` runs the library on concrete figures.
