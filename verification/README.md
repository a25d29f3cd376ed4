# penplotter

Converts SVG drawings into G-code for pen plotters.

- `src/` is the verified library (Verus): the scene traversal (`scene`), the
  per-segment sampling decisions (`sampling`), turning flattened outlines into
  points (`flatten`), the G-code text of paths and programs (`output`,
  `program`) and the request settings with their defaults (`settings`).
- `app/` is the HTTP server and the floating-point geometry around it: SVG
  parsing with usvg, curve evaluation and subdivision, coordinate transforms,
  kurbo flattening and the rendering of numbers as decimal text.
- `tests/` exercises the library on concrete inputs.
