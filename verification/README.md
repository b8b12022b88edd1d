# naturalneighbor3d

Natural neighbor interpolation of scattered 3D data onto regular grids,
exposed to Python as a `griddata`-style function.

The crate is split in two:

- `src/` is the verified library, checked with Verus. It holds every part of
  the interpolation engine that is decided on integers, names and structure:
  points and bounding boxes over any coordinate type (access, arithmetic,
  containment and expansion, stated over the comparison and arithmetic that
  the coordinate type specifies), the KD-tree's construction by median
  splitting (which items it holds, how it is split, how deep it is, whether
  it is balanced), validation of array
  shapes, point counts and grid-size limits, the region-of-influence bounds
  of the natural neighbor algorithm, when to run in parallel and in what
  chunks, the interpolation-method names accepted by `griddata`, how an
  aligned vector grows (and a vector that grows so and records the
  alignment its storage is meant for, though its buffer has only the
  alignment of its element type), the suffix of a slice that starts at an alignment boundary,
  and the version triple exported to Python.
- `app/` is the Python extension around it: PyO3/NumPy bindings, error types
  with derived `Display`/`Error`, the over-aligned allocation of the aligned
  vector, and the computations on `f64` coordinates
  and values (distances, nearest-neighbour and radius queries, the
  interpolation loops, natural neighbor values at arbitrary query points,
  grid coordinates), which call into the library for
  each decision above.

`tests/` exercises the library's public functions on concrete inputs.
