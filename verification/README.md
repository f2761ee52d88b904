# rusty_fem

A static 2D finite element solver whose integer and text logic is a Verus-verified
library, with the floating-point numerics and the interactive program around it.

## Layout

- `src/` — the verified library:
  - `text.rs`: characters, whitespace splitting, trimming, decimal text of integers;
  - `elements/`: element definitions (truss, beam, T3, T6, Q4, Q8), their DOFs and
    section kinds;
  - `model/`: model topology (IDs, connectivity, references), DOF numbering,
    index maps of the 1D bar model, analysis-space parsing;
  - `analysis/`: CSR/COO sparse storage, edge lookup for edge loads;
  - `interactive.rs`: the commands of the interactive session;
  - `visualisation.rs`: element outlines, free boundary edges, SVG text helpers;
  - `io/`: element records and enum conversions of the input/output format;
  - `error.rs`: errors and their messages.
- `tests/` — tests of the library.
- `app/` — the interactive program: node coordinates, material and section values,
  element stiffness matrices, assembly, dense and sparse solvers, load vectors and
  stress recovery, all in floating point.
