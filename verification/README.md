# amphion

Foundations of an exact/tolerant B-Rep modeling kernel, written in Verus:
finite model-space values, validated containers, exact orientation
predicates, and the certified exact-rational machinery behind the
evaluation and projection of analytic curves and surfaces.

Binary64 values are carried as their IEEE 754 bit patterns, so every
finiteness, ordering and rounding rule is stated over exact reals.

## Layout

- `src/` — the verified library.
  - `ieee`, `math`, `interval`, `bounds`, `tolerance`, `unit`, `identity`,
    `diagnostic`, `version`, `conventions`: value types and their rules.
  - `exact`: arbitrary-precision integers and rationals (backed by
    `num-bigint` / `num-rational`) with exact ghost models.
  - `predicates`: exact `orient2d` / `orient3d` with their symmetry laws.
  - `geometry`: parameter domains, evaluation contracts, errors, and
    `geometry::analytic`, the certified backend:
    - `helpers`: the rational budget cap and the tolerance checks;
    - `admission`: parameter admission, the periodic seam, the apex
      singularity and the derivative-limit checks of evaluation;
    - `trig`, `transcendental`: rational-interval `pi`, `atan`, `atan2`,
      `sin`/`cos` enclosures;
    - `enclosure`: budgeted interval arithmetic with enclosure laws;
    - `affine`, `nearest`, `perpendicular`: exact line/plane evaluation and
      projection with the nearest-point laws;
    - `angles`, `cone_projection`: angular coordinates, the periodic seam,
      and the certified choice among cone projection candidates;
    - `surfaces`: the exact cores of circle, cylinder and cone evaluation
      and the radial steps of their projections;
    - `transform`: exact similarity transforms.
- `tests/` — executable tests of the library.
- `app/` — the binary64 front end: directed rounding, certified error
  bounds, assembly of the certified evaluations and projections, the line,
  plane, circle, cylinder and cone types with their evaluator traits, and
  their serialized records.
