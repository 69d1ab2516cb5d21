# vistas

A spatio-temporal simulator of multimode vertical-cavity surface-emitting
lasers (VCSELs) with mode-selective optical feedback from an external cavity.

The floating-point physics (rate equations, Bessel-function mode profiles,
overlap integrals, far-field propagation by FFT) is ordinary Rust in `app/`.
The discrete part of the simulator is a library verified with Verus, in
`src/`:

- `kronecker` — the Kronecker delta.
- `modes` — the LP mode table: azimuthal orders, labels, the number of guided
  modes, the number of azimuthal harmonics, the modes with a sine component.
- `phase` — the phase-coupling tensors of the carrier equations, held exactly
  in halves, with their pair-sum and diagonality laws.
- `grid` — the quadrant swap of a two-dimensional FFT, with its involution law
  on even grids.
- `correlation` — the index plan of a full 2D cross-correlation, with the law
  that each product lands in exactly one output cell.
- `select` — first-index selection, the radial cutoff of the modal overlap
  integrals and the window of the far field around the waveguide.
- `feedback` — the modes that receive feedback and the delayed time step.
- `array` — the `ndarray` integer arrays the library fills, behind trusted
  wrappers.

`tests/` exercises the library on concrete values.
