# flock_lab

The verified core of Flock Lab, a multi-species flocking simulation.

`src/` is a Verus library. It holds everything of the simulation that is not
floating point arithmetic, GPU plumbing or windowing:

- `simulation/species.rs`: the inter-species rules, their shader codes, the
  built-in interaction table, species validation and the built-in species.
- `simulation/spatial_hash.rs`: the uniform grid, keyed by integer cells, with
  insertion, rebuild and neighbourhood queries.
- `simulation/cpu_simulation.rs`: settings validation, agent counts,
  population rebuilding, trail bookkeeping and neighbour candidates.
- `simulation/gpu_simulation.rs`: the GPU frame state (ping-pong buffers,
  reseeding, dispatch sizes) and the integer shader parameters.
- `camera.rs`, `ui.rs`, `renderer.rs`, `window.rs`: key handling, panel
  switches, the dart mesh indices, the overlay sampling, and when the window
  closes.

Floating point values (positions, speeds, forces, colours) are carried through
the library as opaque `tuning` payloads or stay in `app/`, which holds the
physics, the wgpu renderers and compute passes, the winit camera and the egui
panel around the library.
