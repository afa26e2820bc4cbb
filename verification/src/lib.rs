//! Verified core of a multi-species flocking simulation: the species
//! interaction table, integer settings validation, the uniform-grid spatial
//! hash, population and trail bookkeeping, the GPU ping-pong frame state, the
//! camera's key handling, and the control panel's switches.

pub mod camera;
pub mod renderer;
pub mod simulation;
pub mod ui;
pub mod window;
