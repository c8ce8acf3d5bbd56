//! A rotating point cloud: the lattice of sample points, their colors, and the
//! partition of the per-point work into independent, order-preserving slices.
//! The floating-point geometry (rotation, perspective divide, screen mapping)
//! is performed by the host application on the exact lattice data given here.

pub mod color;
pub mod lattice;
pub mod schedule;
pub mod settings;
