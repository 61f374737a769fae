//! The discrete core of a time-domain solver for Maxwell's equations on a
//! uniform Yee lattice: the lattice and its absorbing halo, the order and
//! geometry of the kernel launches, the rasterizer that turns meshes into a
//! map of materials, the simulation clock with its schedules, and the layout
//! of exported volumes. Field values, coefficients and everything else that
//! is floating point or lives on the device stay with the caller.

pub mod export;
pub mod fdtd;
pub mod grid;
pub mod pml;
pub mod raster;
pub mod schedule;
pub mod settings;
pub mod source;
