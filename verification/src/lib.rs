//! Stall-free streaming of per-frame data into buffers that the GPU reads,
//! and the construction of indirect draw-command lists.
//!
//! A streaming buffer is split into a few equal regions. Every frame writes
//! the next region in turn while the draws of earlier frames may still read
//! the others, so that neither side waits for the other and no fence is
//! needed. What a frame writes is computed in full from the iteration number
//! and a fixed configuration; nothing is carried over from frame to frame.
//!
//! - [`region`]: the layout of a streaming buffer, the rotation of its
//!   regions, and why a written region is never one being read.
//! - [`frame`]: the frame clock, the plan of each frame, and what the frame
//!   loop does after each frame.
//! - [`march`]: the raster-scan offset that animates the quads.
//! - [`quads`]: the vertex payload of a sheet of marching quads.
//! - [`grid`]: the grid of instances and the order of their enumeration.
//! - [`transform`]: the transform payload of a grid, and the angle counter.
//! - [`commands`]: the draw commands of a grid, one per instance.
//! - [`error`]: the configuration errors.
//!
//! Positions and translations are whole numbers, and angles are counted in
//! steps. Turning them into the floating-point records of a given device, and
//! everything that touches a window or a buffer on the device, is left to the
//! caller.

pub mod commands;
pub mod error;
pub mod frame;
pub mod grid;
pub mod march;
pub mod quads;
pub mod region;
pub mod transform;
