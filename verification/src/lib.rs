//! Procedural terrain planes.
//!
//! A plane is described by its extents, the density of its grid, its place
//! in the world, an ordered list of stages that shape its heights, and a
//! mapping from height to colour. From that description the library
//! builds the buffers of a mesh: positions, normals, texture coordinates,
//! colours and triangle indices.
//!
//! All arithmetic is in fixed point: a coordinate, a height or a colour
//! channel is an `i64` that counts millionths of a unit (see [`scalar`]).
//! Every function is total on the values of its types unless its contract
//! says otherwise, and equal descriptions give equal meshes.
//!
//! - [`scalar`]: fixed-point arithmetic.
//! - [`easings`]: the curves that reshape a height.
//! - [`grid`]: the flat base grid.
//! - [`geometry`]: rectangles and the boundary segments they leave.
//! - [`noise`], [`wander`], [`flat`], [`smooth`]: the stages.
//! - [`modifiers`]: a stage of any kind, and its description.
//! - [`overrides`]: the heights that an area pass hands back.
//! - [`colors`]: colours by height.
//! - [`pipeline`]: the passes of a rebuild.
//! - [`planes`]: the description of a plane, and its rebuild.

pub mod colors;
pub mod easings;
pub mod flat;
pub mod geometry;
pub mod grid;
pub mod modifiers;
pub mod noise;
pub mod overrides;
pub mod pipeline;
pub mod planes;
pub mod scalar;
pub mod smooth;
pub mod wander;
