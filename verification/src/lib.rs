//! A scene-graph rendering core: a hierarchy of transformable nodes with
//! lazy world-transform propagation, deferred CPU-to-GPU buffer
//! synchronization, and a recorded-command graphics context.
//!
//! All geometry uses signed 16.16 fixed-point coordinates, so every
//! computation the renderer performs is exactly specified and verified.

pub mod algebra;
pub mod builtin;
pub mod camera;
pub mod context;
pub mod effect;
pub mod event;
pub mod framebuffer;
pub mod fx;
pub mod gpu_vector;
pub mod light;
pub mod mesh;
pub mod object;
pub mod planar;
pub mod renderer;
pub mod scene;
pub mod scene3;
pub mod texture;
pub mod transform;
