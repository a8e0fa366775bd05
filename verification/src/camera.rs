//! What a camera supplies to one render pass.
//!
//! Cameras themselves — navigation, event handling, projection
//! construction — are outside collaborators; the core consumes only
//! the values they hand over per pass: the eye position and the view
//! and projection transforms to upload.

use vstd::prelude::*;
use crate::algebra::Vec3;
use crate::transform::{Iso2, Iso3};

verus! {

/// The per-pass contribution of a spatial camera.
#[derive(Clone, Copy, PartialEq, Eq, Structural, Debug)]
pub struct CameraInput {
    /// Where the camera sits, in world coordinates.
    pub eye: Vec3,
    /// The view transform to upload.
    pub view: Iso3,
    /// The projection transform to upload.
    pub proj: Iso3,
}

/// The per-pass contribution of a planar camera.
#[derive(Clone, Copy, PartialEq, Eq, Structural, Debug)]
pub struct PlanarCameraInput {
    /// The view transform to upload.
    pub view: Iso2,
    /// The projection transform to upload.
    pub proj: Iso2,
}

} // verus!
