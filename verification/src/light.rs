//! The light a scene is rendered under.

use vstd::prelude::*;
use crate::algebra::Vec3;

verus! {

/// Where the light sits during a render pass.
#[derive(Clone, Copy, PartialEq, Eq, Structural, Debug)]
pub enum Light {
    /// A fixed point in world coordinates.
    Absolute(Vec3),
    /// The camera's own eye position, wherever it currently is.
    StickToCamera,
}

/// The world position a light resolves to for a camera at `eye`: an
/// absolute light sits where it was placed, a following light at the
/// eye itself.
pub open spec fn light_position(light: Light, eye: Vec3) -> Vec3 {
    match light {
        Light::Absolute(p) => p,
        Light::StickToCamera => eye,
    }
}

} // verus!
