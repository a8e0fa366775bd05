//! The renderable payload of a scene node: a shared mesh paired with
//! per-instance render attributes and a shared material.
//!
//! Meshes, materials and textures are owned by their registries and
//! referenced here by handle, so several objects may draw one mesh —
//! geometry instancing — and edits through any of them are seen by all.

use vstd::prelude::*;
use crate::algebra::Vec3;

verus! {

/// The render attributes of one object instance.
#[derive(Clone, Copy, PartialEq, Eq, Structural, Debug)]
pub struct ObjectData {
    /// Handle of the material in the material registry.
    pub material: usize,
    /// Backend name of the texture to sample.
    pub texture: u64,
    /// Base color.
    pub color: Vec3,
    /// Override color for the wireframe overlay.
    pub lines_color: Option<Vec3>,
    /// Wireframe overlay width; zero disables the overlay.
    pub wlines: i32,
    /// Point overlay size; zero disables the overlay.
    pub wpoints: i32,
    /// Whether the filled surface is drawn.
    pub draw_surface: bool,
    /// Whether back faces are culled for the surface pass.
    pub cull: bool,
}

/// A renderable payload: attributes plus a mesh handle.
#[derive(Clone, Copy, PartialEq, Eq, Structural, Debug)]
pub struct Object {
    /// The instance attributes.
    pub data: ObjectData,
    /// Handle of the mesh in the mesh registry.
    pub mesh: usize,
}

impl ObjectData {
    /// The texture handle.
    pub fn texture(&self) -> (r: u64)
        ensures
            r == self.texture,
    {
        self.texture
    }

    /// The base color.
    pub fn color(&self) -> (r: Vec3)
        ensures
            r == self.color,
    {
        self.color
    }

    /// The wireframe overlay width.
    pub fn lines_width(&self) -> (r: i32)
        ensures
            r == self.wlines,
    {
        self.wlines
    }

    /// The wireframe override color, if any.
    pub fn lines_color(&self) -> (r: Option<Vec3>)
        ensures
            r == self.lines_color,
    {
        self.lines_color
    }

    /// The point overlay size.
    pub fn points_size(&self) -> (r: i32)
        ensures
            r == self.wpoints,
    {
        self.wpoints
    }

    /// Whether the filled surface is drawn.
    pub fn surface_rendering_active(&self) -> (r: bool)
        ensures
            r == self.draw_surface,
    {
        self.draw_surface
    }

    /// Whether back faces are culled for the surface pass.
    pub fn backface_culling_enabled(&self) -> (r: bool)
        ensures
            r == self.cull,
    {
        self.cull
    }
}

impl Object {
    /// A fresh object over a mesh: surface on, overlays off, culling
    /// on.
    pub fn new(mesh: usize, r: i32, g: i32, b: i32, texture: u64, material: usize) -> (o: Object)
        ensures
            o.mesh == mesh,
            o.data == (ObjectData {
                material,
                texture,
                color: Vec3 { x: r, y: g, z: b },
                lines_color: None,
                wlines: 0,
                wpoints: 0,
                draw_surface: true,
                cull: true,
            }),
    {
        Object {
            data: ObjectData {
                material,
                texture,
                color: Vec3 { x: r, y: g, z: b },
                lines_color: None,
                wlines: 0,
                wpoints: 0,
                draw_surface: true,
                cull: true,
            },
            mesh,
        }
    }

    /// The instance attributes.
    pub fn data(&self) -> (r: &ObjectData)
        ensures
            r == &self.data,
    {
        &self.data
    }

    /// The mesh handle.
    pub fn mesh(&self) -> (r: usize)
        ensures
            r == self.mesh,
    {
        self.mesh
    }

    /// The material handle.
    pub fn material(&self) -> (r: usize)
        ensures
            r == self.data.material,
    {
        self.data.material
    }

    /// Replaces the material handle.
    pub fn set_material(&mut self, material: usize)
        ensures
            *final(self) == (Object {
                data: (ObjectData { material, ..old(self).data }),
                ..*old(self)
            }),
    {
        self.data.material = material;
    }

    /// Sets the wireframe overlay width; zero disables the overlay.
    pub fn set_lines_width(&mut self, width: i32)
        ensures
            *final(self) == (Object {
                data: (ObjectData { wlines: width, ..old(self).data }),
                ..*old(self)
            }),
    {
        self.data.wlines = width;
    }

    /// The wireframe overlay width.
    pub fn lines_width(&self) -> (r: i32)
        ensures
            r == self.data.wlines,
    {
        self.data.wlines
    }

    /// Sets the wireframe override color.
    pub fn set_lines_color(&mut self, color: Option<Vec3>)
        ensures
            *final(self) == (Object {
                data: (ObjectData { lines_color: color, ..old(self).data }),
                ..*old(self)
            }),
    {
        self.data.lines_color = color;
    }

    /// The wireframe override color, if any.
    pub fn lines_color(&self) -> (r: Option<Vec3>)
        ensures
            r == self.data.lines_color,
    {
        self.data.lines_color
    }

    /// Sets the point overlay size; zero disables the overlay.
    pub fn set_points_size(&mut self, size: i32)
        ensures
            *final(self) == (Object {
                data: (ObjectData { wpoints: size, ..old(self).data }),
                ..*old(self)
            }),
    {
        self.data.wpoints = size;
    }

    /// The point overlay size.
    pub fn points_size(&self) -> (r: i32)
        ensures
            r == self.data.wpoints,
    {
        self.data.wpoints
    }

    /// Toggles the filled surface pass.
    pub fn set_surface_rendering_activation(&mut self, active: bool)
        ensures
            *final(self) == (Object {
                data: (ObjectData { draw_surface: active, ..old(self).data }),
                ..*old(self)
            }),
    {
        self.data.draw_surface = active;
    }

    /// Whether the filled surface pass is on.
    pub fn surface_rendering_activation(&self) -> (r: bool)
        ensures
            r == self.data.draw_surface,
    {
        self.data.draw_surface
    }

    /// Toggles backface culling for the surface pass.
    pub fn enable_backface_culling(&mut self, active: bool)
        ensures
            *final(self) == (Object {
                data: (ObjectData { cull: active, ..old(self).data }),
                ..*old(self)
            }),
    {
        self.data.cull = active;
    }

    /// Replaces the base color.
    pub fn set_color(&mut self, r: i32, g: i32, b: i32)
        ensures
            *final(self) == (Object {
                data: (ObjectData { color: Vec3 { x: r, y: g, z: b }, ..old(self).data }),
                ..*old(self)
            }),
    {
        self.data.color = Vec3 { x: r, y: g, z: b };
    }

    /// Replaces the texture handle.
    pub fn set_texture(&mut self, texture: u64)
        ensures
            *final(self) == (Object {
                data: (ObjectData { texture, ..old(self).data }),
                ..*old(self)
            }),
    {
        self.data.texture = texture;
    }
}

} // verus!
