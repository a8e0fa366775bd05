//! The recorded graphics backend.
//!
//! The renderer drives a graphics context through a narrow capability
//! set: allocate and fill buffers, bind them, toggle raster state and
//! submit draws.  This context records each of those effects as plain
//! data — counters, bindings and an ordered draw log — so every
//! contract about "what was uploaded" or "how many draws a render call
//! submits" is stated and checked against it exactly.

use vstd::prelude::*;
use crate::algebra::{Quat, Rot2, Vec2, Vec3};
use crate::transform::{Iso2, Iso3};

verus! {

/// The primitive kind of one draw submission.
#[derive(Clone, Copy, PartialEq, Eq, Structural, Debug)]
pub enum DrawKind {
    /// A triangle list.
    Triangles,
    /// A line list.
    Lines,
    /// A point list.
    Points,
}

/// One recorded draw submission.
#[derive(Clone, Copy, PartialEq, Eq, Structural, Debug)]
pub struct DrawCall {
    /// What is rasterized.
    pub kind: DrawKind,
    /// How many indices or vertices the submission covers.
    pub count: usize,
}

/// One value uploaded into a shader uniform, as the log records it.
#[derive(Clone, Copy, PartialEq, Eq, Structural, Debug)]
pub enum UniformValue {
    /// A three-component vector: a position, color or diagonal scale.
    Vector3(Vec3),
    /// A two-component vector.
    Vector2(Vec2),
    /// A rotation quaternion: the normal transform, kept rotation-only.
    Rotation(Quat),
    /// A plane rotation.
    PlaneRotation(Rot2),
    /// A rigid space transform: a model, view or projection matrix.
    Transform(Iso3),
    /// A rigid plane transform.
    PlaneTransform(Iso2),
}

/// Saturating 64-bit bump.
pub open spec fn sat64(x: int) -> int {
    if x > u64::MAX as int {
        u64::MAX as int
    } else {
        x
    }
}

/// Agreement of two context states on everything a buffer transfer
/// may not touch: only allocation names, upload counts and buffer
/// bindings are its business.
pub open spec fn same_raster_state(a: RenderContext, b: RenderContext) -> bool {
    &&& b.uniform_uploads == a.uniform_uploads
    &&& b.uniform_log == a.uniform_log
    &&& b.draws == a.draws
    &&& b.cull == a.cull
    &&& b.line_width == a.line_width
    &&& b.point_size == a.point_size
    &&& b.bound_texture == a.bound_texture
    &&& b.bound_framebuffer == a.bound_framebuffer
    &&& b.program == a.program
    &&& b.attribs_enabled == a.attribs_enabled
    &&& b.viewport == a.viewport
    &&& b.has_polygon_mode == a.has_polygon_mode
}

/// The recorded state of the graphics backend.
pub struct RenderContext {
    /// Source of fresh backend object names.
    pub next_id: u64,
    /// How many buffer data transfers have been issued.
    pub uploads: u64,
    /// How many uniform values have been uploaded.
    pub uniform_uploads: u64,
    /// Every uniform upload, in order: the location and the value.
    pub uniform_log: Vec<(u64, UniformValue)>,
    /// Every draw submission, in submission order.
    pub draws: Vec<DrawCall>,
    /// Whether back faces are culled.
    pub cull: bool,
    /// Raster width for line drawing, in fixed point.
    pub line_width: i32,
    /// Raster size for point drawing, in fixed point.
    pub point_size: i32,
    /// The buffer bound to the vertex-attribute slot.
    pub bound_array: Option<u64>,
    /// The buffer bound to the index slot.
    pub bound_element: Option<u64>,
    /// The texture bound to the sampling slot.
    pub bound_texture: Option<u64>,
    /// The framebuffer bound for output; the screen when absent.
    pub bound_framebuffer: Option<u64>,
    /// The shader program in use.
    pub program: Option<u64>,
    /// How many vertex attribute slots are currently enabled.
    pub attribs_enabled: u64,
    /// The pixel size of the output region.
    pub viewport: (u32, u32),
    /// Whether the backend can rasterize a triangle list directly as
    /// lines or points; without it the renderer falls back to edge
    /// index lists.
    pub has_polygon_mode: bool,
}

impl RenderContext {
    /// A fresh context: nothing allocated, nothing bound, culling on,
    /// unit raster widths.
    pub fn new(has_polygon_mode: bool) -> (c: RenderContext)
        ensures
            c.next_id == 0,
            c.uploads == 0,
            c.uniform_uploads == 0,
            c.uniform_log@.len() == 0,
            c.draws@.len() == 0,
            c.cull,
            c.bound_array is None,
            c.bound_element is None,
            c.bound_texture is None,
            c.bound_framebuffer is None,
            c.program is None,
            c.attribs_enabled == 0,
            c.has_polygon_mode == has_polygon_mode,
    {
        RenderContext {
            next_id: 0,
            uploads: 0,
            uniform_uploads: 0,
            uniform_log: Vec::new(),
            draws: Vec::new(),
            cull: true,
            line_width: 65536,
            point_size: 65536,
            bound_array: None,
            bound_element: None,
            bound_texture: None,
            bound_framebuffer: None,
            program: None,
            attribs_enabled: 0,
            viewport: (0, 0),
            has_polygon_mode,
        }
    }

    /// Draws a fresh name for a backend object.
    pub fn fresh_id(&mut self) -> (id: u64)
        ensures
            id == old(self).next_id,
            *final(self) == (RenderContext {
                next_id: sat64(old(self).next_id + 1) as u64,
                ..*old(self)
            }),
    {
        let id = self.next_id;
        self.next_id = if self.next_id == u64::MAX {
            u64::MAX
        } else {
            self.next_id + 1
        };
        id
    }

    /// Records one buffer data transfer.
    pub fn note_upload(&mut self)
        ensures
            *final(self) == (RenderContext {
                uploads: sat64(old(self).uploads + 1) as u64,
                ..*old(self)
            }),
    {
        self.uploads = if self.uploads == u64::MAX {
            u64::MAX
        } else {
            self.uploads + 1
        };
    }

    /// Records one uniform upload with its location and value.
    pub fn upload_uniform(&mut self, id: u64, v: UniformValue)
        ensures
            *final(self) == (RenderContext {
                uniform_uploads: sat64(old(self).uniform_uploads + 1) as u64,
                uniform_log: final(self).uniform_log,
                ..*old(self)
            }),
            final(self).uniform_log@ == old(self).uniform_log@.push((id, v)),
    {
        self.uniform_log.push((id, v));
        self.uniform_uploads = if self.uniform_uploads == u64::MAX {
            u64::MAX
        } else {
            self.uniform_uploads + 1
        };
    }

    /// Records one uniform upload.
    pub fn note_uniform(&mut self)
        ensures
            *final(self) == (RenderContext {
                uniform_uploads: sat64(old(self).uniform_uploads + 1) as u64,
                ..*old(self)
            }),
    {
        self.uniform_uploads = if self.uniform_uploads == u64::MAX {
            u64::MAX
        } else {
            self.uniform_uploads + 1
        };
    }

    /// Submits one draw call.
    pub fn draw(&mut self, kind: DrawKind, count: usize)
        ensures
            *final(self) == (RenderContext { draws: final(self).draws, ..*old(self) }),
            final(self).draws@ == old(self).draws@.push(DrawCall { kind, count }),
    {
        self.draws.push(DrawCall { kind, count });
    }

    /// Enables or disables backface culling.
    pub fn set_cull(&mut self, on: bool)
        ensures
            *final(self) == (RenderContext { cull: on, ..*old(self) }),
    {
        self.cull = on;
    }

    /// Sets the line raster width.
    pub fn set_line_width(&mut self, w: i32)
        ensures
            *final(self) == (RenderContext { line_width: w, ..*old(self) }),
    {
        self.line_width = w;
    }

    /// Sets the point raster size.
    pub fn set_point_size(&mut self, s: i32)
        ensures
            *final(self) == (RenderContext { point_size: s, ..*old(self) }),
    {
        self.point_size = s;
    }

    /// Makes a program current.
    pub fn use_program_id(&mut self, p: Option<u64>)
        ensures
            *final(self) == (RenderContext { program: p, ..*old(self) }),
    {
        self.program = p;
    }

    /// Enables one vertex attribute slot.
    pub fn enable_attrib(&mut self)
        ensures
            *final(self) == (RenderContext {
                attribs_enabled: sat64(old(self).attribs_enabled + 1) as u64,
                ..*old(self)
            }),
    {
        self.attribs_enabled = if self.attribs_enabled == u64::MAX {
            u64::MAX
        } else {
            self.attribs_enabled + 1
        };
    }

    /// Disables one vertex attribute slot.
    pub fn disable_attrib(&mut self)
        ensures
            *final(self) == (RenderContext {
                attribs_enabled: (if old(self).attribs_enabled > 0 {
                    (old(self).attribs_enabled - 1) as u64
                } else {
                    0u64
                }),
                ..*old(self)
            }),
    {
        self.attribs_enabled = if self.attribs_enabled > 0 {
            self.attribs_enabled - 1
        } else {
            0
        };
    }
}

} // verus!
