//! Immediate-mode overlay renderers for debug lines and points.
//!
//! Draw requests accumulate in a streaming buffer during the frame and
//! are flushed in one draw call, after which the buffer is cleared:
//! each request is drawn exactly once per frame.

use vstd::prelude::*;
use crate::algebra::Vec3;
use crate::context::{DrawCall, DrawKind, RenderContext};
use crate::effect::{Effect, ShaderAttribute, ShaderUniform};
use crate::fx::FX_ONE;
use crate::gpu_vector::{AllocationType, BufferType, GPUVec};
use crate::transform::Iso3;

verus! {

/// Batches debug line segments and flushes them once per frame.
pub struct LineRenderer {
    /// The overlay program.
    pub shader: Effect,
    /// Vertex position attribute.
    pub pos: ShaderAttribute<Vec3>,
    /// Vertex color attribute.
    pub color: ShaderAttribute<Vec3>,
    /// View matrix uniform.
    pub view: ShaderUniform<Iso3>,
    /// Projection matrix uniform.
    pub proj: ShaderUniform<Iso3>,
    /// The pending vertices: position and color interleaved.
    pub lines: GPUVec<Vec3>,
    /// Raster width of the flushed lines.
    pub line_width: i32,
}

/// Batches debug points and flushes them once per frame.
pub struct PointRenderer {
    /// The overlay program.
    pub shader: Effect,
    /// Vertex position attribute.
    pub pos: ShaderAttribute<Vec3>,
    /// Vertex color attribute.
    pub color: ShaderAttribute<Vec3>,
    /// View matrix uniform.
    pub view: ShaderUniform<Iso3>,
    /// Projection matrix uniform.
    pub proj: ShaderUniform<Iso3>,
    /// The pending vertices: position and color interleaved.
    pub points: GPUVec<Vec3>,
    /// Raster size of the flushed points.
    pub point_size: i32,
}

impl LineRenderer {
    /// The renderer's buffer keeps its CPU side, so requests always
    /// land somewhere.
    pub open spec fn wf(self) -> bool {
        &&& self.lines.wf()
        &&& self.lines.data is Some
        &&& self.lines.buf_type == BufferType::Array
    }

    /// A fresh renderer with an empty batch.
    pub fn new(vshader_src: &str, fshader_src: &str, ctxt: &mut RenderContext) -> (r: LineRenderer)
        ensures
            r.wf(),
            (r.lines.data->Some_0)@.len() == 0,
            r.line_width == FX_ONE,
    {
        let mut shader = Effect::new_from_str(vshader_src, fshader_src, ctxt);
        shader.use_program(ctxt);
        let pos = shader.get_attrib::<Vec3>("position", ctxt).unwrap();
        let color = shader.get_attrib::<Vec3>("color", ctxt).unwrap();
        let view = shader.get_uniform::<Iso3>("view", ctxt).unwrap();
        let proj = shader.get_uniform::<Iso3>("proj", ctxt).unwrap();
        LineRenderer {
            shader,
            pos,
            color,
            view,
            proj,
            lines: GPUVec::new(Vec::new(), BufferType::Array, AllocationType::StreamDraw),
            line_width: FX_ONE,
        }
    }

    /// Whether a flush would draw anything.
    pub fn needs_rendering(&self) -> (r: bool)
        requires
            self.wf(),
        ensures
            r == ((self.lines.data->Some_0)@.len() != 0),
    {
        self.lines.len() != 0
    }

    /// Queues one segment from `a` to `b` in `color`.
    pub fn draw_line(&mut self, a: Vec3, b: Vec3, color: Vec3)
        requires
            old(self).wf(),
        ensures
            final(self).wf(),
            (final(self).lines.data->Some_0)@ == (old(self).lines.data->Some_0)@.push(a).push(
                color,
            ).push(b).push(color),
            final(self).line_width == old(self).line_width,
    {
        self.lines.push(a);
        self.lines.push(color);
        self.lines.push(b);
        self.lines.push(color);
    }

    /// Sets the raster width of flushed lines; widths below one step
    /// are raised to one step so lines never vanish.
    pub fn set_line_width(&mut self, line_width: i32)
        ensures
            final(self).line_width == (if line_width < 1 {
                1i32
            } else {
                line_width
            }),
            final(self).lines == old(self).lines,
    {
        self.line_width = if line_width < 1 {
            1
        } else {
            line_width
        };
    }

    /// Flushes the batch: an empty batch draws nothing and changes
    /// nothing; otherwise the whole batch is uploaded, drawn in one
    /// line-list call of one vertex per two buffered entries, and
    /// cleared, with the attribute slots restored.
    pub fn render(&mut self, pass: usize, ctxt: &mut RenderContext)
        requires
            old(self).wf(),
            old(ctxt).attribs_enabled <= u64::MAX - 2,
        ensures
            final(self).wf(),
            final(ctxt).attribs_enabled == old(ctxt).attribs_enabled,
            (old(self).lines.data->Some_0)@.len() == 0 ==> *final(self) == *old(self)
                && *final(ctxt) == *old(ctxt),
            (old(self).lines.data->Some_0)@.len() != 0 ==> final(ctxt).line_width == old(
                self,
            ).line_width && final(ctxt).draws@ == old(
                ctxt,
            ).draws@.push(
                DrawCall {
                    kind: DrawKind::Lines,
                    count: ((old(self).lines.data->Some_0)@.len() / 2) as usize,
                },
            ) && (final(self).lines.data->Some_0)@.len() == 0,
    {
        if self.lines.len() == 0 {
            return ;
        }
        self.shader.use_program(ctxt);
        self.pos.enable(ctxt);
        self.color.enable(ctxt);
        self.proj.upload(&Iso3::identity(), ctxt);
        self.view.upload(&Iso3::identity(), ctxt);
        let n = self.lines.len();
        self.color.bind_sub_buffer(&mut self.lines, 1, 1, ctxt);
        self.pos.bind_sub_buffer(&mut self.lines, 1, 0, ctxt);
        ctxt.set_line_width(self.line_width);
        ctxt.draw(DrawKind::Lines, n / 2);
        self.pos.disable(ctxt);
        self.color.disable(ctxt);
        self.lines.set_data(Vec::new());
    }
}

impl PointRenderer {
    /// The renderer's buffer keeps its CPU side.
    pub open spec fn wf(self) -> bool {
        &&& self.points.wf()
        &&& self.points.data is Some
        &&& self.points.buf_type == BufferType::Array
    }

    /// A fresh renderer with an empty batch.
    pub fn new(vshader_src: &str, fshader_src: &str, ctxt: &mut RenderContext) -> (r:
        PointRenderer)
        ensures
            r.wf(),
            (r.points.data->Some_0)@.len() == 0,
            r.point_size == FX_ONE,
    {
        let mut shader = Effect::new_from_str(vshader_src, fshader_src, ctxt);
        shader.use_program(ctxt);
        let pos = shader.get_attrib::<Vec3>("position", ctxt).unwrap();
        let color = shader.get_attrib::<Vec3>("color", ctxt).unwrap();
        let view = shader.get_uniform::<Iso3>("view", ctxt).unwrap();
        let proj = shader.get_uniform::<Iso3>("proj", ctxt).unwrap();
        PointRenderer {
            shader,
            pos,
            color,
            view,
            proj,
            points: GPUVec::new(Vec::new(), BufferType::Array, AllocationType::StreamDraw),
            point_size: FX_ONE,
        }
    }

    /// Whether a flush would draw anything.
    pub fn needs_rendering(&self) -> (r: bool)
        requires
            self.wf(),
        ensures
            r == ((self.points.data->Some_0)@.len() != 0),
    {
        self.points.len() != 0
    }

    /// Queues one point at `pt` in `color`.
    pub fn draw_point(&mut self, pt: Vec3, color: Vec3)
        requires
            old(self).wf(),
        ensures
            final(self).wf(),
            (final(self).points.data->Some_0)@ == (old(self).points.data->Some_0)@.push(pt).push(
                color,
            ),
            final(self).point_size == old(self).point_size,
    {
        self.points.push(pt);
        self.points.push(color);
    }

    /// Sets the raster size of flushed points.
    pub fn set_point_size(&mut self, pt_size: i32)
        ensures
            final(self).point_size == pt_size,
            final(self).points == old(self).points,
    {
        self.point_size = pt_size;
    }

    /// Flushes the batch, as the line renderer does, in one point-list
    /// call of one point per two buffered entries.
    pub fn render(&mut self, pass: usize, ctxt: &mut RenderContext)
        requires
            old(self).wf(),
            old(ctxt).attribs_enabled <= u64::MAX - 2,
        ensures
            final(self).wf(),
            final(ctxt).attribs_enabled == old(ctxt).attribs_enabled,
            (old(self).points.data->Some_0)@.len() == 0 ==> *final(self) == *old(self)
                && *final(ctxt) == *old(ctxt),
            (old(self).points.data->Some_0)@.len() != 0 ==> final(ctxt).point_size == old(
                self,
            ).point_size && final(ctxt).draws@ == old(
                ctxt,
            ).draws@.push(
                DrawCall {
                    kind: DrawKind::Points,
                    count: ((old(self).points.data->Some_0)@.len() / 2) as usize,
                },
            ) && (final(self).points.data->Some_0)@.len() == 0,
    {
        if self.points.len() == 0 {
            return ;
        }
        self.shader.use_program(ctxt);
        self.pos.enable(ctxt);
        self.color.enable(ctxt);
        self.proj.upload(&Iso3::identity(), ctxt);
        self.view.upload(&Iso3::identity(), ctxt);
        let n = self.points.len();
        self.color.bind_sub_buffer(&mut self.points, 1, 1, ctxt);
        self.pos.bind_sub_buffer(&mut self.points, 1, 0, ctxt);
        ctxt.set_point_size(self.point_size);
        ctxt.draw(DrawKind::Points, n / 2);
        self.pos.disable(ctxt);
        self.color.disable(ctxt);
        self.points.set_data(Vec::new());
    }
}

} // verus!
