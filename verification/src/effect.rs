//! Shader programs and their uniform and attribute handles.
//!
//! Compiling and linking live in the excluded backend; here a program
//! is a recorded allocation, and uniforms and attributes are handles
//! whose uploads, enables and disables the context logs.  That log is
//! what the material contracts count.

use vstd::prelude::*;
use core::marker::PhantomData;
use crate::algebra::{Quat, Vec2, Vec3};
use crate::context::{same_raster_state, sat64, RenderContext, UniformValue};
use crate::transform::{Iso2, Iso3};
use crate::gpu_vector::GPUVec;

verus! {

/// A linked shader program with its two stages.
pub struct Effect {
    /// The program object.
    pub program: u64,
    /// The vertex stage object.
    pub vshader: u64,
    /// The fragment stage object.
    pub fshader: u64,
}

/// A handle on one uniform of a program.
pub struct ShaderUniform<T> {
    /// The uniform location.
    pub id: u64,
    /// The value type uploaded through this handle.
    pub data_type: PhantomData<T>,
}

/// A handle on one vertex attribute of a program.
pub struct ShaderAttribute<T> {
    /// The attribute location.
    pub id: u64,
    /// The element type streamed through this handle.
    pub data_type: PhantomData<T>,
}

impl Effect {
    /// Compiles and links a program from the two shader sources.
    pub fn new_from_str(vshader_src: &str, fshader_src: &str, ctxt: &mut RenderContext) -> (e:
        Effect)
        ensures
            e.vshader == old(ctxt).next_id,
            e.fshader == sat64(old(ctxt).next_id + 1),
            e.program == sat64(sat64(old(ctxt).next_id + 1) + 1),
            *final(ctxt) == (RenderContext {
                next_id: sat64(sat64(sat64(old(ctxt).next_id + 1) + 1) + 1) as u64,
                ..*old(ctxt)
            }),
    {
        let vshader = ctxt.fresh_id();
        let fshader = ctxt.fresh_id();
        let program = ctxt.fresh_id();
        Effect { program, vshader, fshader }
    }

    /// Looks up a uniform location by name.  The recorded backend
    /// resolves every name.
    pub fn get_uniform<T>(&self, name: &str, ctxt: &mut RenderContext) -> (r: Option<
        ShaderUniform<T>,
    >)
        ensures
            r matches Some(u) && u.id == old(ctxt).next_id,
            *final(ctxt) == (RenderContext {
                next_id: sat64(old(ctxt).next_id + 1) as u64,
                ..*old(ctxt)
            }),
    {
        let id = ctxt.fresh_id();
        Some(ShaderUniform { id, data_type: PhantomData })
    }

    /// Looks up an attribute location by name.  The recorded backend
    /// resolves every name.
    pub fn get_attrib<T>(&self, name: &str, ctxt: &mut RenderContext) -> (r: Option<
        ShaderAttribute<T>,
    >)
        ensures
            r matches Some(a) && a.id == old(ctxt).next_id,
            *final(ctxt) == (RenderContext {
                next_id: sat64(old(ctxt).next_id + 1) as u64,
                ..*old(ctxt)
            }),
    {
        let id = ctxt.fresh_id();
        Some(ShaderAttribute { id, data_type: PhantomData })
    }

    /// Makes this program current.
    pub fn use_program(&mut self, ctxt: &mut RenderContext)
        ensures
            *final(ctxt) == (RenderContext { program: Some(old(self).program), ..*old(ctxt) }),
            *final(self) == *old(self),
    {
        ctxt.use_program_id(Some(self.program));
    }
}

impl<T> ShaderUniform<T> {
    /// Uploads one value through this handle; the context counts it.
    pub fn upload(&mut self, value: &T, ctxt: &mut RenderContext)
        ensures
            *final(ctxt) == (RenderContext {
                uniform_uploads: sat64(old(ctxt).uniform_uploads + 1) as u64,
                ..*old(ctxt)
            }),
            *final(self) == *old(self),
    {
        ctxt.note_uniform();
    }
}

impl ShaderUniform<Vec3> {
    /// Uploads a vector value; the context logs it at this location.
    pub fn upload_value(&mut self, value: &Vec3, ctxt: &mut RenderContext)
        ensures
            *final(ctxt) == (RenderContext {
                uniform_uploads: sat64(old(ctxt).uniform_uploads + 1) as u64,
                uniform_log: final(ctxt).uniform_log,
                ..*old(ctxt)
            }),
            final(ctxt).uniform_log@ == old(ctxt).uniform_log@.push(
                (old(self).id, UniformValue::Vector3(*value)),
            ),
            *final(self) == *old(self),
    {
        ctxt.upload_uniform(self.id, UniformValue::Vector3(*value));
    }
}

impl ShaderUniform<Vec2> {
    /// Uploads a plane vector value; the context logs it.
    pub fn upload_value(&mut self, value: &Vec2, ctxt: &mut RenderContext)
        ensures
            *final(ctxt) == (RenderContext {
                uniform_uploads: sat64(old(ctxt).uniform_uploads + 1) as u64,
                uniform_log: final(ctxt).uniform_log,
                ..*old(ctxt)
            }),
            final(ctxt).uniform_log@ == old(ctxt).uniform_log@.push(
                (old(self).id, UniformValue::Vector2(*value)),
            ),
            *final(self) == *old(self),
    {
        ctxt.upload_uniform(self.id, UniformValue::Vector2(*value));
    }
}

impl ShaderUniform<Quat> {
    /// Uploads a rotation value; the context logs it.
    pub fn upload_value(&mut self, value: &Quat, ctxt: &mut RenderContext)
        ensures
            *final(ctxt) == (RenderContext {
                uniform_uploads: sat64(old(ctxt).uniform_uploads + 1) as u64,
                uniform_log: final(ctxt).uniform_log,
                ..*old(ctxt)
            }),
            final(ctxt).uniform_log@ == old(ctxt).uniform_log@.push(
                (old(self).id, UniformValue::Rotation(*value)),
            ),
            *final(self) == *old(self),
    {
        ctxt.upload_uniform(self.id, UniformValue::Rotation(*value));
    }
}

impl ShaderUniform<Iso3> {
    /// Uploads a transform value; the context logs it.
    pub fn upload_value(&mut self, value: &Iso3, ctxt: &mut RenderContext)
        ensures
            *final(ctxt) == (RenderContext {
                uniform_uploads: sat64(old(ctxt).uniform_uploads + 1) as u64,
                uniform_log: final(ctxt).uniform_log,
                ..*old(ctxt)
            }),
            final(ctxt).uniform_log@ == old(ctxt).uniform_log@.push(
                (old(self).id, UniformValue::Transform(*value)),
            ),
            *final(self) == *old(self),
    {
        ctxt.upload_uniform(self.id, UniformValue::Transform(*value));
    }
}

impl ShaderUniform<Iso2> {
    /// Uploads a plane transform value; the context logs it.
    pub fn upload_value(&mut self, value: &Iso2, ctxt: &mut RenderContext)
        ensures
            *final(ctxt) == (RenderContext {
                uniform_uploads: sat64(old(ctxt).uniform_uploads + 1) as u64,
                uniform_log: final(ctxt).uniform_log,
                ..*old(ctxt)
            }),
            final(ctxt).uniform_log@ == old(ctxt).uniform_log@.push(
                (old(self).id, UniformValue::PlaneTransform(*value)),
            ),
            *final(self) == *old(self),
    {
        ctxt.upload_uniform(self.id, UniformValue::PlaneTransform(*value));
    }
}

impl<T: Copy> ShaderAttribute<T> {
    /// Enables this attribute slot.
    pub fn enable(&mut self, ctxt: &mut RenderContext)
        ensures
            *final(ctxt) == (RenderContext {
                attribs_enabled: sat64(old(ctxt).attribs_enabled + 1) as u64,
                ..*old(ctxt)
            }),
            *final(self) == *old(self),
    {
        ctxt.enable_attrib();
    }

    /// Disables this attribute slot.
    pub fn disable(&mut self, ctxt: &mut RenderContext)
        ensures
            *final(ctxt) == (RenderContext {
                attribs_enabled: (if old(ctxt).attribs_enabled > 0 {
                    (old(ctxt).attribs_enabled - 1) as u64
                } else {
                    0u64
                }),
                ..*old(ctxt)
            }),
            *final(self) == *old(self),
    {
        ctxt.disable_attrib();
    }

    /// Streams a buffer into this attribute: uploads it if dirty and
    /// binds it to the attribute slot.
    pub fn bind(&mut self, vector: &mut GPUVec<T>, ctxt: &mut RenderContext)
        requires
            old(vector).wf(),
        ensures
            final(vector).wf(),
            !final(vector).trash,
            final(vector).data == old(vector).data,
            final(vector).buf_type == old(vector).buf_type,
            final(vector).logical_len() == old(vector).logical_len(),
            final(vector).buffer is Some <==> (old(vector).buffer is Some || old(vector).data
                is Some),
            same_raster_state(*old(ctxt), *final(ctxt)),
            final(ctxt).uploads >= old(ctxt).uploads,
            old(vector).buf_type == crate::gpu_vector::BufferType::Array
                ==> final(ctxt).bound_array == (match final(vector).buffer {
                Some(b) => Some(b.id),
                None => None,
            }) && final(ctxt).bound_element == old(ctxt).bound_element,
            old(vector).buf_type == crate::gpu_vector::BufferType::ElementArray
                ==> final(ctxt).bound_element == (match final(vector).buffer {
                Some(b) => Some(b.id),
                None => None,
            }) && final(ctxt).bound_array == old(ctxt).bound_array,
            old(vector).buffer is Some && !old(vector).trash ==> *final(vector) == *old(vector)
                && final(ctxt).uploads == old(ctxt).uploads,
            *final(self) == *old(self),
    {
        vector.bind(ctxt);
    }

    /// Streams an interleaved slice of a shared buffer into this
    /// attribute.
    pub fn bind_sub_buffer(
        &mut self,
        vector: &mut GPUVec<T>,
        strides: usize,
        start_index: usize,
        ctxt: &mut RenderContext,
    )
        requires
            old(vector).wf(),
        ensures
            final(vector).wf(),
            !final(vector).trash,
            final(vector).data == old(vector).data,
            final(vector).buf_type == old(vector).buf_type,
            final(vector).logical_len() == old(vector).logical_len(),
            same_raster_state(*old(ctxt), *final(ctxt)),
            final(ctxt).uploads >= old(ctxt).uploads,
            *final(self) == *old(self),
    {
        vector.bind(ctxt);
    }
}

} // verus!
