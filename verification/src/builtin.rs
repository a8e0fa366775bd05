//! The built-in object material: the default rendering strategy for a
//! mesh with per-instance attributes.
//!
//! One render call walks a fixed state machine: activate the program
//! and its attributes, upload camera, light, transform, normal and
//! scale uniforms, bind the geometry, then submit up to three draw
//! passes — filled surface, wireframe overlay, point overlay — each
//! gated by its own attribute, and finally unbind and disable
//! everything it enabled.  The contract gives the exact sequence of
//! draw submissions and the state left behind, on every path.

use vstd::prelude::*;
use crate::algebra::{Quat, Vec2, Vec3};
use crate::camera::CameraInput;
use crate::context::{sat64, DrawCall, DrawKind, RenderContext, UniformValue};
use crate::light::{light_position, Light};
use crate::effect::{Effect, ShaderAttribute, ShaderUniform};
use crate::fx::FX_ONE;
use crate::mesh::Mesh;
use crate::object::ObjectData;
use crate::transform::Iso3;

verus! {

/// The draw submissions one object render call issues: one triangle
/// pass for the surface if enabled, one wireframe pass if the line
/// width is nonzero — rasterized from the triangle list where the
/// backend can, from the edge list otherwise — and one point pass if
/// the point size is nonzero.
pub open spec fn object_draws(
    data: ObjectData,
    npts: int,
    has_polygon_mode: bool,
) -> Seq<DrawCall> {
    let surface: Seq<DrawCall> = if data.draw_surface {
        seq![DrawCall { kind: DrawKind::Triangles, count: npts as usize }]
    } else {
        Seq::empty()
    };
    let lines: Seq<DrawCall> = if data.wlines != 0 {
        if has_polygon_mode {
            seq![DrawCall { kind: DrawKind::Triangles, count: npts as usize }]
        } else {
            seq![DrawCall { kind: DrawKind::Lines, count: (2 * npts) as usize }]
        }
    } else {
        Seq::empty()
    };
    let points: Seq<DrawCall> = if data.wpoints != 0 {
        if has_polygon_mode {
            seq![DrawCall { kind: DrawKind::Triangles, count: npts as usize }]
        } else {
            seq![DrawCall { kind: DrawKind::Points, count: npts as usize }]
        }
    } else {
        Seq::empty()
    };
    surface + lines + points
}

/// The uniform uploads one object render call issues, in order: the
/// camera's projection and view, the resolved light position —
/// absolute point or camera eye — then the model transform, the
/// rotation-only normal transform and the diagonal scale as three
/// separate uniforms, and finally one color per enabled pass.
pub open spec fn object_uniforms(
    m: ObjectMaterial,
    cam: CameraInput,
    light: Light,
    transform: Iso3,
    scale: Vec3,
    data: ObjectData,
) -> Seq<(u64, UniformValue)> {
    let base = seq![
        (m.proj.id, UniformValue::Transform(cam.proj)),
        (m.view.id, UniformValue::Transform(cam.view)),
        (m.light.id, UniformValue::Vector3(light_position(light, cam.eye))),
        (m.transform.id, UniformValue::Transform(transform)),
        (m.ntransform.id, UniformValue::Rotation(transform.rotation)),
        (m.scale.id, UniformValue::Vector3(scale)),
    ];
    let surface: Seq<(u64, UniformValue)> = if data.draw_surface {
        seq![(m.color.id, UniformValue::Vector3(data.color))]
    } else {
        Seq::empty()
    };
    let lines: Seq<(u64, UniformValue)> = if data.wlines != 0 {
        seq![
            (
                m.color.id,
                UniformValue::Vector3(
                    match data.lines_color {
                        Some(c) => c,
                        None => data.color,
                    },
                ),
            ),
        ]
    } else {
        Seq::empty()
    };
    let points: Seq<(u64, UniformValue)> = if data.wpoints != 0 {
        seq![(m.color.id, UniformValue::Vector3(data.color))]
    } else {
        Seq::empty()
    };
    base + surface + lines + points
}

/// The default material: one program with position, normal and
/// texture-coordinate attributes and the uniforms the object shading
/// model reads.
pub struct ObjectMaterial {
    /// The linked program.
    pub effect: Effect,
    /// Vertex position attribute.
    pub pos: ShaderAttribute<Vec3>,
    /// Vertex normal attribute.
    pub normal: ShaderAttribute<Vec3>,
    /// Texture coordinate attribute.
    pub tex_coord: ShaderAttribute<Vec2>,
    /// Light position uniform.
    pub light: ShaderUniform<Vec3>,
    /// Base color uniform.
    pub color: ShaderUniform<Vec3>,
    /// Model transform uniform.
    pub transform: ShaderUniform<Iso3>,
    /// Scale uniform, kept apart so normals are not scaled.
    pub scale: ShaderUniform<Vec3>,
    /// Rotation-only normal transform uniform.
    pub ntransform: ShaderUniform<Quat>,
    /// Projection matrix uniform.
    pub proj: ShaderUniform<Iso3>,
    /// View matrix uniform.
    pub view: ShaderUniform<Iso3>,
}

impl ObjectMaterial {
    /// Compiles the default program and resolves its handles: thirteen
    /// fresh backend names, so in particular the model, normal and
    /// scale uniforms are three distinct locations.
    pub fn new(vshader_src: &str, fshader_src: &str, ctxt: &mut RenderContext) -> (m:
        ObjectMaterial)
        requires
            old(ctxt).next_id <= u64::MAX - 13,
        ensures
            m.effect.program == old(ctxt).next_id + 2,
            m.pos.id == old(ctxt).next_id + 3,
            m.normal.id == old(ctxt).next_id + 4,
            m.tex_coord.id == old(ctxt).next_id + 5,
            m.light.id == old(ctxt).next_id + 6,
            m.color.id == old(ctxt).next_id + 7,
            m.transform.id == old(ctxt).next_id + 8,
            m.scale.id == old(ctxt).next_id + 9,
            m.ntransform.id == old(ctxt).next_id + 10,
            m.proj.id == old(ctxt).next_id + 11,
            m.view.id == old(ctxt).next_id + 12,
            *final(ctxt) == (RenderContext {
                next_id: (old(ctxt).next_id + 13) as u64,
                program: Some((old(ctxt).next_id + 2) as u64),
                ..*old(ctxt)
            }),
    {
        let mut effect = Effect::new_from_str(vshader_src, fshader_src, ctxt);
        effect.use_program(ctxt);
        let pos = effect.get_attrib::<Vec3>("position", ctxt).unwrap();
        let normal = effect.get_attrib::<Vec3>("normal", ctxt).unwrap();
        let tex_coord = effect.get_attrib::<Vec2>("tex_coord", ctxt).unwrap();
        let light = effect.get_uniform::<Vec3>("light_position", ctxt).unwrap();
        let color = effect.get_uniform::<Vec3>("color", ctxt).unwrap();
        let transform = effect.get_uniform::<Iso3>("transform", ctxt).unwrap();
        let scale = effect.get_uniform::<Vec3>("scale", ctxt).unwrap();
        let ntransform = effect.get_uniform::<Quat>("ntransform", ctxt).unwrap();
        let proj = effect.get_uniform::<Iso3>("proj", ctxt).unwrap();
        let view = effect.get_uniform::<Iso3>("view", ctxt).unwrap();
        ObjectMaterial {
            effect,
            pos,
            normal,
            tex_coord,
            light,
            color,
            transform,
            scale,
            ntransform,
            proj,
            view,
        }
    }

    /// Activates the program and its three attributes.
    fn activate(&mut self, ctxt: &mut RenderContext)
        requires
            old(ctxt).attribs_enabled <= u64::MAX - 3,
        ensures
            *final(ctxt) == (RenderContext {
                program: Some(old(self).effect.program),
                attribs_enabled: (old(ctxt).attribs_enabled + 3) as u64,
                ..*old(ctxt)
            }),
            *final(self) == *old(self),
    {
        self.effect.use_program(ctxt);
        self.pos.enable(ctxt);
        self.normal.enable(ctxt);
        self.tex_coord.enable(ctxt);
    }

    /// Disables the three attributes again.
    fn deactivate(&mut self, ctxt: &mut RenderContext)
        requires
            old(ctxt).attribs_enabled >= 3,
        ensures
            *final(ctxt) == (RenderContext {
                attribs_enabled: (old(ctxt).attribs_enabled - 3) as u64,
                ..*old(ctxt)
            }),
            *final(self) == *old(self),
    {
        self.pos.disable(ctxt);
        self.normal.disable(ctxt);
        self.tex_coord.disable(ctxt);
    }

    /// Renders one object: uploads the frame state, binds the mesh and
    /// submits exactly the passes the object's attributes enable, in
    /// surface, wireframe, points order; then leaves the attribute
    /// slots and buffer bindings as it found them.  The wireframe and
    /// point passes disable backface culling and leave it off.
    pub fn render(
        &mut self,
        pass: usize,
        transform: &Iso3,
        scale: &Vec3,
        cam: &CameraInput,
        light: &Light,
        data: &ObjectData,
        mesh: &mut Mesh,
        ctxt: &mut RenderContext,
    )
        requires
            old(mesh).wf(),
            old(ctxt).attribs_enabled <= u64::MAX - 3,
            old(mesh).faces.logical_len() * 6 < usize::MAX as int,
            data.wlines != 0 && !old(ctxt).has_polygon_mode ==> (old(mesh).edges is None
                ==> old(mesh).faces.data is Some),
        ensures
            final(mesh).wf(),
            final(mesh).coords.data == old(mesh).coords.data,
            final(mesh).faces.data == old(mesh).faces.data,
            final(mesh).normals.data == old(mesh).normals.data,
            final(mesh).uvs.data == old(mesh).uvs.data,
            final(ctxt).draws@ == old(ctxt).draws@ + object_draws(
                *data,
                3 * old(mesh).faces.logical_len(),
                old(ctxt).has_polygon_mode,
            ),
            final(mesh).faces.logical_len() == old(mesh).faces.logical_len(),
            old(mesh).edges is Some ==> final(mesh).edges is Some,
            data.wlines != 0 && !old(ctxt).has_polygon_mode ==> final(mesh).edges is Some,
            final(ctxt).attribs_enabled == old(ctxt).attribs_enabled,
            final(ctxt).bound_array is None,
            old(mesh).faces.buffer is Some || old(mesh).faces.data is Some
                ==> final(ctxt).bound_element is None,
            data.wlines != 0 || data.wpoints != 0 ==> !final(ctxt).cull,
            data.wlines == 0 && data.wpoints == 0 && data.draw_surface ==> final(ctxt).cull
                == data.cull,
            data.wlines == 0 && data.wpoints == 0 && !data.draw_surface ==> final(ctxt).cull
                == old(ctxt).cull,
            final(ctxt).uniform_log@ == old(ctxt).uniform_log@ + object_uniforms(
                *old(self),
                *cam,
                *light,
                *transform,
                *scale,
                *data,
            ),
            final(ctxt).line_width == (if data.wlines != 0 {
                FX_ONE
            } else {
                old(ctxt).line_width
            }),
            final(ctxt).point_size == (if data.wpoints != 0 {
                FX_ONE
            } else {
                old(ctxt).point_size
            }),
            final(ctxt).has_polygon_mode == old(ctxt).has_polygon_mode,
            *final(self) == *old(self),
    {
        let ghost npts0 = 3 * old(mesh).faces.logical_len();
        self.activate(ctxt);
        self.proj.upload_value(&cam.proj, ctxt);
        self.view.upload_value(&cam.view, ctxt);
        let pos = match light {
            Light::Absolute(p) => *p,
            Light::StickToCamera => cam.eye,
        };
        self.light.upload_value(&pos, ctxt);
        self.transform.upload_value(transform, ctxt);
        self.ntransform.upload_value(&transform.rotation, ctxt);
        self.scale.upload_value(scale, ctxt);
        mesh.bind(&mut self.pos, &mut self.normal, &mut self.tex_coord, ctxt);
        ctxt.bound_texture = Some(data.texture);
        let npts = mesh.num_pts();
        let ghost draws0 = ctxt.draws@;
        if data.surface_rendering_active() {
            self.color.upload_value(&data.color, ctxt);
            if data.backface_culling_enabled() {
                ctxt.set_cull(true);
            } else {
                ctxt.set_cull(false);
            }
            ctxt.draw(DrawKind::Triangles, npts);
        }
        let ghost draws1 = ctxt.draws@;
        if data.lines_width() != 0 {
            let lc = match data.lines_color() {
                Some(c) => c,
                None => data.color,
            };
            self.color.upload_value(&lc, ctxt);
            ctxt.set_cull(false);
            ctxt.set_line_width(data.lines_width());
            if ctxt.has_polygon_mode {
                ctxt.draw(DrawKind::Triangles, npts);
            } else {
                mesh.bind_edges(ctxt);
                ctxt.draw(DrawKind::Lines, 2 * npts);
            }
            ctxt.set_line_width(FX_ONE);
        }
        let ghost draws2 = ctxt.draws@;
        if data.points_size() != 0 {
            self.color.upload_value(&data.color, ctxt);
            ctxt.set_cull(false);
            ctxt.set_point_size(data.points_size());
            if ctxt.has_polygon_mode {
                ctxt.draw(DrawKind::Triangles, npts);
            } else {
                ctxt.draw(DrawKind::Points, npts);
            }
            ctxt.set_point_size(FX_ONE);
        }
        mesh.unbind(ctxt);
        self.pos.disable(ctxt);
        self.normal.disable(ctxt);
        self.tex_coord.disable(ctxt);
        proof {
            assert(ctxt.draws@ =~= old(ctxt).draws@ + object_draws(
                *data,
                npts0,
                old(ctxt).has_polygon_mode,
            ));
            assert(ctxt.uniform_log@ =~= old(ctxt).uniform_log@ + object_uniforms(
                *old(self),
                *cam,
                *light,
                *transform,
                *scale,
                *data,
            ));
        }
    }
}

} // verus!
