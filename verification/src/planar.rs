//! The planar scene: the same verified node hierarchy instantiated
//! with plane isometries and two-component scale vectors, over planar
//! meshes.

use vstd::prelude::*;
use crate::algebra::{Rot2, Vec2, Vec3};
use crate::builtin::object_draws;
use crate::camera::PlanarCameraInput;
use crate::context::{same_raster_state, RenderContext, UniformValue};
use crate::effect::{Effect, ShaderAttribute, ShaderUniform};
use crate::fx::FX_ONE;
use crate::gpu_vector::{AllocationType, BufferType, GPUVec};
use crate::mesh::{edges_of, lemma_edge_positions, Edge, Face};
use crate::object::{Object, ObjectData};
use crate::scene::{reaches, SceneGraph, SceneNodeData};
use crate::context::DrawKind;
use crate::transform::{Compose, Iso2};

verus! {

/// The hierarchy of planar nodes: transforms are plane isometries,
/// scales per-axis pairs; payloads reference planar meshes by handle.
pub type PlanarScene = SceneGraph<Iso2, Vec2, Object>;

/// One planar geometry: coordinates, faces and texture coordinates,
/// plus the lazily derived edge list.
pub struct PlanarMesh {
    /// Vertex positions in the plane.
    pub coords: GPUVec<Vec2>,
    /// Triangle list.
    pub faces: GPUVec<Face>,
    /// Per-vertex texture coordinates.
    pub uvs: GPUVec<Vec2>,
    /// The line list derived from `faces`, built on first use.
    pub edges: Option<GPUVec<Edge>>,
}

impl PlanarMesh {
    /// Every buffer of the mesh is well formed and feeds its slot.
    pub open spec fn wf(self) -> bool {
        &&& self.coords.wf()
        &&& self.faces.wf()
        &&& self.uvs.wf()
        &&& self.coords.buf_type == BufferType::Array
        &&& self.uvs.buf_type == BufferType::Array
        &&& self.faces.buf_type == BufferType::ElementArray
        &&& (match self.edges {
            Some(e) => e.wf() && e.buf_type == BufferType::ElementArray,
            None => true,
        })
    }

    /// Builds a planar mesh; missing texture coordinates default to
    /// the origin.
    pub fn new(coords: Vec<Vec2>, faces: Vec<Face>, uvs: Option<Vec<Vec2>>, dynamic_draw: bool) -> (m: PlanarMesh)
        ensures
            m.wf(),
            m.coords.data matches Some(c) && c@ == coords@,
            m.faces.data matches Some(f) && f@ == faces@,
            m.uvs.data matches Some(u) && u@ == (match uvs {
                Some(given) => given@,
                None => Seq::new(coords@.len(), |k: int| Vec2 { x: 0, y: 0 }),
            }),
            m.coords.trash && m.faces.trash && m.uvs.trash,
            m.coords.buffer is None && m.faces.buffer is None && m.uvs.buffer is None,
            m.coords.alloc_type == (if dynamic_draw {
                AllocationType::DynamicDraw
            } else {
                AllocationType::StaticDraw
            }),
            m.faces.alloc_type == (if dynamic_draw {
                AllocationType::DynamicDraw
            } else {
                AllocationType::StaticDraw
            }),
            m.uvs.alloc_type == (if dynamic_draw {
                AllocationType::DynamicDraw
            } else {
                AllocationType::StaticDraw
            }),
            m.edges is None,
    {
        let location = if dynamic_draw {
            AllocationType::DynamicDraw
        } else {
            AllocationType::StaticDraw
        };
        let us: Vec<Vec2> = match uvs {
            Some(given) => given,
            None => {
                let mut zs: Vec<Vec2> = Vec::new();
                let mut k: usize = 0;
                while k < coords.len()
                    invariant
                        k <= coords@.len(),
                        zs@.len() == k as int,
                        forall|m: int| 0 <= m < k ==> zs@[m] == (Vec2 { x: 0, y: 0 }),
                    decreases coords@.len() - k,
                {
                    zs.push(Vec2 { x: 0, y: 0 });
                    k += 1;
                }
                proof {
                    assert(zs@ =~= Seq::new(coords@.len(), |m: int| Vec2 { x: 0, y: 0 }));
                }
                zs
            },
        };
        PlanarMesh {
            coords: GPUVec::new(coords, BufferType::Array, location),
            faces: GPUVec::new(faces, BufferType::ElementArray, location),
            uvs: GPUVec::new(us, BufferType::Array, location),
            edges: None,
        }
    }

    /// Binds coordinates and texture coordinates to their attributes
    /// and the face list to the index slot.
    pub fn bind(
        &mut self,
        pos: &mut ShaderAttribute<Vec2>,
        uv: &mut ShaderAttribute<Vec2>,
        ctxt: &mut RenderContext,
    )
        requires
            old(self).wf(),
        ensures
            final(self).wf(),
            final(self).coords.data == old(self).coords.data,
            final(self).faces.data == old(self).faces.data,
            final(self).uvs.data == old(self).uvs.data,
            final(self).edges == old(self).edges,
            final(self).faces.logical_len() == old(self).faces.logical_len(),
            final(self).faces.buffer is Some <==> (old(self).faces.buffer is Some || old(
                self,
            ).faces.data is Some),
            final(ctxt).bound_element == (match final(self).faces.buffer {
                Some(b) => Some(b.id),
                None => None,
            }),
            final(ctxt).bound_array == (match final(self).uvs.buffer {
                Some(b) => Some(b.id),
                None => None,
            }),
            same_raster_state(*old(ctxt), *final(ctxt)),
            *final(pos) == *old(pos),
            *final(uv) == *old(uv),
    {
        pos.bind(&mut self.coords, ctxt);
        uv.bind(&mut self.uvs, ctxt);
        self.faces.bind(ctxt);
    }

    /// Derives the wireframe edge list from the face list on first
    /// use, caches it, and binds it to the index slot.
    pub fn bind_edges(&mut self, ctxt: &mut RenderContext)
        requires
            old(self).wf(),
            old(self).edges is None ==> old(self).faces.data is Some,
            old(self).faces.logical_len() * 3 < usize::MAX as int,
        ensures
            final(self).wf(),
            final(self).faces == old(self).faces,
            final(self).coords == old(self).coords,
            final(self).uvs == old(self).uvs,
            same_raster_state(*old(ctxt), *final(ctxt)),
            final(ctxt).bound_array == old(ctxt).bound_array,
            final(self).edges matches Some(e) && final(ctxt).bound_element == (match e.buffer {
                Some(b) => Some(b.id),
                None => None,
            }),
            old(self).edges is None ==> (final(self).edges matches Some(e)
                ==> e.data matches Some(d) && d@ == edges_of((old(self).faces.data->Some_0)@)),
            old(self).edges matches Some(e0) ==> (final(self).edges matches Some(e) && e.data
                == e0.data && e.logical_len() == e0.logical_len()),
    {
        if self.edges.is_none() {
            let mut es: Vec<Edge> = Vec::new();
            match &self.faces.data {
                Some(fs) => {
                    let mut k: usize = 0;
                    while k < fs.len()
                        invariant
                            k <= fs@.len(),
                            es@.len() == 3 * k as int,
                            fs@.len() * 3 < usize::MAX as int,
                            forall|j: int|
                                0 <= j < 3 * k ==> es@[j] == edges_of(fs@)[j],
                        decreases fs@.len() - k,
                    {
                        let f = fs[k];
                        es.push(Edge { a: f.a, b: f.b });
                        es.push(Edge { a: f.b, b: f.c });
                        es.push(Edge { a: f.c, b: f.a });
                        proof {
                            lemma_edge_positions(fs@, k as int);
                            assert(es@[3 * k as int] == edges_of(fs@)[3 * k as int]);
                            assert(es@[3 * k as int + 1] == edges_of(fs@)[3 * k as int + 1]);
                            assert(es@[3 * k as int + 2] == edges_of(fs@)[3 * k as int + 2]);
                        }
                        k += 1;
                    }
                    proof {
                        assert(es@ =~= edges_of(fs@));
                    }
                },
                None => {},
            }
            self.edges = Some(GPUVec::new(es, BufferType::ElementArray, AllocationType::StaticDraw));
        }
        match &mut self.edges {
            Some(e) => {
                e.bind(ctxt);
            },
            None => {},
        }
    }

    /// Unbinds every slot the mesh may occupy.
    pub fn unbind(&self, ctxt: &mut RenderContext)
        requires
            self.wf(),
        ensures
            same_raster_state(*old(ctxt), *final(ctxt)),
            final(ctxt).uploads == old(ctxt).uploads,
            final(ctxt).bound_array == (if self.coords.buffer is Some || self.uvs.buffer
                is Some {
                None
            } else {
                old(ctxt).bound_array
            }),
            final(ctxt).bound_element == (if self.faces.buffer is Some {
                None
            } else {
                old(ctxt).bound_element
            }),
    {
        self.coords.unbind(ctxt);
        self.uvs.unbind(ctxt);
        self.faces.unbind(ctxt);
    }

    /// How many indices one full draw of the triangle list covers.
    pub fn num_pts(&self) -> (r: usize)
        requires
            self.wf(),
            self.faces.logical_len() * 3 <= usize::MAX as int,
        ensures
            r as int == 3 * self.faces.logical_len(),
    {
        self.faces.len() * 3
    }
}

/// The planar mesh registry.
pub struct PlanarMeshManager {
    /// The meshes, addressed by handle.
    pub meshes: Vec<PlanarMesh>,
}

impl PlanarMeshManager {
    /// Every registered mesh is well formed.
    pub open spec fn wf(self) -> bool {
        forall|i: int| 0 <= i < self.meshes@.len() ==> (#[trigger] self.meshes@[i]).wf()
    }

    /// An empty registry.
    pub fn new() -> (m: PlanarMeshManager)
        ensures
            m.wf(),
            m.meshes@.len() == 0,
    {
        PlanarMeshManager { meshes: Vec::new() }
    }

    /// Registers a mesh and hands back its handle.
    pub fn add(&mut self, mesh: PlanarMesh) -> (id: usize)
        requires
            old(self).wf(),
            mesh.wf(),
            old(self).meshes@.len() < usize::MAX as int,
        ensures
            final(self).wf(),
            id as int == old(self).meshes@.len(),
            final(self).meshes@ == old(self).meshes@.push(mesh),
    {
        let id = self.meshes.len();
        self.meshes.push(mesh);
        proof {
            assert forall|i: int| 0 <= i < self.meshes@.len() implies (
            #[trigger] self.meshes@[i]).wf() by {
                if i < old(self).meshes@.len() {
                    assert(old(self).wf());
                }
            }
        }
        id
    }
}

impl PlanarScene {
    /// Replaces the local translation, keeping the rotation.
    pub fn set_local_translation(&mut self, i: usize, t: Vec2)
        requires
            old(self).wf(),
            (i as int) < old(self).n(),
        ensures
            final(self).wf(),
            final(self).n() == old(self).n(),
            final(self).depth == old(self).depth,
            forall|j: int|
                0 <= j < old(self).n() && j != i ==> final(self).nodes@[j] == (SceneNodeData {
                    up_to_date: old(self).nodes@[j].up_to_date && !reaches(
                        old(self).par(),
                        old(self).dep(),
                        i as int,
                        j,
                    ),
                    ..old(self).nodes@[j]
                }),
            final(self).nodes@[i as int] == (SceneNodeData {
                local_transform: (Iso2 {
                    translation: t,
                    ..old(self).nodes@[i as int].local_transform
                }),
                up_to_date: false,
                ..old(self).nodes@[i as int]
            }),
            final(self).invalidations >= old(self).invalidations,
            !old(self).nodes@[i as int].up_to_date ==> final(self).invalidations == old(self).invalidations,
    {
        let cur = self.local_transformation(i);
        self.set_local_transformation(i, Iso2 { rotation: cur.rotation, translation: t });
    }

    /// Replaces the local rotation, keeping the translation.
    pub fn set_local_rotation(&mut self, i: usize, r: Rot2)
        requires
            old(self).wf(),
            (i as int) < old(self).n(),
        ensures
            final(self).wf(),
            final(self).n() == old(self).n(),
            final(self).depth == old(self).depth,
            forall|j: int|
                0 <= j < old(self).n() && j != i ==> final(self).nodes@[j] == (SceneNodeData {
                    up_to_date: old(self).nodes@[j].up_to_date && !reaches(
                        old(self).par(),
                        old(self).dep(),
                        i as int,
                        j,
                    ),
                    ..old(self).nodes@[j]
                }),
            final(self).nodes@[i as int] == (SceneNodeData {
                local_transform: (Iso2 {
                    rotation: r,
                    ..old(self).nodes@[i as int].local_transform
                }),
                up_to_date: false,
                ..old(self).nodes@[i as int]
            }),
            final(self).invalidations >= old(self).invalidations,
            !old(self).nodes@[i as int].up_to_date ==> final(self).invalidations == old(self).invalidations,
    {
        let cur = self.local_transformation(i);
        self.set_local_transformation(i, Iso2 { rotation: r, translation: cur.translation });
    }

    /// Moves `i` by `t` in its parent's frame.
    pub fn append_translation(&mut self, i: usize, t: &Vec2)
        requires
            old(self).wf(),
            (i as int) < old(self).n(),
        ensures
            final(self).wf(),
            final(self).n() == old(self).n(),
            final(self).depth == old(self).depth,
            forall|j: int|
                0 <= j < old(self).n() && j != i ==> final(self).nodes@[j] == (SceneNodeData {
                    up_to_date: old(self).nodes@[j].up_to_date && !reaches(
                        old(self).par(),
                        old(self).dep(),
                        i as int,
                        j,
                    ),
                    ..old(self).nodes@[j]
                }),
            final(self).nodes@[i as int] == (SceneNodeData {
                local_transform: Iso2::compose_spec(
                    (Iso2 {
                        rotation: Rot2 { c: crate::fx::FX_ONE, s: 0 },
                        translation: *t,
                    }),
                    old(self).nodes@[i as int].local_transform,
                ),
                up_to_date: false,
                ..old(self).nodes@[i as int]
            }),
            final(self).invalidations >= old(self).invalidations,
            !old(self).nodes@[i as int].up_to_date ==> final(self).invalidations == old(self).invalidations,
    {
        let iso = Iso2::from_translation(*t);
        self.append_transformation(i, &iso);
    }

    /// Adds an empty group node under `parent`.
    pub fn add_group(&mut self, parent: usize) -> (id: usize)
        requires
            old(self).wf(),
            (parent as int) < old(self).n(),
            old(self).n() < usize::MAX as int,
        ensures
            final(self).wf(),
            id as int == old(self).n(),
            final(self).n() == old(self).n() + 1,
            final(self).nodes@[id as int].parent == Some(parent),
            final(self).nodes@[id as int].object is None,
    {
        self.new_child(parent, Iso2::identity(), Vec2::ones(), None)
    }

    /// Adds a node carrying `object` under `parent`.
    pub fn add_object(&mut self, parent: usize, local_scale: Vec2, local_transform: Iso2, object: Object) -> (id: usize)
        requires
            old(self).wf(),
            (parent as int) < old(self).n(),
            old(self).n() < usize::MAX as int,
        ensures
            final(self).wf(),
            id as int == old(self).n(),
            final(self).n() == old(self).n() + 1,
            final(self).nodes@[id as int].parent == Some(parent),
            final(self).nodes@[id as int].object == Some(object),
    {
        self.new_child(parent, local_transform, local_scale, Some(object))
    }
}

/// The uniform uploads one planar render call issues, in order: the
/// camera's projection and view, the model transform and the scale as
/// separate uniforms, then one color per enabled pass.
pub open spec fn planar_object_uniforms(
    m: PlanarObjectMaterial,
    cam: PlanarCameraInput,
    model: Iso2,
    scale: Vec2,
    data: ObjectData,
) -> Seq<(u64, UniformValue)> {
    let base = seq![
        (m.proj.id, UniformValue::PlaneTransform(cam.proj)),
        (m.view.id, UniformValue::PlaneTransform(cam.view)),
        (m.model.id, UniformValue::PlaneTransform(model)),
        (m.scale.id, UniformValue::Vector2(scale)),
    ];
    let surface: Seq<(u64, UniformValue)> = if data.draw_surface {
        seq![(m.color.id, UniformValue::Vector3(data.color))]
    } else {
        Seq::empty()
    };
    let lines: Seq<(u64, UniformValue)> = if data.wlines != 0 {
        seq![
            (
                m.color.id,
                UniformValue::Vector3(
                    match data.lines_color {
                        Some(c) => c,
                        None => data.color,
                    },
                ),
            ),
        ]
    } else {
        Seq::empty()
    };
    let points: Seq<(u64, UniformValue)> = if data.wpoints != 0 {
        seq![(m.color.id, UniformValue::Vector3(data.color))]
    } else {
        Seq::empty()
    };
    base + surface + lines + points
}

/// The built-in planar material: the default rendering strategy for a
/// planar mesh.  It walks the same state machine as the spatial one —
/// activate, upload, bind, up to three gated passes, unbind — with
/// culling off throughout, since a planar shape has no back side.
pub struct PlanarObjectMaterial {
    /// The linked program.
    pub effect: Effect,
    /// Vertex position attribute.
    pub pos: ShaderAttribute<Vec2>,
    /// Texture coordinate attribute.
    pub tex_coord: ShaderAttribute<Vec2>,
    /// Base color uniform.
    pub color: ShaderUniform<Vec3>,
    /// Scale uniform.
    pub scale: ShaderUniform<Vec2>,
    /// Model transform uniform.
    pub model: ShaderUniform<Iso2>,
    /// View matrix uniform.
    pub view: ShaderUniform<Iso2>,
    /// Projection matrix uniform.
    pub proj: ShaderUniform<Iso2>,
}

impl PlanarObjectMaterial {
    /// Compiles the default planar program and resolves its handles:
    /// ten fresh backend names, all distinct.
    pub fn new(vshader_src: &str, fshader_src: &str, ctxt: &mut RenderContext) -> (m:
        PlanarObjectMaterial)
        requires
            old(ctxt).next_id <= u64::MAX - 10,
        ensures
            m.effect.program == old(ctxt).next_id + 2,
            m.pos.id == old(ctxt).next_id + 3,
            m.tex_coord.id == old(ctxt).next_id + 4,
            m.color.id == old(ctxt).next_id + 5,
            m.scale.id == old(ctxt).next_id + 6,
            m.model.id == old(ctxt).next_id + 7,
            m.view.id == old(ctxt).next_id + 8,
            m.proj.id == old(ctxt).next_id + 9,
            *final(ctxt) == (RenderContext {
                next_id: (old(ctxt).next_id + 10) as u64,
                program: Some((old(ctxt).next_id + 2) as u64),
                ..*old(ctxt)
            }),
    {
        let mut effect = Effect::new_from_str(vshader_src, fshader_src, ctxt);
        effect.use_program(ctxt);
        let pos = effect.get_attrib::<Vec2>("position", ctxt).unwrap();
        let tex_coord = effect.get_attrib::<Vec2>("tex_coord", ctxt).unwrap();
        let color = effect.get_uniform::<Vec3>("color", ctxt).unwrap();
        let scale = effect.get_uniform::<Vec2>("scale", ctxt).unwrap();
        let model = effect.get_uniform::<Iso2>("model", ctxt).unwrap();
        let view = effect.get_uniform::<Iso2>("view", ctxt).unwrap();
        let proj = effect.get_uniform::<Iso2>("proj", ctxt).unwrap();
        PlanarObjectMaterial { effect, pos, tex_coord, color, scale, model, view, proj }
    }

    /// Renders one planar object: exactly the passes its attributes
    /// enable, in surface, wireframe, points order, with attribute
    /// slots restored and culling left off.
    pub fn render(
        &mut self,
        model: &Iso2,
        scale: &Vec2,
        cam: &PlanarCameraInput,
        data: &ObjectData,
        mesh: &mut PlanarMesh,
        ctxt: &mut RenderContext,
    )
        requires
            old(mesh).wf(),
            old(ctxt).attribs_enabled <= u64::MAX - 2,
            old(mesh).faces.logical_len() * 6 < usize::MAX as int,
            data.wlines != 0 && !old(ctxt).has_polygon_mode ==> (old(mesh).edges is None
                ==> old(mesh).faces.data is Some),
        ensures
            final(mesh).wf(),
            final(mesh).coords.data == old(mesh).coords.data,
            final(mesh).faces.data == old(mesh).faces.data,
            final(mesh).uvs.data == old(mesh).uvs.data,
            final(ctxt).draws@ == old(ctxt).draws@ + object_draws(
                *data,
                3 * old(mesh).faces.logical_len(),
                old(ctxt).has_polygon_mode,
            ),
            final(mesh).faces.logical_len() == old(mesh).faces.logical_len(),
            old(mesh).edges is Some ==> final(mesh).edges is Some,
            data.wlines != 0 && !old(ctxt).has_polygon_mode ==> final(mesh).edges is Some,
            final(ctxt).attribs_enabled == old(ctxt).attribs_enabled,
            final(ctxt).bound_array is None,
            old(mesh).faces.buffer is Some || old(mesh).faces.data is Some
                ==> final(ctxt).bound_element is None,
            !final(ctxt).cull,
            final(ctxt).has_polygon_mode == old(ctxt).has_polygon_mode,
            final(ctxt).uniform_log@ == old(ctxt).uniform_log@ + planar_object_uniforms(
                *old(self),
                *cam,
                *model,
                *scale,
                *data,
            ),
            *final(self) == *old(self),
    {
        let ghost npts0 = 3 * old(mesh).faces.logical_len();
        self.effect.use_program(ctxt);
        self.pos.enable(ctxt);
        self.tex_coord.enable(ctxt);
        self.proj.upload_value(&cam.proj, ctxt);
        self.view.upload_value(&cam.view, ctxt);
        self.model.upload_value(model, ctxt);
        self.scale.upload_value(scale, ctxt);
        mesh.bind(&mut self.pos, &mut self.tex_coord, ctxt);
        ctxt.bound_texture = Some(data.texture);
        ctxt.set_cull(false);
        let npts = mesh.num_pts();
        if data.surface_rendering_active() {
            self.color.upload_value(&data.color, ctxt);
            ctxt.draw(DrawKind::Triangles, npts);
        }
        if data.lines_width() != 0 {
            let lc = match data.lines_color() {
                Some(c) => c,
                None => data.color,
            };
            self.color.upload_value(&lc, ctxt);
            ctxt.set_cull(false);
            ctxt.set_line_width(data.lines_width());
            if ctxt.has_polygon_mode {
                ctxt.draw(DrawKind::Triangles, npts);
            } else {
                mesh.bind_edges(ctxt);
                ctxt.draw(DrawKind::Lines, 2 * npts);
            }
            ctxt.set_line_width(FX_ONE);
        }
        if data.points_size() != 0 {
            self.color.upload_value(&data.color, ctxt);
            ctxt.set_cull(false);
            ctxt.set_point_size(data.points_size());
            if ctxt.has_polygon_mode {
                ctxt.draw(DrawKind::Triangles, npts);
            } else {
                ctxt.draw(DrawKind::Points, npts);
            }
            ctxt.set_point_size(FX_ONE);
        }
        mesh.unbind(ctxt);
        self.pos.disable(ctxt);
        self.tex_coord.disable(ctxt);
        proof {
            assert(ctxt.draws@ =~= old(ctxt).draws@ + object_draws(
                *data,
                npts0,
                old(ctxt).has_polygon_mode,
            ));
            assert(ctxt.uniform_log@ =~= old(ctxt).uniform_log@ + planar_object_uniforms(
                *old(self),
                *cam,
                *model,
                *scale,
                *data,
            ));
        }
    }
}

/// One registered planar material.
pub enum PlanarMaterial {
    /// The built-in planar mesh material.
    Object(PlanarObjectMaterial),
}

/// The planar material registry.
pub struct PlanarMaterialManager {
    /// The materials, addressed by handle.
    pub materials: Vec<PlanarMaterial>,
    /// The handle every planar object starts with.
    pub default_material: usize,
}

impl PlanarMaterialManager {
    /// Every dispatch through a registered material is defined.
    pub open spec fn wf(self) -> bool {
        &&& self.materials@.len() > 0
        &&& (self.default_material as int) < self.materials@.len()
    }

    /// A registry holding the built-in planar material as the default.
    pub fn new(vshader_src: &str, fshader_src: &str, ctxt: &mut RenderContext) -> (m:
        PlanarMaterialManager)
        requires
            old(ctxt).next_id <= u64::MAX - 10,
        ensures
            m.wf(),
            m.default_material == 0,
    {
        let om = PlanarObjectMaterial::new(vshader_src, fshader_src, ctxt);
        let mut materials: Vec<PlanarMaterial> = Vec::new();
        materials.push(PlanarMaterial::Object(om));
        PlanarMaterialManager { materials, default_material: 0 }
    }

    /// The handle of the default material.
    pub fn get_default(&self) -> (r: usize)
        ensures
            r == self.default_material,
    {
        self.default_material
    }
}

/// The draw submissions one planar object contributes when drawn.
pub open spec fn object_submits(
    o: Object,
    meshes: PlanarMeshManager,
    mats_len: int,
    hpm: bool,
) -> Seq<crate::context::DrawCall> {
    if (o.mesh as int) < meshes.meshes@.len() && (o.data.material as int) < mats_len {
        object_draws(o.data, 3 * meshes.meshes@[o.mesh as int].faces.logical_len(), hpm)
    } else {
        Seq::empty()
    }
}

/// What rendering planar node `j` submits.
pub open spec fn node_submits(
    g: PlanarScene,
    meshes: PlanarMeshManager,
    mats_len: int,
    hpm: bool,
    j: int,
) -> Seq<crate::context::DrawCall> {
    match g.nodes@[j].object {
        Some(o) => object_submits(o, meshes, mats_len, hpm),
        None => Seq::empty(),
    }
}

/// The submissions of a list of planar nodes, in list order.
pub open spec fn submits_concat(
    g: PlanarScene,
    meshes: PlanarMeshManager,
    mats_len: int,
    hpm: bool,
    ns: Seq<int>,
) -> Seq<crate::context::DrawCall>
    decreases ns.len(),
{
    if ns.len() == 0 {
        Seq::empty()
    } else {
        node_submits(g, meshes, mats_len, hpm, ns[0]) + submits_concat(
            g,
            meshes,
            mats_len,
            hpm,
            ns.drop_first(),
        )
    }
}

/// Extending the node list appends that node's submissions.
proof fn lemma_submits_concat_push(
    g: PlanarScene,
    meshes: PlanarMeshManager,
    mats_len: int,
    hpm: bool,
    ns: Seq<int>,
    j: int,
)
    ensures
        submits_concat(g, meshes, mats_len, hpm, ns.push(j)) == submits_concat(
            g,
            meshes,
            mats_len,
            hpm,
            ns,
        ) + node_submits(g, meshes, mats_len, hpm, j),
    decreases ns.len(),
{
    if ns.len() == 0 {
        assert(ns.push(j)[0] == j);
        assert(ns.push(j).drop_first() =~= ns);
        assert(submits_concat(g, meshes, mats_len, hpm, ns.push(j)) =~= submits_concat(
            g,
            meshes,
            mats_len,
            hpm,
            ns,
        ) + node_submits(g, meshes, mats_len, hpm, j));
    } else {
        assert(ns.push(j)[0] == ns[0]);
        assert(ns.push(j).drop_first() =~= ns.drop_first().push(j));
        lemma_submits_concat_push(g, meshes, mats_len, hpm, ns.drop_first(), j);
        assert(submits_concat(g, meshes, mats_len, hpm, ns.push(j)) =~= submits_concat(
            g,
            meshes,
            mats_len,
            hpm,
            ns,
        ) + node_submits(g, meshes, mats_len, hpm, j));
    }
}

/// Pushing onto an index list adds exactly one member.
proof fn lemma_push_contains_int(s: Seq<int>, v: int)
    ensures
        forall|x: int| #![trigger s.push(v).contains(x)]
            s.push(v).contains(x) == (s.contains(x) || x == v),
{
    assert forall|x: int| s.push(v).contains(x) == (s.contains(x) || x == v) by {
        if s.push(v).contains(x) {
            let m = choose|m: int| 0 <= m < s.push(v).len() && s.push(v)[m] == x;
            if m < s.len() {
                assert(s[m] == x);
            }
        }
        if s.contains(x) {
            let m = choose|m: int| 0 <= m < s.len() && s[m] == x;
            assert(s.push(v)[m] == x);
        }
        if x == v {
            assert(s.push(v)[s.len() as int] == x);
        }
    }
}

impl Object {
    /// Delegates one planar draw of this object: exactly the passes
    /// its attributes enable over its planar mesh, through its planar
    /// material, when both handles are valid — nothing otherwise.
    pub fn render_planar(
        &self,
        model: &Iso2,
        scale: &Vec2,
        cam: &PlanarCameraInput,
        meshes: &mut PlanarMeshManager,
        materials: &mut PlanarMaterialManager,
        ctxt: &mut RenderContext,
    )
        requires
            old(meshes).wf(),
            old(materials).wf(),
            old(ctxt).attribs_enabled <= u64::MAX - 2,
            (self.mesh as int) < old(meshes).meshes@.len() ==> ({
                &&& old(meshes).meshes@[self.mesh as int].faces.logical_len() * 6
                    < usize::MAX as int
                &&& old(meshes).meshes@[self.mesh as int].faces.data is Some
            }),
        ensures
            final(meshes).wf(),
            final(materials).wf(),
            final(meshes).meshes@.len() == old(meshes).meshes@.len(),
            final(materials).materials@.len() == old(materials).materials@.len(),
            forall|i: int|
                0 <= i < final(meshes).meshes@.len()
                    ==> (#[trigger] final(meshes).meshes@[i]).faces.data
                    == old(meshes).meshes@[i].faces.data,
            forall|i: int|
                0 <= i < final(meshes).meshes@.len()
                    ==> (#[trigger] final(meshes).meshes@[i]).faces.logical_len()
                    == old(meshes).meshes@[i].faces.logical_len(),
            final(ctxt).draws@ == old(ctxt).draws@ + object_submits(
                *self,
                *old(meshes),
                old(materials).materials@.len() as int,
                old(ctxt).has_polygon_mode,
            ),
            final(ctxt).attribs_enabled == old(ctxt).attribs_enabled,
            final(ctxt).has_polygon_mode == old(ctxt).has_polygon_mode,
    {
        if self.mesh < meshes.meshes.len() && self.data.material < materials.materials.len() {
            let ghost meshes0 = meshes.meshes@;
            let mesh_id = self.mesh;
            let msh = &mut meshes.meshes[mesh_id];
            let mat = &mut materials.materials[self.data.material];
            match mat {
                PlanarMaterial::Object(om) => {
                    om.render(model, scale, cam, &self.data, msh, ctxt);
                },
            }
            proof {
                assert forall|i: int| 0 <= i < meshes.meshes@.len() implies (
                #[trigger] meshes.meshes@[i]).faces.data == old(meshes).meshes@[i].faces.data by {
                    if i != mesh_id {
                        assert(meshes.meshes@[i] == meshes0[i]);
                    }
                }
                assert forall|i: int| 0 <= i < meshes.meshes@.len() implies (
                #[trigger] meshes.meshes@[i]).faces.logical_len() == old(
                    meshes,
                ).meshes@[i].faces.logical_len() by {
                    if i != mesh_id {
                        assert(meshes.meshes@[i] == meshes0[i]);
                    }
                }
                assert forall|i: int| 0 <= i < meshes.meshes@.len() implies (
                #[trigger] meshes.meshes@[i]).wf() by {
                    if i != mesh_id {
                        assert(meshes.meshes@[i] == meshes0[i]);
                    }
                }
                assert(materials.materials@ =~= old(materials).materials@);
            }
        } else {
            proof {
                assert(ctxt.draws@ =~= old(ctxt).draws@ + object_submits(
                    *self,
                    *old(meshes),
                    old(materials).materials@.len() as int,
                    old(ctxt).has_polygon_mode,
                ));
            }
        }
    }
}

impl PlanarScene {
    /// Renders one pass over the subtree of `root`: every node on an
    /// all-visible path that carries an object is resolved and drawn
    /// with its own absolute transform and scale, and the draw log
    /// grows by exactly the submissions of those nodes.
    pub fn render(
        &mut self,
        root: usize,
        cam: &PlanarCameraInput,
        meshes: &mut PlanarMeshManager,
        materials: &mut PlanarMaterialManager,
        ctxt: &mut RenderContext,
    )
        requires
            old(self).wf(),
            (root as int) < old(self).n(),
            old(meshes).wf(),
            old(materials).wf(),
            old(ctxt).attribs_enabled <= u64::MAX - 2,
            forall|j: int| #![trigger old(self).nodes@[j].object]
                0 <= j < old(self).n() && old(self).vis_in(root as int, j) && old(
                    self,
                ).nodes@[j].object is Some && ((old(self).nodes@[j].object->Some_0.mesh as int)
                    < old(meshes).meshes@.len()) ==> ({
                    let mid = old(self).nodes@[j].object->Some_0.mesh as int;
                    &&& old(meshes).meshes@[mid].faces.logical_len() * 6 < usize::MAX as int
                    &&& old(meshes).meshes@[mid].faces.data is Some
                }),
        ensures
            final(self).wf(),
            final(meshes).wf(),
            final(materials).wf(),
            PlanarScene::render_frame(*old(self), *final(self), root as int),
            final(ctxt).attribs_enabled == old(ctxt).attribs_enabled,
            final(meshes).meshes@.len() == old(meshes).meshes@.len(),
            final(materials).materials@.len() == old(materials).materials@.len(),
            forall|i: int|
                0 <= i < final(meshes).meshes@.len()
                    ==> (#[trigger] final(meshes).meshes@[i]).faces.data
                    == old(meshes).meshes@[i].faces.data,
            exists|ns: Seq<int>|
                {
                    &&& ns.no_duplicates()
                    &&& (forall|j: int| #![trigger ns.contains(j)]
                        ns.contains(j) == (0 <= j < old(self).n() && old(self).vis_in(
                            root as int,
                            j,
                        ) && old(self).nodes@[j].object is Some))
                    &&& final(ctxt).draws@ == old(ctxt).draws@ + #[trigger] submits_concat(
                        *old(self),
                        *old(meshes),
                        old(materials).materials@.len() as int,
                        old(ctxt).has_polygon_mode,
                        ns,
                    )
                },
    {
        let mut ids: Vec<usize> = Vec::new();
        self.collect_subtree(root, &mut ids);
        let ghost g0 = *self;
        let ghost mats_len0 = materials.materials@.len() as int;
        let ghost hpm0 = ctxt.has_polygon_mode;
        let ghost mut ns: Seq<int> = Seq::empty();
        proof {
            PlanarScene::lemma_render_frame_refl(*self, root as int);
            assert forall|m: int| 0 <= m < ids@.len() implies (#[trigger] ids@[m] as int) < self.n()
                && reaches(self.par(), self.dep(), root as int, ids@[m] as int) by {
                assert(ids@.contains(ids@[m]));
            }
            assert(self.fresh_for(root as int, Seq::empty()));
        }
        let nids: usize = ids.len();
        let mut k: usize = 0;
        while k < nids
            invariant
                g0 == *old(self),
                g0.wf(),
                self.wf(),
                meshes.wf(),
                materials.wf(),
                (root as int) < g0.n(),
                nids as int == ids@.len(),
                ids@.no_duplicates(),
                PlanarScene::render_frame(g0, *self, root as int),
                forall|m: int|
                    0 <= m < ids@.len() ==> (#[trigger] ids@[m] as int) < g0.n() && reaches(
                        g0.par(),
                        g0.dep(),
                        root as int,
                        ids@[m] as int,
                    ),
                ctxt.attribs_enabled == old(ctxt).attribs_enabled,
                ctxt.attribs_enabled <= u64::MAX - 2,
                ctxt.has_polygon_mode == hpm0,
                hpm0 == old(ctxt).has_polygon_mode,
                mats_len0 == old(materials).materials@.len() as int,
                materials.materials@.len() as int == mats_len0,
                meshes.meshes@.len() == old(meshes).meshes@.len(),
                forall|i: int|
                    0 <= i < meshes.meshes@.len() ==> (#[trigger] meshes.meshes@[i]).faces.data
                        == old(meshes).meshes@[i].faces.data,
                forall|i: int|
                    0 <= i < meshes.meshes@.len() ==> (
                    #[trigger] meshes.meshes@[i]).faces.logical_len() == old(
                        meshes,
                    ).meshes@[i].faces.logical_len(),
                forall|j: int| #![trigger old(self).nodes@[j].object]
                    0 <= j < old(self).n() && old(self).vis_in(root as int, j) && old(
                        self,
                    ).nodes@[j].object is Some && ((old(self).nodes@[j].object->Some_0.mesh
                        as int) < old(meshes).meshes@.len()) ==> ({
                        let mid = old(self).nodes@[j].object->Some_0.mesh as int;
                        &&& old(meshes).meshes@[mid].faces.logical_len() * 6 < usize::MAX as int
                        &&& old(meshes).meshes@[mid].faces.data is Some
                    }),
                ns.no_duplicates(),
                forall|j: int| #![trigger ns.contains(j)]
                    ns.contains(j) == ((exists|m: int| #![trigger ids@[m]]
                        0 <= m < k && ids@[m] as int == j) && 0 <= j < g0.n() && g0.vis_in(
                        root as int,
                        j,
                    ) && g0.nodes@[j].object is Some),
                ctxt.draws@ == old(ctxt).draws@ + submits_concat(
                    g0,
                    *old(meshes),
                    mats_len0,
                    hpm0,
                    ns,
                ),
            decreases nids - k,
        {
            let id = ids[k];
            proof {
                assert(ids@[k as int] == id);
                PlanarScene::lemma_shape_seqs(g0, *self);
                assert forall|j: int| 0 <= j < self.n() implies self.vis()[j] == g0.vis()[j] by {
                    assert(crate::scene::same_node_shape(self.nodes@[j], g0.nodes@[j]));
                }
                assert(self.vis() =~= g0.vis());
                assert(crate::scene::same_node_shape(
                    self.nodes@[id as int],
                    g0.nodes@[id as int],
                ));
            }
            let visible = self.visible_from(root, id);
            let drawable = visible && self.has_object(id);
            if drawable {
                let ob: Object = match self.object(id) {
                    Some(o) => *o,
                    None => {
                        proof {
                            assert(false);
                        }
                        Object::new(0, 0, 0, 0, 0, 0)
                    },
                };
                let ghost gpre = *self;
                let wt = self.world_transformation(id);
                proof {
                    PlanarScene::lemma_render_frame_extend(g0, gpre, *self, root as int, id as int);
                }
                let ghost gmid = *self;
                let ws = self.world_scale(id);
                proof {
                    PlanarScene::lemma_render_frame_extend(g0, gmid, *self, root as int, id as int);
                }
                let ghost mpre = *meshes;
                proof {
                    assert(g0.vis_in(root as int, id as int));
                    assert(g0.nodes@[id as int].object == Some(ob));
                    assert(old(self).nodes@[id as int].object == Some(ob));
                    if (ob.mesh as int) < meshes.meshes@.len() {
                        assert((old(self).nodes@[id as int].object->Some_0.mesh as int) < old(
                            meshes,
                        ).meshes@.len());
                        assert(old(meshes).meshes@[ob.mesh as int].faces.logical_len() * 6
                            < usize::MAX as int);
                        assert(old(meshes).meshes@[ob.mesh as int].faces.data is Some);
                        assert(meshes.meshes@[ob.mesh as int].faces.logical_len() == old(
                            meshes,
                        ).meshes@[ob.mesh as int].faces.logical_len());
                        assert(meshes.meshes@[ob.mesh as int].faces.data == old(
                            meshes,
                        ).meshes@[ob.mesh as int].faces.data);
                    }
                }
                ob.render_planar(&wt, &ws, cam, meshes, materials, ctxt);
                proof {
                    assert(object_submits(ob, mpre, mats_len0, hpm0) == node_submits(
                        g0,
                        *old(meshes),
                        mats_len0,
                        hpm0,
                        id as int,
                    )) by {
                        if (ob.mesh as int) < mpre.meshes@.len() {
                            assert(mpre.meshes@[ob.mesh as int].faces.logical_len() == old(
                                meshes,
                            ).meshes@[ob.mesh as int].faces.logical_len());
                        }
                    }
                    lemma_submits_concat_push(g0, *old(meshes), mats_len0, hpm0, ns, id as int);
                    assert(!ns.contains(id as int));
                    let ghost ns_old = ns;
                    let ghost ns2 = ns_old.push(id as int);
                    lemma_push_contains_int(ns_old, id as int);
                    assert forall|m1: int, m2: int|
                        0 <= m1 < m2 < ns2.len() implies ns2[m1] != ns2[m2] by {
                        if m2 < ns_old.len() {
                            assert(ns_old.no_duplicates());
                        } else {
                            assert(ns_old.contains(ns_old[m1]));
                        }
                    }
                    assert(ns2.no_duplicates());
                    assert forall|j: int| #![trigger ns2.contains(j)]
                        ns2.contains(j) == ((exists|m: int| #![trigger ids@[m]]
                            0 <= m < k + 1 && ids@[m] as int == j) && 0 <= j < g0.n()
                            && g0.vis_in(root as int, j) && g0.nodes@[j].object is Some) by {
                        if ns2.contains(j) {
                            assert(ns_old.contains(j) || j == id as int);
                            if j == id as int {
                                assert(ids@[k as int] as int == j);
                            } else {
                                let m = choose|m: int| #![trigger ids@[m]]
                                    0 <= m < k && ids@[m] as int == j;
                                assert(0 <= m < k + 1 && ids@[m] as int == j);
                            }
                        }
                        if (exists|m: int| #![trigger ids@[m]]
                            0 <= m < k + 1 && ids@[m] as int == j) && 0 <= j < g0.n()
                            && g0.vis_in(root as int, j) && g0.nodes@[j].object is Some {
                            let m = choose|m: int| #![trigger ids@[m]]
                                0 <= m < k + 1 && ids@[m] as int == j;
                            if m == k {
                                assert(j == id as int);
                                assert(ns2.contains(j));
                            } else {
                                assert((exists|m2: int| #![trigger ids@[m2]]
                                    0 <= m2 < k && ids@[m2] as int == j));
                                assert(ns_old.contains(j));
                                assert(ns2.contains(j));
                            }
                        }
                    }
                    ns = ns2;
                }
            } else {
                proof {
                    assert(!(g0.vis_in(root as int, id as int) && g0.nodes@[id as int].object
                        is Some));
                    assert forall|j: int| #![trigger ns.contains(j)]
                        ns.contains(j) == ((exists|m: int| #![trigger ids@[m]]
                            0 <= m < k + 1 && ids@[m] as int == j) && 0 <= j < g0.n()
                            && g0.vis_in(root as int, j) && g0.nodes@[j].object is Some) by {
                        if ns.contains(j) {
                            assert((exists|m: int| #![trigger ids@[m]]
                                0 <= m < k && ids@[m] as int == j));
                            let m = choose|m: int| #![trigger ids@[m]]
                                0 <= m < k && ids@[m] as int == j;
                            assert(0 <= m < k + 1 && ids@[m] as int == j);
                        }
                        if (exists|m: int| #![trigger ids@[m]]
                            0 <= m < k + 1 && ids@[m] as int == j) && 0 <= j < g0.n()
                            && g0.vis_in(root as int, j) && g0.nodes@[j].object is Some {
                            let m = choose|m: int| #![trigger ids@[m]]
                                0 <= m < k + 1 && ids@[m] as int == j;
                            if m == k {
                                assert(j == id as int);
                                assert(false);
                            } else {
                                assert((exists|m2: int| #![trigger ids@[m2]]
                                    0 <= m2 < k && ids@[m2] as int == j));
                                assert(ns.contains(j));
                            }
                        }
                    }
                }
            }
            k += 1;
        }
        proof {
            assert forall|j: int| #![trigger ns.contains(j)]
                ns.contains(j) == (0 <= j < g0.n() && g0.vis_in(root as int, j)
                    && g0.nodes@[j].object is Some) by {
                if 0 <= j < g0.n() && g0.vis_in(root as int, j) && g0.nodes@[j].object is Some {
                    crate::scene::lemma_vis_reaches_reaches(
                        g0.par(),
                        g0.dep(),
                        g0.vis(),
                        root as int,
                        j,
                    );
                    assert(ids@.contains(j as usize));
                    let m = choose|m: int| 0 <= m < ids@.len() && ids@[m] == j as usize;
                    assert(ids@[m] as int == j);
                }
            }
            assert(ctxt.draws@ == old(ctxt).draws@ + submits_concat(
                *old(self),
                *old(meshes),
                old(materials).materials@.len() as int,
                old(ctxt).has_polygon_mode,
                ns,
            ));
        }
    }

    /// Whether `j` takes part in rendering a pass over the subtree of
    /// `r`: every node from `j` up to `r` is visible.
    pub fn visible_from(&self, r: usize, j: usize) -> (b: bool)
        requires
            self.wf(),
            (r as int) < self.n(),
            (j as int) < self.n(),
        ensures
            b == self.vis_in(r as int, j as int),
        decreases self.dep()[j as int],
    {
        if !self.nodes[j].visible {
            false
        } else if j == r {
            true
        } else {
            proof {
                assert(self.par()[j as int] == self.nodes@[j as int].parent);
                assert(crate::scene::pd_ok(self.par(), self.dep(), j as int));
            }
            match self.nodes[j].parent {
                Some(p) => self.visible_from(r, p),
                None => false,
            }
        }
    }
}

} // verus!
