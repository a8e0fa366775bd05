//! The three-dimensional scene: the node hierarchy instantiated with
//! rigid transforms and scale vectors, its resource registries, and the
//! render traversal.

use vstd::prelude::*;
use crate::algebra::{Quat, Vec3};
use crate::camera::CameraInput;
use crate::builtin::{object_draws, ObjectMaterial};
use crate::context::{DrawCall, RenderContext};
use crate::light::Light;
use crate::mesh::Mesh;
use crate::object::Object;
use crate::scene::{reaches, SceneGraph, SceneNodeData};
use crate::transform::{Compose, Iso3};

verus! {

/// The hierarchy of renderable nodes: transforms are space isometries,
/// scales are per-axis vectors, payloads are objects.
pub type Scene = SceneGraph<Iso3, Vec3, Object>;

/// One registered material.
pub enum Material {
    /// The built-in mesh material.
    Object(ObjectMaterial),
}

/// One attribute edit a bulk setter applies to every object of a
/// subtree.
#[derive(Clone, Copy, PartialEq, Eq, Structural, Debug)]
pub enum ObjectEdit {
    /// Replace the base color.
    Color(Vec3),
    /// Replace the wireframe overlay width.
    LinesWidth(i32),
    /// Replace the wireframe override color.
    LinesColor(Option<Vec3>),
    /// Replace the point overlay size.
    PointsSize(i32),
    /// Toggle the filled surface pass.
    Surface(bool),
    /// Toggle backface culling.
    Cull(bool),
    /// Replace the texture handle.
    Texture(u64),
    /// Replace the material handle.
    MaterialHandle(usize),
}

/// What one edit leaves of an object slot.
pub open spec fn apply_edit(o: Option<Object>, e: ObjectEdit) -> Option<Object> {
    match o {
        Some(ob) => Some(
            Object {
                data: match e {
                    ObjectEdit::Color(c) => crate::object::ObjectData { color: c, ..ob.data },
                    ObjectEdit::LinesWidth(w) => crate::object::ObjectData {
                        wlines: w,
                        ..ob.data
                    },
                    ObjectEdit::LinesColor(c) => crate::object::ObjectData {
                        lines_color: c,
                        ..ob.data
                    },
                    ObjectEdit::PointsSize(p) => crate::object::ObjectData {
                        wpoints: p,
                        ..ob.data
                    },
                    ObjectEdit::Surface(b) => crate::object::ObjectData {
                        draw_surface: b,
                        ..ob.data
                    },
                    ObjectEdit::Cull(b) => crate::object::ObjectData { cull: b, ..ob.data },
                    ObjectEdit::Texture(t) => crate::object::ObjectData {
                        texture: t,
                        ..ob.data
                    },
                    ObjectEdit::MaterialHandle(m) => crate::object::ObjectData {
                        material: m,
                        ..ob.data
                    },
                },
                ..ob
            },
        ),
        None => None,
    }
}

/// Pushing onto an index list adds exactly one member.
proof fn lemma_push_contains_int(s: Seq<int>, v: int)
    ensures
        forall|x: int| #![trigger s.push(v).contains(x)]
            s.push(v).contains(x) == (s.contains(x) || x == v),
{
    assert forall|x: int| s.push(v).contains(x) == (s.contains(x) || x == v) by {
        if s.push(v).contains(x) {
            let m = choose|m: int| 0 <= m < s.push(v).len() && s.push(v)[m] == x;
            if m < s.len() {
                assert(s[m] == x);
            }
        }
        if s.contains(x) {
            let m = choose|m: int| 0 <= m < s.len() && s[m] == x;
            assert(s.push(v)[m] == x);
        }
        if x == v {
            assert(s.push(v)[s.len() as int] == x);
        }
    }
}

/// The draw submissions one object contributes when drawn: its
/// material's gated passes when its mesh and material handles are
/// valid, nothing at all otherwise.
pub open spec fn object_submits(
    o: Object,
    meshes: MeshManager,
    mats_len: int,
    hpm: bool,
) -> Seq<DrawCall> {
    if (o.mesh as int) < meshes.meshes@.len() && (o.data.material as int) < mats_len {
        object_draws(o.data, 3 * meshes.meshes@[o.mesh as int].faces.logical_len(), hpm)
    } else {
        Seq::empty()
    }
}

/// What rendering node `j` submits: its object's passes, or nothing
/// for a bare group node.
pub open spec fn node_submits(
    g: Scene,
    meshes: MeshManager,
    mats_len: int,
    hpm: bool,
    j: int,
) -> Seq<DrawCall> {
    match g.nodes@[j].object {
        Some(o) => object_submits(o, meshes, mats_len, hpm),
        None => Seq::empty(),
    }
}

/// The submissions of a list of nodes, in list order.
pub open spec fn submits_concat(
    g: Scene,
    meshes: MeshManager,
    mats_len: int,
    hpm: bool,
    ns: Seq<int>,
) -> Seq<DrawCall>
    decreases ns.len(),
{
    if ns.len() == 0 {
        Seq::empty()
    } else {
        node_submits(g, meshes, mats_len, hpm, ns[0]) + submits_concat(
            g,
            meshes,
            mats_len,
            hpm,
            ns.drop_first(),
        )
    }
}

/// Extending the node list appends that node's submissions.
proof fn lemma_submits_concat_push(
    g: Scene,
    meshes: MeshManager,
    mats_len: int,
    hpm: bool,
    ns: Seq<int>,
    j: int,
)
    ensures
        submits_concat(g, meshes, mats_len, hpm, ns.push(j)) == submits_concat(
            g,
            meshes,
            mats_len,
            hpm,
            ns,
        ) + node_submits(g, meshes, mats_len, hpm, j),
    decreases ns.len(),
{
    if ns.len() == 0 {
        assert(ns.push(j)[0] == j);
        assert(ns.push(j).drop_first() =~= ns);
        assert(submits_concat(g, meshes, mats_len, hpm, ns.push(j)) =~= submits_concat(
            g,
            meshes,
            mats_len,
            hpm,
            ns,
        ) + node_submits(g, meshes, mats_len, hpm, j));
    } else {
        assert(ns.push(j)[0] == ns[0]);
        assert(ns.push(j).drop_first() =~= ns.drop_first().push(j));
        lemma_submits_concat_push(g, meshes, mats_len, hpm, ns.drop_first(), j);
        assert(submits_concat(g, meshes, mats_len, hpm, ns.push(j)) =~= submits_concat(
            g,
            meshes,
            mats_len,
            hpm,
            ns,
        ) + node_submits(g, meshes, mats_len, hpm, j));
    }
}

impl Object {
    /// Delegates one draw of this object: exactly the passes its
    /// attributes enable over its mesh, through its material, when
    /// both handles are valid — and nothing at all when either handle
    /// is dangling.
    pub fn render(
        &self,
        pass: usize,
        transform: &crate::transform::Iso3,
        scale: &Vec3,
        cam: &CameraInput,
        light: &Light,
        meshes: &mut MeshManager,
        materials: &mut MaterialManager,
        ctxt: &mut RenderContext,
    )
        requires
            old(meshes).wf(),
            old(materials).wf(),
            old(ctxt).attribs_enabled <= u64::MAX - 3,
            (self.mesh as int) < old(meshes).meshes@.len() ==> ({
                &&& old(meshes).meshes@[self.mesh as int].faces.logical_len() * 6
                    < usize::MAX as int
                &&& old(meshes).meshes@[self.mesh as int].faces.data is Some
            }),
        ensures
            final(meshes).wf(),
            final(materials).wf(),
            final(meshes).meshes@.len() == old(meshes).meshes@.len(),
            final(materials).materials@.len() == old(materials).materials@.len(),
            forall|i: int|
                0 <= i < final(meshes).meshes@.len()
                    ==> (#[trigger] final(meshes).meshes@[i]).faces.data
                    == old(meshes).meshes@[i].faces.data,
            forall|i: int|
                0 <= i < final(meshes).meshes@.len()
                    ==> (#[trigger] final(meshes).meshes@[i]).faces.logical_len()
                    == old(meshes).meshes@[i].faces.logical_len(),
            final(ctxt).draws@ == old(ctxt).draws@ + object_submits(
                *self,
                *old(meshes),
                old(materials).materials@.len() as int,
                old(ctxt).has_polygon_mode,
            ),
            final(ctxt).attribs_enabled == old(ctxt).attribs_enabled,
            final(ctxt).has_polygon_mode == old(ctxt).has_polygon_mode,
    {
        if self.mesh < meshes.meshes.len() && self.data.material < materials.materials.len() {
            let ghost meshes0 = meshes.meshes@;
            let mesh_id = self.mesh;
            let msh = &mut meshes.meshes[mesh_id];
            let mat = &mut materials.materials[self.data.material];
            match mat {
                Material::Object(om) => {
                    om.render(pass, transform, scale, cam, light, &self.data, msh, ctxt);
                },
            }
            proof {
                assert forall|i: int| 0 <= i < meshes.meshes@.len() implies (
                #[trigger] meshes.meshes@[i]).faces.data == old(meshes).meshes@[i].faces.data by {
                    if i != mesh_id {
                        assert(meshes.meshes@[i] == meshes0[i]);
                    }
                }
                assert forall|i: int| 0 <= i < meshes.meshes@.len() implies (
                #[trigger] meshes.meshes@[i]).faces.logical_len() == old(
                    meshes,
                ).meshes@[i].faces.logical_len() by {
                    if i != mesh_id {
                        assert(meshes.meshes@[i] == meshes0[i]);
                    }
                }
                assert forall|i: int| 0 <= i < meshes.meshes@.len() implies (
                #[trigger] meshes.meshes@[i]).wf() by {
                    if i != mesh_id {
                        assert(meshes.meshes@[i] == meshes0[i]);
                    }
                }
                assert(materials.materials@ =~= old(materials).materials@);
            }
        } else {
            proof {
                assert(ctxt.draws@ =~= old(ctxt).draws@ + object_submits(
                    *self,
                    *old(meshes),
                    old(materials).materials@.len() as int,
                    old(ctxt).has_polygon_mode,
                ));
            }
        }
    }
}

/// The mesh registry: meshes live here, nodes reference them by
/// handle, and several nodes may share one — edits through any handle
/// are seen by every node drawing that mesh.  Names resolve to
/// handles, each name to exactly one, and the built-in unit cube is
/// always registered.
pub struct MeshManager {
    /// The meshes, addressed by handle.  Handles stay valid for the
    /// registry's life; removing a name never invalidates one.
    pub meshes: Vec<Mesh>,
    /// The name bindings, each name bound once.
    pub names: Vec<(String, usize)>,
}

/// The material registry, with the same naming discipline.
pub struct MaterialManager {
    /// The materials, addressed by handle.
    pub materials: Vec<Material>,
    /// The name bindings, each name bound once.
    pub names: Vec<(String, usize)>,
    /// The handle every object starts with.
    pub default_material: usize,
}

impl MeshManager {
    /// Every registered mesh is well formed, every name binds one
    /// existing handle, and no name is bound twice.
    pub open spec fn wf(self) -> bool {
        &&& forall|i: int| 0 <= i < self.meshes@.len() ==> (#[trigger] self.meshes@[i]).wf()
        &&& forall|k: int|
            0 <= k < self.names@.len() ==> (#[trigger] self.names@[k].1 as int)
                < self.meshes@.len()
        &&& forall|k1: int, k2: int|
            0 <= k1 < k2 < self.names@.len() ==> (#[trigger] self.names@[k1].0@) != (
            #[trigger] self.names@[k2].0@)
    }

    /// A registry holding the built-in unit cube under its name.
    pub fn new() -> (m: MeshManager)
        ensures
            m.wf(),
            m.meshes@.len() == 1,
            m.names@.len() == 1,
            m.names@[0].1 == 0,
    {
        let cube = crate::mesh::unit_cube();
        let mut meshes: Vec<Mesh> = Vec::new();
        meshes.push(cube);
        let mut names: Vec<(String, usize)> = Vec::new();
        names.push(("cube".to_owned(), 0));
        MeshManager { meshes, names }
    }

    /// The position of a name among the bindings, if bound.
    fn find(&self, name: &str) -> (r: Option<usize>)
        ensures
            r matches Some(k) ==> (k as int) < self.names@.len() && self.names@[k as int].0@
                == name@,
            r is None ==> forall|k: int|
                0 <= k < self.names@.len() ==> (#[trigger] self.names@[k].0@) != name@,
    {
        let owned = name.to_owned();
        let mut k: usize = 0;
        while k < self.names.len()
            invariant
                k <= self.names@.len(),
                owned@ == name@,
                forall|m: int| 0 <= m < k ==> (#[trigger] self.names@[m].0@) != name@,
            decreases self.names@.len() - k,
        {
            if self.names[k].0 == owned {
                return Some(k);
            }
            k += 1;
        }
        None
    }

    /// The handle a name resolves to, if bound.
    pub fn get(&self, name: &str) -> (r: Option<usize>)
        requires
            self.wf(),
        ensures
            r matches Some(id) ==> (id as int) < self.meshes@.len() && exists|k: int|
                0 <= k < self.names@.len() && (#[trigger] self.names@[k]).0@ == name@
                    && self.names@[k].1 == id,
            r is None ==> forall|k: int|
                0 <= k < self.names@.len() ==> (#[trigger] self.names@[k].0@) != name@,
    {
        match self.find(name) {
            Some(k) => Some(self.names[k].1),
            None => None,
        }
    }

    /// Registers a mesh under `name` and hands back its handle; a name
    /// already bound is rebound to the new mesh, and the mesh it bound
    /// before stays reachable through its handle.
    pub fn add(&mut self, mesh: Mesh, name: &str) -> (id: usize)
        requires
            old(self).wf(),
            mesh.wf(),
            old(self).meshes@.len() < usize::MAX as int,
            old(self).names@.len() < usize::MAX as int,
        ensures
            final(self).wf(),
            id as int == old(self).meshes@.len(),
            final(self).meshes@ == old(self).meshes@.push(mesh),
            exists|k: int|
                0 <= k < final(self).names@.len() && (#[trigger] final(self).names@[k]).0@
                    == name@ && final(self).names@[k].1 == id,
    {
        let id = self.meshes.len();
        self.meshes.push(mesh);
        proof {
            assert forall|i: int| 0 <= i < self.meshes@.len() implies (
            #[trigger] self.meshes@[i]).wf() by {
                if i < old(self).meshes@.len() {
                    assert(old(self).wf());
                }
            }
        }
        match self.find(name) {
            Some(k) => {
                let owned = name.to_owned();
                self.names[k] = (owned, id);
                proof {
                    assert(self.names@[k as int].0@ == name@);
                    assert forall|k1: int, k2: int|
                        0 <= k1 < k2 < self.names@.len() implies (
                    #[trigger] self.names@[k1].0@) != (#[trigger] self.names@[k2].0@) by {
                        assert(old(self).names@[k1].0@ != old(self).names@[k2].0@);
                    }
                }
            },
            None => {
                let owned = name.to_owned();
                self.names.push((owned, id));
                proof {
                    assert(self.names@.last().0@ == name@);
                    assert forall|k1: int, k2: int|
                        0 <= k1 < k2 < self.names@.len() implies (
                    #[trigger] self.names@[k1].0@) != (#[trigger] self.names@[k2].0@) by {
                        if k2 < old(self).names@.len() {
                            assert(old(self).names@[k1].0@ != old(self).names@[k2].0@);
                        } else {
                            assert(old(self).names@[k1].0@ != name@);
                        }
                    }
                }
            },
        }
        id
    }

    /// Unbinds a name.  The mesh it bound keeps its handle and stays
    /// drawable; only the name lookup forgets it.
    pub fn remove(&mut self, name: &str)
        requires
            old(self).wf(),
        ensures
            final(self).wf(),
            final(self).meshes@ == old(self).meshes@,
            forall|k: int|
                0 <= k < final(self).names@.len() ==> (#[trigger] final(self).names@[k].0@)
                    != name@,
    {
        match self.find(name) {
            Some(k) => {
                let ghost names0 = self.names@;
                let _ = self.names.swap_remove(k);
                proof {
                    let ch = self.names@;
                    assert forall|m: int| 0 <= m < ch.len() implies (#[trigger] ch[m].0@)
                        != name@ by {
                        if m == k {
                            assert(ch[m] == names0[names0.len() - 1]);
                            if names0.len() - 1 != k as int {
                                assert(names0[k as int].0@ != names0[names0.len() - 1].0@);
                            }
                        } else {
                            assert(ch[m] == names0[m]);
                            assert(names0[m].0@ != name@) by {
                                if names0[m].0@ == name@ {
                                    assert(names0[m].0@ == names0[k as int].0@);
                                    assert(false);
                                }
                            }
                        }
                    }
                    assert forall|k1: int, k2: int|
                        0 <= k1 < k2 < self.names@.len() implies (
                    #[trigger] self.names@[k1].0@) != (#[trigger] self.names@[k2].0@) by {
                        let a = if k1 == k as int { names0.len() - 1 } else { k1 };
                        let b = if k2 == k as int { names0.len() - 1 } else { k2 };
                        assert(self.names@[k1] == names0[a]);
                        assert(self.names@[k2] == names0[b]);
                        assert(a != b);
                        if a < b {
                            assert(names0[a].0@ != names0[b].0@);
                        } else {
                            assert(names0[b].0@ != names0[a].0@);
                        }
                    }
                    assert forall|m: int| 0 <= m < self.names@.len() implies (
                    #[trigger] self.names@[m].1 as int) < self.meshes@.len() by {
                        if m == k as int {
                            assert(self.names@[m] == names0[names0.len() - 1]);
                        } else {
                            assert(self.names@[m] == names0[m]);
                        }
                    }
                }
            },
            None => {},
        }
    }

    /// How many meshes are registered.
    pub fn len(&self) -> (r: usize)
        ensures
            r as int == self.meshes@.len(),
    {
        self.meshes.len()
    }
}

impl MaterialManager {
    /// Every dispatch through a registered material is defined, every
    /// name binds one existing handle, and no name is bound twice.
    pub open spec fn wf(self) -> bool {
        &&& self.materials@.len() > 0
        &&& (self.default_material as int) < self.materials@.len()
        &&& forall|k: int|
            0 <= k < self.names@.len() ==> (#[trigger] self.names@[k].1 as int)
                < self.materials@.len()
        &&& forall|k1: int, k2: int|
            0 <= k1 < k2 < self.names@.len() ==> (#[trigger] self.names@[k1].0@) != (
            #[trigger] self.names@[k2].0@)
    }

    /// A registry holding the built-in object material as the default,
    /// registered under its name.
    pub fn new(vshader_src: &str, fshader_src: &str, ctxt: &mut RenderContext) -> (m:
        MaterialManager)
        requires
            old(ctxt).next_id <= u64::MAX - 13,
        ensures
            m.wf(),
            m.default_material == 0,
    {
        let om = ObjectMaterial::new(vshader_src, fshader_src, ctxt);
        let mut materials: Vec<Material> = Vec::new();
        materials.push(Material::Object(om));
        let mut names: Vec<(String, usize)> = Vec::new();
        names.push(("object".to_owned(), 0));
        MaterialManager { materials, names, default_material: 0 }
    }

    /// The handle of the default material.
    pub fn get_default(&self) -> (r: usize)
        ensures
            r == self.default_material,
    {
        self.default_material
    }

    /// The handle a name resolves to, if bound.
    pub fn get(&self, name: &str) -> (r: Option<usize>)
        requires
            self.wf(),
        ensures
            r matches Some(id) ==> (id as int) < self.materials@.len() && exists|k: int|
                0 <= k < self.names@.len() && (#[trigger] self.names@[k]).0@ == name@
                    && self.names@[k].1 == id,
            r is None ==> forall|k: int|
                0 <= k < self.names@.len() ==> (#[trigger] self.names@[k].0@) != name@,
    {
        let owned = name.to_owned();
        let mut k: usize = 0;
        while k < self.names.len()
            invariant
                self.wf(),
                k <= self.names@.len(),
                owned@ == name@,
                forall|m: int| 0 <= m < k ==> (#[trigger] self.names@[m].0@) != name@,
            decreases self.names@.len() - k,
        {
            if self.names[k].0 == owned {
                return Some(self.names[k].1);
            }
            k += 1;
        }
        None
    }

    /// Registers a material under `name` and hands back its handle; a
    /// name already bound is rebound.
    pub fn add(&mut self, material: Material, name: &str) -> (id: usize)
        requires
            old(self).wf(),
            old(self).materials@.len() < usize::MAX as int,
            old(self).names@.len() < usize::MAX as int,
        ensures
            final(self).wf(),
            id as int == old(self).materials@.len(),
            final(self).materials@.len() == old(self).materials@.len() + 1,
            final(self).default_material == old(self).default_material,
            exists|k: int|
                0 <= k < final(self).names@.len() && (#[trigger] final(self).names@[k]).0@
                    == name@ && final(self).names@[k].1 == id,
    {
        let id = self.materials.len();
        self.materials.push(material);
        let owned = name.to_owned();
        let mut k: usize = 0;
        let nnames: usize = self.names.len();
        while k < nnames
            invariant
                nnames as int == self.names@.len(),
                k <= nnames,
                owned@ == name@,
                id as int == old(self).materials@.len(),
                self.materials@.len() == old(self).materials@.len() + 1,
                self.default_material == old(self).default_material,
                self.names@ == old(self).names@,
                old(self).wf(),
                forall|m: int| 0 <= m < k ==> (#[trigger] self.names@[m].0@) != name@,
            decreases nnames - k,
        {
            if self.names[k].0 == owned {
                self.names[k] = (owned, id);
                proof {
                    assert(self.names@[k as int].0@ == name@);
                    assert forall|k1: int, k2: int|
                        0 <= k1 < k2 < self.names@.len() implies (
                    #[trigger] self.names@[k1].0@) != (#[trigger] self.names@[k2].0@) by {
                        assert(old(self).names@[k1].0@ != old(self).names@[k2].0@);
                    }
                }
                return id;
            }
            k += 1;
        }
        self.names.push((owned, id));
        proof {
            assert(self.names@.last().0@ == name@);
            assert forall|k1: int, k2: int|
                0 <= k1 < k2 < self.names@.len() implies (#[trigger] self.names@[k1].0@) != (
            #[trigger] self.names@[k2].0@) by {
                if k2 < old(self).names@.len() {
                    assert(old(self).names@[k1].0@ != old(self).names@[k2].0@);
                } else {
                    assert(old(self).names@[k1].0@ != name@);
                }
            }
        }
        id
    }
}

impl Scene {
    /// Replaces the local translation, keeping the rotation.
    pub fn set_local_translation(&mut self, i: usize, t: Vec3)
        requires
            old(self).wf(),
            (i as int) < old(self).n(),
        ensures
            final(self).wf(),
            final(self).n() == old(self).n(),
            final(self).depth == old(self).depth,
            forall|j: int|
                0 <= j < old(self).n() && j != i ==> final(self).nodes@[j] == (SceneNodeData {
                    up_to_date: old(self).nodes@[j].up_to_date && !reaches(
                        old(self).par(),
                        old(self).dep(),
                        i as int,
                        j,
                    ),
                    ..old(self).nodes@[j]
                }),
            final(self).nodes@[i as int] == (SceneNodeData {
                local_transform: (Iso3 {
                    translation: t,
                    ..old(self).nodes@[i as int].local_transform
                }),
                up_to_date: false,
                ..old(self).nodes@[i as int]
            }),
            final(self).invalidations >= old(self).invalidations,
            !old(self).nodes@[i as int].up_to_date ==> final(self).invalidations == old(self).invalidations,
    {
        let cur = self.local_transformation(i);
        self.set_local_transformation(i, Iso3 { rotation: cur.rotation, translation: t });
    }

    /// Replaces the local rotation, keeping the translation.
    pub fn set_local_rotation(&mut self, i: usize, r: Quat)
        requires
            old(self).wf(),
            (i as int) < old(self).n(),
        ensures
            final(self).wf(),
            final(self).n() == old(self).n(),
            final(self).depth == old(self).depth,
            forall|j: int|
                0 <= j < old(self).n() && j != i ==> final(self).nodes@[j] == (SceneNodeData {
                    up_to_date: old(self).nodes@[j].up_to_date && !reaches(
                        old(self).par(),
                        old(self).dep(),
                        i as int,
                        j,
                    ),
                    ..old(self).nodes@[j]
                }),
            final(self).nodes@[i as int] == (SceneNodeData {
                local_transform: (Iso3 {
                    rotation: r,
                    ..old(self).nodes@[i as int].local_transform
                }),
                up_to_date: false,
                ..old(self).nodes@[i as int]
            }),
            final(self).invalidations >= old(self).invalidations,
            !old(self).nodes@[i as int].up_to_date ==> final(self).invalidations == old(self).invalidations,
    {
        let cur = self.local_transformation(i);
        self.set_local_transformation(i, Iso3 { rotation: r, translation: cur.translation });
    }

    /// The local translation of `i`.
    pub fn local_translation(&self, i: usize) -> (r: Vec3)
        requires
            i < self.n(),
        ensures
            r == self.nodes@[i as int].local_transform.translation,
    {
        self.nodes[i].local_transform.translation
    }

    /// The local rotation of `i`.
    pub fn local_rotation(&self, i: usize) -> (r: Quat)
        requires
            i < self.n(),
        ensures
            r == self.nodes@[i as int].local_transform.rotation,
    {
        self.nodes[i].local_transform.rotation
    }

    /// The inverse of the local translation of `i`.
    pub fn inverse_local_translation(&self, i: usize) -> (r: Vec3)
        requires
            i < self.n(),
        ensures
            r == crate::algebra::neg3_spec(self.nodes@[i as int].local_transform.translation),
    {
        self.nodes[i].local_transform.translation.vneg()
    }

    /// The inverse of the local rotation of `i`.
    pub fn inverse_local_rotation(&self, i: usize) -> (r: Quat)
        requires
            i < self.n(),
        ensures
            r == crate::algebra::qconj_spec(self.nodes@[i as int].local_transform.rotation),
    {
        self.nodes[i].local_transform.rotation.conjugate()
    }

    /// Moves `i` by `t` in its parent's frame.
    pub fn append_translation(&mut self, i: usize, t: &Vec3)
        requires
            old(self).wf(),
            (i as int) < old(self).n(),
        ensures
            final(self).wf(),
            final(self).n() == old(self).n(),
            final(self).depth == old(self).depth,
            forall|j: int|
                0 <= j < old(self).n() && j != i ==> final(self).nodes@[j] == (SceneNodeData {
                    up_to_date: old(self).nodes@[j].up_to_date && !reaches(
                        old(self).par(),
                        old(self).dep(),
                        i as int,
                        j,
                    ),
                    ..old(self).nodes@[j]
                }),
            final(self).nodes@[i as int] == (SceneNodeData {
                local_transform: Iso3::compose_spec(
                    (Iso3 {
                        rotation: Quat { w: crate::fx::FX_ONE, x: 0, y: 0, z: 0 },
                        translation: *t,
                    }),
                    old(self).nodes@[i as int].local_transform,
                ),
                up_to_date: false,
                ..old(self).nodes@[i as int]
            }),
            final(self).invalidations >= old(self).invalidations,
            !old(self).nodes@[i as int].up_to_date ==> final(self).invalidations == old(self).invalidations,
    {
        let iso = Iso3::from_translation(*t);
        self.append_transformation(i, &iso);
    }

    /// Rotates `i` by `r` in its parent's frame.
    pub fn append_rotation(&mut self, i: usize, r: &Quat)
        requires
            old(self).wf(),
            (i as int) < old(self).n(),
        ensures
            final(self).wf(),
            final(self).n() == old(self).n(),
            final(self).depth == old(self).depth,
            forall|j: int|
                0 <= j < old(self).n() && j != i ==> final(self).nodes@[j] == (SceneNodeData {
                    up_to_date: old(self).nodes@[j].up_to_date && !reaches(
                        old(self).par(),
                        old(self).dep(),
                        i as int,
                        j,
                    ),
                    ..old(self).nodes@[j]
                }),
            final(self).nodes@[i as int] == (SceneNodeData {
                local_transform: Iso3::compose_spec(
                    (Iso3 { rotation: *r, translation: Vec3 { x: 0, y: 0, z: 0 } }),
                    old(self).nodes@[i as int].local_transform,
                ),
                up_to_date: false,
                ..old(self).nodes@[i as int]
            }),
            final(self).invalidations >= old(self).invalidations,
            !old(self).nodes@[i as int].up_to_date ==> final(self).invalidations == old(self).invalidations,
    {
        let iso = Iso3::from_rotation(*r);
        self.append_transformation(i, &iso);
    }

    /// Moves `i` by `t` in its own local frame.
    pub fn prepend_to_local_translation(&mut self, i: usize, t: &Vec3)
        requires
            old(self).wf(),
            (i as int) < old(self).n(),
        ensures
            final(self).wf(),
            final(self).n() == old(self).n(),
            final(self).depth == old(self).depth,
            forall|j: int|
                0 <= j < old(self).n() && j != i ==> final(self).nodes@[j] == (SceneNodeData {
                    up_to_date: old(self).nodes@[j].up_to_date && !reaches(
                        old(self).par(),
                        old(self).dep(),
                        i as int,
                        j,
                    ),
                    ..old(self).nodes@[j]
                }),
            final(self).nodes@[i as int] == (SceneNodeData {
                local_transform: Iso3::compose_spec(
                    old(self).nodes@[i as int].local_transform,
                    (Iso3 {
                        rotation: Quat { w: crate::fx::FX_ONE, x: 0, y: 0, z: 0 },
                        translation: *t,
                    }),
                ),
                up_to_date: false,
                ..old(self).nodes@[i as int]
            }),
            final(self).invalidations >= old(self).invalidations,
            !old(self).nodes@[i as int].up_to_date ==> final(self).invalidations == old(self).invalidations,
    {
        let iso = Iso3::from_translation(*t);
        self.prepend_to_local_transformation(i, &iso);
    }

    /// Rotates `i` by `r` in its own local frame, so repeated calls
    /// compound regardless of the current orientation.
    pub fn prepend_to_local_rotation(&mut self, i: usize, r: &Quat)
        requires
            old(self).wf(),
            (i as int) < old(self).n(),
        ensures
            final(self).wf(),
            final(self).n() == old(self).n(),
            final(self).depth == old(self).depth,
            forall|j: int|
                0 <= j < old(self).n() && j != i ==> final(self).nodes@[j] == (SceneNodeData {
                    up_to_date: old(self).nodes@[j].up_to_date && !reaches(
                        old(self).par(),
                        old(self).dep(),
                        i as int,
                        j,
                    ),
                    ..old(self).nodes@[j]
                }),
            final(self).nodes@[i as int] == (SceneNodeData {
                local_transform: Iso3::compose_spec(
                    old(self).nodes@[i as int].local_transform,
                    (Iso3 { rotation: *r, translation: Vec3 { x: 0, y: 0, z: 0 } }),
                ),
                up_to_date: false,
                ..old(self).nodes@[i as int]
            }),
            final(self).invalidations >= old(self).invalidations,
            !old(self).nodes@[i as int].up_to_date ==> final(self).invalidations == old(self).invalidations,
    {
        let iso = Iso3::from_rotation(*r);
        self.prepend_to_local_transformation(i, &iso);
    }

    /// Adds an empty group node under `parent`.
    pub fn add_group(&mut self, parent: usize) -> (id: usize)
        requires
            old(self).wf(),
            (parent as int) < old(self).n(),
            old(self).n() < usize::MAX as int,
        ensures
            final(self).wf(),
            id as int == old(self).n(),
            final(self).n() == old(self).n() + 1,
            final(self).nodes@[id as int].parent == Some(parent),
            final(self).nodes@[id as int].object is None,
    {
        self.new_child(parent, Iso3::identity(), Vec3::ones(), None)
    }

    /// Adds a node carrying `object` under `parent`.
    pub fn add_object(&mut self, parent: usize, local_scale: Vec3, local_transform: Iso3, object: Object) -> (id: usize)
        requires
            old(self).wf(),
            (parent as int) < old(self).n(),
            old(self).n() < usize::MAX as int,
        ensures
            final(self).wf(),
            id as int == old(self).n(),
            final(self).n() == old(self).n() + 1,
            final(self).nodes@[id as int].parent == Some(parent),
            final(self).nodes@[id as int].object == Some(object),
            final(self).nodes@[id as int].local_transform == local_transform,
            final(self).nodes@[id as int].local_scale == local_scale,
    {
        self.new_child(parent, local_transform, local_scale, Some(object))
    }

    /// Adds a node drawing `mesh` with the default texture and
    /// material, scaled by `scale`.
    pub fn add_mesh(
        &mut self,
        parent: usize,
        mesh: usize,
        scale: Vec3,
        default_texture: u64,
        materials: &MaterialManager,
    ) -> (id: usize)
        requires
            old(self).wf(),
            (parent as int) < old(self).n(),
            old(self).n() < usize::MAX as int,
            materials.wf(),
        ensures
            final(self).wf(),
            id as int == old(self).n(),
            final(self).n() == old(self).n() + 1,
            final(self).nodes@[id as int].object matches Some(o) && o.mesh == mesh
                && o.data.material == materials.default_material,
            final(self).nodes@[id as int].local_scale == scale,
    {
        let mat = materials.get_default();
        let object = Object::new(mesh, crate::fx::FX_ONE, crate::fx::FX_ONE, crate::fx::FX_ONE,
            default_texture, mat);
        self.add_object(parent, scale, Iso3::identity(), object)
    }

    /// Adds a node drawing the mesh registered under `name`, scaled by
    /// `scale`; an unbound name adds nothing and reports the miss.
    pub fn add_geom_with_name(
        &mut self,
        parent: usize,
        name: &str,
        scale: Vec3,
        meshes: &MeshManager,
        default_texture: u64,
        materials: &MaterialManager,
    ) -> (r: Option<usize>)
        requires
            old(self).wf(),
            (parent as int) < old(self).n(),
            old(self).n() < usize::MAX as int,
            meshes.wf(),
            materials.wf(),
        ensures
            final(self).wf(),
            (forall|k: int|
                0 <= k < meshes.names@.len() ==> (#[trigger] meshes.names@[k].0@) != name@)
                ==> r is None && *final(self) == *old(self),
            r matches Some(id) ==> id as int == old(self).n() && final(self).n() == old(self).n()
                + 1 && (final(self).nodes@[id as int].object matches Some(o) && (o.mesh as int)
                < meshes.meshes@.len() && o.data.material == materials.default_material)
                && final(self).nodes@[id as int].local_scale == scale,
            r is None ==> *final(self) == *old(self),
    {
        match meshes.get(name) {
            Some(mid) => Some(self.add_mesh(parent, mid, scale, default_texture, materials)),
            None => None,
        }
    }

    /// Adds a cube of the given half-axis extents, drawn from the
    /// registry's built-in cube geometry.
    pub fn add_cube(
        &mut self,
        parent: usize,
        wx: i32,
        wy: i32,
        wz: i32,
        meshes: &MeshManager,
        default_texture: u64,
        materials: &MaterialManager,
    ) -> (r: Option<usize>)
        requires
            old(self).wf(),
            (parent as int) < old(self).n(),
            old(self).n() < usize::MAX as int,
            meshes.wf(),
            materials.wf(),
        ensures
            final(self).wf(),
            r matches Some(id) ==> id as int == old(self).n() && final(self).n() == old(self).n()
                + 1 && final(self).nodes@[id as int].local_scale == (Vec3 { x: wx, y: wy, z: wz }),
            r is None ==> *final(self) == *old(self),
    {
        self.add_geom_with_name(parent, "cube", Vec3 { x: wx, y: wy, z: wz }, meshes,
            default_texture, materials)
    }

    /// One bulk edit of object attributes, applied over a subtree.
    pub fn edit_objects(&mut self, i: usize, e: ObjectEdit)
        requires
            old(self).wf(),
            (i as int) < old(self).n(),
        ensures
            final(self).wf(),
            final(self).n() == old(self).n(),
            final(self).depth == old(self).depth,
            final(self).invalidations == old(self).invalidations,
            forall|j: int|
                0 <= j < old(self).n() ==> #[trigger] crate::scene::same_node_core(
                    final(self).nodes@[j],
                    old(self).nodes@[j],
                ) && final(self).nodes@[j].visible == old(self).nodes@[j].visible,
            forall|j: int|
                0 <= j < old(self).n() && !reaches(old(self).par(), old(self).dep(), i as int, j)
                    ==> final(self).nodes@[j].object == old(self).nodes@[j].object,
            forall|j: int|
                0 <= j < old(self).n() && reaches(old(self).par(), old(self).dep(), i as int, j)
                    ==> final(self).nodes@[j].object == apply_edit(old(self).nodes@[j].object, e),
    {
        let mut ids: Vec<usize> = Vec::new();
        self.collect_subtree(i, &mut ids);
        proof {
            assert forall|m: int| 0 <= m < ids@.len() implies (#[trigger] ids@[m] as int) < self.n()
                && reaches(self.par(), self.dep(), i as int, ids@[m] as int) by {
                assert(ids@.contains(ids@[m]));
            }
        }
        let ghost g0 = *self;
        let nids: usize = ids.len();
        let mut k: usize = 0;
        while k < nids
            invariant
                g0 == *old(self),
                g0.wf(),
                self.wf(),
                (i as int) < g0.n(),
                nids as int == ids@.len(),
                self.n() == g0.n(),
                self.depth == g0.depth,
                self.invalidations == g0.invalidations,
                forall|m: int|
                    0 <= m < ids@.len() ==> (#[trigger] ids@[m] as int) < g0.n() && reaches(
                        g0.par(),
                        g0.dep(),
                        i as int,
                        ids@[m] as int,
                    ),
                forall|x: usize| #![trigger ids@.contains(x)]
                    ids@.contains(x) == ((x as int) < g0.n() && reaches(
                        g0.par(),
                        g0.dep(),
                        i as int,
                        x as int,
                    )),
                forall|j: int|
                    0 <= j < g0.n() ==> #[trigger] crate::scene::same_node_core(
                        self.nodes@[j],
                        g0.nodes@[j],
                    ) && self.nodes@[j].visible == g0.nodes@[j].visible,
                forall|j: int|
                    0 <= j < g0.n() ==> (#[trigger] self.nodes@[j].object == g0.nodes@[j].object
                        || self.nodes@[j].object == apply_edit(g0.nodes@[j].object, e)),
                forall|j: int|
                    0 <= j < g0.n() && !ids@.contains(j as usize) ==> (
                    #[trigger] self.nodes@[j].object) == g0.nodes@[j].object,
                forall|m: int|
                    0 <= m < k ==> (#[trigger] self.nodes@[ids@[m] as int].object) == apply_edit(
                        g0.nodes@[ids@[m] as int].object,
                        e,
                    ),
            decreases nids - k,
        {
            let id = ids[k];
            proof {
                assert(ids@[k as int] == id);
            }
            let ghost gpre = *self;
            let slot = self.object_mut(id);
            match slot {
                Some(ob) => {
                    match e {
                        ObjectEdit::Color(c) => {
                            ob.data.color = c;
                        },
                        ObjectEdit::LinesWidth(w) => {
                            ob.data.wlines = w;
                        },
                        ObjectEdit::LinesColor(c) => {
                            ob.data.lines_color = c;
                        },
                        ObjectEdit::PointsSize(p) => {
                            ob.data.wpoints = p;
                        },
                        ObjectEdit::Surface(b) => {
                            ob.data.draw_surface = b;
                        },
                        ObjectEdit::Cull(b) => {
                            ob.data.cull = b;
                        },
                        ObjectEdit::Texture(t) => {
                            ob.data.texture = t;
                        },
                        ObjectEdit::MaterialHandle(m) => {
                            ob.data.material = m;
                        },
                    }
                },
                None => {},
            }
            proof {
                assert(self.nodes@[id as int].object == apply_edit(gpre.nodes@[id as int].object, e));
                assert forall|j: int| 0 <= j < g0.n() implies #[trigger] crate::scene::same_node_core(
                    self.nodes@[j],
                    gpre.nodes@[j],
                ) by {}
                Scene::lemma_same_core_wf(gpre, *self);
                assert forall|j: int| 0 <= j < g0.n() implies #[trigger] crate::scene::same_node_core(
                    self.nodes@[j],
                    g0.nodes@[j],
                ) && self.nodes@[j].visible == g0.nodes@[j].visible by {
                    assert(crate::scene::same_node_core(gpre.nodes@[j], g0.nodes@[j]));
                    assert(crate::scene::same_node_core(self.nodes@[j], gpre.nodes@[j]));
                }
                assert forall|m: int| 0 <= m < k + 1 implies (
                #[trigger] self.nodes@[ids@[m] as int].object) == apply_edit(
                    g0.nodes@[ids@[m] as int].object,
                    e,
                ) by {
                    if m < k && ids@[m] as int != id as int {
                        assert(self.nodes@[ids@[m] as int] == gpre.nodes@[ids@[m] as int]);
                    }
                    if ids@[m] as int == id as int {
                        if gpre.nodes@[id as int].object == g0.nodes@[id as int].object {
                        } else {
                            assert(gpre.nodes@[id as int].object == apply_edit(
                                g0.nodes@[id as int].object,
                                e,
                            ));
                            assert(apply_edit(apply_edit(g0.nodes@[id as int].object, e), e)
                                == apply_edit(g0.nodes@[id as int].object, e));
                        }
                    }
                }
            }
            k += 1;
        }
        proof {
            assert forall|j: int|
                0 <= j < g0.n() && reaches(g0.par(), g0.dep(), i as int, j) implies (
            #[trigger] final(self).nodes@[j].object) == apply_edit(g0.nodes@[j].object, e) by {
                assert(ids@.contains(j as usize));
                let m = choose|m: int| 0 <= m < ids@.len() && ids@[m] == j as usize;
                assert(self.nodes@[ids@[m] as int].object == apply_edit(
                    g0.nodes@[ids@[m] as int].object,
                    e,
                ));
            }
        }
    }

    /// Sets the base color of every object in the subtree of `i`.
    pub fn set_color(&mut self, i: usize, r: i32, g: i32, b: i32)
        requires
            old(self).wf(),
            (i as int) < old(self).n(),
        ensures
            final(self).wf(),
            final(self).n() == old(self).n(),
            forall|j: int|
                0 <= j < old(self).n() && reaches(old(self).par(), old(self).dep(), i as int, j)
                    ==> final(self).nodes@[j].object == apply_edit(
                    old(self).nodes@[j].object,
                    ObjectEdit::Color(Vec3 { x: r, y: g, z: b }),
                ),
            forall|j: int|
                0 <= j < old(self).n() && !reaches(old(self).par(), old(self).dep(), i as int, j)
                    ==> final(self).nodes@[j].object == old(self).nodes@[j].object,
    {
        self.edit_objects(i, ObjectEdit::Color(Vec3 { x: r, y: g, z: b }))
    }

    /// Sets the wireframe overlay width of every object in the subtree
    /// of `i`; zero disables the overlay.
    pub fn set_lines_width(&mut self, i: usize, width: i32)
        requires
            old(self).wf(),
            (i as int) < old(self).n(),
        ensures
            final(self).wf(),
            final(self).n() == old(self).n(),
            forall|j: int|
                0 <= j < old(self).n() && reaches(old(self).par(), old(self).dep(), i as int, j)
                    ==> final(self).nodes@[j].object == apply_edit(
                    old(self).nodes@[j].object,
                    ObjectEdit::LinesWidth(width),
                ),
    {
        self.edit_objects(i, ObjectEdit::LinesWidth(width))
    }

    /// Sets the point overlay size of every object in the subtree of
    /// `i`; zero disables the overlay.
    pub fn set_points_size(&mut self, i: usize, size: i32)
        requires
            old(self).wf(),
            (i as int) < old(self).n(),
        ensures
            final(self).wf(),
            final(self).n() == old(self).n(),
            forall|j: int|
                0 <= j < old(self).n() && reaches(old(self).par(), old(self).dep(), i as int, j)
                    ==> final(self).nodes@[j].object == apply_edit(
                    old(self).nodes@[j].object,
                    ObjectEdit::PointsSize(size),
                ),
    {
        self.edit_objects(i, ObjectEdit::PointsSize(size))
    }

    /// Toggles the filled surface pass of every object in the subtree
    /// of `i`.
    pub fn set_surface_rendering_activation(&mut self, i: usize, active: bool)
        requires
            old(self).wf(),
            (i as int) < old(self).n(),
        ensures
            final(self).wf(),
            final(self).n() == old(self).n(),
            forall|j: int|
                0 <= j < old(self).n() && reaches(old(self).par(), old(self).dep(), i as int, j)
                    ==> final(self).nodes@[j].object == apply_edit(
                    old(self).nodes@[j].object,
                    ObjectEdit::Surface(active),
                ),
    {
        self.edit_objects(i, ObjectEdit::Surface(active))
    }

    /// Toggles backface culling of every object in the subtree of `i`.
    pub fn enable_backface_culling(&mut self, i: usize, active: bool)
        requires
            old(self).wf(),
            (i as int) < old(self).n(),
        ensures
            final(self).wf(),
            final(self).n() == old(self).n(),
            forall|j: int|
                0 <= j < old(self).n() && reaches(old(self).par(), old(self).dep(), i as int, j)
                    ==> final(self).nodes@[j].object == apply_edit(
                    old(self).nodes@[j].object,
                    ObjectEdit::Cull(active),
                ),
    {
        self.edit_objects(i, ObjectEdit::Cull(active))
    }

    /// Points every object in the subtree of `i` at a texture.
    pub fn set_texture(&mut self, i: usize, texture: u64)
        requires
            old(self).wf(),
            (i as int) < old(self).n(),
        ensures
            final(self).wf(),
            final(self).n() == old(self).n(),
            forall|j: int|
                0 <= j < old(self).n() && reaches(old(self).par(), old(self).dep(), i as int, j)
                    ==> final(self).nodes@[j].object == apply_edit(
                    old(self).nodes@[j].object,
                    ObjectEdit::Texture(texture),
                ),
    {
        self.edit_objects(i, ObjectEdit::Texture(texture))
    }

    /// Points every object in the subtree of `i` at a material.
    pub fn set_material(&mut self, i: usize, material: usize)
        requires
            old(self).wf(),
            (i as int) < old(self).n(),
        ensures
            final(self).wf(),
            final(self).n() == old(self).n(),
            forall|j: int|
                0 <= j < old(self).n() && reaches(old(self).par(), old(self).dep(), i as int, j)
                    ==> final(self).nodes@[j].object == apply_edit(
                    old(self).nodes@[j].object,
                    ObjectEdit::MaterialHandle(material),
                ),
    {
        self.edit_objects(i, ObjectEdit::MaterialHandle(material))
    }

    /// Whether `j` takes part in rendering a pass over the subtree of
    /// `r`: every node from `j` up to `r` is visible.
    pub fn visible_from(&self, r: usize, j: usize) -> (b: bool)
        requires
            self.wf(),
            (r as int) < self.n(),
            (j as int) < self.n(),
        ensures
            b == self.vis_in(r as int, j as int),
        decreases self.dep()[j as int],
    {
        if !self.nodes[j].visible {
            false
        } else if j == r {
            true
        } else {
            proof {
                assert(self.par()[j as int] == self.nodes@[j as int].parent);
                assert(crate::scene::pd_ok(self.par(), self.dep(), j as int));
            }
            match self.nodes[j].parent {
                Some(p) => self.visible_from(r, p),
                None => false,
            }
        }
    }

    /// Renders one camera pass over the subtree of `root`: every node
    /// on an all-visible path from `root` that carries an object is
    /// resolved and drawn with its own absolute transform and scale,
    /// and the draw log grows by exactly the submissions of those
    /// nodes, each rendered once; the rest of the graph is untouched.
    pub fn render(
        &mut self,
        root: usize,
        pass: usize,
        cam: &CameraInput,
        light: &Light,
        meshes: &mut MeshManager,
        materials: &mut MaterialManager,
        ctxt: &mut RenderContext,
    )
        requires
            old(self).wf(),
            (root as int) < old(self).n(),
            old(meshes).wf(),
            old(materials).wf(),
            old(ctxt).attribs_enabled <= u64::MAX - 3,
            forall|j: int| #![trigger old(self).nodes@[j].object]
                0 <= j < old(self).n() && old(self).vis_in(root as int, j) && old(
                    self,
                ).nodes@[j].object is Some && ((old(self).nodes@[j].object->Some_0.mesh as int)
                    < old(meshes).meshes@.len()) ==> ({
                    let mid = old(self).nodes@[j].object->Some_0.mesh as int;
                    &&& old(meshes).meshes@[mid].faces.logical_len() * 6 < usize::MAX as int
                    &&& old(meshes).meshes@[mid].faces.data is Some
                }),
        ensures
            final(self).wf(),
            final(meshes).wf(),
            final(materials).wf(),
            Scene::render_frame(*old(self), *final(self), root as int),
            final(ctxt).attribs_enabled == old(ctxt).attribs_enabled,
            final(meshes).meshes@.len() == old(meshes).meshes@.len(),
            final(materials).materials@.len() == old(materials).materials@.len(),
            forall|i: int|
                0 <= i < final(meshes).meshes@.len()
                    ==> (#[trigger] final(meshes).meshes@[i]).faces.data
                    == old(meshes).meshes@[i].faces.data,
            exists|ns: Seq<int>|
                {
                    &&& ns.no_duplicates()
                    &&& (forall|j: int| #![trigger ns.contains(j)]
                        ns.contains(j) == (0 <= j < old(self).n() && old(self).vis_in(
                            root as int,
                            j,
                        ) && old(self).nodes@[j].object is Some))
                    &&& final(ctxt).draws@ == old(ctxt).draws@ + #[trigger] submits_concat(
                        *old(self),
                        *old(meshes),
                        old(materials).materials@.len() as int,
                        old(ctxt).has_polygon_mode,
                        ns,
                    )
                },
    {
        let mut ids: Vec<usize> = Vec::new();
        self.collect_subtree(root, &mut ids);
        let ghost g0 = *self;
        let ghost mats_len0 = materials.materials@.len() as int;
        let ghost hpm0 = ctxt.has_polygon_mode;
        let ghost mut ns: Seq<int> = Seq::empty();
        proof {
            Scene::lemma_render_frame_refl(*self, root as int);
            assert forall|m: int| 0 <= m < ids@.len() implies (#[trigger] ids@[m] as int) < self.n()
                && reaches(self.par(), self.dep(), root as int, ids@[m] as int) by {
                assert(ids@.contains(ids@[m]));
            }
            assert(self.fresh_for(root as int, Seq::empty()));
        }
        let nids: usize = ids.len();
        let mut k: usize = 0;
        while k < nids
            invariant
                g0 == *old(self),
                g0.wf(),
                self.wf(),
                meshes.wf(),
                materials.wf(),
                (root as int) < g0.n(),
                nids as int == ids@.len(),
                ids@.no_duplicates(),
                Scene::render_frame(g0, *self, root as int),
                forall|m: int|
                    0 <= m < ids@.len() ==> (#[trigger] ids@[m] as int) < g0.n() && reaches(
                        g0.par(),
                        g0.dep(),
                        root as int,
                        ids@[m] as int,
                    ),
                ctxt.attribs_enabled == old(ctxt).attribs_enabled,
                ctxt.attribs_enabled <= u64::MAX - 3,
                ctxt.has_polygon_mode == hpm0,
                hpm0 == old(ctxt).has_polygon_mode,
                mats_len0 == old(materials).materials@.len() as int,
                materials.materials@.len() as int == mats_len0,
                meshes.meshes@.len() == old(meshes).meshes@.len(),
                forall|i: int|
                    0 <= i < meshes.meshes@.len() ==> (#[trigger] meshes.meshes@[i]).faces.data
                        == old(meshes).meshes@[i].faces.data,
                forall|i: int|
                    0 <= i < meshes.meshes@.len() ==> (
                    #[trigger] meshes.meshes@[i]).faces.logical_len() == old(
                        meshes,
                    ).meshes@[i].faces.logical_len(),
                forall|j: int| #![trigger old(self).nodes@[j].object]
                    0 <= j < old(self).n() && old(self).vis_in(root as int, j) && old(
                        self,
                    ).nodes@[j].object is Some && ((old(self).nodes@[j].object->Some_0.mesh
                        as int) < old(meshes).meshes@.len()) ==> ({
                        let mid = old(self).nodes@[j].object->Some_0.mesh as int;
                        &&& old(meshes).meshes@[mid].faces.logical_len() * 6 < usize::MAX as int
                        &&& old(meshes).meshes@[mid].faces.data is Some
                    }),
                ns.no_duplicates(),
                forall|j: int| #![trigger ns.contains(j)]
                    ns.contains(j) == ((exists|m: int| #![trigger ids@[m]]
                        0 <= m < k && ids@[m] as int == j) && 0 <= j < g0.n() && g0.vis_in(
                        root as int,
                        j,
                    ) && g0.nodes@[j].object is Some),
                ctxt.draws@ == old(ctxt).draws@ + submits_concat(
                    g0,
                    *old(meshes),
                    mats_len0,
                    hpm0,
                    ns,
                ),
            decreases nids - k,
        {
            let id = ids[k];
            proof {
                assert(ids@[k as int] == id);
                // The graph's shape is as at entry, so visibility and
                // payloads read the same.
                Scene::lemma_shape_seqs(g0, *self);
                assert forall|j: int| 0 <= j < self.n() implies self.vis()[j] == g0.vis()[j] by {
                    assert(crate::scene::same_node_shape(self.nodes@[j], g0.nodes@[j]));
                }
                assert(self.vis() =~= g0.vis());
                assert(crate::scene::same_node_shape(
                    self.nodes@[id as int],
                    g0.nodes@[id as int],
                ));
            }
            let visible = self.visible_from(root, id);
            let drawable = visible && self.has_object(id);
            if drawable {
                let ob: Object = match self.object(id) {
                    Some(o) => *o,
                    None => {
                        proof {
                            assert(false);
                        }
                        Object::new(0, 0, 0, 0, 0, 0)
                    },
                };
                let ghost gpre = *self;
                let wt = self.world_transformation(id);
                proof {
                    Scene::lemma_render_frame_extend(g0, gpre, *self, root as int, id as int);
                }
                let ghost gmid = *self;
                let ws = self.world_scale(id);
                proof {
                    Scene::lemma_render_frame_extend(g0, gmid, *self, root as int, id as int);
                }
                let ghost mpre = *meshes;
                proof {
                    assert(g0.vis_in(root as int, id as int));
                    assert(g0.nodes@[id as int].object == Some(ob));
                    assert(old(self).nodes@[id as int].object == Some(ob));
                    if (ob.mesh as int) < meshes.meshes@.len() {
                        assert((old(self).nodes@[id as int].object->Some_0.mesh as int) < old(
                            meshes,
                        ).meshes@.len());
                        assert(old(meshes).meshes@[ob.mesh as int].faces.logical_len() * 6
                            < usize::MAX as int);
                        assert(old(meshes).meshes@[ob.mesh as int].faces.data is Some);
                        assert(meshes.meshes@[ob.mesh as int].faces.logical_len() == old(
                            meshes,
                        ).meshes@[ob.mesh as int].faces.logical_len());
                        assert(meshes.meshes@[ob.mesh as int].faces.data == old(
                            meshes,
                        ).meshes@[ob.mesh as int].faces.data);
                    }
                }
                ob.render(pass, &wt, &ws, cam, light, meshes, materials, ctxt);
                proof {
                    assert(object_submits(ob, mpre, mats_len0, hpm0) == node_submits(
                        g0,
                        *old(meshes),
                        mats_len0,
                        hpm0,
                        id as int,
                    )) by {
                        if (ob.mesh as int) < mpre.meshes@.len() {
                            assert(mpre.meshes@[ob.mesh as int].faces.logical_len() == old(
                                meshes,
                            ).meshes@[ob.mesh as int].faces.logical_len());
                        }
                    }
                    lemma_submits_concat_push(g0, *old(meshes), mats_len0, hpm0, ns, id as int);
                    assert(!ns.contains(id as int));
                    let ghost ns_old = ns;
                    let ghost ns2 = ns_old.push(id as int);
                    lemma_push_contains_int(ns_old, id as int);
                    assert forall|m1: int, m2: int|
                        0 <= m1 < m2 < ns2.len() implies ns2[m1] != ns2[m2] by {
                        if m2 < ns_old.len() {
                            assert(ns_old.no_duplicates());
                        } else {
                            assert(ns_old.contains(ns_old[m1]));
                        }
                    }
                    assert(ns2.no_duplicates());
                    assert forall|j: int| #![trigger ns2.contains(j)]
                        ns2.contains(j) == ((exists|m: int| #![trigger ids@[m]]
                            0 <= m < k + 1 && ids@[m] as int == j) && 0 <= j < g0.n()
                            && g0.vis_in(root as int, j) && g0.nodes@[j].object is Some) by {
                        if ns2.contains(j) {
                            assert(ns_old.contains(j) || j == id as int);
                            if j == id as int {
                                assert(ids@[k as int] as int == j);
                            } else {
                                let m = choose|m: int| #![trigger ids@[m]]
                                    0 <= m < k && ids@[m] as int == j;
                                assert(0 <= m < k + 1 && ids@[m] as int == j);
                            }
                        }
                        if (exists|m: int| #![trigger ids@[m]]
                            0 <= m < k + 1 && ids@[m] as int == j) && 0 <= j < g0.n()
                            && g0.vis_in(root as int, j) && g0.nodes@[j].object is Some {
                            let m = choose|m: int| #![trigger ids@[m]]
                                0 <= m < k + 1 && ids@[m] as int == j;
                            if m == k {
                                assert(j == id as int);
                                assert(ns2.contains(j));
                            } else {
                                assert((exists|m2: int| #![trigger ids@[m2]]
                                    0 <= m2 < k && ids@[m2] as int == j));
                                assert(ns_old.contains(j));
                                assert(ns2.contains(j));
                            }
                        }
                    }
                    ns = ns2;
                }
            } else {
                proof {
                    assert(!(g0.vis_in(root as int, id as int) && g0.nodes@[id as int].object
                        is Some));
                    assert forall|j: int| #![trigger ns.contains(j)]
                        ns.contains(j) == ((exists|m: int| #![trigger ids@[m]]
                            0 <= m < k + 1 && ids@[m] as int == j) && 0 <= j < g0.n()
                            && g0.vis_in(root as int, j) && g0.nodes@[j].object is Some) by {
                        if ns.contains(j) {
                            assert((exists|m: int| #![trigger ids@[m]]
                                0 <= m < k && ids@[m] as int == j));
                            let m = choose|m: int| #![trigger ids@[m]]
                                0 <= m < k && ids@[m] as int == j;
                            assert(0 <= m < k + 1 && ids@[m] as int == j);
                        }
                        if (exists|m: int| #![trigger ids@[m]]
                            0 <= m < k + 1 && ids@[m] as int == j) && 0 <= j < g0.n()
                            && g0.vis_in(root as int, j) && g0.nodes@[j].object is Some {
                            let m = choose|m: int| #![trigger ids@[m]]
                                0 <= m < k + 1 && ids@[m] as int == j;
                            if m == k {
                                assert(j == id as int);
                                assert(false);
                            } else {
                                assert((exists|m2: int| #![trigger ids@[m2]]
                                    0 <= m2 < k && ids@[m2] as int == j));
                                assert(ns.contains(j));
                            }
                        }
                    }
                }
            }
            k += 1;
        }
        proof {
            // Everything collected is exactly the subtree, so the list
            // of rendered nodes is exactly the all-visible payload set.
            assert forall|j: int| #![trigger ns.contains(j)]
                ns.contains(j) == (0 <= j < g0.n() && g0.vis_in(root as int, j)
                    && g0.nodes@[j].object is Some) by {
                if 0 <= j < g0.n() && g0.vis_in(root as int, j) && g0.nodes@[j].object is Some {
                    crate::scene::lemma_vis_reaches_reaches(
                        g0.par(),
                        g0.dep(),
                        g0.vis(),
                        root as int,
                        j,
                    );
                    assert(ids@.contains(j as usize));
                    let m = choose|m: int| 0 <= m < ids@.len() && ids@[m] == j as usize;
                    assert(ids@[m] as int == j);
                }
            }
            assert(ctxt.draws@ == old(ctxt).draws@ + submits_concat(
                *old(self),
                *old(meshes),
                old(materials).materials@.len() as int,
                old(ctxt).has_polygon_mode,
                ns,
            ));
        }
    }

}

} // verus!
