//! Triangle meshes: a cohesive set of shared buffers describing one
//! drawable surface, with verified per-vertex normal computation.

use vstd::prelude::*;
use crate::algebra::{add3_spec, cross3_spec, normalize3_spec, sub3_spec, Vec2, Vec3};
use crate::fx::{sabs, tdiv};
use crate::context::{same_raster_state, RenderContext};
use crate::effect::ShaderAttribute;
use crate::gpu_vector::{AllocationType, BufferType, GPUVec};

verus! {

/// The index type of vertex references in faces and edges.
pub type VertexIndex = u16;

/// One triangle of vertex indices.
#[derive(Clone, Copy, PartialEq, Eq, Structural, Debug)]
pub struct Face {
    /// First corner.
    pub a: VertexIndex,
    /// Second corner.
    pub b: VertexIndex,
    /// Third corner.
    pub c: VertexIndex,
}

/// One line segment of vertex indices.
#[derive(Clone, Copy, PartialEq, Eq, Structural, Debug)]
pub struct Edge {
    /// First endpoint.
    pub a: VertexIndex,
    /// Second endpoint.
    pub b: VertexIndex,
}

/// The `m`-th edge of one face: its three sides in corner order.
pub open spec fn face_edge(f: Face, m: int) -> Edge {
    if m == 0 {
        Edge { a: f.a, b: f.b }
    } else if m == 1 {
        Edge { a: f.b, b: f.c }
    } else {
        Edge { a: f.c, b: f.a }
    }
}

/// The wireframe line list of a triangle list: for each face, its
/// three edges in face order.
pub open spec fn edges_of(faces: Seq<Face>) -> Seq<Edge> {
    Seq::new(3 * faces.len(), |k: int| face_edge(faces[k / 3], k % 3))
}

/// Every face of `faces` indexes into `coords`.
pub open spec fn faces_valid(ncoords: int, faces: Seq<Face>) -> bool {
    forall|k: int|
        0 <= k < faces.len() ==> (#[trigger] faces[k]).a < ncoords && faces[k].b < ncoords
            && faces[k].c < ncoords
}

/// The normal a face contributes: the cross product of its two edges
/// out of the first corner, normalized unless degenerate.  A zero-area
/// face contributes the zero vector, never an error.
pub open spec fn face_normal(coords: Seq<Vec3>, f: Face) -> Vec3 {
    let e1 = sub3_spec(coords[f.b as int], coords[f.a as int]);
    let e2 = sub3_spec(coords[f.c as int], coords[f.a as int]);
    let cr = cross3_spec(e1, e2);
    if cr == (Vec3 { x: 0, y: 0, z: 0 }) {
        cr
    } else {
        normalize3_spec(cr)
    }
}

/// The per-vertex sums of adjacent face normals after the given faces.
pub open spec fn normal_sums(coords: Seq<Vec3>, faces: Seq<Face>) -> Seq<Vec3>
    decreases faces.len(),
{
    if faces.len() == 0 {
        Seq::new(coords.len(), |i: int| Vec3 { x: 0, y: 0, z: 0 })
    } else {
        let prev = normal_sums(coords, faces.drop_last());
        let f = faces.last();
        let n = face_normal(coords, f);
        let s1 = prev.update(f.a as int, add3_spec(prev[f.a as int], n));
        let s2 = s1.update(f.b as int, add3_spec(s1[f.b as int], n));
        s2.update(f.c as int, add3_spec(s2[f.c as int], n))
    }
}

/// How many faces touch each vertex after the given faces; a vertex
/// repeated within one face is counted once per occurrence.
pub open spec fn normal_counts(coords: Seq<Vec3>, faces: Seq<Face>) -> Seq<int>
    decreases faces.len(),
{
    if faces.len() == 0 {
        Seq::new(coords.len(), |i: int| 0int)
    } else {
        let prev = normal_counts(coords, faces.drop_last());
        let f = faces.last();
        let s1 = prev.update(f.a as int, prev[f.a as int] + 1);
        let s2 = s1.update(f.b as int, s1[f.b as int] + 1);
        s2.update(f.c as int, s2[f.c as int] + 1)
    }
}

/// A vector divided componentwise by an adjacency count, truncating
/// toward zero; an untouched vertex keeps its zero sum.
pub open spec fn div_by_count(v: Vec3, c: int) -> Vec3 {
    if c == 0 {
        v
    } else {
        Vec3 {
            x: tdiv(v.x as int, c) as i32,
            y: tdiv(v.y as int, c) as i32,
            z: tdiv(v.z as int, c) as i32,
        }
    }
}

/// What `compute_normals` returns: for each vertex, the sum of the
/// normals of its adjacent faces divided by their number — uniform
/// averaging, not angle-weighted.
pub open spec fn normals_spec(coords: Seq<Vec3>, faces: Seq<Face>) -> Seq<Vec3> {
    Seq::new(
        coords.len(),
        |i: int| div_by_count(normal_sums(coords, faces)[i], normal_counts(coords, faces)[i]),
    )
}

/// Where the three edges of face `k` sit in the derived line list.
pub proof fn lemma_edge_positions(faces: Seq<Face>, k: int)
    requires
        0 <= k < faces.len(),
    ensures
        edges_of(faces)[3 * k] == face_edge(faces[k], 0),
        edges_of(faces)[3 * k + 1] == face_edge(faces[k], 1),
        edges_of(faces)[3 * k + 2] == face_edge(faces[k], 2),
{
    assert((3 * k) / 3 == k && (3 * k) % 3 == 0) by (nonlinear_arith)
        requires
            k >= 0,
    ;
    assert((3 * k + 1) / 3 == k && (3 * k + 1) % 3 == 1) by (nonlinear_arith)
        requires
            k >= 0,
    ;
    assert((3 * k + 2) / 3 == k && (3 * k + 2) % 3 == 2) by (nonlinear_arith)
        requires
            k >= 0,
    ;
}

/// One geometry: coordinates, faces, normals and texture coordinates,
/// each an independently synchronized buffer, plus a lazily derived
/// edge list for wireframe fallback.
pub struct Mesh {
    /// Vertex positions.
    pub coords: GPUVec<Vec3>,
    /// Triangle list.
    pub faces: GPUVec<Face>,
    /// Per-vertex normals.
    pub normals: GPUVec<Vec3>,
    /// Per-vertex texture coordinates.
    pub uvs: GPUVec<Vec2>,
    /// The line list derived from `faces`, built on first use.
    pub edges: Option<GPUVec<Edge>>,
}

impl Mesh {
    /// Every buffer of the mesh is well formed and feeds its proper
    /// slot: attributes stream vertex data, faces and edges stream
    /// indices.
    pub open spec fn wf(self) -> bool {
        &&& self.coords.wf()
        &&& self.faces.wf()
        &&& self.normals.wf()
        &&& self.uvs.wf()
        &&& self.coords.buf_type == BufferType::Array
        &&& self.normals.buf_type == BufferType::Array
        &&& self.uvs.buf_type == BufferType::Array
        &&& self.faces.buf_type == BufferType::ElementArray
        &&& (match self.edges {
            Some(e) => e.wf() && e.buf_type == BufferType::ElementArray,
            None => true,
        })
    }

    /// Builds a mesh.  Missing normals are computed from the geometry;
    /// missing texture coordinates default to the origin.
    pub fn new(
        coords: Vec<Vec3>,
        faces: Vec<Face>,
        normals: Option<Vec<Vec3>>,
        uvs: Option<Vec<Vec2>>,
        dynamic_draw: bool,
    ) -> (m: Mesh)
        requires
            faces_valid(coords@.len() as int, faces@),
            faces@.len() < 0x1000_0000_0000_0000,
        ensures
            m.wf(),
            m.coords.data matches Some(c) && c@ == coords@,
            m.faces.data matches Some(f) && f@ == faces@,
            m.normals.data matches Some(n) && n@ == (match normals {
                Some(given) => given@,
                None => normals_spec(coords@, faces@),
            }),
            m.uvs.data matches Some(u) && u@ == (match uvs {
                Some(given) => given@,
                None => Seq::new(coords@.len(), |k: int| Vec2 { x: 0, y: 0 }),
            }),
            m.coords.trash && m.faces.trash && m.normals.trash && m.uvs.trash,
            m.coords.buffer is None && m.faces.buffer is None && m.normals.buffer is None && m.uvs.buffer is None,
            m.coords.alloc_type == (if dynamic_draw {
                AllocationType::DynamicDraw
            } else {
                AllocationType::StaticDraw
            }),
            m.faces.alloc_type == (if dynamic_draw {
                AllocationType::DynamicDraw
            } else {
                AllocationType::StaticDraw
            }),
            m.normals.alloc_type == (if dynamic_draw {
                AllocationType::DynamicDraw
            } else {
                AllocationType::StaticDraw
            }),
            m.uvs.alloc_type == (if dynamic_draw {
                AllocationType::DynamicDraw
            } else {
                AllocationType::StaticDraw
            }),
            m.edges is None,
    {
        let location = if dynamic_draw {
            AllocationType::DynamicDraw
        } else {
            AllocationType::StaticDraw
        };
        let ns: Vec<Vec3> = match normals {
            Some(given) => given,
            None => compute_normals_array(&coords, &faces),
        };
        let us: Vec<Vec2> = match uvs {
            Some(given) => given,
            None => {
                let mut zs: Vec<Vec2> = Vec::new();
                let mut k: usize = 0;
                while k < coords.len()
                    invariant
                        k <= coords@.len(),
                        zs@.len() == k as int,
                        forall|m: int| 0 <= m < k ==> zs@[m] == (Vec2 { x: 0, y: 0 }),
                    decreases coords@.len() - k,
                {
                    zs.push(Vec2 { x: 0, y: 0 });
                    k += 1;
                }
                proof {
                    assert(zs@ =~= Seq::new(coords@.len(), |m: int| Vec2 { x: 0, y: 0 }));
                }
                zs
            },
        };
        Mesh {
            coords: GPUVec::new(coords, BufferType::Array, location),
            faces: GPUVec::new(faces, BufferType::ElementArray, location),
            normals: GPUVec::new(ns, BufferType::Array, location),
            uvs: GPUVec::new(us, BufferType::Array, location),
            edges: None,
        }
    }

    /// Binds coordinates, normals and texture coordinates to their
    /// attributes and the face list to the index slot, uploading
    /// whatever is stale.
    pub fn bind(
        &mut self,
        pos: &mut ShaderAttribute<Vec3>,
        normal: &mut ShaderAttribute<Vec3>,
        uv: &mut ShaderAttribute<Vec2>,
        ctxt: &mut RenderContext,
    )
        requires
            old(self).wf(),
        ensures
            final(self).wf(),
            final(self).coords.data == old(self).coords.data,
            final(self).faces.data == old(self).faces.data,
            final(self).normals.data == old(self).normals.data,
            final(self).uvs.data == old(self).uvs.data,
            final(self).edges == old(self).edges,
            final(self).faces.logical_len() == old(self).faces.logical_len(),
            final(self).faces.buffer is Some <==> (old(self).faces.buffer is Some || old(
                self,
            ).faces.data is Some),
            final(ctxt).bound_element == (match final(self).faces.buffer {
                Some(b) => Some(b.id),
                None => None,
            }),
            final(ctxt).bound_array == (match final(self).uvs.buffer {
                Some(b) => Some(b.id),
                None => None,
            }),
            same_raster_state(*old(ctxt), *final(ctxt)),
            *final(pos) == *old(pos),
            *final(normal) == *old(normal),
            *final(uv) == *old(uv),
    {
        pos.bind(&mut self.coords, ctxt);
        normal.bind(&mut self.normals, ctxt);
        uv.bind(&mut self.uvs, ctxt);
        self.faces.bind(ctxt);
    }

    /// Binds the face list alone.
    pub fn bind_faces(&mut self, ctxt: &mut RenderContext)
        requires
            old(self).wf(),
        ensures
            final(self).wf(),
            final(self).faces.data == old(self).faces.data,
            final(self).faces.logical_len() == old(self).faces.logical_len(),
            final(self).coords == old(self).coords,
            final(self).normals == old(self).normals,
            final(self).uvs == old(self).uvs,
            final(self).edges == old(self).edges,
            same_raster_state(*old(ctxt), *final(ctxt)),
            final(ctxt).bound_array == old(ctxt).bound_array,
    {
        self.faces.bind(ctxt);
    }

    /// Derives the wireframe edge list from the face list on first
    /// use, caches it, and binds it to the index slot.  Needs the face
    /// list resident in RAM the first time.
    pub fn bind_edges(&mut self, ctxt: &mut RenderContext)
        requires
            old(self).wf(),
            old(self).edges is None ==> old(self).faces.data is Some,
            old(self).faces.logical_len() * 3 < usize::MAX as int,
        ensures
            final(self).wf(),
            final(self).faces == old(self).faces,
            final(self).coords == old(self).coords,
            final(self).normals == old(self).normals,
            final(self).uvs == old(self).uvs,
            same_raster_state(*old(ctxt), *final(ctxt)),
            final(ctxt).bound_array == old(ctxt).bound_array,
            final(self).edges matches Some(e) && final(ctxt).bound_element == (match e.buffer {
                Some(b) => Some(b.id),
                None => None,
            }),
            old(self).edges is None ==> (final(self).edges matches Some(e)
                ==> e.data matches Some(d) && d@ == edges_of((old(self).faces.data->Some_0)@)),
            old(self).edges matches Some(e0) ==> (final(self).edges matches Some(e) && e.data
                == e0.data && e.logical_len() == e0.logical_len()),
    {
        if self.edges.is_none() {
            let mut es: Vec<Edge> = Vec::new();
            match &self.faces.data {
                Some(fs) => {
                    let mut k: usize = 0;
                    while k < fs.len()
                        invariant
                            k <= fs@.len(),
                            es@.len() == 3 * k as int,
                            fs@.len() * 3 < usize::MAX as int,
                            forall|j: int|
                                0 <= j < 3 * k ==> es@[j] == edges_of(fs@)[j],
                        decreases fs@.len() - k,
                    {
                        let f = fs[k];
                        es.push(Edge { a: f.a, b: f.b });
                        es.push(Edge { a: f.b, b: f.c });
                        es.push(Edge { a: f.c, b: f.a });
                        proof {
                            lemma_edge_positions(fs@, k as int);
                            assert(es@[3 * k as int] == edges_of(fs@)[3 * k as int]);
                            assert(es@[3 * k as int + 1] == edges_of(fs@)[3 * k as int + 1]);
                            assert(es@[3 * k as int + 2] == edges_of(fs@)[3 * k as int + 2]);
                        }
                        k += 1;
                    }
                    proof {
                        assert(es@ =~= edges_of(fs@));
                    }
                },
                None => {},
            }
            self.edges = Some(GPUVec::new(es, BufferType::ElementArray, AllocationType::StaticDraw));
        }
        match &mut self.edges {
            Some(e) => {
                e.bind(ctxt);
            },
            None => {},
        }
    }

    /// Unbinds every slot the mesh may occupy.
    pub fn unbind(&self, ctxt: &mut RenderContext)
        requires
            self.wf(),
        ensures
            same_raster_state(*old(ctxt), *final(ctxt)),
            final(ctxt).uploads == old(ctxt).uploads,
            final(ctxt).bound_array == (if self.coords.buffer is Some || self.normals.buffer
                is Some || self.uvs.buffer is Some {
                None
            } else {
                old(ctxt).bound_array
            }),
            final(ctxt).bound_element == (if self.faces.buffer is Some {
                None
            } else {
                old(ctxt).bound_element
            }),
    {
        self.coords.unbind(ctxt);
        self.normals.unbind(ctxt);
        self.uvs.unbind(ctxt);
        self.faces.unbind(ctxt);
    }

    /// How many indices one full draw of the triangle list covers.
    pub fn num_pts(&self) -> (r: usize)
        requires
            self.wf(),
            self.faces.logical_len() * 3 <= usize::MAX as int,
        ensures
            r as int == 3 * self.faces.logical_len(),
    {
        self.faces.len() * 3
    }

    /// Recomputes the per-vertex normals from the resident geometry.
    pub fn recompute_normals(&mut self)
        requires
            old(self).wf(),
            old(self).coords.data is Some,
            old(self).faces.data is Some,
            faces_valid(
                (old(self).coords.data->Some_0)@.len() as int,
                (old(self).faces.data->Some_0)@,
            ),
            (old(self).faces.data->Some_0)@.len() < 0x1000_0000_0000_0000,
        ensures
            final(self).wf(),
            final(self).coords == old(self).coords,
            final(self).faces == old(self).faces,
            final(self).uvs == old(self).uvs,
            final(self).edges == old(self).edges,
            final(self).normals.data matches Some(n) && n@ == normals_spec(
                (old(self).coords.data->Some_0)@,
                (old(self).faces.data->Some_0)@,
            ),
            final(self).normals.trash,
    {
        let mut ns: Vec<Vec3> = Vec::new();
        match (&self.coords.data, &self.faces.data) {
            (Some(cs), Some(fs)) => {
                ns = compute_normals_array(cs, fs);
            },
            _ => {},
        }
        self.normals.set_data(ns);
    }
}

/// The per-vertex normals of a triangle list: for each vertex, the
/// normalized normals of its adjacent faces are summed and divided by
/// the number of adjacent faces.
pub fn compute_normals_array(coords: &Vec<Vec3>, faces: &Vec<Face>) -> (r: Vec<Vec3>)
    requires
        faces_valid(coords@.len() as int, faces@),
        faces@.len() < 0x1000_0000_0000_0000,
    ensures
        r@ == normals_spec(coords@, faces@),
{
    let mut sums: Vec<Vec3> = Vec::new();
    let mut counts: Vec<u64> = Vec::new();
    let mut k: usize = 0;
    while k < coords.len()
        invariant
            k <= coords@.len(),
            sums@.len() == k as int,
            counts@.len() == k as int,
            forall|m: int| 0 <= m < k ==> sums@[m] == (Vec3 { x: 0, y: 0, z: 0 }),
            forall|m: int| 0 <= m < k ==> counts@[m] == 0,
        decreases coords@.len() - k,
    {
        sums.push(Vec3 { x: 0, y: 0, z: 0 });
        counts.push(0);
        k += 1;
    }
    proof {
        assert(sums@ =~= normal_sums(coords@, faces@.take(0)));
        assert(counts@.map_values(|c: u64| c as int) =~= normal_counts(coords@, faces@.take(0)));
    }
    let mut j: usize = 0;
    while j < faces.len()
        invariant
            j <= faces@.len(),
            faces@.len() < 0x1000_0000_0000_0000,
            faces_valid(coords@.len() as int, faces@),
            sums@.len() == coords@.len(),
            counts@.len() == coords@.len(),
            sums@ == normal_sums(coords@, faces@.take(j as int)),
            counts@.map_values(|c: u64| c as int) == normal_counts(coords@, faces@.take(j as int)),
            forall|m: int| 0 <= m < counts@.len() ==> (#[trigger] counts@[m]) as int <= 3 * (
            j as int),
        decreases faces@.len() - j,
    {
        let ghost pre_sums = sums@;
        let ghost pre_counts = counts@;
        let f = faces[j];
        proof {
            assert(faces@[j as int] == f);
        }
        let e1 = coords[f.b as usize].vsub(&coords[f.a as usize]);
        let e2 = coords[f.c as usize].vsub(&coords[f.a as usize]);
        let cr = e1.cross(&e2);
        let n = if cr.is_zero() {
            cr
        } else {
            cr.normalize()
        };
        let ia = f.a as usize;
        let ib = f.b as usize;
        let ic = f.c as usize;
        let sa = sums[ia];
        sums[ia] = sa.vadd(&n);
        let sb = sums[ib];
        sums[ib] = sb.vadd(&n);
        let sc = sums[ic];
        sums[ic] = sc.vadd(&n);
        let ca = counts[ia];
        counts[ia] = ca + 1;
        let cb = counts[ib];
        counts[ib] = cb + 1;
        let cc = counts[ic];
        counts[ic] = cc + 1;
        proof {
            let fseq = faces@.take((j + 1) as int);
            assert(fseq.drop_last() =~= faces@.take(j as int));
            assert(fseq.last() == f);
            assert(n == face_normal(coords@, f));
            assert(sums@ =~= normal_sums(coords@, fseq));
            assert(counts@.map_values(|c: u64| c as int) =~= normal_counts(coords@, fseq));
        }
        j += 1;
    }
    proof {
        assert(faces@.take(faces@.len() as int) =~= faces@);
    }
    let mut out: Vec<Vec3> = Vec::new();
    let mut i: usize = 0;
    while i < sums.len()
        invariant
            i <= sums@.len(),
            sums@.len() == coords@.len(),
            counts@.len() == coords@.len(),
            sums@ == normal_sums(coords@, faces@),
            counts@.map_values(|c: u64| c as int) == normal_counts(coords@, faces@),
            out@.len() == i as int,
            forall|m: int|
                0 <= m < i ==> out@[m] == div_by_count(
                    normal_sums(coords@, faces@)[m],
                    normal_counts(coords@, faces@)[m],
                ),
        decreases sums@.len() - i,
    {
        proof {
            assert(counts@.map_values(|c: u64| c as int)[i as int] == counts@[i as int] as int);
        }
        out.push(div_vec_by_count(sums[i], counts[i]));
        i += 1;
    }
    proof {
        assert(out@ =~= normals_spec(coords@, faces@));
    }
    out
}

/// Divides a summed normal by its adjacency count, componentwise,
/// truncating toward zero; a zero count leaves the vector as it is.
fn div_vec_by_count(v: Vec3, c: u64) -> (r: Vec3)
    ensures
        r == div_by_count(v, c as int),
{
    if c == 0 {
        v
    } else {
        Vec3 {
            x: div_comp_by_count(v.x, c),
            y: div_comp_by_count(v.y, c),
            z: div_comp_by_count(v.z, c),
        }
    }
}

/// One component divided by a positive count, truncating toward zero.
fn div_comp_by_count(comp: i32, c: u64) -> (r: i32)
    requires
        c > 0,
    ensures
        r as int == tdiv(comp as int, c as int),
{
    let neg: bool = comp < 0;
    let mag: u64 = if neg {
        (-(comp as i64)) as u64
    } else {
        comp as u64
    };
    assert(mag as int == sabs(comp as int));
    let q: u64 = mag / c;
    if neg {
        -(q as i64) as i32
    } else {
        q as i32
    }
}

/// The built-in unit cube: eight corners at half a unit from the
/// origin, twelve faces wound outward, ready for the mesh registry.
pub fn unit_cube() -> (m: Mesh)
    ensures
        m.wf(),
        m.coords.data matches Some(c) && c@.len() == 8,
        m.faces.data matches Some(f) && f@.len() == 12,
        m.faces.logical_len() == 12,
{
    let h: i32 = crate::fx::FX_ONE / 2;
    let nh: i32 = -h;
    let mut coords: Vec<Vec3> = Vec::new();
    coords.push(Vec3 { x: nh, y: nh, z: nh });
    coords.push(Vec3 { x: h, y: nh, z: nh });
    coords.push(Vec3 { x: h, y: h, z: nh });
    coords.push(Vec3 { x: nh, y: h, z: nh });
    coords.push(Vec3 { x: nh, y: nh, z: h });
    coords.push(Vec3 { x: h, y: nh, z: h });
    coords.push(Vec3 { x: h, y: h, z: h });
    coords.push(Vec3 { x: nh, y: h, z: h });
    let mut faces: Vec<Face> = Vec::new();
    faces.push(Face { a: 0, b: 2, c: 1 });
    faces.push(Face { a: 0, b: 3, c: 2 });
    faces.push(Face { a: 4, b: 5, c: 6 });
    faces.push(Face { a: 4, b: 6, c: 7 });
    faces.push(Face { a: 0, b: 1, c: 5 });
    faces.push(Face { a: 0, b: 5, c: 4 });
    faces.push(Face { a: 2, b: 3, c: 7 });
    faces.push(Face { a: 2, b: 7, c: 6 });
    faces.push(Face { a: 1, b: 2, c: 6 });
    faces.push(Face { a: 1, b: 6, c: 5 });
    faces.push(Face { a: 3, b: 0, c: 4 });
    faces.push(Face { a: 3, b: 4, c: 7 });
    proof {
        assert forall|k: int| 0 <= k < faces@.len() implies (#[trigger] faces@[k]).a < 8
            && faces@[k].b < 8 && faces@[k].c < 8 by {
            if k == 0 {
            } else if k == 1 {
            } else if k == 2 {
            } else if k == 3 {
            } else if k == 4 {
            } else if k == 5 {
            } else if k == 6 {
            } else if k == 7 {
            } else if k == 8 {
            } else if k == 9 {
            } else if k == 10 {
            } else {
                assert(k == 11);
            }
        }
        assert(faces_valid(coords@.len() as int, faces@));
    }
    Mesh::new(coords, faces, None, None, false)
}

} // verus!
