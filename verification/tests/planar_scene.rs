//! The planar hierarchy mirrors the spatial one: composition, lazy
//! resolution and draw gating all behave the same way in the plane.

use starman::algebra::Vec2;
use starman::camera::PlanarCameraInput;
use starman::context::{DrawKind, RenderContext};
use starman::fx::FX_ONE;
use starman::mesh::Face;
use starman::object::Object;
use starman::planar::{PlanarMaterialManager, PlanarMesh, PlanarMeshManager, PlanarScene};
use starman::transform::Iso2;

fn v(x: i32, y: i32) -> Vec2 {
    Vec2 { x: x * FX_ONE, y: y * FX_ONE }
}

fn triangle() -> PlanarMesh {
    let coords = vec![v(0, 0), v(1, 0), v(0, 1)];
    let faces = vec![Face { a: 0, b: 1, c: 2 }];
    PlanarMesh::new(coords, faces, None, false)
}

#[test]
fn planar_world_transform_composes() {
    let mut s: PlanarScene = PlanarScene::new();
    let a = s.new_child(0, Iso2::from_translation(v(1, 0)), Vec2::ones(), None);
    let b = s.new_child(a, Iso2::from_translation(v(0, 1)), Vec2::ones(), None);
    assert_eq!(s.world_transformation(b).translation, v(1, 1));
    s.append_translation(a, &v(2, 0));
    assert!(!s.is_up_to_date(b));
    assert_eq!(s.world_transformation(b).translation, v(3, 1));
}

#[test]
fn planar_surface_draw_is_one_submission() {
    let mut ctxt = RenderContext::new(true);
    let mut materials = PlanarMaterialManager::new("", "", &mut ctxt);
    let mut meshes = PlanarMeshManager::new();
    let mesh_id = meshes.add(triangle());
    let mut s: PlanarScene = PlanarScene::new();
    let ob = Object::new(mesh_id, FX_ONE, FX_ONE, FX_ONE, 0, materials.get_default());
    let _ = s.add_object(0, Vec2::ones(), Iso2::identity(), ob);
    let cam = PlanarCameraInput { view: Iso2::identity(), proj: Iso2::identity() };
    s.render(0, &cam, &mut meshes, &mut materials, &mut ctxt);
    assert_eq!(ctxt.draws.len(), 1);
    assert_eq!(ctxt.draws[0].kind, DrawKind::Triangles);
    assert_eq!(ctxt.draws[0].count, 3);
    // The planar material never culls: a flat shape has no back side.
    assert!(!ctxt.cull);
    assert_eq!(ctxt.attribs_enabled, 0);
}

#[test]
fn planar_rotation_setter_keeps_translation() {
    let mut s: PlanarScene = PlanarScene::new();
    let a = s.new_child(0, Iso2::from_translation(v(5, 0)), Vec2::ones(), None);
    let quarter = starman::algebra::Rot2 { c: 0, s: FX_ONE };
    s.set_local_rotation(a, quarter);
    assert_eq!(s.local_transformation(a).translation, v(5, 0));
    assert_eq!(s.local_transformation(a).rotation, quarter);
    // A quarter turn sends x to y exactly: these values are exact in
    // fixed point.
    let w = s.world_transformation(a);
    let p = w.rotation;
    assert_eq!((p.c, p.s), (0, FX_ONE));
}
