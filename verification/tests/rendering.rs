//! Draw submission counts, overlay batching and mesh sharing.

use starman::algebra::Vec3;
use starman::camera::CameraInput;
use starman::context::{DrawKind, RenderContext, UniformValue};
use starman::fx::FX_ONE;
use starman::light::Light;
use starman::mesh::{Face, Mesh};
use starman::object::Object;
use starman::renderer::{LineRenderer, PointRenderer};
use starman::scene3::{MaterialManager, MeshManager, Scene};
use starman::transform::Iso3;

fn v(x: i32, y: i32, z: i32) -> Vec3 {
    Vec3 { x: x * FX_ONE, y: y * FX_ONE, z: z * FX_ONE }
}

fn cam() -> CameraInput {
    CameraInput { eye: v(0, 0, 10), view: Iso3::identity(), proj: Iso3::identity() }
}

fn quad() -> Mesh {
    let coords = vec![v(0, 0, 0), v(1, 0, 0), v(1, 1, 0), v(0, 1, 0)];
    let faces = vec![Face { a: 0, b: 1, c: 2 }, Face { a: 0, b: 2, c: 3 }];
    Mesh::new(coords, faces, None, None, false)
}

#[test]
fn surface_plus_wireframe_issues_exactly_two_draws() {
    let mut ctxt = RenderContext::new(true);
    let mut materials = MaterialManager::new("", "", &mut ctxt);
    let mut meshes = MeshManager::new();
    let mesh_id = meshes.add(quad(), "quad");
    let mut s: Scene = Scene::new();
    let mut ob = Object::new(mesh_id, FX_ONE, FX_ONE, FX_ONE, 0, materials.get_default());
    // Surface on, wireframe on, points off: two submissions, never three.
    ob.set_lines_width(2 * FX_ONE);
    ob.set_points_size(0);
    let node = s.add_object(0, Vec3::ones(), Iso3::identity(), ob);
    assert!(s.is_visible(node));
    s.render(0, 0, &cam(), &Light::StickToCamera, &mut meshes, &mut materials, &mut ctxt);
    assert_eq!(ctxt.draws.len(), 2);
    assert_eq!(ctxt.draws[0].kind, DrawKind::Triangles);
    assert_eq!(ctxt.draws[0].count, 6);
    assert_eq!(ctxt.draws[1].kind, DrawKind::Triangles);
    assert_eq!(ctxt.attribs_enabled, 0);
}

#[test]
fn wireframe_falls_back_to_edges_without_polygon_mode() {
    let mut ctxt = RenderContext::new(false);
    let mut materials = MaterialManager::new("", "", &mut ctxt);
    let mut meshes = MeshManager::new();
    let mesh_id = meshes.add(quad(), "quad");
    let mut s: Scene = Scene::new();
    let mut ob = Object::new(mesh_id, FX_ONE, FX_ONE, FX_ONE, 0, materials.get_default());
    ob.set_lines_width(FX_ONE);
    let _ = s.add_object(0, Vec3::ones(), Iso3::identity(), ob);
    s.render(0, 0, &cam(), &Light::StickToCamera, &mut meshes, &mut materials, &mut ctxt);
    assert_eq!(ctxt.draws.len(), 2);
    assert_eq!(ctxt.draws[1].kind, DrawKind::Lines);
    assert_eq!(ctxt.draws[1].count, 12);
}

#[test]
fn invisible_subtrees_are_skipped() {
    let mut ctxt = RenderContext::new(true);
    let mut materials = MaterialManager::new("", "", &mut ctxt);
    let mut meshes = MeshManager::new();
    let mesh_id = meshes.add(quad(), "quad");
    let mut s: Scene = Scene::new();
    let ob = Object::new(mesh_id, FX_ONE, FX_ONE, FX_ONE, 0, materials.get_default());
    let group = s.add_group(0);
    let _ = s.add_object(group, Vec3::ones(), Iso3::identity(), ob);
    s.set_visible(group, false);
    s.render(0, 0, &cam(), &Light::StickToCamera, &mut meshes, &mut materials, &mut ctxt);
    assert_eq!(ctxt.draws.len(), 0);
}

#[test]
fn shared_mesh_edits_are_seen_through_every_node() {
    // Two objects reference one mesh: editing vertices through the
    // registry handle of one node is observed through the other.
    let mut ctxt = RenderContext::new(true);
    let mut materials = MaterialManager::new("", "", &mut ctxt);
    let mut meshes = MeshManager::new();
    let mesh_id = meshes.add(quad(), "quad");
    let mut s: Scene = Scene::new();
    let ob1 = Object::new(mesh_id, FX_ONE, FX_ONE, FX_ONE, 0, materials.get_default());
    let ob2 = Object::new(mesh_id, FX_ONE, FX_ONE, FX_ONE, 0, materials.get_default());
    let n1 = s.add_object(0, Vec3::ones(), Iso3::identity(), ob1);
    let n2 = s.add_object(0, Vec3::ones(), Iso3::identity(), ob2);
    let handle1 = s.object(n1).unwrap().mesh;
    let handle2 = s.object(n2).unwrap().mesh;
    assert_eq!(handle1, handle2);
    let mut coords = meshes.meshes[handle1].coords.to_owned().unwrap();
    coords[0] = v(9, 9, 9);
    meshes.meshes[handle1].coords.set_data(coords);
    let seen = meshes.meshes[handle2].coords.to_owned().unwrap();
    assert_eq!(seen[0], v(9, 9, 9));
}

#[test]
fn subtree_color_applies_to_every_object() {
    let mut ctxt = RenderContext::new(true);
    let mut materials = MaterialManager::new("", "", &mut ctxt);
    let mut meshes = MeshManager::new();
    let mesh_id = meshes.add(quad(), "quad");
    let mut s: Scene = Scene::new();
    let ob = Object::new(mesh_id, FX_ONE, FX_ONE, FX_ONE, 0, materials.get_default());
    let group = s.add_group(0);
    let n1 = s.add_object(group, Vec3::ones(), Iso3::identity(), ob);
    let n2 = s.add_object(n1, Vec3::ones(), Iso3::identity(), ob);
    let outside = s.add_object(0, Vec3::ones(), Iso3::identity(), ob);
    s.set_color(group, FX_ONE, 0, 0);
    let red = Vec3 { x: FX_ONE, y: 0, z: 0 };
    assert_eq!(s.object(n1).unwrap().data.color, red);
    assert_eq!(s.object(n2).unwrap().data.color, red);
    assert_eq!(s.object(outside).unwrap().data.color, Vec3 { x: FX_ONE, y: FX_ONE, z: FX_ONE });
}

#[test]
fn line_renderer_flushes_once_and_clears() {
    let mut ctxt = RenderContext::new(true);
    let mut lr = LineRenderer::new("", "", &mut ctxt);
    assert!(!lr.needs_rendering());
    lr.draw_line(v(0, 0, 0), v(1, 0, 0), v(1, 0, 0));
    lr.draw_line(v(0, 0, 0), v(0, 1, 0), v(0, 1, 0));
    assert!(lr.needs_rendering());
    let before = ctxt.draws.len();
    lr.render(0, &mut ctxt);
    assert_eq!(ctxt.draws.len(), before + 1);
    assert_eq!(ctxt.draws[before].kind, DrawKind::Lines);
    assert_eq!(ctxt.draws[before].count, 4);
    // The batch was cleared: a second flush draws nothing.
    assert!(!lr.needs_rendering());
    lr.render(0, &mut ctxt);
    assert_eq!(ctxt.draws.len(), before + 1);
}

#[test]
fn point_renderer_flushes_once_and_clears() {
    let mut ctxt = RenderContext::new(true);
    let mut pr = PointRenderer::new("", "", &mut ctxt);
    pr.draw_point(v(1, 2, 3), v(1, 1, 1));
    pr.render(0, &mut ctxt);
    assert_eq!(ctxt.draws.len(), 1);
    assert_eq!(ctxt.draws[0].kind, DrawKind::Points);
    assert_eq!(ctxt.draws[0].count, 1);
    pr.render(0, &mut ctxt);
    assert_eq!(ctxt.draws.len(), 1);
}

#[test]
fn light_uniform_follows_the_camera_or_stays_put() {
    let mut ctxt = RenderContext::new(true);
    let mut materials = MaterialManager::new("", "", &mut ctxt);
    let mut meshes = MeshManager::new();
    let mesh_id = meshes.add(quad(), "quad");
    let mut s: Scene = Scene::new();
    let ob = Object::new(mesh_id, FX_ONE, FX_ONE, FX_ONE, 0, materials.get_default());
    let _ = s.add_object(0, Vec3::ones(), Iso3::identity(), ob);
    // A camera-following light uploads the eye position.
    s.render(0, 0, &cam(), &Light::StickToCamera, &mut meshes, &mut materials, &mut ctxt);
    let logged = ctxt
        .uniform_log
        .iter()
        .find(|e| matches!(e.1, UniformValue::Vector3(p) if p == v(0, 0, 10)));
    assert!(logged.is_some());
    // An absolute light uploads its own position instead.
    let before = ctxt.uniform_log.len();
    s.render(0, 0, &cam(), &Light::Absolute(v(7, 0, 0)), &mut meshes, &mut materials, &mut ctxt);
    let logged = ctxt.uniform_log[before..]
        .iter()
        .find(|e| matches!(e.1, UniformValue::Vector3(p) if p == v(7, 0, 0)));
    assert!(logged.is_some());
}

#[test]
fn names_resolve_to_shared_handles() {
    let mut ctxt = RenderContext::new(true);
    let mut materials = MaterialManager::new("", "", &mut ctxt);
    let mut meshes = MeshManager::new();
    // The built-in cube is registered from the start.
    let cube = meshes.get("cube").unwrap();
    assert_eq!(meshes.get("cube"), Some(cube));
    assert!(meshes.get("sphere").is_none());
    assert_eq!(materials.get("object"), Some(0));
    // Registering under a taken name rebinds it; the old handle stays.
    let q1 = meshes.add(quad(), "quad");
    let q2 = meshes.add(quad(), "quad");
    assert_ne!(q1, q2);
    assert_eq!(meshes.get("quad"), Some(q2));
    meshes.remove("quad");
    assert!(meshes.get("quad").is_none());
    assert_eq!(meshes.len(), 3);
}

#[test]
fn add_cube_draws_the_builtin_geometry() {
    let mut ctxt = RenderContext::new(true);
    let mut materials = MaterialManager::new("", "", &mut ctxt);
    let meshes = MeshManager::new();
    let mut s: Scene = Scene::new();
    let node = s
        .add_cube(0, FX_ONE, FX_ONE, FX_ONE, &meshes, 0, &materials)
        .unwrap();
    assert!(s.object(node).is_some());
    let mut meshes = meshes;
    s.render(0, 0, &cam(), &Light::StickToCamera, &mut meshes, &mut materials, &mut ctxt);
    // One surface pass over the twelve cube faces.
    assert_eq!(ctxt.draws.len(), 1);
    assert_eq!(ctxt.draws[0].count, 36);
}
