//! Normal computation and the fixed-point algebra it rests on.

use starman::algebra::{Quat, Vec3};
use starman::fx::{fx_add, fx_div, fx_mul, fx_sub, isqrt64, FX_ONE};
use starman::mesh::{compute_normals_array, Face, Mesh};

fn v(x: i32, y: i32, z: i32) -> Vec3 {
    Vec3 { x: x * FX_ONE, y: y * FX_ONE, z: z * FX_ONE }
}

#[test]
fn flat_quad_normals_agree_at_shared_vertices() {
    // Two coplanar triangles sharing an edge: every vertex, shared or
    // not, gets exactly the common face normal, with no averaging skew.
    let coords = vec![v(0, 0, 0), v(1, 0, 0), v(1, 1, 0), v(0, 1, 0)];
    let faces = vec![Face { a: 0, b: 1, c: 2 }, Face { a: 0, b: 2, c: 3 }];
    let normals = compute_normals_array(&coords, &faces);
    assert_eq!(normals.len(), 4);
    for n in &normals {
        assert_eq!(*n, v(0, 0, 1));
    }
}

#[test]
fn degenerate_face_contributes_zero() {
    // A zero-area triangle adds a zero vector, not an error.
    let coords = vec![v(0, 0, 0), v(1, 0, 0), v(2, 0, 0)];
    let faces = vec![Face { a: 0, b: 1, c: 2 }];
    let normals = compute_normals_array(&coords, &faces);
    for n in &normals {
        assert_eq!(*n, v(0, 0, 0));
    }
}

#[test]
fn untouched_vertices_keep_a_zero_normal() {
    let coords = vec![v(0, 0, 0), v(1, 0, 0), v(1, 1, 0), v(5, 5, 5)];
    let faces = vec![Face { a: 0, b: 1, c: 2 }];
    let normals = compute_normals_array(&coords, &faces);
    assert_eq!(normals[3], v(0, 0, 0));
    assert_eq!(normals[0], v(0, 0, 1));
}

#[test]
fn mesh_new_computes_missing_normals() {
    let coords = vec![v(0, 0, 0), v(1, 0, 0), v(1, 1, 0), v(0, 1, 0)];
    let faces = vec![Face { a: 0, b: 1, c: 2 }, Face { a: 0, b: 2, c: 3 }];
    let m = Mesh::new(coords, faces, None, None, false);
    let ns = m.normals.data.as_ref().unwrap();
    assert_eq!(ns[0], v(0, 0, 1));
    assert_eq!(ns[2], v(0, 0, 1));
    assert_eq!(m.num_pts(), 6);
}

#[test]
fn cross_product_is_exact_on_unit_axes() {
    let x = v(1, 0, 0);
    let y = v(0, 1, 0);
    assert_eq!(x.cross(&y), v(0, 0, 1));
    assert_eq!(y.cross(&x), v(0, 0, -1));
}

#[test]
fn normalize_scales_to_unit_length() {
    let a = v(3, 0, 4);
    let n = a.normalize();
    // 3-4-5 triangle: components 3/5 and 4/5 exactly in fixed point.
    assert_eq!(n, Vec3 { x: 3 * FX_ONE / 5, y: 0, z: 4 * FX_ONE / 5 });
    assert_eq!(v(0, 0, 0).normalize(), v(0, 0, 0));
}

#[test]
fn fixed_point_arithmetic_is_exact_and_saturating() {
    assert_eq!(fx_add(FX_ONE, FX_ONE), 2 * FX_ONE);
    assert_eq!(fx_sub(FX_ONE, 3 * FX_ONE), -2 * FX_ONE);
    assert_eq!(fx_mul(2 * FX_ONE, 3 * FX_ONE), 6 * FX_ONE);
    assert_eq!(fx_mul(FX_ONE / 2, FX_ONE / 2), FX_ONE / 4);
    assert_eq!(fx_div(FX_ONE, 2 * FX_ONE), FX_ONE / 2);
    assert_eq!(fx_div(FX_ONE, 0), i32::MAX);
    assert_eq!(fx_div(-FX_ONE, 0), i32::MIN);
    assert_eq!(fx_add(i32::MAX, 1), i32::MAX);
    assert_eq!(fx_sub(i32::MIN, 1), i32::MIN);
    assert_eq!(fx_mul(i32::MAX, i32::MAX), i32::MAX);
}

#[test]
fn integer_square_root_is_the_floor() {
    assert_eq!(isqrt64(0), 0);
    assert_eq!(isqrt64(1), 1);
    assert_eq!(isqrt64(2), 1);
    assert_eq!(isqrt64(4), 2);
    assert_eq!(isqrt64(15), 3);
    assert_eq!(isqrt64(16), 4);
    assert_eq!(isqrt64(u64::MAX), 4294967295);
}

#[test]
fn quaternion_identity_rotates_nothing() {
    let q = Quat { w: FX_ONE, x: 0, y: 0, z: 0 };
    let p = v(3, -2, 5);
    assert_eq!(q.rotate(&p), p);
    assert_eq!(q.qmul(&q), q);
}

#[test]
fn quarter_turn_rotates_axes() {
    // A quarter turn about z maps x to y: in fixed point the
    // components are cos(45°) = sin(45°) = 46341/65536.
    let c = 46341;
    let q = Quat { w: c, x: 0, y: 0, z: c };
    let r = q.rotate(&v(1, 0, 0));
    // The rotated axis lands on y up to fixed-point truncation.
    assert!(r.x.abs() < 16);
    assert!((r.y - FX_ONE).abs() < 16);
    assert!(r.z.abs() < 16);
}
