//! Hierarchy behaviour: lazy resolution, invalidation pruning,
//! linking rules and detachment.

use starman::algebra::{Quat, Vec3};
use starman::fx::FX_ONE;
use starman::scene::LinkError;
use starman::scene3::Scene;
use starman::transform::Iso3;

fn v(x: i32, y: i32, z: i32) -> Vec3 {
    Vec3 { x: x * FX_ONE, y: y * FX_ONE, z: z * FX_ONE }
}

#[test]
fn world_transform_composes_down_the_chain() {
    // Root, a child at (1,0,0), a grandchild at (0,1,0): the
    // grandchild's absolute translation is the sum.
    let mut s: Scene = Scene::new();
    let a = s.new_child(0, Iso3::from_translation(v(1, 0, 0)), Vec3::ones(), None);
    let b = s.new_child(a, Iso3::from_translation(v(0, 1, 0)), Vec3::ones(), None);
    let wb = s.world_transformation(b);
    assert_eq!(wb.translation, v(1, 1, 0));
    let wa = s.world_transformation(a);
    assert_eq!(wa.translation, v(1, 0, 0));
}

#[test]
fn append_translation_recomputes_lazily() {
    let mut s: Scene = Scene::new();
    let a = s.new_child(0, Iso3::from_translation(v(1, 0, 0)), Vec3::ones(), None);
    let b = s.new_child(a, Iso3::from_translation(v(0, 1, 0)), Vec3::ones(), None);
    assert_eq!(s.world_transformation(b).translation, v(1, 1, 0));
    assert!(s.is_up_to_date(b));
    // Moving the child marks the grandchild stale but computes nothing.
    s.append_translation(a, &v(0, 0, 5));
    assert!(!s.is_up_to_date(b));
    assert!(!s.is_up_to_date(a));
    // The next query resolves the new chain.
    assert_eq!(s.world_transformation(b).translation, v(1, 1, 5));
    assert!(s.is_up_to_date(b));
}

#[test]
fn invalidation_of_stale_subtree_is_free() {
    let mut s: Scene = Scene::new();
    let a = s.new_child(0, Iso3::from_translation(v(1, 0, 0)), Vec3::ones(), None);
    let b = s.new_child(a, Iso3::from_translation(v(0, 1, 0)), Vec3::ones(), None);
    let _ = s.world_transformation(b);
    s.set_local_translation(a, v(2, 0, 0));
    let after_first = s.invalidations;
    assert!(after_first > 0);
    // The subtree is already stale: a second mutation flips nothing.
    s.set_local_translation(a, v(3, 0, 0));
    assert_eq!(s.invalidations, after_first);
}

#[test]
fn add_child_refuses_a_parented_node() {
    let mut s: Scene = Scene::new();
    let a = s.new_child(0, Iso3::identity(), Vec3::ones(), None);
    let b = s.new_child(0, Iso3::identity(), Vec3::ones(), None);
    // `a` already hangs under the root: adopting it must fail and must
    // not reparent it.
    let r = s.add_child(b, a);
    assert_eq!(r, Err(LinkError::NotARoot));
    assert_eq!(s.parent_of(a), Some(0));
}

#[test]
fn add_child_refuses_a_cycle() {
    let mut s: Scene = Scene::new();
    let a = s.new_child(0, Iso3::identity(), Vec3::ones(), None);
    let b = s.new_child(a, Iso3::identity(), Vec3::ones(), None);
    s.unlink(a);
    // `a` is a root again, but `b` lives inside its subtree: adopting
    // `a` under `b` would close a cycle.
    let r = s.add_child(b, a);
    assert_eq!(r, Err(LinkError::WouldCycle));
    assert!(s.is_root(a));
}

#[test]
fn add_child_adopts_a_root() {
    let mut s: Scene = Scene::new();
    let a = s.new_child(0, Iso3::from_translation(v(1, 0, 0)), Vec3::ones(), None);
    let b = s.new_child(a, Iso3::from_translation(v(0, 1, 0)), Vec3::ones(), None);
    let c = s.new_child(0, Iso3::from_translation(v(0, 0, 1)), Vec3::ones(), None);
    s.unlink(c);
    assert!(s.is_root(c));
    assert_eq!(s.add_child(b, c), Ok(()));
    assert_eq!(s.parent_of(c), Some(b));
    assert_eq!(s.world_transformation(c).translation, v(1, 1, 1));
}

#[test]
fn unlink_makes_an_independent_root() {
    let mut s: Scene = Scene::new();
    let a = s.new_child(0, Iso3::from_translation(v(1, 0, 0)), Vec3::ones(), None);
    let b = s.new_child(a, Iso3::from_translation(v(0, 1, 0)), Vec3::ones(), None);
    assert_eq!(s.world_transformation(b).translation, v(1, 1, 0));
    s.unlink(a);
    assert!(s.is_root(a));
    // Both the detached node and its subtree answer as their own tree.
    assert_eq!(s.world_transformation(a).translation, v(1, 0, 0));
    assert_eq!(s.world_transformation(b).translation, v(1, 1, 0));
    s.set_local_translation(a, v(7, 0, 0));
    assert_eq!(s.world_transformation(b).translation, v(7, 1, 0));
}

#[test]
fn unlink_of_a_root_changes_nothing() {
    let mut s: Scene = Scene::new();
    let a = s.new_child(0, Iso3::from_translation(v(1, 0, 0)), Vec3::ones(), None);
    s.unlink(a);
    let inv = s.invalidations;
    s.unlink(a);
    assert!(s.is_root(a));
    assert_eq!(s.invalidations, inv);
}

#[test]
fn scale_composes_from_the_parent_local_scale() {
    // The absolute scale of a node multiplies its own local scale with
    // its parent's local scale — only one level up, by design.
    let mut s: Scene = Scene::new();
    let half = Vec3 { x: FX_ONE / 2, y: FX_ONE, z: FX_ONE };
    let a = s.new_child(0, Iso3::identity(), half, None);
    let b = s.new_child(a, Iso3::identity(), half, None);
    let c = s.new_child(b, Iso3::identity(), half, None);
    let wc = s.world_scale(c);
    // Grandparent scale does not enter: a quarter, not an eighth.
    assert_eq!(wc.x, FX_ONE / 4);
    assert_eq!(wc.y, FX_ONE);
    let wa = s.world_scale(a);
    assert_eq!(wa.x, FX_ONE / 2);
}

#[test]
fn visibility_is_per_node() {
    let mut s: Scene = Scene::new();
    let a = s.new_child(0, Iso3::identity(), Vec3::ones(), None);
    assert!(s.is_visible(a));
    s.set_visible(a, false);
    assert!(!s.is_visible(a));
    assert!(s.is_visible(0));
}

#[test]
fn append_moves_in_parent_frame_prepend_in_local_frame() {
    // A half turn about z is exact in fixed point and sends x to -x.
    let half_turn = Quat { w: 0, x: 0, y: 0, z: FX_ONE };
    let mut s: Scene = Scene::new();
    let a = s.new_child(0, Iso3::identity(), Vec3::ones(), None);
    let b = s.new_child(0, Iso3::identity(), Vec3::ones(), None);
    s.set_local_rotation(a, half_turn);
    s.set_local_rotation(b, half_turn);
    // Appending composes on the parent's side: the step is taken in
    // the parent's frame, unrotated.
    s.append_translation(a, &v(1, 0, 0));
    assert_eq!(s.world_transformation(a).translation, v(1, 0, 0));
    // Prepending composes on the node's own side: the same step is
    // taken in the node's rotated frame.
    s.prepend_to_local_translation(b, &v(1, 0, 0));
    assert_eq!(s.world_transformation(b).translation, v(-1, 0, 0));
}

#[test]
fn world_composition_applies_the_parent_rotation_to_the_child() {
    // The chain composes root first: a half-turned parent carries its
    // child at (1,0,0) to world (-1,0,0).
    let half_turn = Quat { w: 0, x: 0, y: 0, z: FX_ONE };
    let mut s: Scene = Scene::new();
    let parent = s.new_child(0, Iso3::from_rotation(half_turn), Vec3::ones(), None);
    let child = s.new_child(parent, Iso3::from_translation(v(1, 0, 0)), Vec3::ones(), None);
    assert_eq!(s.world_transformation(child).translation, v(-1, 0, 0));
}
