//! Rigid transforms and the composition algebra the scene graph runs on.
//!
//! An isometry couples a rotation with a translation.  Composition of
//! `a` with `b` applies `b` first, then `a`, exactly as the matrix
//! product `a * b` would.  The `Compose` trait gathers what the node
//! hierarchy needs of a spatial value: composition, an identity, and an
//! inverse; scale vectors compose componentwise under the same trait.

use vstd::prelude::*;
use crate::algebra::{
    add2_spec, add3_spec, cmul2_spec, cmul3_spec, neg2_spec, neg3_spec, qconj_spec, qmul_spec,
    rot2_conj_spec, rot2_mul_spec, rotate2_spec, rotate3_spec, Quat, Rot2, Vec2, Vec3,
};
use crate::fx::{fx_div, fx_div_spec, FX_ONE};

verus! {

/// A rigid transform of space: rotation followed by translation.
#[derive(Clone, Copy, PartialEq, Eq, Structural, Debug)]
pub struct Iso3 {
    pub rotation: Quat,
    pub translation: Vec3,
}

/// A rigid transform of the plane.
#[derive(Clone, Copy, PartialEq, Eq, Structural, Debug)]
pub struct Iso2 {
    pub rotation: Rot2,
    pub translation: Vec2,
}

/// What composing two space isometries yields: `a * b` applies `b`
/// first, so the rotations multiply and `b`'s translation is carried
/// through `a`.
pub open spec fn iso3_mul_spec(a: Iso3, b: Iso3) -> Iso3 {
    Iso3 {
        rotation: qmul_spec(a.rotation, b.rotation),
        translation: add3_spec(rotate3_spec(a.rotation, b.translation), a.translation),
    }
}

/// The inverse isometry, taking the rotation for a unit quaternion.
pub open spec fn iso3_inverse_spec(a: Iso3) -> Iso3 {
    Iso3 {
        rotation: qconj_spec(a.rotation),
        translation: neg3_spec(rotate3_spec(qconj_spec(a.rotation), a.translation)),
    }
}

/// What composing two plane isometries yields.
pub open spec fn iso2_mul_spec(a: Iso2, b: Iso2) -> Iso2 {
    Iso2 {
        rotation: rot2_mul_spec(a.rotation, b.rotation),
        translation: add2_spec(rotate2_spec(a.rotation, b.translation), a.translation),
    }
}

/// The inverse plane isometry.
pub open spec fn iso2_inverse_spec(a: Iso2) -> Iso2 {
    Iso2 {
        rotation: rot2_conj_spec(a.rotation),
        translation: neg2_spec(rotate2_spec(rot2_conj_spec(a.rotation), a.translation)),
    }
}

/// The componentwise reciprocal, inverting a scale vector.
pub open spec fn recip3_spec(a: Vec3) -> Vec3 {
    Vec3 {
        x: fx_div_spec(FX_ONE as int, a.x as int) as i32,
        y: fx_div_spec(FX_ONE as int, a.y as int) as i32,
        z: fx_div_spec(FX_ONE as int, a.z as int) as i32,
    }
}

/// The componentwise reciprocal, inverting a plane scale vector.
pub open spec fn recip2_spec(a: Vec2) -> Vec2 {
    Vec2 {
        x: fx_div_spec(FX_ONE as int, a.x as int) as i32,
        y: fx_div_spec(FX_ONE as int, a.y as int) as i32,
    }
}

/// A spatial value the node hierarchy can cache and compose: transforms
/// under isometry composition, scale vectors under componentwise
/// product.
pub trait Compose: Sized + Copy {
    /// What `Self::compose` returns.
    spec fn compose_spec(a: Self, b: Self) -> Self;

    /// What `Self::one` returns: the neutral element of composition.
    spec fn one_spec() -> Self;

    /// What `Self::inverse` returns.
    spec fn inverse_spec(a: Self) -> Self;

    /// The composition of `a` with `b`, `b` applied first.
    fn compose(a: &Self, b: &Self) -> (r: Self)
        ensures
            r == Self::compose_spec(*a, *b),
    ;

    /// The neutral element.
    fn one() -> (r: Self)
        ensures
            r == Self::one_spec(),
    ;

    /// The inverse element.
    fn inverse(a: &Self) -> (r: Self)
        ensures
            r == Self::inverse_spec(*a),
    ;
}

impl Iso3 {
    /// The identity transform.
    pub fn identity() -> (r: Iso3)
        ensures
            r == Iso3::one_spec(),
    {
        Iso3 { rotation: Quat::identity(), translation: Vec3::zero() }
    }

    /// A pure translation.
    pub fn from_translation(t: Vec3) -> (r: Iso3)
        ensures
            r == (Iso3 { rotation: Quat { w: FX_ONE, x: 0, y: 0, z: 0 }, translation: t }),
    {
        Iso3 { rotation: Quat::identity(), translation: t }
    }

    /// A pure rotation.
    pub fn from_rotation(q: Quat) -> (r: Iso3)
        ensures
            r == (Iso3 { rotation: q, translation: Vec3 { x: 0, y: 0, z: 0 } }),
    {
        Iso3 { rotation: q, translation: Vec3::zero() }
    }
}

impl Compose for Iso3 {
    open spec fn compose_spec(a: Iso3, b: Iso3) -> Iso3 {
        iso3_mul_spec(a, b)
    }

    open spec fn one_spec() -> Iso3 {
        Iso3 {
            rotation: Quat { w: FX_ONE, x: 0, y: 0, z: 0 },
            translation: Vec3 { x: 0, y: 0, z: 0 },
        }
    }

    open spec fn inverse_spec(a: Iso3) -> Iso3 {
        iso3_inverse_spec(a)
    }

    fn compose(a: &Iso3, b: &Iso3) -> (r: Iso3) {
        Iso3 {
            rotation: a.rotation.qmul(&b.rotation),
            translation: a.rotation.rotate(&b.translation).vadd(&a.translation),
        }
    }

    fn one() -> (r: Iso3) {
        Iso3::identity()
    }

    fn inverse(a: &Iso3) -> (r: Iso3) {
        let rot = a.rotation.conjugate();
        let t = rot.rotate(&a.translation).vneg();
        Iso3 { rotation: rot, translation: t }
    }
}

impl Iso2 {
    /// The identity transform.
    pub fn identity() -> (r: Iso2)
        ensures
            r == Iso2::one_spec(),
    {
        Iso2 { rotation: Rot2::identity(), translation: Vec2::zero() }
    }

    /// A pure translation.
    pub fn from_translation(t: Vec2) -> (r: Iso2)
        ensures
            r == (Iso2 { rotation: Rot2 { c: FX_ONE, s: 0 }, translation: t }),
    {
        Iso2 { rotation: Rot2::identity(), translation: t }
    }
}

impl Compose for Iso2 {
    open spec fn compose_spec(a: Iso2, b: Iso2) -> Iso2 {
        iso2_mul_spec(a, b)
    }

    open spec fn one_spec() -> Iso2 {
        Iso2 { rotation: Rot2 { c: FX_ONE, s: 0 }, translation: Vec2 { x: 0, y: 0 } }
    }

    open spec fn inverse_spec(a: Iso2) -> Iso2 {
        iso2_inverse_spec(a)
    }

    fn compose(a: &Iso2, b: &Iso2) -> (r: Iso2) {
        Iso2 {
            rotation: a.rotation.rmul(&b.rotation),
            translation: a.rotation.rotate(&b.translation).vadd(&a.translation),
        }
    }

    fn one() -> (r: Iso2) {
        Iso2::identity()
    }

    fn inverse(a: &Iso2) -> (r: Iso2) {
        let rot = a.rotation.conjugate();
        let t = rot.rotate(&a.translation).vneg();
        Iso2 { rotation: rot, translation: t }
    }
}

impl Compose for Vec3 {
    open spec fn compose_spec(a: Vec3, b: Vec3) -> Vec3 {
        cmul3_spec(a, b)
    }

    open spec fn one_spec() -> Vec3 {
        Vec3 { x: FX_ONE, y: FX_ONE, z: FX_ONE }
    }

    open spec fn inverse_spec(a: Vec3) -> Vec3 {
        recip3_spec(a)
    }

    fn compose(a: &Vec3, b: &Vec3) -> (r: Vec3) {
        a.component_mul(b)
    }

    fn one() -> (r: Vec3) {
        Vec3::ones()
    }

    fn inverse(a: &Vec3) -> (r: Vec3) {
        Vec3 { x: fx_div(FX_ONE, a.x), y: fx_div(FX_ONE, a.y), z: fx_div(FX_ONE, a.z) }
    }
}

impl Compose for Vec2 {
    open spec fn compose_spec(a: Vec2, b: Vec2) -> Vec2 {
        cmul2_spec(a, b)
    }

    open spec fn one_spec() -> Vec2 {
        Vec2 { x: FX_ONE, y: FX_ONE }
    }

    open spec fn inverse_spec(a: Vec2) -> Vec2 {
        recip2_spec(a)
    }

    fn compose(a: &Vec2, b: &Vec2) -> (r: Vec2) {
        a.component_mul(b)
    }

    fn one() -> (r: Vec2) {
        Vec2::ones()
    }

    fn inverse(a: &Vec2) -> (r: Vec2) {
        Vec2 { x: fx_div(FX_ONE, a.x), y: fx_div(FX_ONE, a.y) }
    }
}

} // verus!
