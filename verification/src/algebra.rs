//! Fixed-point vectors, rotations and quaternions.
//!
//! These are the value types every transform and every vertex of the
//! renderer is made of.  Each executable operation has a spec function
//! giving its result exactly, including the saturation and truncation
//! the fixed-point representation imposes.

use vstd::prelude::*;
use crate::fx::{
    clamp32, fx_add, fx_add_spec, fx_mul, fx_mul_spec, fx_neg, fx_neg_spec, fx_sub, fx_sub_spec,
    is_sqrt, isqrt64, lemma_sqrt_floor, sabs, sqrt_floor, tdiv, FX_ONE,
};

verus! {

/// A two-component fixed-point vector.
#[derive(Clone, Copy, PartialEq, Eq, Structural, Debug)]
pub struct Vec2 {
    pub x: i32,
    pub y: i32,
}

/// A three-component fixed-point vector.
#[derive(Clone, Copy, PartialEq, Eq, Structural, Debug)]
pub struct Vec3 {
    pub x: i32,
    pub y: i32,
    pub z: i32,
}

/// A rotation quaternion in fixed point, `w` the scalar part.
#[derive(Clone, Copy, PartialEq, Eq, Structural, Debug)]
pub struct Quat {
    pub w: i32,
    pub x: i32,
    pub y: i32,
    pub z: i32,
}

/// A plane rotation in fixed point, stored as cosine and sine.
#[derive(Clone, Copy, PartialEq, Eq, Structural, Debug)]
pub struct Rot2 {
    pub c: i32,
    pub s: i32,
}

/// The square of an integer.
pub open spec fn sq(x: int) -> int {
    x * x
}

/// Componentwise saturating addition.
pub open spec fn add3_spec(a: Vec3, b: Vec3) -> Vec3 {
    Vec3 {
        x: fx_add_spec(a.x as int, b.x as int) as i32,
        y: fx_add_spec(a.y as int, b.y as int) as i32,
        z: fx_add_spec(a.z as int, b.z as int) as i32,
    }
}

/// Componentwise saturating subtraction.
pub open spec fn sub3_spec(a: Vec3, b: Vec3) -> Vec3 {
    Vec3 {
        x: fx_sub_spec(a.x as int, b.x as int) as i32,
        y: fx_sub_spec(a.y as int, b.y as int) as i32,
        z: fx_sub_spec(a.z as int, b.z as int) as i32,
    }
}

/// Componentwise saturating negation.
pub open spec fn neg3_spec(a: Vec3) -> Vec3 {
    Vec3 {
        x: fx_neg_spec(a.x as int) as i32,
        y: fx_neg_spec(a.y as int) as i32,
        z: fx_neg_spec(a.z as int) as i32,
    }
}

/// Componentwise saturating fixed-point product.
pub open spec fn cmul3_spec(a: Vec3, b: Vec3) -> Vec3 {
    Vec3 {
        x: fx_mul_spec(a.x as int, b.x as int) as i32,
        y: fx_mul_spec(a.y as int, b.y as int) as i32,
        z: fx_mul_spec(a.z as int, b.z as int) as i32,
    }
}

/// The cross product, each component rescaled from the exact products.
pub open spec fn cross3_spec(a: Vec3, b: Vec3) -> Vec3 {
    Vec3 {
        x: clamp32(tdiv((a.y as int) * (b.z as int) - (a.z as int) * (b.y as int), 65536)) as i32,
        y: clamp32(tdiv((a.z as int) * (b.x as int) - (a.x as int) * (b.z as int), 65536)) as i32,
        z: clamp32(tdiv((a.x as int) * (b.y as int) - (a.y as int) * (b.x as int), 65536)) as i32,
    }
}

/// The Euclidean norm of the raw component triple, itself a raw
/// fixed-point scalar.
pub open spec fn norm3_spec(a: Vec3) -> int {
    sqrt_floor(sq(a.x as int) + sq(a.y as int) + sq(a.z as int))
}

/// The unit vector of `a`; the zero vector stays zero.
pub open spec fn normalize3_spec(a: Vec3) -> Vec3 {
    if norm3_spec(a) == 0 {
        Vec3 { x: 0, y: 0, z: 0 }
    } else {
        Vec3 {
            x: tdiv((a.x as int) * 65536, norm3_spec(a)) as i32,
            y: tdiv((a.y as int) * 65536, norm3_spec(a)) as i32,
            z: tdiv((a.z as int) * 65536, norm3_spec(a)) as i32,
        }
    }
}

/// Componentwise saturating addition.
pub open spec fn add2_spec(a: Vec2, b: Vec2) -> Vec2 {
    Vec2 {
        x: fx_add_spec(a.x as int, b.x as int) as i32,
        y: fx_add_spec(a.y as int, b.y as int) as i32,
    }
}

/// Componentwise saturating negation.
pub open spec fn neg2_spec(a: Vec2) -> Vec2 {
    Vec2 { x: fx_neg_spec(a.x as int) as i32, y: fx_neg_spec(a.y as int) as i32 }
}

/// Componentwise saturating fixed-point product.
pub open spec fn cmul2_spec(a: Vec2, b: Vec2) -> Vec2 {
    Vec2 {
        x: fx_mul_spec(a.x as int, b.x as int) as i32,
        y: fx_mul_spec(a.y as int, b.y as int) as i32,
    }
}

/// The Hamilton product of two quaternions, rescaled per component.
pub open spec fn qmul_spec(a: Quat, b: Quat) -> Quat {
    Quat {
        w: clamp32(
            tdiv(
                (a.w as int) * (b.w as int) - (a.x as int) * (b.x as int) - (a.y as int) * (
                b.y as int) - (a.z as int) * (b.z as int),
                65536,
            ),
        ) as i32,
        x: clamp32(
            tdiv(
                (a.w as int) * (b.x as int) + (a.x as int) * (b.w as int) + (a.y as int) * (
                b.z as int) - (a.z as int) * (b.y as int),
                65536,
            ),
        ) as i32,
        y: clamp32(
            tdiv(
                (a.w as int) * (b.y as int) - (a.x as int) * (b.z as int) + (a.y as int) * (
                b.w as int) + (a.z as int) * (b.x as int),
                65536,
            ),
        ) as i32,
        z: clamp32(
            tdiv(
                (a.w as int) * (b.z as int) + (a.x as int) * (b.y as int) - (a.y as int) * (
                b.x as int) + (a.z as int) * (b.w as int),
                65536,
            ),
        ) as i32,
    }
}

/// The conjugate quaternion, which inverts a unit rotation.
pub open spec fn qconj_spec(a: Quat) -> Quat {
    Quat {
        w: a.w,
        x: fx_neg_spec(a.x as int) as i32,
        y: fx_neg_spec(a.y as int) as i32,
        z: fx_neg_spec(a.z as int) as i32,
    }
}

/// A vector as a pure quaternion.
pub open spec fn qpure_spec(v: Vec3) -> Quat {
    Quat { w: 0, x: v.x, y: v.y, z: v.z }
}

/// The rotation of `v` by `q`, computed as `q * v * conj(q)`.
pub open spec fn rotate3_spec(q: Quat, v: Vec3) -> Vec3 {
    let r = qmul_spec(qmul_spec(q, qpure_spec(v)), qconj_spec(q));
    Vec3 { x: r.x, y: r.y, z: r.z }
}

/// The composition of two plane rotations.
pub open spec fn rot2_mul_spec(a: Rot2, b: Rot2) -> Rot2 {
    Rot2 {
        c: clamp32(
            tdiv((a.c as int) * (b.c as int) - (a.s as int) * (b.s as int), 65536),
        ) as i32,
        s: clamp32(
            tdiv((a.s as int) * (b.c as int) + (a.c as int) * (b.s as int), 65536),
        ) as i32,
    }
}

/// The inverse plane rotation.
pub open spec fn rot2_conj_spec(a: Rot2) -> Rot2 {
    Rot2 { c: a.c, s: fx_neg_spec(a.s as int) as i32 }
}

/// The rotation of `v` by `r`.
pub open spec fn rotate2_spec(r: Rot2, v: Vec2) -> Vec2 {
    Vec2 {
        x: clamp32(
            tdiv((r.c as int) * (v.x as int) - (r.s as int) * (v.y as int), 65536),
        ) as i32,
        y: clamp32(
            tdiv((r.s as int) * (v.x as int) + (r.c as int) * (v.y as int), 65536),
        ) as i32,
    }
}

/// Rescaling of an exact product sum by 2^16, truncating toward zero and
/// saturating into the `i32` range.
fn rescale128(t: i128) -> (r: i32)
    requires
        sabs(t as int) < 0x8000_0000_0000_0000_0000_0000_0000_0000int,
    ensures
        r as int == clamp32(tdiv(t as int, 65536)),
{
    let neg: bool = t < 0;
    let m: u128 = if neg {
        (-t) as u128
    } else {
        t as u128
    };
    assert(m as int == sabs(t as int));
    let q: u128 = m / 65536u128;
    if neg {
        if q >= 0x8000_0000u128 {
            i32::MIN
        } else {
            let qi: i32 = q as i32;
            assert(-(qi as int) == tdiv(t as int, 65536));
            -qi
        }
    } else {
        if q > 0x7fff_ffffu128 {
            i32::MAX
        } else {
            assert(q as int == tdiv(t as int, 65536));
            q as i32
        }
    }
}

/// The exact product of two fixed-point scalars, before rescaling.
fn wide_mul(a: i32, b: i32) -> (r: i128)
    ensures
        r as int == (a as int) * (b as int),
        sabs(r as int) <= 0x4000_0000_0000_0000int,
{
    proof {
        assert(sabs((a as int) * (b as int)) <= 0x4000_0000_0000_0000int) by (nonlinear_arith)
            requires
                -0x8000_0000 <= a as int <= 0x7fff_ffff,
                -0x8000_0000 <= b as int <= 0x7fff_ffff,
        ;
    }
    (a as i128) * (b as i128)
}

impl Vec3 {
    /// The zero vector.
    pub fn zero() -> (r: Vec3)
        ensures
            r == (Vec3 { x: 0, y: 0, z: 0 }),
    {
        Vec3 { x: 0, y: 0, z: 0 }
    }

    /// The vector of ones, the neutral scale factor.
    pub fn ones() -> (r: Vec3)
        ensures
            r == (Vec3 { x: FX_ONE, y: FX_ONE, z: FX_ONE }),
    {
        Vec3 { x: FX_ONE, y: FX_ONE, z: FX_ONE }
    }

    /// Componentwise saturating addition.
    pub fn vadd(&self, o: &Vec3) -> (r: Vec3)
        ensures
            r == add3_spec(*self, *o),
    {
        Vec3 { x: fx_add(self.x, o.x), y: fx_add(self.y, o.y), z: fx_add(self.z, o.z) }
    }

    /// Componentwise saturating subtraction.
    pub fn vsub(&self, o: &Vec3) -> (r: Vec3)
        ensures
            r == sub3_spec(*self, *o),
    {
        Vec3 { x: fx_sub(self.x, o.x), y: fx_sub(self.y, o.y), z: fx_sub(self.z, o.z) }
    }

    /// Componentwise saturating negation.
    pub fn vneg(&self) -> (r: Vec3)
        ensures
            r == neg3_spec(*self),
    {
        Vec3 { x: fx_neg(self.x), y: fx_neg(self.y), z: fx_neg(self.z) }
    }

    /// Componentwise fixed-point product; how scale factors compose.
    pub fn component_mul(&self, o: &Vec3) -> (r: Vec3)
        ensures
            r == cmul3_spec(*self, *o),
    {
        Vec3 { x: fx_mul(self.x, o.x), y: fx_mul(self.y, o.y), z: fx_mul(self.z, o.z) }
    }

    /// The cross product.
    pub fn cross(&self, o: &Vec3) -> (r: Vec3)
        ensures
            r == cross3_spec(*self, *o),
    {
        let x: i32 = rescale128(wide_mul(self.y, o.z) - wide_mul(self.z, o.y));
        let y: i32 = rescale128(wide_mul(self.z, o.x) - wide_mul(self.x, o.z));
        let z: i32 = rescale128(wide_mul(self.x, o.y) - wide_mul(self.y, o.x));
        Vec3 { x, y, z }
    }

    /// The squared magnitude of the raw components.
    fn mag_sq(&self) -> (r: u64)
        ensures
            r as int == sq(self.x as int) + sq(self.y as int) + sq(self.z as int),
    {
        proof {
            assert(0 <= (self.x as int) * (self.x as int) <= 0x4000_0000_0000_0000int
                && 0 <= (self.y as int) * (self.y as int) <= 0x4000_0000_0000_0000int
                && 0 <= (self.z as int) * (self.z as int) <= 0x4000_0000_0000_0000int)
                by (nonlinear_arith)
                requires
                    -0x8000_0000 <= self.x as int <= 0x7fff_ffff,
                    -0x8000_0000 <= self.y as int <= 0x7fff_ffff,
                    -0x8000_0000 <= self.z as int <= 0x7fff_ffff,
            ;
        }
        let sx: u64 = ((self.x as i64) * (self.x as i64)) as u64;
        let sy: u64 = ((self.y as i64) * (self.y as i64)) as u64;
        let sz: u64 = ((self.z as i64) * (self.z as i64)) as u64;
        sx + sy + sz
    }

    /// Whether this is exactly the zero vector.
    pub fn is_zero(&self) -> (r: bool)
        ensures
            r == (*self == (Vec3 { x: 0, y: 0, z: 0 })),
    {
        self.x == 0 && self.y == 0 && self.z == 0
    }

    /// The unit vector in this direction; zero stays zero.
    pub fn normalize(&self) -> (r: Vec3)
        ensures
            r == normalize3_spec(*self),
    {
        let m: u64 = self.mag_sq();
        let norm: u64 = isqrt64(m);
        proof {
            lemma_sqrt_floor(m as int);
        }
        if norm == 0 {
            proof {
                assert(is_sqrt(m as int, 0));
                assert((0int + 1) * (0int + 1) == 1) by (nonlinear_arith);
                assert((m as int) < 1);
                assert(self.x as int == 0 && self.y as int == 0 && self.z as int == 0)
                    by (nonlinear_arith)
                    requires
                        sq(self.x as int) + sq(self.y as int) + sq(self.z as int) == m as int,
                        (m as int) < 1,
                ;
            }
            Vec3 { x: 0, y: 0, z: 0 }
        } else {
            proof {
                assert(0 <= sq(self.x as int) && 0 <= sq(self.y as int) && 0 <= sq(self.z as int))
                    by (nonlinear_arith);
            }
            Vec3 {
                x: div_by_norm(self.x, norm, Ghost(m as int)),
                y: div_by_norm(self.y, norm, Ghost(m as int)),
                z: div_by_norm(self.z, norm, Ghost(m as int)),
            }
        }
    }
}

/// One normalized component: `c * 2^16 / norm`, where `c^2` is at most
/// the square sum `norm` was drawn from.
fn div_by_norm(c: i32, norm: u64, m: Ghost<int>) -> (r: i32)
    requires
        norm as int == sqrt_floor(m@),
        norm > 0,
        0 <= m@ <= 0xffff_ffff_ffff_ffffint,
        sq(c as int) <= m@,
    ensures
        r as int == tdiv((c as int) * 65536, norm as int),
{
    proof {
        lemma_sqrt_floor(m@);
        assert(sabs(c as int) <= norm as int) by (nonlinear_arith)
            requires
                sq(c as int) <= m@,
                is_sqrt(m@, norm as int),
        ;
    }
    let neg: bool = c < 0;
    let mag: u64 = if neg {
        (-(c as i64)) as u64
    } else {
        c as u64
    };
    assert(mag as int == sabs(c as int));
    let num: u64 = mag * 65536;
    let q: u64 = num / norm;
    proof {
        assert(q as int <= 65536) by (nonlinear_arith)
            requires
                q as int == (mag as int * 65536) / (norm as int),
                mag as int <= norm as int,
                norm as int > 0,
        ;
    }
    if neg {
        -(q as i32)
    } else {
        q as i32
    }
}

impl Vec2 {
    /// The zero vector.
    pub fn zero() -> (r: Vec2)
        ensures
            r == (Vec2 { x: 0, y: 0 }),
    {
        Vec2 { x: 0, y: 0 }
    }

    /// The vector of ones, the neutral scale factor.
    pub fn ones() -> (r: Vec2)
        ensures
            r == (Vec2 { x: FX_ONE, y: FX_ONE }),
    {
        Vec2 { x: FX_ONE, y: FX_ONE }
    }

    /// Componentwise saturating addition.
    pub fn vadd(&self, o: &Vec2) -> (r: Vec2)
        ensures
            r == add2_spec(*self, *o),
    {
        Vec2 { x: fx_add(self.x, o.x), y: fx_add(self.y, o.y) }
    }

    /// Componentwise saturating negation.
    pub fn vneg(&self) -> (r: Vec2)
        ensures
            r == neg2_spec(*self),
    {
        Vec2 { x: fx_neg(self.x), y: fx_neg(self.y) }
    }

    /// Componentwise fixed-point product; how scale factors compose.
    pub fn component_mul(&self, o: &Vec2) -> (r: Vec2)
        ensures
            r == cmul2_spec(*self, *o),
    {
        Vec2 { x: fx_mul(self.x, o.x), y: fx_mul(self.y, o.y) }
    }
}

impl Quat {
    /// The identity rotation.
    pub fn identity() -> (r: Quat)
        ensures
            r == (Quat { w: FX_ONE, x: 0, y: 0, z: 0 }),
    {
        Quat { w: FX_ONE, x: 0, y: 0, z: 0 }
    }

    /// The Hamilton product.
    pub fn qmul(&self, o: &Quat) -> (r: Quat)
        ensures
            r == qmul_spec(*self, *o),
    {
        let w: i32 = rescale128(
            wide_mul(self.w, o.w) - wide_mul(self.x, o.x) - wide_mul(self.y, o.y) - wide_mul(
                self.z,
                o.z,
            ),
        );
        let x: i32 = rescale128(
            wide_mul(self.w, o.x) + wide_mul(self.x, o.w) + wide_mul(self.y, o.z) - wide_mul(
                self.z,
                o.y,
            ),
        );
        let y: i32 = rescale128(
            wide_mul(self.w, o.y) - wide_mul(self.x, o.z) + wide_mul(self.y, o.w) + wide_mul(
                self.z,
                o.x,
            ),
        );
        let z: i32 = rescale128(
            wide_mul(self.w, o.z) + wide_mul(self.x, o.y) - wide_mul(self.y, o.x) + wide_mul(
                self.z,
                o.w,
            ),
        );
        Quat { w, x, y, z }
    }

    /// The conjugate, inverting a unit rotation.
    pub fn conjugate(&self) -> (r: Quat)
        ensures
            r == qconj_spec(*self),
    {
        Quat { w: self.w, x: fx_neg(self.x), y: fx_neg(self.y), z: fx_neg(self.z) }
    }

    /// The rotation of a vector by this quaternion.
    pub fn rotate(&self, v: &Vec3) -> (r: Vec3)
        ensures
            r == rotate3_spec(*self, *v),
    {
        let p = Quat { w: 0, x: v.x, y: v.y, z: v.z };
        let t = self.qmul(&p);
        let u = t.qmul(&self.conjugate());
        Vec3 { x: u.x, y: u.y, z: u.z }
    }
}

impl Rot2 {
    /// The identity rotation.
    pub fn identity() -> (r: Rot2)
        ensures
            r == (Rot2 { c: FX_ONE, s: 0 }),
    {
        Rot2 { c: FX_ONE, s: 0 }
    }

    /// The composition of two plane rotations.
    pub fn rmul(&self, o: &Rot2) -> (r: Rot2)
        ensures
            r == rot2_mul_spec(*self, *o),
    {
        let c: i32 = rescale128(wide_mul(self.c, o.c) - wide_mul(self.s, o.s));
        let s: i32 = rescale128(wide_mul(self.s, o.c) + wide_mul(self.c, o.s));
        Rot2 { c, s }
    }

    /// The inverse plane rotation.
    pub fn conjugate(&self) -> (r: Rot2)
        ensures
            r == rot2_conj_spec(*self),
    {
        Rot2 { c: self.c, s: fx_neg(self.s) }
    }

    /// The rotation of a vector by this plane rotation.
    pub fn rotate(&self, v: &Vec2) -> (r: Vec2)
        ensures
            r == rotate2_spec(*self, *v),
    {
        let x: i32 = rescale128(wide_mul(self.c, v.x) - wide_mul(self.s, v.y));
        let y: i32 = rescale128(wide_mul(self.s, v.x) + wide_mul(self.c, v.y));
        Vec2 { x, y }
    }
}

} // verus!
