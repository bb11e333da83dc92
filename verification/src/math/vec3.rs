use vstd::prelude::*;
use crate::math::ieee::{
    ONE_BITS, POS_ZERO_BITS, clamp_bits, lemma_sqrt_zero_iff, f32_clamp, f32_is_zero, is_zero_bits,
    sqrt_rel,
};
use crate::math::softfp::{add_bits, div_bits, f_add, f_div, f_mul, f_sub, mul_bits, sub_bits};
use crate::math::sqrt::f32_sqrt;

verus! {

/// Bit pattern of 2.0.
pub const TWO_BITS: u32 = 0x4000_0000;

/// A 3-D vector of IEEE-754 single-precision components, each carried as
/// its bit pattern.
#[derive(Clone, Copy, Debug, PartialEq, Eq, Structural)]
pub struct Vec3 {
    pub x: u32,
    pub y: u32,
    pub z: u32,
}

/// A vector operation whose operand failed its numeric precondition.
#[derive(Clone, Copy, Debug, PartialEq, Eq, Structural)]
pub enum VecError {
    /// The vector handed to `normalize` has magnitude exactly zero.
    NormalizeZeroVector,
    /// An operand of `cross` has magnitude exactly zero.
    CrossZeroVector,
}

/// Componentwise IEEE addition.
pub open spec fn add3(a: Vec3, b: Vec3) -> Vec3 {
    Vec3 { x: add_bits(a.x, b.x), y: add_bits(a.y, b.y), z: add_bits(a.z, b.z) }
}

/// Componentwise IEEE subtraction.
pub open spec fn sub3(a: Vec3, b: Vec3) -> Vec3 {
    Vec3 { x: sub_bits(a.x, b.x), y: sub_bits(a.y, b.y), z: sub_bits(a.z, b.z) }
}

/// Each component multiplied by the scalar.
pub open spec fn scale3(a: Vec3, s: u32) -> Vec3 {
    Vec3 { x: mul_bits(a.x, s), y: mul_bits(a.y, s), z: mul_bits(a.z, s) }
}

/// Each component divided by the scalar.
pub open spec fn div3(a: Vec3, s: u32) -> Vec3 {
    Vec3 { x: div_bits(a.x, s), y: div_bits(a.y, s), z: div_bits(a.z, s) }
}

/// The dot product, accumulated left to right as the code computes it.
pub open spec fn dot3(a: Vec3, b: Vec3) -> u32 {
    add_bits(add_bits(mul_bits(a.x, b.x), mul_bits(a.y, b.y)), mul_bits(a.z, b.z))
}

/// The cross product, each component a difference of two products.
pub open spec fn cross3(a: Vec3, b: Vec3) -> Vec3 {
    Vec3 {
        x: sub_bits(mul_bits(a.y, b.z), mul_bits(a.z, b.y)),
        y: sub_bits(mul_bits(a.z, b.x), mul_bits(a.x, b.z)),
        z: sub_bits(mul_bits(a.x, b.y), mul_bits(a.y, b.x)),
    }
}

/// Linear interpolation with the parameter clamped into [0, 1].
pub open spec fn lerp3(a: Vec3, b: Vec3, t: u32) -> Vec3 {
    add3(a, scale3(sub3(b, a), clamp_bits(t, POS_ZERO_BITS, ONE_BITS)))
}

/// Reflection about a normal: a - n * (2 * dot(a, n)).
pub open spec fn reflect3(a: Vec3, n: Vec3) -> Vec3 {
    sub3(a, scale3(n, mul_bits(TWO_BITS, dot3(a, n))))
}

/// Projection of a onto b: b scaled by dot(a, b) / dot(b, b).
pub open spec fn project3(a: Vec3, b: Vec3) -> Vec3 {
    scale3(b, div_bits(dot3(a, b), dot3(b, b)))
}

impl Vec3 {
    /// Builds a vector from three component bit patterns.
    pub fn new(x: u32, y: u32, z: u32) -> (r: Self)
        ensures
            r == (Vec3 { x, y, z }),
    {
        Vec3 { x, y, z }
    }

    /// The zero vector.
    pub fn zero() -> (r: Self)
        ensures
            r == (Vec3 { x: POS_ZERO_BITS, y: POS_ZERO_BITS, z: POS_ZERO_BITS }),
    {
        Vec3 { x: POS_ZERO_BITS, y: POS_ZERO_BITS, z: POS_ZERO_BITS }
    }

    /// The unit vector along x.
    pub fn unit_x() -> (r: Self)
        ensures
            r == (Vec3 { x: ONE_BITS, y: POS_ZERO_BITS, z: POS_ZERO_BITS }),
    {
        Vec3 { x: ONE_BITS, y: POS_ZERO_BITS, z: POS_ZERO_BITS }
    }

    /// The unit vector along y.
    pub fn unit_y() -> (r: Self)
        ensures
            r == (Vec3 { x: POS_ZERO_BITS, y: ONE_BITS, z: POS_ZERO_BITS }),
    {
        Vec3 { x: POS_ZERO_BITS, y: ONE_BITS, z: POS_ZERO_BITS }
    }

    /// The unit vector along z.
    pub fn unit_z() -> (r: Self)
        ensures
            r == (Vec3 { x: POS_ZERO_BITS, y: POS_ZERO_BITS, z: ONE_BITS }),
    {
        Vec3 { x: POS_ZERO_BITS, y: POS_ZERO_BITS, z: ONE_BITS }
    }

    /// Componentwise sum.
    pub fn add(&self, other: &Vec3) -> (r: Vec3)
        ensures
            r == add3(*self, *other),
    {
        Vec3 { x: f_add(self.x, other.x), y: f_add(self.y, other.y), z: f_add(self.z, other.z) }
    }

    /// Componentwise difference.
    pub fn sub(&self, other: &Vec3) -> (r: Vec3)
        ensures
            r == sub3(*self, *other),
    {
        Vec3 { x: f_sub(self.x, other.x), y: f_sub(self.y, other.y), z: f_sub(self.z, other.z) }
    }

    /// Each component multiplied by the scalar.
    pub fn scale(&self, scalar: u32) -> (r: Vec3)
        ensures
            r == scale3(*self, scalar),
    {
        Vec3 {
            x: f_mul(self.x, scalar),
            y: f_mul(self.y, scalar),
            z: f_mul(self.z, scalar),
        }
    }

    /// Each component divided by the scalar.
    pub fn div(&self, scalar: u32) -> (r: Vec3)
        ensures
            r == div3(*self, scalar),
    {
        Vec3 {
            x: f_div(self.x, scalar),
            y: f_div(self.y, scalar),
            z: f_div(self.z, scalar),
        }
    }

    /// The dot product of two vectors.
    pub fn dot(&self, other: &Vec3) -> (r: u32)
        ensures
            r == dot3(*self, *other),
    {
        f_add(
            f_add(f_mul(self.x, other.x), f_mul(self.y, other.y)),
            f_mul(self.z, other.z),
        )
    }

    /// The Euclidean length: the square root of the dot product with itself.
    pub fn magnitude(&self) -> (r: u32)
        ensures
            sqrt_rel(dot3(*self, *self), r),
            is_zero_bits(r) <==> is_zero_bits(dot3(*self, *self)),
    {
        let d = self.dot(self);
        let r = f32_sqrt(d);
        proof {
            lemma_sqrt_zero_iff(d, r);
        }
        r
    }

    /// Scales the vector to unit length; a vector of magnitude exactly zero
    /// is rejected rather than divided by zero.
    pub fn normalize(&self) -> (r: Result<Vec3, VecError>)
        ensures
            r is Err <==> is_zero_bits(dot3(*self, *self)),
            (match r {
                Ok(u) => exists|m: u32|
                    #[trigger] sqrt_rel(dot3(*self, *self), m) && !is_zero_bits(m) && u == div3(
                        *self,
                        m,
                    ),
                Err(e) => e == VecError::NormalizeZeroVector,
            }),
    {
        let mag = self.magnitude();
        if f32_is_zero(mag) {
            Err(VecError::NormalizeZeroVector)
        } else {
            let u = self.div(mag);
            proof {
                assert(sqrt_rel(dot3(*self, *self), mag) && !is_zero_bits(mag) && u == div3(
                    *self,
                    mag,
                ));
            }
            Ok(u)
        }
    }

    /// The cross product; an operand of magnitude exactly zero is rejected.
    pub fn cross(&self, other: &Vec3) -> (r: Result<Vec3, VecError>)
        ensures
            r is Err <==> is_zero_bits(dot3(*self, *self)) || is_zero_bits(
                dot3(*other, *other),
            ),
            (match r {
                Ok(c) => c == cross3(*self, *other),
                Err(e) => e == VecError::CrossZeroVector,
            }),
    {
        let ma = self.magnitude();
        let mb = other.magnitude();
        if f32_is_zero(ma) || f32_is_zero(mb) {
            return Err(VecError::CrossZeroVector);
        }
        Ok(
            Vec3 {
                x: f_sub(f_mul(self.y, other.z), f_mul(self.z, other.y)),
                y: f_sub(f_mul(self.z, other.x), f_mul(self.x, other.z)),
                z: f_sub(f_mul(self.x, other.y), f_mul(self.y, other.x)),
            },
        )
    }

    /// Interpolates toward `other` with the parameter clamped into [0, 1].
    pub fn lerp(&self, other: &Vec3, t: u32) -> (r: Vec3)
        ensures
            r == lerp3(*self, *other, t),
    {
        let t_clamped = f32_clamp(t, POS_ZERO_BITS, ONE_BITS);
        self.add(&other.sub(self).scale(t_clamped))
    }

    /// Reflects the vector about the given normal.
    pub fn reflect(&self, normal: &Vec3) -> (r: Vec3)
        ensures
            r == reflect3(*self, *normal),
    {
        let d = self.dot(normal);
        self.sub(&normal.scale(f_mul(TWO_BITS, d)))
    }

    /// The cosine of the angle between the vectors: the dot product
    /// divided by the product of the magnitudes. The arccosine itself has
    /// no exact bit-level contract, so the caller applies it; a zero
    /// operand follows the IEEE division semantics (NaN), as the original
    /// angle computation did.
    pub fn angle_between_cos(&self, other: &Vec3) -> (r: u32)
        ensures
            exists|ma: u32, mb: u32|
                #[trigger] sqrt_rel(dot3(*self, *self), ma) && #[trigger] sqrt_rel(
                    dot3(*other, *other),
                    mb,
                ) && r == div_bits(dot3(*self, *other), mul_bits(ma, mb)),
    {
        let dot_product = self.dot(other);
        let magnitudes = f_mul(self.magnitude(), other.magnitude());
        f_div(dot_product, magnitudes)
    }

    /// Projects the vector onto `other`; a zero `other` follows the IEEE
    /// division semantics and is not guarded.
    pub fn project(&self, other: &Vec3) -> (r: Vec3)
        ensures
            r == project3(*self, *other),
    {
        let scalar = f_div(self.dot(other), other.dot(other));
        other.scale(scalar)
    }
}

impl Default for Vec3 {
    /// The default vector is the unit vector along x.
    fn default() -> (r: Self)
        ensures
            r == (Vec3 { x: ONE_BITS, y: POS_ZERO_BITS, z: POS_ZERO_BITS }),
    {
        Vec3::unit_x()
    }
}

} // verus!
