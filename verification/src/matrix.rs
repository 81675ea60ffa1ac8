//! Homogeneous coordinates and 4x4 transforms.
use crate::fixed::Fixed;
use crate::math::Vector3;
use vstd::prelude::*;

verus! {

/// A point in homogeneous coordinates, or one row or column of a transform.
#[derive(Clone, Copy, Debug, PartialEq, Eq, Structural)]
pub struct Vector4 {
    pub x: Fixed,
    pub y: Fixed,
    pub z: Fixed,
    pub w: Fixed,
}

/// The cosine and sine of a rotation about the vertical axis.
#[derive(Clone, Copy, Debug, PartialEq, Eq, Structural)]
pub struct Rotation {
    pub cos: Fixed,
    pub sin: Fixed,
}

/// A transform of homogeneous coordinates, held as its four rows.
#[derive(Clone, Copy, Debug, PartialEq, Eq, Structural)]
pub struct Matrix4 {
    pub r0: Vector4,
    pub r1: Vector4,
    pub r2: Vector4,
    pub r3: Vector4,
}

impl Rotation {
    /// The rotation by no angle.
    pub open spec fn identity_spec() -> Rotation {
        Rotation { cos: Fixed::one_spec(), sin: Fixed::zero_spec() }
    }

    /// The rotation by no angle.
    pub fn identity() -> (r: Rotation)
        ensures
            r == Rotation::identity_spec(),
    {
        Rotation { cos: Fixed::one(), sin: Fixed::zero() }
    }
}

impl Vector4 {
    /// The point `v` with the fourth coordinate one.
    pub open spec fn point_spec(v: Vector3) -> Vector4 {
        Vector4 { x: v.x, y: v.y, z: v.z, w: Fixed::one_spec() }
    }

    /// The first three coordinates.
    pub open spec fn xyz_spec(self) -> Vector3 {
        Vector3 { x: self.x, y: self.y, z: self.z }
    }

    /// The scalar product.
    pub open spec fn dot_spec(self, rhs: Vector4) -> Fixed {
        self.x.mul_spec(rhs.x).add_spec(self.y.mul_spec(rhs.y)).add_spec(
            self.z.mul_spec(rhs.z),
        ).add_spec(self.w.mul_spec(rhs.w))
    }

    /// The vector with the given coordinates.
    pub fn new(x: Fixed, y: Fixed, z: Fixed, w: Fixed) -> (r: Vector4)
        ensures
            r == (Vector4 { x, y, z, w }),
    {
        Vector4 { x, y, z, w }
    }

    /// The point `v` with the fourth coordinate one.
    pub fn point(v: &Vector3) -> (r: Vector4)
        ensures
            r == Vector4::point_spec(*v),
    {
        Vector4 { x: v.x, y: v.y, z: v.z, w: Fixed::one() }
    }

    /// The first three coordinates.
    pub fn xyz(&self) -> (r: Vector3)
        ensures
            r == self.xyz_spec(),
    {
        Vector3 { x: self.x, y: self.y, z: self.z }
    }

    /// The scalar product.
    pub fn dot(&self, rhs: &Vector4) -> (r: Fixed)
        ensures
            r == self.dot_spec(*rhs),
    {
        self.x.mul(rhs.x).add(self.y.mul(rhs.y)).add(self.z.mul(rhs.z)).add(self.w.mul(rhs.w))
    }
}

impl Matrix4 {
    /// The transform that changes nothing.
    pub open spec fn identity_spec() -> Matrix4 {
        let o = Fixed::one_spec();
        let z = Fixed::zero_spec();
        Matrix4 {
            r0: Vector4 { x: o, y: z, z: z, w: z },
            r1: Vector4 { x: z, y: o, z: z, w: z },
            r2: Vector4 { x: z, y: z, z: o, w: z },
            r3: Vector4 { x: z, y: z, z: z, w: o },
        }
    }

    /// The transform that moves every point by `v`.
    pub open spec fn translation_spec(v: Vector3) -> Matrix4 {
        let o = Fixed::one_spec();
        let z = Fixed::zero_spec();
        Matrix4 {
            r0: Vector4 { x: o, y: z, z: z, w: v.x },
            r1: Vector4 { x: z, y: o, z: z, w: v.y },
            r2: Vector4 { x: z, y: z, z: o, w: v.z },
            r3: Vector4 { x: z, y: z, z: z, w: o },
        }
    }

    /// The transform that scales every axis by `s`.
    pub open spec fn scaling_spec(s: Fixed) -> Matrix4 {
        let o = Fixed::one_spec();
        let z = Fixed::zero_spec();
        Matrix4 {
            r0: Vector4 { x: s, y: z, z: z, w: z },
            r1: Vector4 { x: z, y: s, z: z, w: z },
            r2: Vector4 { x: z, y: z, z: s, w: z },
            r3: Vector4 { x: z, y: z, z: z, w: o },
        }
    }

    /// The rotation about the vertical axis with the given cosine and sine.
    pub open spec fn rotation_y_spec(rot: Rotation) -> Matrix4 {
        let o = Fixed::one_spec();
        let z = Fixed::zero_spec();
        Matrix4 {
            r0: Vector4 { x: rot.cos, y: z, z: rot.sin, w: z },
            r1: Vector4 { x: z, y: o, z: z, w: z },
            r2: Vector4 { x: rot.sin.neg_spec(), y: z, z: rot.cos, w: z },
            r3: Vector4 { x: z, y: z, z: z, w: o },
        }
    }

    /// The matrix with rows and columns exchanged.
    pub open spec fn transpose_spec(self) -> Matrix4 {
        Matrix4 {
            r0: Vector4 { x: self.r0.x, y: self.r1.x, z: self.r2.x, w: self.r3.x },
            r1: Vector4 { x: self.r0.y, y: self.r1.y, z: self.r2.y, w: self.r3.y },
            r2: Vector4 { x: self.r0.z, y: self.r1.z, z: self.r2.z, w: self.r3.z },
            r3: Vector4 { x: self.r0.w, y: self.r1.w, z: self.r2.w, w: self.r3.w },
        }
    }

    /// The product of the matrix with the column `v`.
    pub open spec fn apply_spec(self, v: Vector4) -> Vector4 {
        Vector4 {
            x: self.r0.dot_spec(v),
            y: self.r1.dot_spec(v),
            z: self.r2.dot_spec(v),
            w: self.r3.dot_spec(v),
        }
    }

    /// The image of the point `v`: the first three coordinates of the product
    /// with `(v, 1)`.
    pub open spec fn transform_point_spec(self, v: Vector3) -> Vector3 {
        self.apply_spec(Vector4::point_spec(v)).xyz_spec()
    }

    /// The matrix product `self * rhs`: each entry is a row of `self` times a
    /// column of `rhs`.
    pub open spec fn mul_spec(self, rhs: Matrix4) -> Matrix4 {
        let t = rhs.transpose_spec();
        Matrix4 {
            r0: t.apply_spec(self.r0),
            r1: t.apply_spec(self.r1),
            r2: t.apply_spec(self.r2),
            r3: t.apply_spec(self.r3),
        }
    }

    /// The transform that changes nothing.
    pub fn identity() -> (m: Matrix4)
        ensures
            m == Matrix4::identity_spec(),
    {
        let o = Fixed::one();
        let z = Fixed::zero();
        Matrix4 {
            r0: Vector4 { x: o, y: z, z: z, w: z },
            r1: Vector4 { x: z, y: o, z: z, w: z },
            r2: Vector4 { x: z, y: z, z: o, w: z },
            r3: Vector4 { x: z, y: z, z: z, w: o },
        }
    }

    /// The transform that moves every point by `v`.
    pub fn translation(v: &Vector3) -> (m: Matrix4)
        ensures
            m == Matrix4::translation_spec(*v),
    {
        let o = Fixed::one();
        let z = Fixed::zero();
        Matrix4 {
            r0: Vector4 { x: o, y: z, z: z, w: v.x },
            r1: Vector4 { x: z, y: o, z: z, w: v.y },
            r2: Vector4 { x: z, y: z, z: o, w: v.z },
            r3: Vector4 { x: z, y: z, z: z, w: o },
        }
    }

    /// The transform that scales every axis by `s`.
    pub fn scaling(s: Fixed) -> (m: Matrix4)
        ensures
            m == Matrix4::scaling_spec(s),
    {
        let o = Fixed::one();
        let z = Fixed::zero();
        Matrix4 {
            r0: Vector4 { x: s, y: z, z: z, w: z },
            r1: Vector4 { x: z, y: s, z: z, w: z },
            r2: Vector4 { x: z, y: z, z: s, w: z },
            r3: Vector4 { x: z, y: z, z: z, w: o },
        }
    }

    /// The rotation about the vertical axis with the given cosine and sine.
    pub fn rotation_y(rot: &Rotation) -> (m: Matrix4)
        ensures
            m == Matrix4::rotation_y_spec(*rot),
    {
        let o = Fixed::one();
        let z = Fixed::zero();
        Matrix4 {
            r0: Vector4 { x: rot.cos, y: z, z: rot.sin, w: z },
            r1: Vector4 { x: z, y: o, z: z, w: z },
            r2: Vector4 { x: rot.sin.neg(), y: z, z: rot.cos, w: z },
            r3: Vector4 { x: z, y: z, z: z, w: o },
        }
    }

    /// The matrix with rows and columns exchanged.
    pub fn transpose(&self) -> (m: Matrix4)
        ensures
            m == self.transpose_spec(),
    {
        Matrix4 {
            r0: Vector4 { x: self.r0.x, y: self.r1.x, z: self.r2.x, w: self.r3.x },
            r1: Vector4 { x: self.r0.y, y: self.r1.y, z: self.r2.y, w: self.r3.y },
            r2: Vector4 { x: self.r0.z, y: self.r1.z, z: self.r2.z, w: self.r3.z },
            r3: Vector4 { x: self.r0.w, y: self.r1.w, z: self.r2.w, w: self.r3.w },
        }
    }

    /// The product of the matrix with the column `v`.
    pub fn apply(&self, v: &Vector4) -> (r: Vector4)
        ensures
            r == self.apply_spec(*v),
    {
        Vector4 { x: self.r0.dot(v), y: self.r1.dot(v), z: self.r2.dot(v), w: self.r3.dot(v) }
    }

    /// The image of the point `v`.
    pub fn transform_point(&self, v: &Vector3) -> (r: Vector3)
        ensures
            r == self.transform_point_spec(*v),
    {
        self.apply(&Vector4::point(v)).xyz()
    }

    /// The matrix product `self * rhs`.
    pub fn mul(&self, rhs: &Matrix4) -> (m: Matrix4)
        ensures
            m == self.mul_spec(*rhs),
    {
        let t = rhs.transpose();
        Matrix4 {
            r0: t.apply(&self.r0),
            r1: t.apply(&self.r1),
            r2: t.apply(&self.r2),
            r3: t.apply(&self.r3),
        }
    }
}

} // verus!
