//! Vectors of two, three and four fixed-point components, and the
//! orthonormal basis built from one direction.
use crate::fixed::Fixed;
use vstd::prelude::*;
use vstd::std_specs::ops::{AddSpecImpl, DivSpecImpl, MulSpecImpl, NegSpecImpl, SubSpecImpl};

verus! {

/// A point or direction in space.
#[derive(Clone, Copy, Debug, PartialEq, Eq, Structural)]
pub struct Vector3 {
    pub x: Fixed,
    pub y: Fixed,
    pub z: Fixed,
}

/// A point of the canvas or a texture coordinate.
#[derive(Clone, Copy, Debug, PartialEq, Eq, Structural)]
pub struct Vector2 {
    pub x: Fixed,
    pub y: Fixed,
}

impl Vector2 {
    /// The point with the given coordinates.
    pub fn new(x: Fixed, y: Fixed) -> (r: Vector2)
        ensures
            r == (Vector2 { x, y }),
    {
        Vector2 { x, y }
    }
}

impl Vector3 {
    /// The origin.
    pub open spec fn zero_spec() -> Vector3 {
        Vector3 { x: Fixed::zero_spec(), y: Fixed::zero_spec(), z: Fixed::zero_spec() }
    }

    /// The sum, component by component.
    pub open spec fn plus_spec(self, rhs: Vector3) -> Vector3 {
        Vector3 {
            x: self.x.add_spec(rhs.x),
            y: self.y.add_spec(rhs.y),
            z: self.z.add_spec(rhs.z),
        }
    }

    /// The difference, component by component.
    pub open spec fn minus_spec(self, rhs: Vector3) -> Vector3 {
        Vector3 {
            x: self.x.sub_spec(rhs.x),
            y: self.y.sub_spec(rhs.y),
            z: self.z.sub_spec(rhs.z),
        }
    }

    /// The opposite vector.
    pub open spec fn negated_spec(self) -> Vector3 {
        Vector3 { x: self.x.neg_spec(), y: self.y.neg_spec(), z: self.z.neg_spec() }
    }

    /// Every component multiplied by `k`.
    pub open spec fn scaled_spec(self, k: Fixed) -> Vector3 {
        Vector3 { x: self.x.mul_spec(k), y: self.y.mul_spec(k), z: self.z.mul_spec(k) }
    }

    /// Every component divided by `k`.
    pub open spec fn divided_spec(self, k: Fixed) -> Vector3 {
        Vector3 { x: self.x.div_spec(k), y: self.y.div_spec(k), z: self.z.div_spec(k) }
    }

    /// The scalar product: the sum of the products of the components.
    pub open spec fn dot_spec(self, rhs: Vector3) -> Fixed {
        self.x.mul_spec(rhs.x).add_spec(self.y.mul_spec(rhs.y)).add_spec(self.z.mul_spec(rhs.z))
    }

    /// The vector product.
    pub open spec fn cross_spec(self, rhs: Vector3) -> Vector3 {
        Vector3 {
            x: self.y.mul_spec(rhs.z).sub_spec(self.z.mul_spec(rhs.y)),
            y: self.z.mul_spec(rhs.x).sub_spec(self.x.mul_spec(rhs.z)),
            z: self.x.mul_spec(rhs.y).sub_spec(self.y.mul_spec(rhs.x)),
        }
    }

    /// The length: the square root of the vector's product with itself.
    pub open spec fn norm_spec(self) -> Fixed {
        self.dot_spec(self).sqrt_spec()
    }

    /// The vector divided by its length.
    pub open spec fn normalize_spec(self) -> Vector3 {
        self.divided_spec(self.norm_spec())
    }

    /// The vector with the given components.
    pub fn new(x: Fixed, y: Fixed, z: Fixed) -> (r: Vector3)
        ensures
            r == (Vector3 { x, y, z }),
    {
        Vector3 { x, y, z }
    }

    /// The origin.
    pub fn zero() -> (r: Vector3)
        ensures
            r == Vector3::zero_spec(),
    {
        Vector3 { x: Fixed::zero(), y: Fixed::zero(), z: Fixed::zero() }
    }

    /// The sum, component by component.
    pub fn plus(&self, rhs: &Vector3) -> (r: Vector3)
        ensures
            r == self.plus_spec(*rhs),
    {
        Vector3 { x: self.x.add(rhs.x), y: self.y.add(rhs.y), z: self.z.add(rhs.z) }
    }

    /// The difference, component by component.
    pub fn minus(&self, rhs: &Vector3) -> (r: Vector3)
        ensures
            r == self.minus_spec(*rhs),
    {
        Vector3 { x: self.x.sub(rhs.x), y: self.y.sub(rhs.y), z: self.z.sub(rhs.z) }
    }

    /// The opposite vector.
    pub fn negated(&self) -> (r: Vector3)
        ensures
            r == self.negated_spec(),
    {
        Vector3 { x: self.x.neg(), y: self.y.neg(), z: self.z.neg() }
    }

    /// Every component multiplied by `k`.
    pub fn scaled(&self, k: Fixed) -> (r: Vector3)
        ensures
            r == self.scaled_spec(k),
    {
        Vector3 { x: self.x.mul(k), y: self.y.mul(k), z: self.z.mul(k) }
    }

    /// Every component divided by `k`.
    pub fn divided(&self, k: Fixed) -> (r: Vector3)
        ensures
            r == self.divided_spec(k),
    {
        Vector3 { x: self.x.div(k), y: self.y.div(k), z: self.z.div(k) }
    }

    /// The vector scaled to length one. A zero vector has no direction: its
    /// components stay zero.
    pub fn normalize(&self) -> (r: Vector3)
        ensures
            r == self.normalize_spec(),
    {
        self.divided(self.norm())
    }

    /// The length.
    pub fn norm(&self) -> (r: Fixed)
        ensures
            r == self.norm_spec(),
            r.raw >= 0,
    {
        self.dot(self).sqrt()
    }

    /// The scalar product.
    pub fn dot(&self, rhs: &Vector3) -> (r: Fixed)
        ensures
            r == self.dot_spec(*rhs),
    {
        self.x.mul(rhs.x).add(self.y.mul(rhs.y)).add(self.z.mul(rhs.z))
    }

    /// The vector product.
    pub fn cross(&self, rhs: &Vector3) -> (r: Vector3)
        ensures
            r == self.cross_spec(*rhs),
    {
        Vector3 {
            x: self.y.mul(rhs.z).sub(self.z.mul(rhs.y)),
            y: self.z.mul(rhs.x).sub(self.x.mul(rhs.z)),
            z: self.x.mul(rhs.y).sub(self.y.mul(rhs.x)),
        }
    }
}

impl core::ops::Div<Fixed> for &Vector3 {
    type Output = Vector3;

    fn div(self, rhs: Fixed) -> (r: Vector3) {
        Vector3 { x: self.x.div(rhs), y: self.y.div(rhs), z: self.z.div(rhs) }
    }
}

impl DivSpecImpl<Fixed> for &Vector3 {
    open spec fn obeys_div_spec() -> bool {
        true
    }

    open spec fn div_req(self, rhs: Fixed) -> bool {
        true
    }

    open spec fn div_spec(self, rhs: Fixed) -> Vector3 {
        self.divided_spec(rhs)
    }
}

impl core::ops::Mul<&Vector3> for Fixed {
    type Output = Vector3;

    fn mul(self, rhs: &Vector3) -> (r: Vector3) {
        Vector3 { x: rhs.x.mul(self), y: rhs.y.mul(self), z: rhs.z.mul(self) }
    }
}

impl MulSpecImpl<&Vector3> for Fixed {
    open spec fn obeys_mul_spec() -> bool {
        true
    }

    open spec fn mul_req(self, rhs: &Vector3) -> bool {
        true
    }

    open spec fn mul_spec(self, rhs: &Vector3) -> Vector3 {
        rhs.scaled_spec(self)
    }
}

impl core::ops::Mul<Fixed> for &Vector3 {
    type Output = Vector3;

    fn mul(self, rhs: Fixed) -> (r: Vector3) {
        Vector3 { x: self.x.mul(rhs), y: self.y.mul(rhs), z: self.z.mul(rhs) }
    }
}

impl MulSpecImpl<Fixed> for &Vector3 {
    open spec fn obeys_mul_spec() -> bool {
        true
    }

    open spec fn mul_req(self, rhs: Fixed) -> bool {
        true
    }

    open spec fn mul_spec(self, rhs: Fixed) -> Vector3 {
        self.scaled_spec(rhs)
    }
}

impl core::ops::Neg for &Vector3 {
    type Output = Vector3;

    fn neg(self) -> (r: Vector3) {
        Vector3 { x: self.x.neg(), y: self.y.neg(), z: self.z.neg() }
    }
}

impl NegSpecImpl for &Vector3 {
    open spec fn obeys_neg_spec() -> bool {
        true
    }

    open spec fn neg_req(self) -> bool {
        true
    }

    open spec fn neg_spec(self) -> Vector3 {
        self.negated_spec()
    }
}

impl core::ops::Add<&Vector3> for &Vector3 {
    type Output = Vector3;

    fn add(self, rhs: &Vector3) -> (r: Vector3) {
        Vector3 { x: self.x.add(rhs.x), y: self.y.add(rhs.y), z: self.z.add(rhs.z) }
    }
}

impl AddSpecImpl<&Vector3> for &Vector3 {
    open spec fn obeys_add_spec() -> bool {
        true
    }

    open spec fn add_req(self, rhs: &Vector3) -> bool {
        true
    }

    open spec fn add_spec(self, rhs: &Vector3) -> Vector3 {
        self.plus_spec(*rhs)
    }
}

impl core::ops::Sub<&Vector3> for &Vector3 {
    type Output = Vector3;

    fn sub(self, rhs: &Vector3) -> (r: Vector3) {
        Vector3 { x: self.x.sub(rhs.x), y: self.y.sub(rhs.y), z: self.z.sub(rhs.z) }
    }
}

impl SubSpecImpl<&Vector3> for &Vector3 {
    open spec fn obeys_sub_spec() -> bool {
        true
    }

    open spec fn sub_req(self, rhs: &Vector3) -> bool {
        true
    }

    open spec fn sub_spec(self, rhs: &Vector3) -> Vector3 {
        self.minus_spec(*rhs)
    }
}

impl core::ops::Mul<&Vector3> for &Vector3 {
    type Output = Fixed;

    fn mul(self, rhs: &Vector3) -> (r: Fixed) {
        self.dot(rhs)
    }
}

impl MulSpecImpl<&Vector3> for &Vector3 {
    open spec fn obeys_mul_spec() -> bool {
        true
    }

    open spec fn mul_req(self, rhs: &Vector3) -> bool {
        true
    }

    open spec fn mul_spec(self, rhs: &Vector3) -> Fixed {
        self.dot_spec(*rhs)
    }
}

/// Three mutually perpendicular directions.
#[derive(Clone, Copy, Debug, PartialEq, Eq, Structural)]
pub struct Basis {
    pub u: Vector3,
    pub v: Vector3,
    pub w: Vector3,
}

impl Basis {
    /// The component magnitudes of `w` with the smallest of them replaced
    /// by one: a vector that is not parallel to `w`.
    pub open spec fn off_axis_spec(w: Vector3) -> Vector3 {
        let x = w.x.abs_spec();
        let y = w.y.abs_spec();
        let z = w.z.abs_spec();
        if x.raw > y.raw {
            if y.raw > z.raw {
                Vector3 { x, y, z: Fixed::one_spec() }
            } else {
                Vector3 { x, y: Fixed::one_spec(), z }
            }
        } else {
            if x.raw > z.raw {
                Vector3 { x, y, z: Fixed::one_spec() }
            } else {
                Vector3 { x: Fixed::one_spec(), y, z }
            }
        }
    }

    /// The basis whose third direction is that of `a`: the second is
    /// perpendicular to it and to an off-axis vector, the first to both.
    pub open spec fn from_single_vector_spec(a: Vector3) -> Basis {
        let w = a.normalize_spec();
        let u = Basis::off_axis_spec(w).cross_spec(w).normalize_spec();
        Basis { u, v: w.cross_spec(u), w }
    }

    /// The basis whose third direction is that of `a`.
    pub fn from_single_vector(a: &Vector3) -> (r: Basis)
        ensures
            r == Basis::from_single_vector_spec(*a),
            r.w == a.normalize_spec(),
    {
        let w = a.normalize();
        let x = w.x.abs();
        let y = w.y.abs();
        let z = w.z.abs();
        let t = if x.raw > y.raw {
            if y.raw > z.raw {
                Vector3 { x, y, z: Fixed::one() }
            } else {
                Vector3 { x, y: Fixed::one(), z }
            }
        } else {
            if x.raw > z.raw {
                Vector3 { x, y, z: Fixed::one() }
            } else {
                Vector3 { x: Fixed::one(), y, z }
            }
        };
        let u = t.cross(&w).normalize();
        let v = w.cross(&u);
        Basis { u, v, w }
    }
}

/// The product of a vector with itself is not negative.
pub proof fn lemma_dot_self_nonnegative(v: Vector3)
    ensures
        v.dot_spec(v).raw >= 0,
{
    crate::fixed::lemma_square_nonnegative(v.x);
    crate::fixed::lemma_square_nonnegative(v.y);
    crate::fixed::lemma_square_nonnegative(v.z);
}

} // verus!
