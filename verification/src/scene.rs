//! The scene model shared by the rasterizer and the ray tracer: lights,
//! the camera with its clipping planes, and models made of indexed triangles.
use crate::color::Color;
use crate::fixed::Fixed;
use crate::math::{Vector2, Vector3};
use crate::matrix::{Matrix4, Rotation};
use vstd::prelude::*;

verus! {

/// A source of light.
#[derive(Clone, Copy, Debug, PartialEq, Eq, Structural)]
pub enum Light {
    /// Light that reaches every point alike.
    Ambient { intensity: Fixed },
    /// Light that leaves one point of the world.
    Point { intensity: Fixed, position: Vector3 },
    /// Light that arrives from one direction of the world.
    Directional { intensity: Fixed, direction: Vector3 },
}

impl Light {
    /// How strong the light is.
    pub open spec fn intensity_spec(self) -> Fixed {
        match self {
            Light::Ambient { intensity } => intensity,
            Light::Point { intensity, .. } => intensity,
            Light::Directional { intensity, .. } => intensity,
        }
    }

    /// How strong the light is.
    pub fn intensity(&self) -> (r: Fixed)
        ensures
            r == self.intensity_spec(),
    {
        match self {
            Light::Ambient { intensity } => *intensity,
            Light::Point { intensity, .. } => *intensity,
            Light::Directional { intensity, .. } => *intensity,
        }
    }
}

/// One face of the view frustum: the points `p` with
/// `normal . p + distance > 0` are inside.
#[derive(Clone, Copy, Debug, PartialEq, Eq, Structural)]
pub struct Plane {
    pub normal: Vector3,
    pub distance: Fixed,
}

impl Plane {
    /// The distance of `point` from the plane, positive on the inside.
    pub open spec fn signed_distance_spec(self, point: Vector3) -> Fixed {
        self.normal.dot_spec(point).add_spec(self.distance)
    }

    /// The distance of `point` from the plane, positive on the inside.
    pub fn signed_distance(&self, point: &Vector3) -> (d: Fixed)
        ensures
            d == self.signed_distance_spec(*point),
    {
        self.normal.dot(point).add(self.distance)
    }
}

/// The viewer: a position, a rotation about the vertical axis, and the
/// planes that bound what is seen.
pub struct Camera {
    pub position: Vector3,
    pub rotation: Rotation,
    pub planes: Vec<Plane>,
}

impl Camera {
    /// The orientation: the transpose of the rotation about the vertical axis.
    pub open spec fn orientation_spec(self) -> Matrix4 {
        Matrix4::rotation_y_spec(self.rotation).transpose_spec()
    }

    /// The transform from world space to camera space: the inverse of the
    /// orientation after the inverse of the translation.
    pub open spec fn matrix_spec(self) -> Matrix4 {
        self.orientation_spec().transpose_spec().mul_spec(
            Matrix4::translation_spec(self.position.negated_spec()),
        )
    }

    /// The camera's orientation.
    pub fn get_orientation(&self) -> (m: Matrix4)
        ensures
            m == self.orientation_spec(),
    {
        Matrix4::rotation_y(&self.rotation).transpose()
    }

    /// The transform from world space to camera space.
    pub fn get_matrix(&self) -> (m: Matrix4)
        ensures
            m == self.matrix_spec(),
    {
        self.get_orientation().transpose().mul(&Matrix4::translation(&self.position.negated()))
    }
}

/// A projected vertex with its shade.
#[derive(Clone, Copy, Debug, PartialEq, Eq, Structural)]
pub struct Point {
    pub coord: Vector2,
    pub h: Fixed,
}

/// Three vertices of a model, by index, with what is drawn on them.
#[derive(Clone, Copy, Debug, PartialEq, Eq)]
pub struct Triangle {
    pub color: Color,
    pub indexes: [usize; 3],
    pub intensities: [Fixed; 3],
    pub normals: [Vector3; 3],
    pub uvs: [Vector2; 3],
}

impl Triangle {
    /// Whether the three indices are below `n`.
    pub open spec fn indexes_below(self, n: int) -> bool {
        self.indexes[0] < n && self.indexes[1] < n && self.indexes[2] < n
    }

    /// The triangle with full shade at each vertex.
    pub open spec fn new_spec(
        indexes: [usize; 3],
        color: Color,
        normals: [Vector3; 3],
        uvs: [Vector2; 3],
    ) -> Triangle {
        Triangle {
            color,
            indexes,
            intensities: [Fixed::one_spec(), Fixed::one_spec(), Fixed::one_spec()],
            normals,
            uvs,
        }
    }

    /// A triangle with full shade at each vertex.
    pub fn new(indexes: [usize; 3], color: Color, normals: [Vector3; 3], uvs: [Vector2; 3]) -> (t:
        Triangle)
        ensures
            t == Triangle::new_spec(indexes, color, normals, uvs),
    {
        Triangle { indexes, color, intensities: [Fixed::one(), Fixed::one(), Fixed::one()], normals, uvs }
    }

    /// A triangle with the given shade at each vertex.
    pub fn new_with_intensity(
        indexes: [usize; 3],
        color: Color,
        intensities: [Fixed; 3],
        normals: [Vector3; 3],
        uvs: [Vector2; 3],
    ) -> (t: Triangle)
        ensures
            t == (Triangle { color, indexes, intensities, normals, uvs }),
    {
        Triangle { indexes, color, intensities, normals, uvs }
    }

    /// The triangle's projected vertices with their shades.
    pub fn points(&self, projected: &Vec<Vector2>) -> (r: (Point, Point, Point))
        requires
            self.indexes_below(projected@.len() as int),
        ensures
            r.0 == (Point { coord: projected@[self.indexes[0] as int], h: self.intensities[0] }),
            r.1 == (Point { coord: projected@[self.indexes[1] as int], h: self.intensities[1] }),
            r.2 == (Point { coord: projected@[self.indexes[2] as int], h: self.intensities[2] }),
    {
        (
            Point { coord: projected[self.indexes[0]], h: self.intensities[0] },
            Point { coord: projected[self.indexes[1]], h: self.intensities[1] },
            Point { coord: projected[self.indexes[2]], h: self.intensities[2] },
        )
    }
}

/// A decoded image: four bytes for each texel, row by row from the top left.
pub struct Texture {
    pub texels: Vec<u8>,
    pub width: u32,
    pub height: u32,
}

/// `v` held within `0` and `n - 1`.
pub open spec fn clamp_index(v: int, n: int) -> int {
    if v < 0 {
        0
    } else if v > n - 1 {
        n - 1
    } else {
        v
    }
}

impl Texture {
    /// The texel column for the coordinate `u`: `floor(u * width) - 1`, held
    /// within the image.
    pub open spec fn column_spec(self, u: Fixed) -> int {
        clamp_index(u.mul_spec(Fixed::from_int_spec(self.width as int)).floor_spec() - 1, self.width as int)
    }

    /// The texel row for the coordinate `v`: `floor(v * height) - 1`, held
    /// within the image.
    pub open spec fn row_spec(self, v: Fixed) -> int {
        clamp_index(
            v.mul_spec(Fixed::from_int_spec(self.height as int)).floor_spec() - 1,
            self.height as int,
        )
    }

    /// The place in the buffer of the texel for `(u, v)`.
    pub open spec fn offset_spec(self, u: Fixed, v: Fixed) -> int {
        4 * (self.column_spec(u) + self.row_spec(v) * self.width)
    }

    /// Whether the buffer holds a texel for `(u, v)`.
    pub open spec fn has_texel(self, u: Fixed, v: Fixed) -> bool {
        self.width > 0 && self.height > 0 && self.offset_spec(u, v) + 2 < self.texels@.len()
    }

    /// The colour of the texel for `(u, v)`; white where the buffer holds none.
    pub open spec fn get_texel_spec(self, u: Fixed, v: Fixed) -> Color {
        if self.has_texel(u, v) {
            let o = self.offset_spec(u, v);
            Color::from_bytes_spec(self.texels@[o], self.texels@[o + 1], self.texels@[o + 2])
        } else {
            Color::from_bytes_spec(255, 255, 255)
        }
    }

    /// A texture over a decoded pixel buffer.
    pub fn new(texels: Vec<u8>, width: u32, height: u32) -> (t: Texture)
        ensures
            t.texels == texels,
            t.width == width,
            t.height == height,
    {
        Texture { texels, width, height }
    }

    /// The colour of the texel at the normalized coordinate `(u, v)`.
    /// Coordinates outside the image take the nearest texel; an image
    /// without a texel there is white.
    pub fn get_texel(&self, u: Fixed, v: Fixed) -> (c: Color)
        ensures
            c == self.get_texel_spec(u, v),
    {
        if self.width == 0 || self.height == 0 {
            return Color::from_bytes(255, 255, 255);
        }
        let w: i64 = self.width as i64;
        let h: i64 = self.height as i64;
        let fu: i64 = u.mul(Fixed::from_i64(w)).floor();
        let fv: i64 = v.mul(Fixed::from_i64(h)).floor();
        let iu: i64 = if fu - 1 < 0 {
            0
        } else if fu - 1 > w - 1 {
            w - 1
        } else {
            fu - 1
        };
        let iv: i64 = if fv - 1 < 0 {
            0
        } else if fv - 1 > h - 1 {
            h - 1
        } else {
            fv - 1
        };
        let column: u64 = iu as u64;
        let row: u64 = iv as u64;
        let stride: u64 = w as u64;
        assert(row * stride + column < 0x1_0000_0000_0000_0000) by (nonlinear_arith)
            requires
                0 <= column < stride,
                0 <= row < h,
                stride <= 0xffff_ffff,
                h <= 0xffff_ffff,
        ;
        let index: u64 = column + row * stride;
        let len: u64 = self.texels.len() as u64;
        if index > (len / 4) {
            return Color::from_bytes(255, 255, 255);
        }
        let offset: u64 = 4 * index;
        if offset + 2 < len {
            let o: usize = offset as usize;
            Color::from_bytes(self.texels[o], self.texels[o + 1], self.texels[o + 2])
        } else {
            Color::from_bytes(255, 255, 255)
        }
    }
}

/// Geometry in its own space: vertices, triangles over them, a sphere that
/// encloses the vertices, and an optional texture.
pub struct Model {
    pub vertices: Vec<Vector3>,
    pub triangles: Vec<Triangle>,
    pub bounds_center: Vector3,
    pub bounds_radius: Fixed,
    pub texture: Option<Texture>,
}

/// A model as drawing sees it: its vertex and triangle lists as sequences.
pub ghost struct ModelView {
    pub vertices: Seq<Vector3>,
    pub triangles: Seq<Triangle>,
    pub bounds_center: Vector3,
    pub bounds_radius: Fixed,
    pub texture: Option<Texture>,
}

impl ModelView {
    /// Every triangle names vertices that the model has.
    pub open spec fn wf(self) -> bool {
        forall|i: int|
            0 <= i < self.triangles.len() ==> (#[trigger] self.triangles[i]).indexes_below(
                self.vertices.len() as int,
            )
    }
}

impl View for Model {
    type V = ModelView;

    open spec fn view(&self) -> ModelView {
        ModelView {
            vertices: self.vertices@,
            triangles: self.triangles@,
            bounds_center: self.bounds_center,
            bounds_radius: self.bounds_radius,
            texture: self.texture,
        }
    }
}

impl Model {
    /// Every triangle names vertices that the model has.
    pub open spec fn wf(self) -> bool {
        self@.wf()
    }
}

/// A model placed in the world.
pub struct Instance {
    pub model: Model,
    pub scale: Fixed,
    pub rotation: Rotation,
    pub position: Vector3,
}

/// An instance as drawing sees it.
pub ghost struct InstanceView {
    pub model: ModelView,
    pub scale: Fixed,
    pub rotation: Rotation,
    pub position: Vector3,
}

impl View for Instance {
    type V = InstanceView;

    open spec fn view(&self) -> InstanceView {
        InstanceView {
            model: self.model@,
            scale: self.scale,
            rotation: self.rotation,
            position: self.position,
        }
    }
}

impl InstanceView {
    /// The orientation: the transpose of the rotation about the vertical axis.
    pub open spec fn orientation_spec(self) -> Matrix4 {
        Matrix4::rotation_y_spec(self.rotation).transpose_spec()
    }

    /// The transform from model space to world space: scale, then rotate,
    /// then translate.
    pub open spec fn transform_spec(self) -> Matrix4 {
        Matrix4::translation_spec(self.position).mul_spec(self.orientation_spec()).mul_spec(
            Matrix4::scaling_spec(self.scale),
        )
    }
}

impl Instance {

    /// The transform from model space to world space.
    pub fn transform(&self) -> (m: Matrix4)
        ensures
            m == self@.transform_spec(),
    {
        let s = Matrix4::scaling(self.scale);
        let r = self.get_orientation();
        let t = Matrix4::translation(&self.position);
        t.mul(&r).mul(&s)
    }

    /// The instance's orientation.
    pub fn get_orientation(&self) -> (m: Matrix4)
        ensures
            m == self@.orientation_spec(),
    {
        Matrix4::rotation_y(&self.rotation).transpose()
    }
}

/// The place of the vertex `i` of the ring `d` in a list of rings of `n`
/// vertices each, ring after ring: places of different vertices differ, and
/// an earlier ring comes first.
pub proof fn lemma_ring_places(n: int, d: int, i: int, e: int, j: int)
    requires
        0 <= i < n,
        0 <= j < n,
    ensures
        d < e ==> d * n + i < e * n + j,
        d * n + i == e * n + j ==> d == e && i == j,
        d >= 0 ==> d * n + i >= 0,
{
    assert(d < e ==> d * n + n <= e * n) by (nonlinear_arith)
        requires
            n > 0,
    ;
    assert(e < d ==> e * n + n <= d * n) by (nonlinear_arith)
        requires
            n > 0,
    ;
    assert(d >= 0 ==> d * n >= 0) by (nonlinear_arith)
        requires
            n > 0,
    ;
}

impl Model {
    /// The height of the ring `d` of a unit sphere cut into `n` slices:
    /// `(2 / n) * (d - n / 2)`.
    pub open spec fn sphere_height_spec(n: int, d: int) -> Fixed {
        Fixed::from_int_spec(2).div_spec(Fixed::from_int_spec(n)).mul_spec(
            Fixed::from_int_spec(d).sub_spec(Fixed::from_int_spec(n).div_spec(Fixed::from_int_spec(2))),
        )
    }

    /// The vertex `i` of the ring `d`: the ring's radius `sqrt(1 - y * y)`
    /// times the `i`-th direction of `ring`, at the ring's height `y`.
    pub open spec fn sphere_vertex_spec(ring: Seq<Rotation>, d: int, i: int) -> Vector3 {
        let y = Model::sphere_height_spec(ring.len() as int, d);
        let radius = Fixed::one_spec().sub_spec(y.mul_spec(y)).sqrt_spec();
        Vector3 { x: radius.mul_spec(ring[i].cos), y, z: radius.mul_spec(ring[i].sin) }
    }

    /// One of the two triangles between the vertex `i` of the ring `d`, its
    /// neighbour on the ring, and the two vertices above them. Each corner's
    /// normal is its vertex.
    pub open spec fn sphere_triangle_spec(
        ring: Seq<Rotation>,
        color: Color,
        d: int,
        i: int,
        second: bool,
    ) -> Triangle {
        let n = ring.len() as int;
        let next = if i + 1 == n {
            0
        } else {
            i + 1
        };
        let zero = Vector2 { x: Fixed::zero_spec(), y: Fixed::zero_spec() };
        let one = Fixed::one_spec();
        if second {
            Triangle {
                color,
                indexes: [(d * n + i) as usize, (d * n + i + n) as usize, ((d + 1) * n + next) as usize],
                intensities: [one, one, one],
                normals: [
                    Model::sphere_vertex_spec(ring, d, i),
                    Model::sphere_vertex_spec(ring, d + 1, i),
                    Model::sphere_vertex_spec(ring, d + 1, next),
                ],
                uvs: [zero, zero, zero],
            }
        } else {
            Triangle {
                color,
                indexes: [(d * n + i) as usize, ((d + 1) * n + next) as usize, (d * n + next) as usize],
                intensities: [one, one, one],
                normals: [
                    Model::sphere_vertex_spec(ring, d, i),
                    Model::sphere_vertex_spec(ring, d + 1, next),
                    Model::sphere_vertex_spec(ring, d, next),
                ],
                uvs: [zero, zero, zero],
            }
        }
    }

    /// Whether `self` is the unit sphere over `ring`: `n + 1` rings of `n`
    /// vertices, where `n` is the length of `ring`, and two triangles for
    /// each vertex below the top ring.
    pub open spec fn is_sphere_over(self, ring: Seq<Rotation>, color: Color) -> bool {
        let n = ring.len() as int;
        &&& self.vertices@.len() == (n + 1) * n
        &&& forall|d: int, i: int|
            0 <= d <= n && 0 <= i < n ==> self.vertices@[d * n + i] == #[trigger] Model::sphere_vertex_spec(
                ring,
                d,
                i,
            )
        &&& self.triangles@.len() == 2 * (n * n)
        &&& forall|d: int, i: int, second: bool|
            0 <= d < n && 0 <= i < n ==> self.triangles@[2 * (d * n + i) + if second {
                1int
            } else {
                0int
            }] == #[trigger] Model::sphere_triangle_spec(ring, color, d, i, second)
        &&& self.bounds_center == Vector3::zero_spec()
        &&& self.bounds_radius == Fixed::one_spec()
        &&& self.texture.is_none()
    }

    /// The vertex `i` of the ring `d` of the unit sphere over `ring`.
    fn sphere_vertex(ring: &Vec<Rotation>, d: usize, i: usize) -> (v: Vector3)
        requires
            i < ring@.len() <= 0x1_0000_0000,
            d <= 0x1_0000_0000,
        ensures
            v == Model::sphere_vertex_spec(ring@, d as int, i as int),
    {
        let n = Fixed::from_i64(ring.len() as i64);
        let y = Fixed::from_int(2).div(n).mul(
            Fixed::from_i64(d as i64).sub(n.div(Fixed::from_int(2))),
        );
        let radius = Fixed::one().sub(y.mul(y)).sqrt();
        Vector3 { x: radius.mul(ring[i].cos), y, z: radius.mul(ring[i].sin) }
    }

    /// A unit sphere of one colour about the origin, cut into as many slices
    /// and rings as `ring` has directions; `ring` holds the cosine and sine
    /// of each slice's angle about the vertical axis.
    pub fn generate_sphere(ring: &Vec<Rotation>, color: Color) -> (model: Model)
        requires
            2 * ((ring@.len() + 1) * ring@.len()) <= usize::MAX,
        ensures
            model.is_sphere_over(ring@, color),
            model.wf(),
    {
        let n: usize = ring.len();
        let mut vertices: Vec<Vector3> = Vec::new();
        let mut triangles: Vec<Triangle> = Vec::new();
        proof {
            assert(n * n >= 0 && (n + 1) * n == n * n + n) by (nonlinear_arith);
            assert(n < 0x1_0000_0000) by (nonlinear_arith)
                requires
                    2 * ((n + 1) * n) <= 0xffff_ffff_ffff_ffff,
            ;
        }
        let mut d: usize = 0;
        while d <= n
            invariant
                n == ring@.len(),
                n < 0x1_0000_0000,
                2 * ((n + 1) * n) <= usize::MAX,
                (n + 1) * n == n * n + n,
                d <= n + 1,
                vertices@.len() == d * n,
                forall|e: int, j: int|
                    0 <= e < d && 0 <= j < n ==> vertices@[e * n + j] == #[trigger] Model::sphere_vertex_spec(
                        ring@,
                        e,
                        j,
                    ),
            decreases n + 1 - d,
        {
            let mut i: usize = 0;
            while i < n
                invariant
                    n == ring@.len(),
                    n < 0x1_0000_0000,
                    d <= n,
                    i <= n,
                    vertices@.len() == d * n + i,
                    forall|e: int, j: int|
                        0 <= e <= d && 0 <= j < n && (e < d || j < i) ==> vertices@[e * n + j]
                            == #[trigger] Model::sphere_vertex_spec(ring@, e, j),
                decreases n - i,
            {
                let ghost before = vertices@;
                vertices.push(Model::sphere_vertex(ring, d, i));
                proof {
                    assert forall|e: int, j: int|
                        0 <= e <= d && 0 <= j < n && (e < d || j < i + 1) implies vertices@[e * n + j]
                        == #[trigger] Model::sphere_vertex_spec(ring@, e, j) by {
                        lemma_ring_places(n as int, e, j, d as int, i as int);
                        if e < d || j < i {
                            assert(vertices@[e * n + j] == before[e * n + j]);
                        }
                    }
                }
                i = i + 1;
            }
            proof {
                assert((d + 1) * n == d * n + n) by (nonlinear_arith);
            }
            d = d + 1;
        }
        proof {
            assert(vertices@.len() == (n + 1) * n);
        }
        let mut d: usize = 0;
        while d < n
            invariant
                n == ring@.len(),
                2 * ((n + 1) * n) <= usize::MAX,
                (n + 1) * n == n * n + n,
                d <= n,
                vertices@.len() == (n + 1) * n,
                forall|e: int, j: int|
                    0 <= e <= n && 0 <= j < n ==> vertices@[e * n + j] == #[trigger] Model::sphere_vertex_spec(
                        ring@,
                        e,
                        j,
                    ),
                triangles@.len() == 2 * (d * n),
                forall|e: int, j: int, second: bool|
                    0 <= e < d && 0 <= j < n ==> triangles@[2 * (e * n + j) + if second {
                        1int
                    } else {
                        0int
                    }] == #[trigger] Model::sphere_triangle_spec(ring@, color, e, j, second),
                crate::clip::triangles_below(triangles@, vertices@.len() as int),
            decreases n - d,
        {
            let mut i: usize = 0;
            while i < n
                invariant
                    n == ring@.len(),
                    2 * ((n + 1) * n) <= usize::MAX,
                    (n + 1) * n == n * n + n,
                    d < n,
                    i <= n,
                    vertices@.len() == (n + 1) * n,
                    forall|e: int, j: int|
                        0 <= e <= n && 0 <= j < n ==> vertices@[e * n + j]
                            == #[trigger] Model::sphere_vertex_spec(ring@, e, j),
                    triangles@.len() == 2 * (d * n + i),
                    forall|e: int, j: int, second: bool|
                        0 <= e <= d && 0 <= j < n && (e < d || j < i) ==> triangles@[2 * (e * n + j)
                            + if second {
                            1int
                        } else {
                            0int
                        }] == #[trigger] Model::sphere_triangle_spec(ring@, color, e, j, second),
                    crate::clip::triangles_below(triangles@, vertices@.len() as int),
                decreases n - i,
            {
                let next: usize = if i + 1 == n {
                    0
                } else {
                    i + 1
                };
                proof {
                    lemma_ring_places(n as int, d as int, i as int, n as int, 0);
                    lemma_ring_places(n as int, d as int, next as int, n as int, 0);
                    lemma_ring_places(n as int, d as int + 1, next as int, n as int + 1, 0);
                    lemma_ring_places(n as int, d as int + 1, i as int, n as int + 1, 0);
                    lemma_ring_places(n as int, 0, 0, d as int, i as int);
                    assert((d + 1) * n == d * n + n) by (nonlinear_arith);
                    assert((n + 1) * n == n * n + n) by (nonlinear_arith);
                    assert(Model::sphere_vertex_spec(ring@, d as int, i as int) == vertices@[d * n + i]);
                    assert(Model::sphere_vertex_spec(ring@, d as int, next as int) == vertices@[d * n
                        + next]);
                    assert(Model::sphere_vertex_spec(ring@, d as int + 1, next as int) == vertices@[(d
                        + 1) * n + next]);
                    assert(Model::sphere_vertex_spec(ring@, d as int + 1, i as int) == vertices@[(d + 1)
                        * n + i]);
                }
                let i0: usize = d * n + i;
                let i1: usize = (d + 1) * n + next;
                let i2: usize = d * n + next;
                let zero = Vector2 { x: Fixed::zero(), y: Fixed::zero() };
                let first = Triangle::new(
                    [i0, i1, i2],
                    color,
                    [vertices[i0], vertices[i1], vertices[i2]],
                    [zero, zero, zero],
                );
                let second = Triangle::new(
                    [i0, i0 + n, i1],
                    color,
                    [vertices[i0], vertices[i0 + n], vertices[i1]],
                    [zero, zero, zero],
                );
                let ghost before = triangles@;
                triangles.push(first);
                triangles.push(second);
                proof {
                    assert(first =~= Model::sphere_triangle_spec(ring@, color, d as int, i as int, false));
                    assert(second =~= Model::sphere_triangle_spec(ring@, color, d as int, i as int, true));
                    assert forall|e: int, j: int, s: bool|
                        0 <= e <= d && 0 <= j < n && (e < d || j < i + 1) implies triangles@[2 * (e * n
                        + j) + if s {
                        1int
                    } else {
                        0int
                    }] == #[trigger] Model::sphere_triangle_spec(ring@, color, e, j, s) by {
                        lemma_ring_places(n as int, e, j, d as int, i as int);
                        let at = 2 * (e * n + j) + if s {
                            1int
                        } else {
                            0int
                        };
                        if e < d || j < i {
                            assert(triangles@[at] == before[at]);
                        }
                    }
                    assert forall|k: int| 0 <= k < triangles@.len() implies (
                    #[trigger] triangles@[k]).indexes_below(vertices@.len() as int) by {
                        if k < before.len() {
                            assert(triangles@[k] == before[k]);
                        }
                    }
                }
                i = i + 1;
            }
            proof {
                assert((d + 1) * n == d * n + n) by (nonlinear_arith);
            }
            d = d + 1;
        }
        proof {
            assert(d == n);
        }
        Model {
            texture: None,
            vertices,
            triangles,
            bounds_center: Vector3::zero(),
            bounds_radius: Fixed::one(),
        }
    }
}

impl Model {
    /// Whether every triangle names vertices that the model has.
    pub fn has_valid_indexes(&self) -> (ok: bool)
        ensures
            ok == self.wf(),
    {
        let n = self.vertices.len();
        let mut k: usize = 0;
        while k < self.triangles.len()
            invariant
                k <= self.triangles@.len(),
                n == self.vertices@.len(),
                forall|i: int| 0 <= i < k ==> (#[trigger] self.triangles@[i]).indexes_below(n as int),
            decreases self.triangles@.len() - k,
        {
            let t = &self.triangles[k];
            if t.indexes[0] >= n || t.indexes[1] >= n || t.indexes[2] >= n {
                assert(!self@.triangles[k as int].indexes_below(self@.vertices.len() as int));
                return false;
            }
            k = k + 1;
        }
        true
    }
}

} // verus!
