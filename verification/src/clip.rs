//! The clipper: moves an instance into camera space and cuts its triangles
//! at the planes of the view frustum.
use crate::fixed::Fixed;
use crate::math::{Vector2, Vector3};
use crate::matrix::{Matrix4, Rotation};
use crate::rasterization::Renderer;
use crate::scene::{Camera, Instance, InstanceView, Model, ModelView, Plane, Triangle};
use vstd::prelude::*;

verus! {

/// One corner of a triangle: the index of its vertex and what is drawn there.
#[derive(Clone, Copy, Debug, PartialEq, Eq, Structural)]
pub struct Corner {
    pub index: usize,
    pub intensity: Fixed,
    pub normal: Vector3,
    pub uv: Vector2,
}

/// The value at the fraction `t` of the way from `a` to `b`.
pub open spec fn lerp_spec(a: Fixed, b: Fixed, t: Fixed) -> Fixed {
    a.add_spec(b.sub_spec(a).mul_spec(t))
}

/// The point at the fraction `t` of the way from `a` to `b`.
pub open spec fn lerp3_spec(a: Vector3, b: Vector3, t: Fixed) -> Vector3 {
    Vector3 { x: lerp_spec(a.x, b.x, t), y: lerp_spec(a.y, b.y, t), z: lerp_spec(a.z, b.z, t) }
}

/// The fraction of the way from a point at the signed distance `da` to a
/// point at the signed distance `db` at which the plane is crossed.
pub open spec fn crossing_spec(da: Fixed, db: Fixed) -> Fixed {
    da.div_spec(da.sub_spec(db))
}

/// The `i`-th corner of `t`.
pub open spec fn corner_spec(t: Triangle, i: int) -> Corner {
    Corner { index: t.indexes[i], intensity: t.intensities[i], normal: t.normals[i], uv: t.uvs[i] }
}

/// The triangle of the colour `color` with the corners `a`, `b` and `c`.
pub open spec fn triangle_of_spec(color: crate::color::Color, a: Corner, b: Corner, c: Corner) -> Triangle {
    Triangle {
        color,
        indexes: [a.index, b.index, c.index],
        intensities: [a.intensity, b.intensity, c.intensity],
        normals: [a.normal, b.normal, c.normal],
        uvs: [a.uv, b.uv, c.uv],
    }
}

/// The corner where the edge from the corner `a` to the corner `b` crosses
/// `plane`, given that its vertex is stored at `index`: every attribute is
/// taken at the crossing fraction.
pub open spec fn split_corner_spec(
    vertices: Seq<Vector3>,
    plane: Plane,
    a: Corner,
    b: Corner,
    index: usize,
) -> Corner {
    let t = crossing_spec(
        plane.signed_distance_spec(vertices[a.index as int]),
        plane.signed_distance_spec(vertices[b.index as int]),
    );
    Corner {
        index,
        intensity: lerp_spec(a.intensity, b.intensity, t),
        normal: lerp3_spec(a.normal, b.normal, t),
        uv: Vector2 { x: lerp_spec(a.uv.x, b.uv.x, t), y: lerp_spec(a.uv.y, b.uv.y, t) },
    }
}

/// The point where the edge from the corner `a` to the corner `b` crosses
/// `plane`.
pub open spec fn split_point_spec(vertices: Seq<Vector3>, plane: Plane, a: Corner, b: Corner) -> Vector3 {
    let va = vertices[a.index as int];
    let vb = vertices[b.index as int];
    lerp3_spec(
        va,
        vb,
        crossing_spec(plane.signed_distance_spec(va), plane.signed_distance_spec(vb)),
    )
}

/// Whether the vertex `i` of `vertices` lies inside `plane`.
pub open spec fn inside_spec(vertices: Seq<Vector3>, plane: Plane, i: usize) -> bool {
    plane.signed_distance_spec(vertices[i as int]).raw > 0
}

/// How many corners of `t` lie inside `plane`.
pub open spec fn in_count_spec(vertices: Seq<Vector3>, t: Triangle, plane: Plane) -> int {
    (if inside_spec(vertices, plane, t.indexes[0]) {
        1int
    } else {
        0int
    }) + (if inside_spec(vertices, plane, t.indexes[1]) {
        1int
    } else {
        0int
    }) + (if inside_spec(vertices, plane, t.indexes[2]) {
        1int
    } else {
        0int
    })
}

/// The part of the triangle with the corners `a`, `b`, `c` on the inside of
/// `plane`, where only `a` is inside: the triangle from `a` to the two
/// points where its edges cross the plane, which join the vertex list.
pub open spec fn clip_one_inside_spec(
    vertices: Seq<Vector3>,
    color: crate::color::Color,
    plane: Plane,
    a: Corner,
    b: Corner,
    c: Corner,
) -> (Seq<Vector3>, Seq<Triangle>) {
    let n = vertices.len();
    let ab = split_corner_spec(vertices, plane, a, b, n as usize);
    let ac = split_corner_spec(vertices, plane, a, c, (n + 1) as usize);
    (
        vertices.push(split_point_spec(vertices, plane, a, b)).push(
            split_point_spec(vertices, plane, a, c),
        ),
        seq![triangle_of_spec(color, a, ab, ac)],
    )
}

/// The part of the triangle with the corners `a`, `b`, `c` on the inside of
/// `plane`, where only `c` is outside: the two triangles that make up the
/// quadrilateral from `a` and `b` to the two points where the edges to `c`
/// cross the plane, which join the vertex list.
pub open spec fn clip_two_inside_spec(
    vertices: Seq<Vector3>,
    color: crate::color::Color,
    plane: Plane,
    a: Corner,
    b: Corner,
    c: Corner,
) -> (Seq<Vector3>, Seq<Triangle>) {
    let n = vertices.len();
    let ac = split_corner_spec(vertices, plane, a, c, n as usize);
    let bc = split_corner_spec(vertices, plane, b, c, (n + 1) as usize);
    (
        vertices.push(split_point_spec(vertices, plane, a, c)).push(
            split_point_spec(vertices, plane, b, c),
        ),
        seq![triangle_of_spec(color, a, b, ac), triangle_of_spec(color, ac, b, bc)],
    )
}

/// The vertex list and the triangles that are left of `t` on the inside of
/// `plane`. A triangle wholly inside stays as it is, one wholly outside
/// goes, and one that the plane crosses is cut along it, with its corners
/// kept in their order.
pub open spec fn clip_triangle_spec(vertices: Seq<Vector3>, t: Triangle, plane: Plane) -> (
    Seq<Vector3>,
    Seq<Triangle>,
) {
    let in0 = inside_spec(vertices, plane, t.indexes[0]);
    let in1 = inside_spec(vertices, plane, t.indexes[1]);
    let in2 = inside_spec(vertices, plane, t.indexes[2]);
    let c0 = corner_spec(t, 0);
    let c1 = corner_spec(t, 1);
    let c2 = corner_spec(t, 2);
    if in0 && in1 && in2 {
        (vertices, seq![t])
    } else if !in0 && !in1 && !in2 {
        (vertices, Seq::empty())
    } else if in0 && !in1 && !in2 {
        clip_one_inside_spec(vertices, t.color, plane, c0, c1, c2)
    } else if !in0 && in1 && !in2 {
        clip_one_inside_spec(vertices, t.color, plane, c1, c2, c0)
    } else if !in0 && !in1 && in2 {
        clip_one_inside_spec(vertices, t.color, plane, c2, c0, c1)
    } else if !in0 {
        clip_two_inside_spec(vertices, t.color, plane, c1, c2, c0)
    } else if !in1 {
        clip_two_inside_spec(vertices, t.color, plane, c2, c0, c1)
    } else {
        clip_two_inside_spec(vertices, t.color, plane, c0, c1, c2)
    }
}

/// The vertex list and the triangles left of the first `k` of `triangles`
/// on the inside of `plane`.
pub open spec fn clip_plane_upto(
    vertices: Seq<Vector3>,
    triangles: Seq<Triangle>,
    plane: Plane,
    k: nat,
) -> (Seq<Vector3>, Seq<Triangle>)
    decreases k,
{
    if k == 0 {
        (vertices, Seq::empty())
    } else {
        let before = clip_plane_upto(vertices, triangles, plane, (k - 1) as nat);
        let cut = clip_triangle_spec(before.0, triangles[k - 1], plane);
        (cut.0, before.1 + cut.1)
    }
}

/// The vertex list and the triangles left of `triangles` on the inside of
/// `plane`.
pub open spec fn clip_plane_spec(vertices: Seq<Vector3>, triangles: Seq<Triangle>, plane: Plane) -> (
    Seq<Vector3>,
    Seq<Triangle>,
) {
    clip_plane_upto(vertices, triangles, plane, triangles.len())
}

/// The vertex list and the triangles left of `triangles` after they are
/// clipped at the first `k` of `planes`, one plane after the other.
pub open spec fn clip_planes_upto(
    vertices: Seq<Vector3>,
    triangles: Seq<Triangle>,
    planes: Seq<Plane>,
    k: nat,
) -> (Seq<Vector3>, Seq<Triangle>)
    decreases k,
{
    if k == 0 {
        (vertices, triangles)
    } else {
        let before = clip_planes_upto(vertices, triangles, planes, (k - 1) as nat);
        clip_plane_spec(before.0, before.1, planes[k - 1])
    }
}

/// Whether every triangle of `triangles` names vertices below `n`.
pub open spec fn triangles_below(triangles: Seq<Triangle>, n: int) -> bool {
    forall|i: int| 0 <= i < triangles.len() ==> (#[trigger] triangles[i]).indexes_below(n)
}

/// Whether the sphere about `center` lies wholly outside one of the first
/// `k` of `planes`.
pub open spec fn sphere_rejected_upto(planes: Seq<Plane>, center: Vector3, radius: Fixed, k: int) -> bool {
    exists|i: int|
        0 <= i < k && (#[trigger] planes[i]).signed_distance_spec(center).raw < radius.neg_spec().raw
}

/// The vertices of a model after `transform`.
pub open spec fn transform_vertices_spec(vertices: Seq<Vector3>, transform: Matrix4) -> Seq<Vector3> {
    Seq::new(vertices.len(), |i: int| transform.transform_point_spec(vertices[i]))
}

/// The instance in camera space, clipped to the view frustum; nothing where
/// its bounding sphere lies wholly outside one of the camera's planes. The
/// vertices are moved by `transform`, the triangles clipped at every plane
/// in turn, and the placement is the identity, since it is part of the
/// vertices now.
#[verifier::opaque]
pub open spec fn transform_and_clip_spec(camera: Camera, instance: InstanceView, transform: Matrix4) -> Option<
    InstanceView,
> {
    let center = transform.transform_point_spec(instance.model.bounds_center);
    let radius = instance.model.bounds_radius.mul_spec(instance.scale);
    if sphere_rejected_upto(camera.planes@, center, radius, camera.planes@.len() as int) {
        None
    } else {
        let clipped = clip_planes_upto(
            transform_vertices_spec(instance.model.vertices, transform),
            instance.model.triangles,
            camera.planes@,
            camera.planes@.len(),
        );
        Some(
            InstanceView {
                model: ModelView {
                    vertices: clipped.0,
                    triangles: clipped.1,
                    bounds_center: center,
                    bounds_radius: radius,
                    texture: instance.model.texture,
                },
                scale: Fixed::one_spec(),
                rotation: Rotation::identity_spec(),
                position: Vector3::zero_spec(),
            },
        )
    }
}

/// The value at the fraction `t` of the way from `a` to `b`.
pub fn lerp(a: Fixed, b: Fixed, t: Fixed) -> (r: Fixed)
    ensures
        r == lerp_spec(a, b, t),
{
    a.add(b.sub(a).mul(t))
}

/// The point at the fraction `t` of the way from `a` to `b`.
pub fn lerp3(a: &Vector3, b: &Vector3, t: Fixed) -> (r: Vector3)
    ensures
        r == lerp3_spec(*a, *b, t),
{
    Vector3 { x: lerp(a.x, b.x, t), y: lerp(a.y, b.y, t), z: lerp(a.z, b.z, t) }
}

/// The `i`-th corner of `t`.
pub fn corner(t: &Triangle, i: usize) -> (c: Corner)
    requires
        i < 3,
    ensures
        c == corner_spec(*t, i as int),
{
    Corner { index: t.indexes[i], intensity: t.intensities[i], normal: t.normals[i], uv: t.uvs[i] }
}

/// The triangle of the colour `color` with the corners `a`, `b` and `c`.
pub fn triangle_of(color: crate::color::Color, a: &Corner, b: &Corner, c: &Corner) -> (t: Triangle)
    ensures
        t == triangle_of_spec(color, *a, *b, *c),
{
    Triangle {
        color,
        indexes: [a.index, b.index, c.index],
        intensities: [a.intensity, b.intensity, c.intensity],
        normals: [a.normal, b.normal, c.normal],
        uvs: [a.uv, b.uv, c.uv],
    }
}

/// Adds the point where the edge from `a` to `b` crosses `plane` to the
/// vertex list and returns the corner there.
fn split_edge(vertices: &mut Vec<Vector3>, plane: &Plane, a: &Corner, b: &Corner) -> (c: Corner)
    requires
        a.index < old(vertices)@.len(),
        b.index < old(vertices)@.len(),
    ensures
        final(vertices)@ == old(vertices)@.push(split_point_spec(old(vertices)@, *plane, *a, *b)),
        c == split_corner_spec(old(vertices)@, *plane, *a, *b, old(vertices)@.len() as usize),
{
    let va = vertices[a.index];
    let vb = vertices[b.index];
    let t = plane.signed_distance(&va).div(plane.signed_distance(&va).sub(plane.signed_distance(&vb)));
    let index = vertices.len();
    vertices.push(lerp3(&va, &vb, t));
    Corner {
        index,
        intensity: lerp(a.intensity, b.intensity, t),
        normal: lerp3(&a.normal, &b.normal, t),
        uv: Vector2 { x: lerp(a.uv.x, b.uv.x, t), y: lerp(a.uv.y, b.uv.y, t) },
    }
}

/// Cuts a triangle of which only the corner `a` lies inside `plane`.
fn clip_one_inside(
    vertices: &mut Vec<Vector3>,
    color: crate::color::Color,
    plane: &Plane,
    a: &Corner,
    b: &Corner,
    c: &Corner,
) -> (r: Vec<Triangle>)
    requires
        a.index < old(vertices)@.len(),
        b.index < old(vertices)@.len(),
        c.index < old(vertices)@.len(),
    ensures
        (final(vertices)@, r@) == clip_one_inside_spec(old(vertices)@, color, *plane, *a, *b, *c),
{
    let ghost before = vertices@;
    let ab = split_edge(vertices, plane, a, b);
    let ghost middle = vertices@;
    let ac = split_edge(vertices, plane, a, c);
    proof {
        assert(middle[a.index as int] == before[a.index as int]);
        assert(middle[c.index as int] == before[c.index as int]);
    }
    let mut r: Vec<Triangle> = Vec::new();
    r.push(triangle_of(color, a, &ab, &ac));
    assert(r@ =~= seq![triangle_of_spec(color, *a, ab, ac)]);
    r
}

/// Cuts a triangle of which only the corner `c` lies outside `plane`.
fn clip_two_inside(
    vertices: &mut Vec<Vector3>,
    color: crate::color::Color,
    plane: &Plane,
    a: &Corner,
    b: &Corner,
    c: &Corner,
) -> (r: Vec<Triangle>)
    requires
        a.index < old(vertices)@.len(),
        b.index < old(vertices)@.len(),
        c.index < old(vertices)@.len(),
    ensures
        (final(vertices)@, r@) == clip_two_inside_spec(old(vertices)@, color, *plane, *a, *b, *c),
{
    let ghost before = vertices@;
    let ac = split_edge(vertices, plane, a, c);
    let ghost middle = vertices@;
    let bc = split_edge(vertices, plane, b, c);
    proof {
        assert(middle[b.index as int] == before[b.index as int]);
        assert(middle[c.index as int] == before[c.index as int]);
    }
    let mut r: Vec<Triangle> = Vec::new();
    r.push(triangle_of(color, a, b, &ac));
    r.push(triangle_of(color, &ac, b, &bc));
    assert(r@ =~= seq![triangle_of_spec(color, *a, *b, ac), triangle_of_spec(color, ac, *b, bc)]);
    r
}

impl Renderer {
    /// The distance of `center` from `plane`, positive on the inside.
    pub fn signed_distance(&self, plane: &Plane, center: &Vector3) -> (d: Fixed)
        ensures
            d == plane.signed_distance_spec(*center),
    {
        plane.signed_distance(center)
    }

    /// Clips one triangle at one plane. The triangles that are left are
    /// returned; where the plane crosses the triangle, the crossing points
    /// are added to `vertices`.
    pub fn clip_triangle(&self, triangle: &Triangle, vertices: &mut Vec<Vector3>, plane: &Plane) -> (r:
        Vec<Triangle>)
        requires
            triangle.indexes_below(old(vertices)@.len() as int),
        ensures
            (final(vertices)@, r@) == clip_triangle_spec(old(vertices)@, *triangle, *plane),
            in_count_spec(old(vertices)@, *triangle, *plane) == 3 ==> r@ == seq![*triangle]
                && final(vertices)@ == old(vertices)@,
            in_count_spec(old(vertices)@, *triangle, *plane) == 0 ==> r@.len() == 0 && final(vertices)@
                == old(vertices)@,
            in_count_spec(old(vertices)@, *triangle, *plane) == 1 ==> r@.len() == 1,
            in_count_spec(old(vertices)@, *triangle, *plane) == 2 ==> r@.len() == 2,
            0 <= in_count_spec(old(vertices)@, *triangle, *plane) <= 3,
            old(vertices)@.is_prefix_of(final(vertices)@),
            triangles_below(r@, final(vertices)@.len() as int),
    {
        let in0 = self.signed_distance(plane, &vertices[triangle.indexes[0]]).raw > 0;
        let in1 = self.signed_distance(plane, &vertices[triangle.indexes[1]]).raw > 0;
        let in2 = self.signed_distance(plane, &vertices[triangle.indexes[2]]).raw > 0;
        let c0 = corner(triangle, 0);
        let c1 = corner(triangle, 1);
        let c2 = corner(triangle, 2);
        let color = triangle.color;
        if in0 && in1 && in2 {
            let mut r: Vec<Triangle> = Vec::new();
            r.push(*triangle);
            assert(r@ =~= seq![*triangle]);
            r
        } else if !in0 && !in1 && !in2 {
            let r: Vec<Triangle> = Vec::new();
            assert(r@ =~= Seq::<Triangle>::empty());
            r
        } else if in0 && !in1 && !in2 {
            clip_one_inside(vertices, color, plane, &c0, &c1, &c2)
        } else if !in0 && in1 && !in2 {
            clip_one_inside(vertices, color, plane, &c1, &c2, &c0)
        } else if !in0 && !in1 && in2 {
            clip_one_inside(vertices, color, plane, &c2, &c0, &c1)
        } else if !in0 {
            clip_two_inside(vertices, color, plane, &c1, &c2, &c0)
        } else if !in1 {
            clip_two_inside(vertices, color, plane, &c2, &c0, &c1)
        } else {
            clip_two_inside(vertices, color, plane, &c0, &c1, &c2)
        }
    }
}

impl Renderer {
    /// Clips a list of triangles at one plane, in their order. The crossing
    /// points are added to `vertices`.
    pub fn clip_at_plane(&self, vertices: &mut Vec<Vector3>, triangles: &Vec<Triangle>, plane: &Plane) -> (r:
        Vec<Triangle>)
        requires
            triangles_below(triangles@, old(vertices)@.len() as int),
        ensures
            (final(vertices)@, r@) == clip_plane_spec(old(vertices)@, triangles@, *plane),
            old(vertices)@.is_prefix_of(final(vertices)@),
            triangles_below(r@, final(vertices)@.len() as int),
    {
        let mut out: Vec<Triangle> = Vec::new();
        let mut k: usize = 0;
        assert(out@ =~= Seq::<Triangle>::empty());
        while k < triangles.len()
            invariant
                k <= triangles@.len(),
                (vertices@, out@) == clip_plane_upto(old(vertices)@, triangles@, *plane, k as nat),
                old(vertices)@.is_prefix_of(vertices@),
                triangles_below(triangles@, old(vertices)@.len() as int),
                triangles_below(out@, vertices@.len() as int),
            decreases triangles@.len() - k,
        {
            let mut cut = self.clip_triangle(&triangles[k], vertices, plane);
            out.append(&mut cut);
            k = k + 1;
        }
        out
    }

    /// Moves an instance into camera space by `transform` and clips it to
    /// the view frustum. Returns nothing where the instance's bounding
    /// sphere lies wholly outside one of the camera's planes; otherwise a
    /// new instance that holds the camera-space vertices and the clipped
    /// triangles, placed by the identity.
    pub fn transform_and_clip(&self, instance: Instance, transform: Matrix4) -> (r: Option<Instance>)
        requires
            instance.model.wf(),
        ensures
            r.is_some() == transform_and_clip_spec(self.camera, instance@, transform).is_some(),
            r.is_none() == sphere_rejected_upto(
                self.camera.planes@,
                transform.transform_point_spec(instance.model.bounds_center),
                instance.model.bounds_radius.mul_spec(instance.scale),
                self.camera.planes@.len() as int,
            ),
            r.is_some() ==> r.unwrap()@ == transform_and_clip_spec(
                self.camera,
                instance@,
                transform,
            ).unwrap(),
            r.is_some() ==> r.unwrap().model.wf(),
    {
        proof {
            reveal(transform_and_clip_spec);
        }
        let center = transform.transform_point(&instance.model.bounds_center);
        let radius = instance.model.bounds_radius.mul(instance.scale);
        let limit = radius.neg();
        let mut k: usize = 0;
        while k < self.camera.planes.len()
            invariant
                k <= self.camera.planes@.len(),
                limit == radius.neg_spec(),
                center == transform.transform_point_spec(instance.model.bounds_center),
                radius == instance.model.bounds_radius.mul_spec(instance.scale),
                !sphere_rejected_upto(self.camera.planes@, center, radius, k as int),
            decreases self.camera.planes@.len() - k,
        {
            let distance = self.signed_distance(&self.camera.planes[k], &center);
            if distance.raw < limit.raw {
                proof {
                    reveal(transform_and_clip_spec);
                }
                assert(sphere_rejected_upto(
                    self.camera.planes@,
                    center,
                    radius,
                    self.camera.planes@.len() as int,
                ));
                return None;
            }
            k = k + 1;
        }
        let mut vertices: Vec<Vector3> = Vec::new();
        let mut i: usize = 0;
        while i < instance.model.vertices.len()
            invariant
                i <= instance.model.vertices@.len(),
                vertices@.len() == i,
                forall|j: int|
                    0 <= j < i ==> vertices@[j] == transform.transform_point_spec(
                        instance.model.vertices@[j],
                    ),
            decreases instance.model.vertices@.len() - i,
        {
            vertices.push(transform.transform_point(&instance.model.vertices[i]));
            i = i + 1;
        }
        assert(vertices@ =~= transform_vertices_spec(instance.model.vertices@, transform));
        let ghost moved = vertices@;
        let ghost given = instance.model.triangles@;
        let Instance { model, .. } = instance;
        let Model { triangles: given_triangles, texture, .. } = model;
        let mut triangles = given_triangles;
        let mut j: usize = 0;
        while j < self.camera.planes.len()
            invariant
                j <= self.camera.planes@.len(),
                (vertices@, triangles@) == clip_planes_upto(moved, given, self.camera.planes@, j as nat),
                triangles_below(triangles@, vertices@.len() as int),
            decreases self.camera.planes@.len() - j,
        {
            triangles = self.clip_at_plane(&mut vertices, &triangles, &self.camera.planes[j]);
            j = j + 1;
        }
        Some(
            Instance {
                model: Model { texture, vertices, triangles, bounds_center: center, bounds_radius: radius },
                scale: Fixed::one(),
                rotation: Rotation::identity(),
                position: Vector3::zero(),
            },
        )
    }
}

/// Whether all three corners of `t` lie inside `plane`.
pub open spec fn wholly_inside(vertices: Seq<Vector3>, t: Triangle, plane: Plane) -> bool {
    in_count_spec(vertices, t, plane) == 3
}

/// Whether no corner of `t` lies inside `plane`.
pub open spec fn wholly_outside(vertices: Seq<Vector3>, t: Triangle, plane: Plane) -> bool {
    in_count_spec(vertices, t, plane) == 0
}

/// Clipping at one plane: a triangle wholly inside stays unchanged, one
/// wholly outside leaves nothing, and neither adds a vertex; a triangle
/// with one corner inside leaves one triangle and one with two corners
/// inside leaves two, each with two new vertices.
pub proof fn lemma_clip_triangle_cases(vertices: Seq<Vector3>, t: Triangle, plane: Plane)
    ensures
        wholly_inside(vertices, t, plane) ==> clip_triangle_spec(vertices, t, plane) == (
            vertices,
            seq![t],
        ),
        wholly_outside(vertices, t, plane) ==> clip_triangle_spec(vertices, t, plane) == (
            vertices,
            Seq::<Triangle>::empty(),
        ),
        in_count_spec(vertices, t, plane) == 1 ==> clip_triangle_spec(vertices, t, plane).1.len() == 1
            && clip_triangle_spec(vertices, t, plane).0.len() == vertices.len() + 2,
        in_count_spec(vertices, t, plane) == 2 ==> clip_triangle_spec(vertices, t, plane).1.len() == 2
            && clip_triangle_spec(vertices, t, plane).0.len() == vertices.len() + 2,
        0 <= in_count_spec(vertices, t, plane) <= 3,
        vertices.is_prefix_of(clip_triangle_spec(vertices, t, plane).0),
{
}

/// Clipping a single triangle at one plane that it lies wholly inside of
/// leaves the vertex list and the triangle as they are.
pub proof fn lemma_clip_plane_keeps_inside(vertices: Seq<Vector3>, t: Triangle, plane: Plane)
    requires
        wholly_inside(vertices, t, plane),
    ensures
        clip_plane_spec(vertices, seq![t], plane) == (vertices, seq![t]),
{
    let list = seq![t];
    assert(clip_plane_upto(vertices, list, plane, 0) == (vertices, Seq::<Triangle>::empty()));
    assert(list[0] == t);
    let one = clip_plane_upto(vertices, list, plane, 1);
    assert(one.1 =~= seq![t]);
}

/// Clipping a single triangle at one plane that it lies wholly outside of
/// leaves no triangle.
pub proof fn lemma_clip_plane_drops_outside(vertices: Seq<Vector3>, t: Triangle, plane: Plane)
    requires
        wholly_outside(vertices, t, plane),
    ensures
        clip_plane_spec(vertices, seq![t], plane) == (vertices, Seq::<Triangle>::empty()),
{
    let list = seq![t];
    assert(clip_plane_upto(vertices, list, plane, 0) == (vertices, Seq::<Triangle>::empty()));
    assert(list[0] == t);
    let one = clip_plane_upto(vertices, list, plane, 1);
    assert(one.1 =~= Seq::<Triangle>::empty());
}

/// Where no triangle is left, clipping at further planes leaves none.
pub proof fn lemma_clip_nothing(vertices: Seq<Vector3>, planes: Seq<Plane>, from: nat, k: nat)
    requires
        from <= k <= planes.len(),
    ensures
        forall|triangles: Seq<Triangle>|
            #![trigger clip_planes_upto(vertices, triangles, planes, from)]
            clip_planes_upto(vertices, triangles, planes, from) == (
                vertices,
                Seq::<Triangle>::empty(),
            ) ==> clip_planes_upto(vertices, triangles, planes, k) == (
                vertices,
                Seq::<Triangle>::empty(),
            ),
    decreases k - from,
{
    if from < k {
        lemma_clip_nothing(vertices, planes, from, (k - 1) as nat);
        assert forall|triangles: Seq<Triangle>|
            #![trigger clip_planes_upto(vertices, triangles, planes, from)]
            clip_planes_upto(vertices, triangles, planes, from) == (
                vertices,
                Seq::<Triangle>::empty(),
            ) implies clip_planes_upto(vertices, triangles, planes, k) == (
            vertices,
            Seq::<Triangle>::empty(),
        ) by {
            let before = clip_planes_upto(vertices, triangles, planes, (k - 1) as nat);
            assert(before == (vertices, Seq::<Triangle>::empty()));
            assert(clip_plane_upto(before.0, before.1, planes[k - 1], 0) == (
                vertices,
                Seq::<Triangle>::empty(),
            ));
        }
    }
}

/// A triangle that lies wholly inside every plane comes out of the clipping
/// unchanged, and no vertex is added.
pub proof fn lemma_clip_inside_all_planes(vertices: Seq<Vector3>, t: Triangle, planes: Seq<Plane>, k: nat)
    requires
        k <= planes.len(),
        forall|i: int| 0 <= i < k ==> wholly_inside(vertices, t, #[trigger] planes[i]),
    ensures
        clip_planes_upto(vertices, seq![t], planes, k) == (vertices, seq![t]),
    decreases k,
{
    if k > 0 {
        lemma_clip_inside_all_planes(vertices, t, planes, (k - 1) as nat);
        lemma_clip_plane_keeps_inside(vertices, t, planes[k - 1]);
    }
}

/// A triangle that lies wholly outside one plane, and wholly inside the
/// planes before it, leaves nothing once that plane is reached.
pub proof fn lemma_clip_outside_one_plane(
    vertices: Seq<Vector3>,
    t: Triangle,
    planes: Seq<Plane>,
    j: nat,
    k: nat,
)
    requires
        j < k <= planes.len(),
        forall|i: int| 0 <= i < j ==> wholly_inside(vertices, t, #[trigger] planes[i]),
        wholly_outside(vertices, t, planes[j as int]),
    ensures
        clip_planes_upto(vertices, seq![t], planes, k) == (vertices, Seq::<Triangle>::empty()),
{
    lemma_clip_inside_all_planes(vertices, t, planes, j);
    lemma_clip_plane_drops_outside(vertices, t, planes[j as int]);
    assert(clip_planes_upto(vertices, seq![t], planes, (j + 1) as nat) == (
        vertices,
        Seq::<Triangle>::empty(),
    ));
    lemma_clip_nothing(vertices, planes, (j + 1) as nat, k);
}

/// An edge that leaves the inside of a plane crosses it at a fraction
/// between zero and one of its length.
pub proof fn lemma_crossing_in_unit(da: Fixed, db: Fixed)
    requires
        da.raw > 0,
        db.raw <= 0,
    ensures
        0 <= crossing_spec(da, db).raw <= crate::fixed::ONE_RAW,
{
    reveal(Fixed::div_spec);
    let d = da.sub_spec(db).raw as int;
    let n = da.raw * 65536;
    assert(d >= da.raw);
    assert(n <= d * 65536);
    vstd::arithmetic::div_mod::lemma_div_is_ordered(n, d * 65536, d);
    vstd::arithmetic::div_mod::lemma_div_is_ordered(0, n, d);
    assert((d * 65536) / d == 65536) by (nonlinear_arith)
        requires
            d > 0,
    ;
}

/// The value at a fraction between zero and one of the way from `a` to
/// `b` lies between `a` and `b`.
pub proof fn lemma_lerp_between(a: Fixed, b: Fixed, t: Fixed)
    requires
        0 <= t.raw <= crate::fixed::ONE_RAW,
    ensures
        a.raw <= b.raw ==> a.raw <= lerp_spec(a, b, t).raw <= b.raw,
        b.raw <= a.raw ==> b.raw <= lerp_spec(a, b, t).raw <= a.raw,
{
    reveal(Fixed::mul_spec);
    let diff = b.sub_spec(a).raw as int;
    let tr = t.raw as int;
    if diff >= 0 {
        assert(0 <= diff * tr <= diff * 65536) by (nonlinear_arith)
            requires
                diff >= 0,
                0 <= tr <= 65536,
        ;
        vstd::arithmetic::div_mod::lemma_div_is_ordered(diff * tr, diff * 65536, 65536);
        vstd::arithmetic::div_mod::lemma_div_is_ordered(0, diff * tr, 65536);
        assert((diff * 65536) / 65536 == diff) by (nonlinear_arith);
    } else {
        let m = -diff;
        assert(diff * tr == -(m * tr)) by (nonlinear_arith)
            requires
                m == -diff,
        ;
        assert(0 <= m * tr <= m * 65536) by (nonlinear_arith)
            requires
                m >= 0,
                0 <= tr <= 65536,
        ;
        vstd::arithmetic::div_mod::lemma_div_is_ordered(m * tr, m * 65536, 65536);
        vstd::arithmetic::div_mod::lemma_div_is_ordered(0, m * tr, 65536);
        assert((m * 65536) / 65536 == m) by (nonlinear_arith);
    }
}

/// The point where an edge crosses a plane lies in the box that the edge
/// spans: each of its coordinates lies between those of the edge's ends.
/// The first end is inside the plane and the second is not.
pub proof fn lemma_split_point_in_box(vertices: Seq<Vector3>, plane: Plane, a: Corner, b: Corner)
    requires
        inside_spec(vertices, plane, a.index),
        !inside_spec(vertices, plane, b.index),
    ensures
        ({
            let va = vertices[a.index as int];
            let vb = vertices[b.index as int];
            let p = split_point_spec(vertices, plane, a, b);
            &&& (va.x.raw <= p.x.raw <= vb.x.raw || vb.x.raw <= p.x.raw <= va.x.raw)
            &&& (va.y.raw <= p.y.raw <= vb.y.raw || vb.y.raw <= p.y.raw <= va.y.raw)
            &&& (va.z.raw <= p.z.raw <= vb.z.raw || vb.z.raw <= p.z.raw <= va.z.raw)
        }),
{
    let va = vertices[a.index as int];
    let vb = vertices[b.index as int];
    let t = crossing_spec(plane.signed_distance_spec(va), plane.signed_distance_spec(vb));
    lemma_crossing_in_unit(plane.signed_distance_spec(va), plane.signed_distance_spec(vb));
    lemma_lerp_between(va.x, vb.x, t);
    lemma_lerp_between(va.y, vb.y, t);
    lemma_lerp_between(va.z, vb.z, t);
}

/// Clipping a list of triangles that all lie wholly inside one plane leaves
/// the vertex list and the first `k` triangles as they are.
pub proof fn lemma_clip_plane_keeps_list(
    vertices: Seq<Vector3>,
    triangles: Seq<Triangle>,
    plane: Plane,
    k: nat,
)
    requires
        k <= triangles.len(),
        forall|i: int| 0 <= i < triangles.len() ==> wholly_inside(vertices, #[trigger] triangles[i], plane),
    ensures
        clip_plane_upto(vertices, triangles, plane, k) == (vertices, triangles.take(k as int)),
    decreases k,
{
    if k > 0 {
        lemma_clip_plane_keeps_list(vertices, triangles, plane, (k - 1) as nat);
        assert(wholly_inside(vertices, triangles[k - 1], plane));
        assert(triangles.take(k - 1) + seq![triangles[k - 1]] =~= triangles.take(k as int));
    } else {
        assert(triangles.take(0) =~= Seq::<Triangle>::empty());
    }
}

/// An instance whose triangles all lie wholly inside every plane comes out
/// of the clipping with its triangles unchanged, and no vertex is added.
pub proof fn lemma_clip_keeps_inside_list(
    vertices: Seq<Vector3>,
    triangles: Seq<Triangle>,
    planes: Seq<Plane>,
    k: nat,
)
    requires
        k <= planes.len(),
        forall|j: int, i: int|
            0 <= j < k && 0 <= i < triangles.len() ==> wholly_inside(
                vertices,
                #[trigger] triangles[i],
                #[trigger] planes[j],
            ),
    ensures
        clip_planes_upto(vertices, triangles, planes, k) == (vertices, triangles),
    decreases k,
{
    if k > 0 {
        lemma_clip_keeps_inside_list(vertices, triangles, planes, (k - 1) as nat);
        let plane = planes[k - 1];
        assert forall|i: int| 0 <= i < triangles.len() implies wholly_inside(
            vertices,
            #[trigger] triangles[i],
            plane,
        ) by {
            assert(wholly_inside(vertices, triangles[i], planes[k - 1]));
        }
        lemma_clip_plane_keeps_list(vertices, triangles, plane, triangles.len());
        assert(triangles.take(triangles.len() as int) =~= triangles);
    }
}

} // verus!
